//! Semantic bands for sizes and shares, and their terminal colours.

use vstd::prelude::*;
use owo_colors::{AnsiColors, OwoColorize};
use crate::units::{human_readable, magnitude, size_text};

verus! {

/// Five ordered classes, from the smallest sizes or shares to the largest.
#[derive(Clone, Copy, Debug, PartialEq, Eq, Structural)]
pub enum Band {
    Tiny,
    Small,
    Medium,
    Large,
    Huge,
}

/// Foreground colours used to tell the bands apart.
#[derive(Clone, Copy, Debug, PartialEq, Eq, Structural)]
pub enum Hue {
    White,
    Green,
    Blue,
    Yellow,
    Red,
}

/// The band of a magnitude index: 0 is tiny, 4 and above are huge.
pub open spec fn band_of_index(k: nat) -> Band {
    if k == 0 {
        Band::Tiny
    } else if k == 1 {
        Band::Small
    } else if k == 2 {
        Band::Medium
    } else if k == 3 {
        Band::Large
    } else {
        Band::Huge
    }
}

/// The colour shown for a band.
pub open spec fn hue_of(b: Band) -> Hue {
    match b {
        Band::Tiny => Hue::White,
        Band::Small => Hue::Green,
        Band::Medium => Hue::Blue,
        Band::Large => Hue::Yellow,
        Band::Huge => Hue::Red,
    }
}

/// The ANSI escape sequence that selects the foreground colour `h`.
pub open spec fn ansi_fg(h: Hue) -> Seq<char> {
    let code = match h {
        Hue::Red => '1',
        Hue::Green => '2',
        Hue::Yellow => '3',
        Hue::Blue => '4',
        Hue::White => '7',
    };
    seq!['\x1b', '[', '3', code, 'm']
}

/// The ANSI escape sequence that restores the default foreground colour.
pub open spec fn ansi_fg_reset() -> Seq<char> {
    seq!['\x1b', '[', '3', '9', 'm']
}

/// `text` shown in the foreground colour `h`.
pub open spec fn painted(h: Hue, text: Seq<char>) -> Seq<char> {
    ansi_fg(h) + text + ansi_fg_reset()
}

/// Relies on owo_colors' `OwoColorize::color` with an `AnsiColors` value,
/// displayed through `to_string`: it writes the colour's escape sequence,
/// the text, then the escape that resets the foreground colour.
#[verifier::external_body]
pub(crate) fn paint(text: &str, hue: Hue) -> (r: String)
    ensures
        r@ == painted(hue, text@),
{
    let color = match hue {
        Hue::White => AnsiColors::White,
        Hue::Green => AnsiColors::Green,
        Hue::Blue => AnsiColors::Blue,
        Hue::Yellow => AnsiColors::Yellow,
        Hue::Red => AnsiColors::Red,
    };
    text.color(color).to_string()
}

/// The band of a magnitude index.
pub fn size_band(index: usize) -> (r: Band)
    ensures
        r == band_of_index(index as nat),
{
    if index == 0 {
        Band::Tiny
    } else if index == 1 {
        Band::Small
    } else if index == 2 {
        Band::Medium
    } else if index == 3 {
        Band::Large
    } else {
        Band::Huge
    }
}

/// The colour shown for a band.
pub fn band_hue(band: Band) -> (r: Hue)
    ensures
        r == hue_of(band),
{
    match band {
        Band::Tiny => Hue::White,
        Band::Small => Hue::Green,
        Band::Medium => Hue::Blue,
        Band::Large => Hue::Yellow,
        Band::Huge => Hue::Red,
    }
}

/// Shows `text` in the colour of `band`.
pub fn paint_band(text: &str, band: Band) -> (r: String)
    ensures
        r@ == painted(hue_of(band), text@),
{
    paint(text, band_hue(band))
}

/// The human-readable text of `size` bytes, coloured by its magnitude band.
pub fn colorize_by_size(size: u64) -> (r: String)
    ensures
        r@ == painted(hue_of(band_of_index(magnitude(size as nat))), size_text(size as nat)),
{
    let (human_size, unit_index) = human_readable(size);
    paint_band(human_size.as_str(), size_band(unit_index))
}

} // verus!

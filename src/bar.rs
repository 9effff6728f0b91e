//! Proportional bars for a share `part / whole` of a total.

use vstd::prelude::*;
use crate::paint::{hue_of, paint_band, painted, Band};
use crate::text::{decimal, digit_char, push_decimal, push_digit, push_repeated, repeat_char};
use crate::units::{div_round_half_even, round_half_even};

verus! {

/// Number of slots of the bar shown for each entry of a report.
pub const BAR_LENGTH: usize = 20;

/// Width of the percentage figure printed after a bar.
pub const PERCENT_WIDTH: usize = 5;

/// `a / b` rounded to the nearest integer, halves away from zero.
pub open spec fn round_half_up(a: nat, b: nat) -> nat
    recommends
        b > 0,
{
    if 2 * (a % b) >= b {
        a / b + 1
    } else {
        a / b
    }
}

/// Filled slots of a bar of `width` slots for the share `part / whole`:
/// the share of `width` rounded, at most `width`; none when `whole` is 0.
pub open spec fn filled_slots(part: nat, whole: nat, width: nat) -> nat {
    if whole == 0 {
        0
    } else {
        let f = round_half_up(part * width, whole);
        if f > width {
            width
        } else {
            f
        }
    }
}

/// The share `part / whole` in tenths of a percent, rounded; 0 when `whole` is 0.
pub open spec fn percent_tenths(part: nat, whole: nat) -> nat {
    if whole == 0 {
        0
    } else {
        round_half_even(part * 1000, whole)
    }
}

/// Band of the share `part / whole`: below 20% tiny, below 40% small,
/// below 60% medium, below 80% large, else huge. A zero `whole` is a 0% share.
pub open spec fn percent_band(part: nat, whole: nat) -> Band {
    if whole == 0 || part * 100 < 20 * whole {
        Band::Tiny
    } else if part * 100 < 40 * whole {
        Band::Small
    } else if part * 100 < 60 * whole {
        Band::Medium
    } else if part * 100 < 80 * whole {
        Band::Large
    } else {
        Band::Huge
    }
}

/// `s` right-aligned in a field of `w` characters.
pub open spec fn pad_left(s: Seq<char>, w: nat) -> Seq<char> {
    if s.len() < w {
        repeat_char(' ', (w - s.len()) as nat) + s
    } else {
        s
    }
}

/// A percentage given in tenths, with one decimal place, right-aligned in a
/// field of five characters and followed by `%` (` 50.0%`).
pub open spec fn percent_text(t: nat) -> Seq<char> {
    pad_left(decimal(t / 10) + seq!['.', digit_char(t % 10)], PERCENT_WIDTH as nat) + seq!['%']
}

/// The bar for the share `part / whole`: `[`, the filled slots as `#`, the
/// empty ones as `.`, `] ` and the percentage.
pub open spec fn bar_text(part: nat, whole: nat, width: nat) -> Seq<char> {
    let f = filled_slots(part, whole, width);
    seq!['['] + repeat_char('#', f) + repeat_char('.', (width - f) as nat) + seq![']', ' ']
        + percent_text(percent_tenths(part, whole))
}

/// A bar never has more filled slots than it has slots.
pub proof fn lemma_filled_within_width(part: nat, whole: nat, width: nat)
    ensures
        filled_slots(part, whole, width) <= width,
{
}

/// Against a zero total every share is 0%, in the lowest band, with no slot filled.
pub proof fn lemma_zero_whole(part: nat, width: nat)
    ensures
        percent_tenths(part, 0) == 0,
        filled_slots(part, 0, width) == 0,
        percent_band(part, 0) == Band::Tiny,
        bar_text(part, 0, width) == seq!['['] + repeat_char('.', width) + seq![']', ' ']
            + seq![' ', ' ', '0', '.', '0', '%'],
{
    reveal_with_fuel(decimal, 2);
    assert(repeat_char('#', 0) =~= Seq::<char>::empty());
    assert(repeat_char(' ', 2) =~= seq![' ', ' ']);
    assert(percent_text(0) =~= seq![' ', ' ', '0', '.', '0', '%']);
    assert(bar_text(part, 0, width) =~= seq!['['] + repeat_char('.', width) + seq![']', ' ']
        + seq![' ', ' ', '0', '.', '0', '%']);
}

/// A share of at most the whole is at most 100.0%.
pub proof fn lemma_share_at_most_hundred(part: nat, whole: nat)
    requires
        part <= whole,
    ensures
        percent_tenths(part, whole) <= 1000,
{
    if whole > 0 {
        let a = part * 1000;
        assert(a <= whole * 1000) by (nonlinear_arith)
            requires
                part <= whole,
                a == part * 1000,
        ;
        let q = a / whole;
        let r = a % whole;
        assert(a == q * whole + r && 0 <= r < whole) by (nonlinear_arith)
            requires
                whole > 0,
                q == a / whole,
                r == a % whole,
        ;
        assert(q <= 1000) by (nonlinear_arith)
            requires
                a == q * whole + r,
                r >= 0,
                a <= whole * 1000,
                whole > 0,
        ;
        if q == 1000 {
            assert(r == 0) by (nonlinear_arith)
                requires
                    a == q * whole + r,
                    q == 1000,
                    a <= whole * 1000,
                    r >= 0,
            ;
        }
    }
}

/// `a / b` rounded half up.
fn div_round_half_up(a: u128, b: u128) -> (r: u128)
    requires
        b > 0,
        a < 0xffff_ffff_ffff_ffff_ffff_ffff_ffff_ffff,
    ensures
        r as nat == round_half_up(a as nat, b as nat),
{
    let q = a / b;
    let rem = a % b;
    assert(q <= a) by (nonlinear_arith)
        requires
            q == a / b,
            b >= 1,
    ;
    if rem >= b - rem {
        q + 1
    } else {
        q
    }
}

/// Filled slots of a bar of `width` slots for the share `part / whole`.
pub fn bar_fill(part: u64, whole: u64, width: usize) -> (r: usize)
    ensures
        r as nat == filled_slots(part as nat, whole as nat, width as nat),
        r <= width,
{
    if whole == 0 {
        return 0;
    }
    assert((part as int) * (width as int) < 0xffff_ffff_ffff_ffff_ffff_ffff_ffff_ffff)
        by (nonlinear_arith)
        requires
            0 <= part <= 0xffff_ffff_ffff_ffff,
            0 <= width <= 0xffff_ffff_ffff_ffff,
    ;
    let a: u128 = (part as u128) * (width as u128);
    let f = div_round_half_up(a, whole as u128);
    if f > width as u128 {
        width
    } else {
        f as usize
    }
}

/// The share `part / whole` in tenths of a percent.
pub fn percent_tenths_of(part: u64, whole: u64) -> (r: u128)
    ensures
        r as nat == percent_tenths(part as nat, whole as nat),
{
    if whole == 0 {
        0
    } else {
        div_round_half_even((part as u128) * 1000, whole as u128)
    }
}

/// The band of the share `part / whole`.
pub fn share_band(part: u64, whole: u64) -> (r: Band)
    ensures
        r == percent_band(part as nat, whole as nat),
{
    let p: u128 = (part as u128) * 100;
    let w: u128 = whole as u128;
    if whole == 0 || p < 20 * w {
        Band::Tiny
    } else if p < 40 * w {
        Band::Small
    } else if p < 60 * w {
        Band::Medium
    } else if p < 80 * w {
        Band::Large
    } else {
        Band::Huge
    }
}

/// Appends a percentage given in tenths, as `percent_text` writes it.
fn push_percent(s: &mut String, t: u128)
    ensures
        final(s)@ == old(s)@ + percent_text(t as nat),
{
    proof {
        reveal_strlit(".");
        reveal_strlit(" ");
        reveal_strlit("%");
    }
    let mut figure = String::new();
    push_decimal(&mut figure, t / 10);
    figure.append(".");
    push_digit(&mut figure, t % 10);
    assert(figure@ =~= decimal((t / 10) as nat) + seq!['.', digit_char((t % 10) as nat)]);
    let len = figure.as_str().unicode_len();
    if len < PERCENT_WIDTH {
        push_repeated(s, " ", PERCENT_WIDTH - len);
    }
    s.append(figure.as_str());
    s.append("%");
    assert(final(s)@ =~= old(s)@ + percent_text(t as nat));
}

/// The bar of `width` slots for the share `part / whole`, followed by the
/// percentage, in the colour of the share's band.
pub fn format_percentage_bar(part: u64, whole: u64, width: usize) -> (r: String)
    ensures
        r@ == painted(
            hue_of(percent_band(part as nat, whole as nat)),
            bar_text(part as nat, whole as nat, width as nat),
        ),
{
    proof {
        reveal_strlit("[");
        reveal_strlit("#");
        reveal_strlit(".");
        reveal_strlit("] ");
    }
    let filled = bar_fill(part, whole, width);
    let mut bar = String::new();
    bar.append("[");
    push_repeated(&mut bar, "#", filled);
    push_repeated(&mut bar, ".", width - filled);
    bar.append("] ");
    push_percent(&mut bar, percent_tenths_of(part, whole));
    assert(bar@ =~= bar_text(part as nat, whole as nat, width as nat));
    paint_band(bar.as_str(), share_band(part, whole))
}

} // verus!

//! Scaling a byte count into the unit ladder B, KB, MB, GB, TB.

use vstd::prelude::*;
use crate::text::{decimal, digit_char, push_decimal, push_digit};

verus! {

/// Number of units on the ladder (B, KB, MB, GB, TB).
pub const UNIT_COUNT: usize = 5;

/// `1024` to the power `k`: the number of bytes in one unit of index `k`.
pub open spec fn unit_bytes(k: nat) -> nat
    decreases k,
{
    if k == 0 {
        1
    } else {
        1024 * unit_bytes((k - 1) as nat)
    }
}

/// Magnitude index of a byte count: the largest unit index `k <= 4`
/// with `1024^k <= n`, or 0 when `n < 1024`.
pub open spec fn magnitude(n: nat) -> nat {
    if n < 1024 {
        0
    } else if n < 1048576 {
        1
    } else if n < 1073741824 {
        2
    } else if n < 1099511627776 {
        3
    } else {
        4
    }
}

/// `a / b` rounded to the nearest integer, ties to the even neighbour.
pub open spec fn round_half_even(a: nat, b: nat) -> nat
    recommends
        b > 0,
{
    let q = a / b;
    let r = a % b;
    if 2 * r > b || (2 * r == b && q % 2 == 1) {
        q + 1
    } else {
        q
    }
}

/// The scaled value of `n` bytes in hundredths of its unit, rounded.
pub open spec fn scaled_hundredths(n: nat) -> nat {
    round_half_even(n * 100, unit_bytes(magnitude(n)))
}

/// Label of the unit of index `k`.
pub open spec fn unit_label(k: nat) -> Seq<char> {
    if k == 0 {
        seq!['B']
    } else if k == 1 {
        seq!['K', 'B']
    } else if k == 2 {
        seq!['M', 'B']
    } else if k == 3 {
        seq!['G', 'B']
    } else {
        seq!['T', 'B']
    }
}

/// Text of `h` hundredths with two decimal places, as `12.34`.
pub open spec fn two_places(h: nat) -> Seq<char> {
    decimal(h / 100) + seq!['.', digit_char((h % 100) / 10), digit_char(h % 10)]
}

/// Human-readable text of `n` bytes: the scaled value with two decimal places,
/// a space and the unit label (`1.00 KB`).
pub open spec fn size_text(n: nat) -> Seq<char> {
    two_places(scaled_hundredths(n)) + seq![' '] + unit_label(magnitude(n))
}

/// Raising the byte count never lowers its magnitude index, and the index
/// never passes that of the last unit.
pub proof fn lemma_magnitude_monotonic(a: nat, b: nat)
    requires
        a <= b,
    ensures
        magnitude(a) <= magnitude(b),
        magnitude(b) <= 4,
        magnitude(b) < UNIT_COUNT,
{
}

/// Every count of at least `1024^4` bytes has the magnitude index of TB.
pub proof fn lemma_magnitude_clamped(n: nat)
    requires
        n >= unit_bytes(4),
    ensures
        magnitude(n) == 4,
{
    reveal_with_fuel(unit_bytes, 5);
}

/// The magnitude index of a byte count.
pub fn magnitude_index(size: u64) -> (r: usize)
    ensures
        r as nat == magnitude(size as nat),
        r < UNIT_COUNT,
{
    if size < 1024 {
        0
    } else if size < 1048576 {
        1
    } else if size < 1073741824 {
        2
    } else if size < 1099511627776 {
        3
    } else {
        4
    }
}

/// Bytes in one unit of index `k`.
fn unit_divisor(k: usize) -> (r: u128)
    requires
        k < UNIT_COUNT,
    ensures
        r as nat == unit_bytes(k as nat),
        r > 0,
{
    reveal_with_fuel(unit_bytes, 5);
    if k == 0 {
        1
    } else if k == 1 {
        1024
    } else if k == 2 {
        1048576
    } else if k == 3 {
        1073741824
    } else {
        1099511627776
    }
}

/// Appends the label of unit `k` to `s`.
fn push_unit_label(s: &mut String, k: usize)
    requires
        k < UNIT_COUNT,
    ensures
        final(s)@ == old(s)@ + unit_label(k as nat),
{
    proof {
        reveal_strlit("B");
        reveal_strlit("KB");
        reveal_strlit("MB");
        reveal_strlit("GB");
        reveal_strlit("TB");
    }
    let label = if k == 0 {
        "B"
    } else if k == 1 {
        "KB"
    } else if k == 2 {
        "MB"
    } else if k == 3 {
        "GB"
    } else {
        "TB"
    };
    s.append(label);
    assert(final(s)@ =~= old(s)@ + unit_label(k as nat));
}

/// `a / b` rounded half to even.
pub fn div_round_half_even(a: u128, b: u128) -> (r: u128)
    requires
        b > 0,
        a < 0xffff_ffff_ffff_ffff_ffff_ffff_ffff_ffff,
    ensures
        r as nat == round_half_even(a as nat, b as nat),
{
    let q = a / b;
    let rem = a % b;
    assert(q <= a) by (nonlinear_arith)
        requires
            q == a / b,
            b >= 1,
    ;
    if rem > b - rem || (rem == b - rem && q % 2 == 1) {
        q + 1
    } else {
        q
    }
}

/// Appends `h` hundredths written with two decimal places to `s`.
pub fn push_two_places(s: &mut String, h: u128)
    ensures
        final(s)@ == old(s)@ + two_places(h as nat),
{
    push_decimal(s, h / 100);
    s.append(".");
    push_digit(s, (h % 100) / 10);
    push_digit(s, h % 10);
    proof {
        reveal_strlit(".");
    }
    assert(final(s)@ =~= old(s)@ + two_places(h as nat));
}

/// Scales a byte count into the unit ladder: the text of the scaled value with
/// two decimal places and the unit label, and the unit's magnitude index.
pub fn human_readable(size: u64) -> (r: (String, usize))
    ensures
        r.0@ == size_text(size as nat),
        r.1 as nat == magnitude(size as nat),
        r.1 < UNIT_COUNT,
{
    let k = magnitude_index(size);
    let d = unit_divisor(k);
    let scaled: u128 = (size as u128) * 100;
    let h = div_round_half_even(scaled, d);
    let mut s = String::new();
    push_two_places(&mut s, h);
    s.append(" ");
    push_unit_label(&mut s, k);
    proof {
        reveal_strlit(" ");
    }
    assert(s@ =~= size_text(size as nat));
    (s, k)
}

} // verus!

//! Decimal rendering of unsigned integers, and the rounding rules used when a
//! quantity is shown with a fixed number of fractional digits.

use vstd::prelude::*;

verus! {

/// The character of a decimal digit.
pub open spec fn digit_char(d: nat) -> char {
    ((48 + d) as u32) as char
}

/// The usual decimal representation of `n`, without leading zeros.
pub open spec fn decimal(n: nat) -> Seq<char>
    decreases n,
{
    if n < 10 {
        seq![digit_char(n)]
    } else {
        decimal(n / 10).push(digit_char(n % 10))
    }
}

/// `n / d` rounded to the nearest integer, ties going to the even neighbour.
pub open spec fn round_div_even(n: nat, d: nat) -> nat
    recommends
        d > 0,
{
    let q = n / d;
    let r = n % d;
    if 2 * r > d || (2 * r == d && q % 2 == 1) {
        q + 1
    } else {
        q
    }
}

/// The character for a digit below ten.
pub fn digit(d: u8) -> (c: char)
    requires
        d < 10,
    ensures
        c == digit_char(d as nat),
{
    (d + 48) as char
}

/// Appends the decimal representation of `n` to `out`.
pub fn write_decimal(out: &mut String, n: u128)
    ensures
        final(out)@ == old(out)@ + decimal(n as nat),
    decreases n,
{
    if n >= 10 {
        write_decimal(out, n / 10);
    }
    let d = (n % 10) as u8;
    crate::text::push_char(out, digit(d));
    assert(old(out)@ + decimal(n as nat) == (if n >= 10 {
        old(out)@ + decimal((n / 10) as nat)
    } else {
        old(out)@
    }).push(digit_char((n % 10) as nat)));
}

/// Computes `round_div_even(n, d)`.
pub fn round_div_even_exec(n: u128, d: u128) -> (q: u128)
    requires
        0 < d < 0x8000_0000_0000_0000_0000_0000_0000_0000,
        n < 0xffff_ffff_ffff_ffff_ffff_ffff_ffff_fff0,
    ensures
        q == round_div_even(n as nat, d as nat),
{
    let q = n / d;
    let r = n % d;
    if 2 * r > d || (2 * r == d && q % 2 == 1) {
        assert(q <= n / 1) by {
            vstd::arithmetic::div_mod::lemma_div_is_ordered_by_denominator(n as int, 1, d as int);
        }
        q + 1
    } else {
        q
    }
}

} // verus!

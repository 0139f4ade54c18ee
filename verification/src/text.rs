//! Display helpers: truncating text at a UTF-8 boundary and rendering byte counts.

use vstd::prelude::*;
use vstd::utf8::*;
use vstd::string::*;
use crate::decimal::{decimal, digit, digit_char, round_div_even, round_div_even_exec, write_decimal};

verus! {

broadcast use vstd::utf8::group_utf8_lib;

/// Wrapper around `String::push`: appends one character.
#[verifier::external_body]
pub(crate) fn push_char(s: &mut String, c: char)
    ensures
        final(s)@ == old(s)@.push(c),
{
    s.push(c);
}

/// Wrapper around `str` equality: equal exactly when the characters are.
#[verifier::external_body]
pub(crate) fn str_equal(a: &str, b: &str) -> (r: bool)
    ensures
        r == (a@ == b@),
{
    a == b
}

/// The byte offset at which a text that is too long is cut: the largest
/// character boundary of `bytes` that is at most `max`.
pub open spec fn is_cut_point(bytes: Seq<u8>, max: int, e: int) -> bool {
    &&& 0 <= e <= max
    &&& is_char_boundary(bytes, e)
    &&& forall|j: int| e < j <= max ==> !is_char_boundary(bytes, j)
}

/// Truncates `text` to at most `max_length` bytes at a character boundary,
/// appending `"..."` when anything was cut.
pub fn truncate_text(text: &str, max_length: usize) -> (r: String)
    ensures
        text.spec_bytes().len() <= max_length ==> r@ == text@,
        text.spec_bytes().len() > max_length ==> exists|e: int|
            #[trigger] is_cut_point(text.spec_bytes(), max_length as int, e) && r@ == decode_utf8(
                text.spec_bytes().subrange(0, e),
            ) + "..."@,
{
    let byte_len = text.as_bytes().len();
    if byte_len <= max_length {
        text.to_owned()
    } else {
        let ghost bytes = text.spec_bytes();
        proof {
            encode_utf8_valid_utf8(text@);
        }
        let mut end = max_length;
        while end > 0 && !text.is_char_boundary(end)
            invariant
                bytes == text.spec_bytes(),
                valid_utf8(bytes),
                end <= max_length < bytes.len(),
                forall|j: int| end < j <= max_length ==> !is_char_boundary(bytes, j),
            decreases end,
        {
            end -= 1;
        }
        proof {
            is_char_boundary_start_end_of_seq(bytes);
        }
        assert(is_char_boundary(bytes, end as int));
        let (head, _tail) = text.split_at(end);
        proof {
            valid_utf8_split(bytes, end as int);
            assert(head.spec_bytes() == bytes.subrange(0, end as int));
            encode_utf8_decode_utf8(head@);
        }
        let mut out = head.to_owned();
        out.append("...");
        assert(head@ == decode_utf8(bytes.subrange(0, end as int)));
        assert(out@ == decode_utf8(bytes.subrange(0, end as int)) + "..."@);
        assert(is_cut_point(bytes, max_length as int, end as int));
        out
    }
}


/// Two to the 53rd: integers below it are exactly representable as `f64`.
pub open spec fn f64_exact_limit() -> nat {
    0x20_0000_0000_0000
}

/// The spacing of `f64` values around `b`: the smallest power of two `p`
/// with `b / p` below two to the 53rd.
pub open spec fn f64_spacing(b: nat) -> nat
    decreases b,
{
    if b < f64_exact_limit() {
        1
    } else {
        2 * f64_spacing(b / 2)
    }
}

/// The value of `b as f64` for a non-negative integer `b`: the multiple of
/// `f64_spacing(b)` nearest to `b`, ties going to the even multiple.
pub open spec fn f64_nearest(b: nat) -> nat {
    round_div_even(b, f64_spacing(b)) * f64_spacing(b)
}

/// The unit a byte count is shown in: the number of times it can be divided
/// by 1024 while staying at least 1024, capped at terabytes.
pub open spec fn unit_index(b: nat) -> nat {
    if b < 1024 {
        0
    } else if b < 0x10_0000 {
        1
    } else if b < 0x4000_0000 {
        2
    } else if b < 0x100_0000_0000 {
        3
    } else {
        4
    }
}

/// 1024 to the power `k`, for the units in use.
pub open spec fn unit_divisor(k: nat) -> nat {
    if k == 0 {
        1
    } else if k == 1 {
        1024
    } else if k == 2 {
        0x10_0000
    } else if k == 3 {
        0x4000_0000
    } else {
        0x100_0000_0000
    }
}

/// The name of unit `k`.
pub open spec fn unit_name(k: nat) -> Seq<char> {
    if k == 0 {
        "B"@
    } else if k == 1 {
        "KB"@
    } else if k == 2 {
        "MB"@
    } else if k == 3 {
        "GB"@
    } else {
        "TB"@
    }
}

/// `n / scale` shown with `decimals` fractional digits (1 or 2), where `n`
/// already counts units of `1 / 10^decimals`.
pub open spec fn fixed_point(n: nat, decimals: nat) -> Seq<char> {
    if decimals == 1 {
        decimal(n / 10) + seq!['.', digit_char(n % 10)]
    } else {
        decimal(n / 100) + seq!['.', digit_char((n / 10) % 10), digit_char(n % 10)]
    }
}

/// How a non-negative byte count is shown with `decimals` fractional digits:
/// whole bytes below 1024, otherwise the `f64` value of the count divided by
/// the unit, rounded half-to-even to `decimals` digits.
pub open spec fn bytes_text(b: nat, decimals: nat) -> Seq<char> {
    let k = unit_index(b);
    let scale: nat = if decimals == 1 { 10 } else { 100 };
    if k == 0 {
        decimal(b) + " "@ + unit_name(k)
    } else {
        fixed_point(round_div_even(scale * f64_nearest(b), unit_divisor(k)), decimals) + " "@ + unit_name(k)
    }
}

/// Computes `f64_nearest(b)`, the integer value that `b as f64` holds.
fn f64_nearest_exec(b: u64) -> (v: u128)
    ensures
        v == f64_nearest(b as nat),
        v <= (b as nat) + 0x2000,
{
    let mut x: u128 = b as u128;
    let mut p: u128 = 1;
    while x >= 0x20_0000_0000_0000
        invariant
            p > 0,
            x == (b as nat) / (p as nat),
            f64_spacing(b as nat) == p * f64_spacing(x as nat),
            p * x <= b,
            p <= 0x2000,
        decreases x,
    {
        proof {
            vstd::arithmetic::div_mod::lemma_div_denominator(b as int, p as int, 2);
            assert(p < 0x1000) by (nonlinear_arith)
                requires
                    p * x <= b,
                    x >= 0x20_0000_0000_0000,
                    b < 0x1_0000_0000_0000_0000,
            ;
            assert((2 * p) * (x / 2) <= p * x) by (nonlinear_arith)
                requires
                    p > 0,
            ;
            assert(p * f64_spacing(x as nat) == (2 * p) * f64_spacing((x / 2) as nat)) by (nonlinear_arith)
                requires
                    f64_spacing(x as nat) == 2 * f64_spacing((x / 2) as nat),
            ;
        }
        x = x / 2;
        p = p * 2;
    }
    assert(f64_spacing(x as nat) == 1);
    let q = round_div_even_exec(b as u128, p);
    proof {
        assert(f64_spacing(b as nat) == p) by (nonlinear_arith)
            requires
                f64_spacing(b as nat) == p * f64_spacing(x as nat),
                f64_spacing(x as nat) == 1,
        ;
        assert(q <= (b as nat) / (p as nat) + 1);
        vstd::arithmetic::div_mod::lemma_fundamental_div_mod(b as int, p as int);
        assert(q * p <= (b as nat) + p) by (nonlinear_arith)
            requires
                q <= (b as nat) / (p as nat) + 1,
                p > 0,
                p * ((b as nat) / (p as nat)) <= b,
        {
        }
    }
    q * p
}

/// Appends the unit name for unit `k`.
fn write_unit(out: &mut String, k: u8)
    requires
        k <= 4,
    ensures
        final(out)@ == old(out)@ + unit_name(k as nat),
{
    if k == 0 {
        out.append("B");
    } else if k == 1 {
        out.append("KB");
    } else if k == 2 {
        out.append("MB");
    } else if k == 3 {
        out.append("GB");
    } else {
        out.append("TB");
    }
}

/// Renders a byte count `b` (non-negative) with `decimals` fractional digits.
fn write_bytes(out: &mut String, b: u64, decimals: u8)
    requires
        decimals == 1 || decimals == 2,
    ensures
        final(out)@ == old(out)@ + bytes_text(b as nat, decimals as nat),
{
    let k: u8 = if b < 1024 {
        0
    } else if b < 0x10_0000 {
        1
    } else if b < 0x4000_0000 {
        2
    } else if b < 0x100_0000_0000 {
        3
    } else {
        4
    };
    let ghost start = out@;
    if k == 0 {
        write_decimal(out, b as u128);
        out.append(" ");
        write_unit(out, k);
        assert(out@ == start + bytes_text(b as nat, decimals as nat));
        return;
    }
    let divisor: u128 = if k == 1 {
        1024
    } else if k == 2 {
        0x10_0000
    } else if k == 3 {
        0x4000_0000
    } else {
        0x100_0000_0000
    };
    let v = f64_nearest_exec(b);
    let scale: u128 = if decimals == 1 { 10 } else { 100 };
    let n = round_div_even_exec(scale * v, divisor);
    if decimals == 1 {
        write_decimal(out, n / 10);
        crate::text::push_char(out, '.');
        crate::text::push_char(out, digit((n % 10) as u8));
    } else {
        write_decimal(out, n / 100);
        crate::text::push_char(out, '.');
        crate::text::push_char(out, digit(((n / 10) % 10) as u8));
        crate::text::push_char(out, digit((n % 10) as u8));
    }
    out.append(" ");
    write_unit(out, k);
    assert(out@ == start + bytes_text(b as nat, decimals as nat));
}

/// Formats a byte count in human-readable form (B, KB, MB, GB, TB) with one
/// fractional digit above 1023 bytes.
pub fn format_bytes(bytes: u64) -> (r: String)
    ensures
        r@ == bytes_text(bytes as nat, 1),
{
    let mut out = String::new();
    write_bytes(&mut out, bytes, 1);
    out
}

/// How a signed byte count is shown with two fractional digits: the
/// magnitude as in `bytes_text`, preceded by `-` when negative.
pub open spec fn signed_bytes_text(b: int) -> Seq<char> {
    if b < 0 {
        seq!['-'] + bytes_text((-b) as nat, 2)
    } else {
        bytes_text(b as nat, 2)
    }
}

/// Formats a signed byte count with two fractional digits, as the space
/// disk-usage summary shows it.
pub fn format_signed_bytes(bytes: i64) -> (r: String)
    requires
        bytes > i64::MIN,
    ensures
        r@ == signed_bytes_text(bytes as int),
{
    let mut out = String::new();
    if bytes < 0 {
        crate::text::push_char(&mut out, '-');
        write_bytes(&mut out, (-bytes) as u64, 2);
    } else {
        write_bytes(&mut out, bytes as u64, 2);
    }
    out
}

/// Law: a byte count is shown in the largest unit that does not exceed it,
/// up to terabytes, so the number shown before the unit is below 1024
/// unless the count is a petabyte or more.
pub proof fn law_unit_is_largest_that_fits(b: nat)
    requires
        b >= 1,
    ensures
        unit_divisor(unit_index(b)) <= b,
        unit_index(b) < 4 ==> b < 1024 * unit_divisor(unit_index(b)),
{
}

/// Law: a negative byte count is shown as its magnitude with a minus sign.
pub proof fn law_negative_counts_mirror_positive(b: int)
    requires
        b > 0,
    ensures
        signed_bytes_text(-b) == seq!['-'] + signed_bytes_text(b),
{
}

} // verus!

//! Colors and the conversion from linear samples to output channels.
//!
//! A linear channel in `[0, 1]` becomes an 8-bit output value by the
//! gamma-2 transform (a square root), a clamp just below one, a scale by
//! 256 and truncation. `write_color` formats the three quantized channels
//! of a pixel as the decimal `"R G B"` line of a plain-text pixel stream;
//! actually printing the line is the caller's part.

use vstd::prelude::*;

use crate::fixed::fmin;
use crate::fixed::fmul;
use crate::fixed::fsqrt;
use crate::fixed::sat;
use crate::fixed::Real;
use crate::fixed::SCALE;
use crate::vec3::Vec3;

verus! {

/// A linear RGB triple; each channel nominally lies in `[0, 1]`.
pub type Color = Vec3;

/// The clamp bound `0.999` in raw units, rounded down.
pub const CLAMP999_RAW: i64 = 1047527;

/// Spec mirror of one channel's quantization: square root for gamma 2
/// (nonpositive channels land on zero, the lower clamp), upper clamp at
/// `0.999`, scale by 256, truncate.
pub open spec fn quantize_channel(c: int) -> int {
    fmul(fmin(fsqrt(c), CLAMP999_RAW as int), sat(256 * (SCALE as int))) / (SCALE as int)
}

/// The character of one decimal digit.
pub open spec fn dec_digit(d: int) -> char {
    if d == 0 {
        '0'
    } else if d == 1 {
        '1'
    } else if d == 2 {
        '2'
    } else if d == 3 {
        '3'
    } else if d == 4 {
        '4'
    } else if d == 5 {
        '5'
    } else if d == 6 {
        '6'
    } else if d == 7 {
        '7'
    } else if d == 8 {
        '8'
    } else {
        '9'
    }
}

/// The decimal digits of a nonnegative integer, most significant first.
pub open spec fn dec_str(n: int) -> Seq<char>
    recommends
        n >= 0,
    decreases n,
{
    if n < 10 {
        seq![dec_digit(n)]
    } else {
        dec_str(n / 10).push(dec_digit(n % 10))
    }
}

/// The `"R G B"` line of one pixel: the three quantized channels in
/// decimal, separated by single spaces.
pub open spec fn color_line(c: Color) -> Seq<char> {
    dec_str(quantize_channel(c.x.raw as int)) + seq![' '] + dec_str(
        quantize_channel(c.y.raw as int),
    ) + seq![' '] + dec_str(quantize_channel(c.z.raw as int))
}

/// Quantize one channel to its 8-bit output value.
fn quantize(c: Real) -> (q: u8)
    ensures
        q as int == quantize_channel(c.raw as int),
        q <= 255,
{
    let g = c.sqrt();
    let clamped = g.min(Real { raw: CLAMP999_RAW });
    let scaled = clamped.mul(Real::from_int(256));
    proof {
        let cl = clamped.raw as int;
        assert(sat(256 * (SCALE as int)) == 268435456);
        assert(cl * 268435456 == (SCALE as int) * (256 * cl)) by (nonlinear_arith);
        vstd::arithmetic::div_mod::lemma_div_multiples_vanish(256 * cl, SCALE as int);
        assert(scaled.raw as int == 256 * cl);
        vstd::arithmetic::div_mod::lemma_multiply_divide_lt(scaled.raw as int, SCALE as int, 256);
        vstd::arithmetic::div_mod::lemma_div_pos_is_pos(scaled.raw as int, SCALE as int);
    }
    ((scaled.raw as u64) / (SCALE as u64)) as u8
}

/// Append one decimal digit.
fn push_digit(s: &mut String, d: u8)
    requires
        d < 10,
    ensures
        final (s)@ == old(s)@ + seq![dec_digit(d as int)],
{
    proof {
        reveal_strlit("0");
        reveal_strlit("1");
        reveal_strlit("2");
        reveal_strlit("3");
        reveal_strlit("4");
        reveal_strlit("5");
        reveal_strlit("6");
        reveal_strlit("7");
        reveal_strlit("8");
        reveal_strlit("9");
    }
    if d == 0 {
        s.append("0");
    } else if d == 1 {
        s.append("1");
    } else if d == 2 {
        s.append("2");
    } else if d == 3 {
        s.append("3");
    } else if d == 4 {
        s.append("4");
    } else if d == 5 {
        s.append("5");
    } else if d == 6 {
        s.append("6");
    } else if d == 7 {
        s.append("7");
    } else if d == 8 {
        s.append("8");
    } else {
        s.append("9");
    }
    proof {
        assert(final (s)@ =~= old(s)@ + seq![dec_digit(d as int)]);
    }
}

/// Append the decimal digits of an 8-bit value.
fn push_u8_decimal(s: &mut String, n: u8)
    ensures
        final (s)@ == old(s)@ + dec_str(n as int),
{
    let hundreds = n / 100;
    let tens = (n / 10) % 10;
    let ones = n % 10;
    proof {
        vstd::arithmetic::div_mod::lemma_mod_division_less_than_divisor(n as int, 10);
        vstd::arithmetic::div_mod::lemma_mod_division_less_than_divisor((n as int) / 10, 10);
        vstd::arithmetic::div_mod::lemma_multiply_divide_lt(n as int, 100, 3);
        vstd::arithmetic::div_mod::lemma_multiply_divide_lt(n as int, 10, 26);
        vstd::arithmetic::div_mod::lemma_div_pos_is_pos(n as int, 10);
        vstd::arithmetic::div_mod::lemma_div_pos_is_pos(n as int, 100);
        vstd::arithmetic::div_mod::lemma_div_denominator(n as int, 10, 10);
    }
    if hundreds > 0 {
        push_digit(s, hundreds);
        push_digit(s, tens);
        push_digit(s, ones);
        proof {
            assert((n as int) / 10 >= 10);
            vstd::arithmetic::div_mod::lemma_small_mod(hundreds as nat, 10);
            assert(dec_str((n as int) / 100) == seq![dec_digit(hundreds as int)]);
            assert(dec_str((n as int) / 10) == seq![dec_digit(hundreds as int)].push(
                dec_digit(tens as int),
            ));
            assert(final (s)@ =~= old(s)@ + dec_str(n as int));
        }
    } else if tens > 0 {
        push_digit(s, tens);
        push_digit(s, ones);
        proof {
            assert(10 <= n < 100);
            vstd::arithmetic::div_mod::lemma_small_mod(((n as nat) / 10) as nat, 10);
            assert(dec_str((n as int) / 10) == seq![dec_digit(tens as int)]);
            assert(final (s)@ =~= old(s)@ + dec_str(n as int));
        }
    } else {
        push_digit(s, ones);
        proof {
            assert(n < 10);
            vstd::arithmetic::div_mod::lemma_small_mod(n as nat, 10);
            assert(final (s)@ =~= old(s)@ + dec_str(n as int));
        }
    }
}

/// Format a `Color` as an `"R G B"` string, using the gamma 2 transform.
pub fn write_color(color: &Color) -> (s: String)
    ensures
        s@ == color_line(*color),
{
    let mut s = String::new();
    push_u8_decimal(&mut s, quantize(color.x));
    proof {
        reveal_strlit(" ");
    }
    s.append(" ");
    push_u8_decimal(&mut s, quantize(color.y));
    s.append(" ");
    push_u8_decimal(&mut s, quantize(color.z));
    proof {
        assert(s@ =~= color_line(*color));
    }
    s
}

} // verus!

//! A saturating fixed-point scalar.
//!
//! `Real` carries a signed 64-bit raw value with `SCALE` (2^20) raw units per
//! whole unit, so the number represented by a raw value `r` is `r / SCALE`.
//! Every operation is total: products and quotients are computed exactly in
//! 128 bits, rounded toward zero, and clamped to the symmetric range
//! `[RAW_MIN, RAW_MAX]`. The symmetric clamp makes negation exact, which the
//! geometric lemmas of the renderer rely on. Each operation's result is
//! pinned by a spec function over the raw integers.

use vstd::prelude::*;

verus! {

/// Raw units per whole unit (20 fractional bits).
pub const SCALE: i64 = 1048576;

/// Greatest representable raw value.
pub const RAW_MAX: i64 = 9223372036854775807;

/// Least representable raw value. The range is symmetric: `RAW_MIN == -RAW_MAX`,
/// one above `i64::MIN`, so that negating any in-range value stays in range.
pub const RAW_MIN: i64 = -9223372036854775807;

/// Clamp a mathematical integer to the representable raw range.
pub open spec fn sat(x: int) -> int {
    if x > RAW_MAX as int {
        RAW_MAX as int
    } else if x < RAW_MIN as int {
        RAW_MIN as int
    } else {
        x
    }
}

/// Division rounded toward zero (the rounding of the underlying machine),
/// defined from Euclidean division on magnitudes.
pub open spec fn tdiv(a: int, b: int) -> int
    recommends
        b != 0,
{
    if a >= 0 && b > 0 {
        a / b
    } else if a < 0 && b > 0 {
        -((-a) / b)
    } else if a >= 0 && b < 0 {
        -(a / (-b))
    } else {
        (-a) / (-b)
    }
}

/// Saturating addition of raw values.
pub open spec fn fadd(a: int, b: int) -> int {
    sat(a + b)
}

/// Saturating subtraction of raw values.
pub open spec fn fsub(a: int, b: int) -> int {
    sat(a - b)
}

/// Saturating negation of a raw value.
pub open spec fn fneg(a: int) -> int {
    sat(-a)
}

/// Fixed-point product of raw values: exact product, rescaled with rounding
/// toward zero, then clamped.
pub open spec fn fmul(a: int, b: int) -> int {
    sat(tdiv(a * b, SCALE as int))
}

/// Fixed-point quotient of raw values: the dividend is prescaled, the
/// quotient rounded toward zero, then clamped.
pub open spec fn fdiv(a: int, b: int) -> int
    recommends
        b != 0,
{
    sat(tdiv(a * (SCALE as int), b))
}

/// The smaller of two raw values.
pub open spec fn fmin(a: int, b: int) -> int {
    if a <= b {
        a
    } else {
        b
    }
}

/// The larger of two raw values.
pub open spec fn fmax(a: int, b: int) -> int {
    if a <= b {
        b
    } else {
        a
    }
}

/// Saturating absolute value of a raw value.
pub open spec fn fabs(a: int) -> int {
    sat(
        if a < 0 {
            -a
        } else {
            a
        },
    )
}

/// `r` is the integer square root of `n`: the greatest integer whose square
/// does not exceed `n`.
pub open spec fn is_isqrt(n: int, r: int) -> bool {
    0 <= r && r * r <= n && n < (r + 1) * (r + 1)
}

/// The integer square root of a nonnegative integer.
pub open spec fn isqrt(n: int) -> int {
    choose|r: int| is_isqrt(n, r)
}

/// Fixed-point square root of a raw value: `sqrt(a / SCALE)` in raw units is
/// `isqrt(a * SCALE)`. Nonpositive inputs map to zero.
pub open spec fn fsqrt(a: int) -> int {
    if a <= 0 {
        0
    } else {
        isqrt(a * (SCALE as int))
    }
}

/// At most one integer is the integer square root of `n`.
pub proof fn lemma_isqrt_unique(n: int, r1: int, r2: int)
    requires
        is_isqrt(n, r1),
        is_isqrt(n, r2),
    ensures
        r1 == r2,
{
    assert(r1 == r2) by (nonlinear_arith)
        requires
            0 <= r1 && r1 * r1 <= n && n < (r1 + 1) * (r1 + 1),
            0 <= r2 && r2 * r2 <= n && n < (r2 + 1) * (r2 + 1),
    ;
}

/// A witness for `is_isqrt(n, r)` identifies `isqrt(n)`.
pub proof fn lemma_isqrt_is(n: int, r: int)
    requires
        is_isqrt(n, r),
    ensures
        isqrt(n) == r,
{
    assert(exists|x: int| is_isqrt(n, x)) by {
        assert(is_isqrt(n, r));
    }
    lemma_isqrt_unique(n, isqrt(n), r);
}

/// Every nonnegative integer has an integer square root.
pub proof fn lemma_isqrt_exists(n: int)
    requires
        n >= 0,
    ensures
        is_isqrt(n, isqrt(n)),
{
    let r = isqrt_witness(n);
    assert(exists|x: int| is_isqrt(n, x)) by {
        assert(is_isqrt(n, r));
    }
}

/// A recursively constructed integer square root, witnessing existence.
proof fn isqrt_witness(n: int) -> (r: int)
    requires
        n >= 0,
    ensures
        is_isqrt(n, r),
    decreases n,
{
    if n == 0 {
        assert(is_isqrt(0, 0)) by {
            assert((0 + 1) * (0 + 1) == 1) by (nonlinear_arith);
        }
        0
    } else {
        let p = isqrt_witness(n - 1);
        if (p + 1) * (p + 1) <= n {
            assert(n < (p + 2) * (p + 2)) by (nonlinear_arith)
                requires
                    0 <= p,
                    n - 1 < (p + 1) * (p + 1),
            ;
            assert((p + 1 + 1) * (p + 1 + 1) == (p + 2) * (p + 2)) by (nonlinear_arith);
            p + 1
        } else {
            p
        }
    }
}

/// The integer square root is monotone.
pub proof fn lemma_isqrt_mono(n1: int, n2: int)
    requires
        0 <= n1 <= n2,
    ensures
        isqrt(n1) <= isqrt(n2),
{
    lemma_isqrt_exists(n1);
    lemma_isqrt_exists(n2);
    let r1 = isqrt(n1);
    let r2 = isqrt(n2);
    if r1 > r2 {
        assert((r2 + 1) * (r2 + 1) <= r1 * r1) by (nonlinear_arith)
            requires
                0 <= r2,
                r2 + 1 <= r1,
        ;
        assert(false);
    }
}

/// The square root of a value no greater than one is no greater than one.
pub proof fn lemma_fsqrt_le_one(a: int)
    requires
        a <= SCALE,
    ensures
        fsqrt(a) <= SCALE,
{
    if a > 0 {
        assert(a * (SCALE as int) <= (SCALE as int) * (SCALE as int)) by (nonlinear_arith)
            requires
                0 < a <= SCALE,
        ;
        lemma_isqrt_mono(a * (SCALE as int), (SCALE as int) * (SCALE as int));
        assert(is_isqrt((SCALE as int) * (SCALE as int), SCALE as int)) by (nonlinear_arith);
        lemma_isqrt_is((SCALE as int) * (SCALE as int), SCALE as int);
    }
}

/// The fixed-point square root is monotone.
pub proof fn lemma_fsqrt_mono(a: int, b: int)
    requires
        a <= b,
    ensures
        fsqrt(a) <= fsqrt(b),
{
    if a > 0 {
        assert(a * (SCALE as int) <= b * (SCALE as int)) by (nonlinear_arith)
            requires
                a <= b,
        ;
        assert(a * (SCALE as int) >= 0) by (nonlinear_arith)
            requires
                a > 0,
        ;
        lemma_isqrt_mono(a * (SCALE as int), b * (SCALE as int));
    } else if b > 0 {
        lemma_isqrt_exists(b * (SCALE as int));
        assert(b * (SCALE as int) >= 0) by (nonlinear_arith)
            requires
                b > 0,
        ;
    }
}

/// The root of a rescaled square rounds down: `fsqrt(fmul(a, a)) <= a`.
pub proof fn lemma_fsqrt_of_square(a: int)
    requires
        0 <= a,
    ensures
        fsqrt(fmul(a, a)) <= a,
{
    assert(a * a >= 0) by (nonlinear_arith);
    vstd::arithmetic::div_mod::lemma_div_pos_is_pos(a * a, SCALE as int);
    let q = (a * a) / (SCALE as int);
    let m = fmul(a, a);
    vstd::arithmetic::div_mod::lemma_fundamental_div_mod(a * a, SCALE as int);
    vstd::arithmetic::div_mod::lemma_mod_division_less_than_divisor(a * a, SCALE as int);
    assert(q * (SCALE as int) <= a * a);
    if m > 0 {
        assert(m * (SCALE as int) <= q * (SCALE as int)) by (nonlinear_arith)
            requires
                m <= q,
        ;
        assert(m * (SCALE as int) >= 0) by (nonlinear_arith)
            requires
                m > 0,
        ;
        lemma_isqrt_mono(m * (SCALE as int), a * a);
        assert(is_isqrt(a * a, a)) by (nonlinear_arith)
            requires
                0 <= a,
        ;
        lemma_isqrt_is(a * a, a);
    }
}

/// The fixed-point square root of a positive value is positive.
pub proof fn lemma_fsqrt_pos(a: int)
    requires
        a > 0,
    ensures
        fsqrt(a) > 0,
{
    assert(a * (SCALE as int) >= SCALE as int) by (nonlinear_arith)
        requires
            a >= 1,
    ;
    let n = a * (SCALE as int);
    lemma_isqrt_exists(n);
    let r = isqrt(n);
    if r == 0 {
        assert(n < (0 + 1) * (0 + 1));
        assert(false);
    }
}

/// The fixed-point square root is never negative.
pub proof fn lemma_fsqrt_nonneg(a: int)
    ensures
        fsqrt(a) >= 0,
{
    if a > 0 {
        lemma_fsqrt_pos(a);
    }
}

/// Multiplying by one is exact: `fmul(SCALE, x) == x` for representable `x`.
pub proof fn lemma_fmul_one(x: int)
    requires
        RAW_MIN <= x <= RAW_MAX,
    ensures
        fmul(SCALE as int, x) == x,
{
    if x >= 0 {
        vstd::arithmetic::div_mod::lemma_div_multiples_vanish(x, SCALE as int);
        assert((SCALE as int) * x == x * (SCALE as int)) by (nonlinear_arith);
    } else {
        vstd::arithmetic::div_mod::lemma_div_multiples_vanish(-x, SCALE as int);
        assert(-((SCALE as int) * x) == (-x) * (SCALE as int)) by (nonlinear_arith);
    }
}

/// Dividing by one is exact: `fdiv(x, SCALE) == x` for representable `x`.
pub proof fn lemma_fdiv_one(x: int)
    requires
        RAW_MIN <= x <= RAW_MAX,
    ensures
        fdiv(x, SCALE as int) == x,
{
    if x >= 0 {
        vstd::arithmetic::div_mod::lemma_div_multiples_vanish(x, SCALE as int);
        assert(x * (SCALE as int) == (SCALE as int) * x) by (nonlinear_arith);
    } else {
        vstd::arithmetic::div_mod::lemma_div_multiples_vanish(-x, SCALE as int);
        assert(-(x * (SCALE as int)) == (SCALE as int) * (-x)) by (nonlinear_arith);
    }
}

/// The square root of one is one: `fsqrt(SCALE) == SCALE`.
pub proof fn lemma_fsqrt_one()
    ensures
        fsqrt(SCALE as int) == SCALE as int,
{
    assert(is_isqrt((SCALE as int) * (SCALE as int), SCALE as int)) by (nonlinear_arith);
    lemma_isqrt_is((SCALE as int) * (SCALE as int), SCALE as int);
}

/// A fixed-point number: the value represented is `raw / SCALE`.
#[derive(Clone, Copy, PartialEq, Eq, Structural, Debug)]
pub struct Real {
    pub raw: i64,
}

/// Clamp an exact 128-bit intermediate to the representable raw range.
fn sat_i128(x: i128) -> (r: i64)
    ensures
        r as int == sat(x as int),
{
    if x > RAW_MAX as i128 {
        RAW_MAX
    } else if x < RAW_MIN as i128 {
        RAW_MIN
    } else {
        x as i64
    }
}

/// 128-bit division rounded toward zero, via Euclidean division on magnitudes.
fn tdiv_i128(a: i128, b: i128) -> (r: i128)
    requires
        b > 0,
        a > i128::MIN,
    ensures
        r as int == tdiv(a as int, b as int),
{
    if a >= 0 {
        let q: u128 = (a as u128) / (b as u128);
        proof {
            vstd::arithmetic::div_mod::lemma_div_nonincreasing(a as int, b as int);
            vstd::arithmetic::div_mod::lemma_div_pos_is_pos(a as int, b as int);
        }
        q as i128
    } else {
        let m: u128 = (-a) as u128;
        let q: u128 = m / (b as u128);
        proof {
            vstd::arithmetic::div_mod::lemma_div_nonincreasing(m as int, b as int);
            vstd::arithmetic::div_mod::lemma_div_pos_is_pos(m as int, b as int);
        }
        -(q as i128)
    }
}

impl Real {
    /// The number with the given raw value.
    pub fn from_raw(raw: i64) -> (r: Real)
        ensures
            r.raw == raw,
    {
        Real { raw }
    }

    /// The whole number `i`, saturated to the representable range.
    pub fn from_int(i: i64) -> (r: Real)
        ensures
            r.raw as int == sat(i * (SCALE as int)),
    {
        proof {
            assert(-0x80000000000000000000000 < (i as int) * (SCALE as int)
                < 0x80000000000000000000000) by (nonlinear_arith)
                requires
                    i64::MIN <= i <= i64::MAX,
            ;
        }
        let wide: i128 = (i as i128) * (SCALE as i128);
        Real { raw: sat_i128(wide) }
    }

    /// Zero.
    pub fn zero() -> (r: Real)
        ensures
            r.raw == 0,
    {
        Real { raw: 0 }
    }

    /// One.
    pub fn one() -> (r: Real)
        ensures
            r.raw == SCALE,
    {
        Real { raw: SCALE }
    }

    /// Saturating addition.
    pub fn add(self, rhs: Real) -> (r: Real)
        ensures
            r.raw as int == fadd(self.raw as int, rhs.raw as int),
    {
        let wide: i128 = (self.raw as i128) + (rhs.raw as i128);
        Real { raw: sat_i128(wide) }
    }

    /// Saturating subtraction.
    pub fn sub(self, rhs: Real) -> (r: Real)
        ensures
            r.raw as int == fsub(self.raw as int, rhs.raw as int),
    {
        let wide: i128 = (self.raw as i128) - (rhs.raw as i128);
        Real { raw: sat_i128(wide) }
    }

    /// Saturating negation.
    pub fn neg(self) -> (r: Real)
        ensures
            r.raw as int == fneg(self.raw as int),
    {
        let wide: i128 = -(self.raw as i128);
        Real { raw: sat_i128(wide) }
    }

    /// Fixed-point multiplication, rounded toward zero and saturated.
    pub fn mul(self, rhs: Real) -> (r: Real)
        ensures
            r.raw as int == fmul(self.raw as int, rhs.raw as int),
    {
        proof {
            assert((self.raw as int) * (rhs.raw as int) <= i128::MAX as int && (self.raw as int)
                * (rhs.raw as int) > i128::MIN as int) by (nonlinear_arith)
                requires
                    i64::MIN <= self.raw <= i64::MAX,
                    i64::MIN <= rhs.raw <= i64::MAX,
            ;
        }
        let wide: i128 = (self.raw as i128) * (rhs.raw as i128);
        let q: i128 = tdiv_i128(wide, SCALE as i128);
        Real { raw: sat_i128(q) }
    }

    /// Fixed-point division, rounded toward zero and saturated.
    /// The divisor must be nonzero; every caller either tests for zero or
    /// holds a positive lower bound by construction.
    pub fn div(self, rhs: Real) -> (r: Real)
        requires
            rhs.raw != 0,
        ensures
            r.raw as int == fdiv(self.raw as int, rhs.raw as int),
    {
        proof {
            assert(-0x80000000000000000000000 < (self.raw as int) * (SCALE as int)
                < 0x80000000000000000000000) by (nonlinear_arith)
                requires
                    i64::MIN <= self.raw <= i64::MAX,
            ;
        }
        let wide: i128 = (self.raw as i128) * (SCALE as i128);
        let (num, den) = if rhs.raw > 0 {
            (wide, rhs.raw as i128)
        } else {
            (-wide, -(rhs.raw as i128))
        };
        let q: i128 = tdiv_i128(num, den);
        proof {
            lemma_tdiv_neg_both(wide as int, rhs.raw as int);
        }
        Real { raw: sat_i128(q) }
    }

    /// Fixed-point square root: zero on nonpositive inputs, otherwise the
    /// integer square root of the prescaled raw value.
    pub fn sqrt(self) -> (r: Real)
        ensures
            r.raw as int == fsqrt(self.raw as int),
            r.raw >= 0,
    {
        if self.raw <= 0 {
            Real { raw: 0 }
        } else {
            let n: u128 = (self.raw as u128) * (SCALE as u128);
            let root: u128 = isqrt_u128(n);
            proof {
                lemma_isqrt_is(n as int, root as int);
                assert((root as int) < 0x40000000000) by (nonlinear_arith)
                    requires
                        (root as int) * (root as int) <= (n as int),
                        (n as int) < 0x1000000000000000000000,
                ;
            }
            Real { raw: root as i64 }
        }
    }

    /// The smaller of two numbers.
    pub fn min(self, rhs: Real) -> (r: Real)
        ensures
            r.raw as int == fmin(self.raw as int, rhs.raw as int),
    {
        if self.raw <= rhs.raw {
            self
        } else {
            rhs
        }
    }

    /// The larger of two numbers.
    pub fn max(self, rhs: Real) -> (r: Real)
        ensures
            r.raw as int == fmax(self.raw as int, rhs.raw as int),
    {
        if self.raw <= rhs.raw {
            rhs
        } else {
            self
        }
    }

    /// Saturating absolute value.
    pub fn abs(self) -> (r: Real)
        ensures
            r.raw as int == fabs(self.raw as int),
    {
        if self.raw < 0 {
            self.neg()
        } else {
            self
        }
    }

    /// Strictly less than.
    pub fn lt(self, rhs: Real) -> (r: bool)
        ensures
            r == (self.raw < rhs.raw),
    {
        self.raw < rhs.raw
    }

    /// Less than or equal.
    pub fn le(self, rhs: Real) -> (r: bool)
        ensures
            r == (self.raw <= rhs.raw),
    {
        self.raw <= rhs.raw
    }
}

/// Truncating division by a positive divisor is monotone in the dividend.
pub proof fn lemma_tdiv_mono(x: int, y: int, b: int)
    requires
        x <= y,
        b > 0,
    ensures
        tdiv(x, b) <= tdiv(y, b),
{
    if x >= 0 {
        vstd::arithmetic::div_mod::lemma_div_is_ordered(x, y, b);
    } else if y >= 0 {
        vstd::arithmetic::div_mod::lemma_div_pos_is_pos(-x, b);
        vstd::arithmetic::div_mod::lemma_div_pos_is_pos(y, b);
    } else {
        vstd::arithmetic::div_mod::lemma_div_is_ordered(-y, -x, b);
    }
}

/// Fixed-point division by a positive divisor is monotone in the dividend.
pub proof fn lemma_fdiv_mono(x: int, y: int, b: int)
    requires
        x <= y,
        b > 0,
    ensures
        fdiv(x, b) <= fdiv(y, b),
{
    lemma_tdiv_mono(x * (SCALE as int), y * (SCALE as int), b);
}

/// Multiplication by a nonnegative factor is monotone in the other factor.
pub proof fn lemma_fmul_mono_right(a: int, x: int, y: int)
    requires
        a >= 0,
        x <= y,
    ensures
        fmul(a, x) <= fmul(a, y),
{
    assert(a * x <= a * y) by (nonlinear_arith)
        requires
            a >= 0,
            x <= y,
    ;
    lemma_tdiv_mono(a * x, a * y, SCALE as int);
}

/// A product of factors in `[0, 1]` stays in `[0, 1]`, and under either
/// factor.
pub proof fn lemma_fmul_unit(x: int, y: int)
    requires
        0 <= x <= SCALE,
        0 <= y <= SCALE,
    ensures
        0 <= fmul(x, y),
        fmul(x, y) <= x,
        fmul(x, y) <= y,
{
    assert(x * y >= 0) by (nonlinear_arith)
        requires
            x >= 0,
            y >= 0,
    ;
    vstd::arithmetic::div_mod::lemma_div_pos_is_pos(x * y, SCALE as int);
    assert(x * y <= (SCALE as int) * x) by (nonlinear_arith)
        requires
            0 <= x,
            y <= SCALE,
    ;
    assert(x * y <= (SCALE as int) * y) by (nonlinear_arith)
        requires
            0 <= y,
            x <= SCALE,
    ;
    lemma_tdiv_mono(x * y, (SCALE as int) * x, SCALE as int);
    lemma_tdiv_mono(x * y, (SCALE as int) * y, SCALE as int);
    vstd::arithmetic::div_mod::lemma_div_multiples_vanish(x, SCALE as int);
    vstd::arithmetic::div_mod::lemma_div_multiples_vanish(y, SCALE as int);
}

/// A quotient of a numerator by a positive denominator at least as large
/// lies in `[0, 1]`.
pub proof fn lemma_fdiv_le_one(x: int, d: int)
    requires
        0 <= x <= d,
        0 < d,
    ensures
        0 <= fdiv(x, d) <= SCALE,
{
    vstd::arithmetic::div_mod::lemma_div_pos_is_pos(x * (SCALE as int), d);
    assert(x * (SCALE as int) <= d * (SCALE as int)) by (nonlinear_arith)
        requires
            x <= d,
    ;
    lemma_tdiv_mono(x * (SCALE as int), d * (SCALE as int), d);
    vstd::arithmetic::div_mod::lemma_div_multiples_vanish(SCALE as int, d);
}

/// Truncating division is odd in its dividend.
pub proof fn lemma_tdiv_neg_dividend(a: int, b: int)
    requires
        b > 0,
    ensures
        tdiv(-a, b) == -tdiv(a, b),
{
}

/// Truncating division is odd in its dividend and even under negating both
/// operands: `tdiv(-a, -b) == tdiv(a, b)`.
proof fn lemma_tdiv_neg_both(a: int, b: int)
    requires
        b != 0,
    ensures
        tdiv(-a, -b) == tdiv(a, b),
{
}

/// Half pi in raw units, rounded down.
pub const HALF_PI_RAW: i64 = 1647099;

/// One half in raw units.
pub const C_HALF: i64 = 524288;

/// One sixth in raw units, rounded.
pub const C_SIXTH: i64 = 174763;

/// One twenty-fourth in raw units, rounded.
pub const C_24TH: i64 = 43691;

/// One hundred-twentieth in raw units, rounded.
pub const C_120TH: i64 = 8738;

/// One seven-hundred-twentieth in raw units, rounded.
pub const C_720TH: i64 = 1456;

/// Spec mirror of the cosine polynomial on a quarter turn: for a phase `t`
/// in `[0, SCALE)` covering angles `[0, pi/2)`, the truncated series
/// `1 - x^2/2 + x^4/24 - x^6/720` in `x = (pi/2) * t`, clamped to `[-1, 1]`.
pub open spec fn fcos_quarter(t: int) -> int {
    let x = fmul(HALF_PI_RAW as int, t);
    let x2 = fmul(x, x);
    let x4 = fmul(x2, x2);
    let x6 = fmul(x4, x2);
    let series = fsub(
        fadd(fsub(SCALE as int, fmul(x2, C_HALF as int)), fmul(x4, C_24TH as int)),
        fmul(x6, C_720TH as int),
    );
    fmin(fmax(series, -(SCALE as int)), SCALE as int)
}

/// Spec mirror of the sine polynomial on a quarter turn: the truncated
/// series `x - x^3/6 + x^5/120` in `x = (pi/2) * t`, clamped to `[-1, 1]`.
pub open spec fn fsin_quarter(t: int) -> int {
    let x = fmul(HALF_PI_RAW as int, t);
    let x2 = fmul(x, x);
    let x3 = fmul(x2, x);
    let x5 = fmul(x3, x2);
    let series = fadd(
        fsub(x, fmul(x3, C_SIXTH as int)),
        fmul(x5, C_120TH as int),
    );
    fmin(fmax(series, -(SCALE as int)), SCALE as int)
}

/// Spec mirror of cosine of a fraction of a full turn, by quadrant
/// reduction onto the quarter-turn polynomials.
pub open spec fn fcos_turn(u: int) -> int
    recommends
        0 <= u < SCALE,
{
    let q = (4 * u) / (SCALE as int);
    let t = (4 * u) % (SCALE as int);
    if q == 0 {
        fcos_quarter(t)
    } else if q == 1 {
        -fsin_quarter(t)
    } else if q == 2 {
        -fcos_quarter(t)
    } else {
        fsin_quarter(t)
    }
}

/// Spec mirror of sine of a fraction of a full turn.
pub open spec fn fsin_turn(u: int) -> int
    recommends
        0 <= u < SCALE,
{
    let q = (4 * u) / (SCALE as int);
    let t = (4 * u) % (SCALE as int);
    if q == 0 {
        fsin_quarter(t)
    } else if q == 1 {
        fcos_quarter(t)
    } else if q == 2 {
        -fsin_quarter(t)
    } else {
        -fcos_quarter(t)
    }
}

/// Spec mirror of the tangent of a fraction of a turn: sine over cosine,
/// with the divisor floored at one raw unit so the quotient is total.
pub open spec fn ftan_turn(u: int) -> int
    recommends
        0 <= u < SCALE,
{
    fdiv(fsin_turn(u), fmax(fcos_turn(u), 1))
}

/// Quarter-phase cosine polynomial.
fn cos_quarter(t: Real) -> (r: Real)
    ensures
        r.raw as int == fcos_quarter(t.raw as int),
        -SCALE <= r.raw <= SCALE,
{
    let x = Real { raw: HALF_PI_RAW }.mul(t);
    let x2 = x.mul(x);
    let x4 = x2.mul(x2);
    let x6 = x4.mul(x2);
    let series = Real { raw: SCALE }.sub(x2.mul(Real { raw: C_HALF })).add(
        x4.mul(Real { raw: C_24TH }),
    ).sub(x6.mul(Real { raw: C_720TH }));
    series.max(Real { raw: -SCALE }).min(Real { raw: SCALE })
}

/// Quarter-phase sine polynomial.
fn sin_quarter(t: Real) -> (r: Real)
    ensures
        r.raw as int == fsin_quarter(t.raw as int),
        -SCALE <= r.raw <= SCALE,
{
    let x = Real { raw: HALF_PI_RAW }.mul(t);
    let x2 = x.mul(x);
    let x3 = x2.mul(x);
    let x5 = x3.mul(x2);
    let series = x.sub(x3.mul(Real { raw: C_SIXTH })).add(x5.mul(Real { raw: C_120TH }));
    series.max(Real { raw: -SCALE }).min(Real { raw: SCALE })
}

/// Quadrant and quarter-phase of a turn fraction.
fn quadrant(u: Real) -> (r: (u64, Real))
    requires
        0 <= u.raw < SCALE,
    ensures
        r.0 as int == (4 * (u.raw as int)) / (SCALE as int),
        r.1.raw as int == (4 * (u.raw as int)) % (SCALE as int),
        r.0 < 4,
        0 <= r.1.raw < SCALE,
{
    let scaled: u64 = (u.raw as u64) * 4;
    let q: u64 = scaled / (SCALE as u64);
    let t: u64 = scaled % (SCALE as u64);
    proof {
        vstd::arithmetic::div_mod::lemma_fundamental_div_mod(scaled as int, SCALE as int);
        assert(q < 4) by {
            if q >= 4 {
                vstd::arithmetic::mul::lemma_mul_inequality(4, q as int, SCALE as int);
            }
        }
    }
    (q, Real { raw: t as i64 })
}

impl Real {
    /// Cosine of this fraction of a full turn.
    pub fn cos_turn(self) -> (r: Real)
        requires
            0 <= self.raw < SCALE,
        ensures
            r.raw as int == fcos_turn(self.raw as int),
            -SCALE <= r.raw <= SCALE,
    {
        let (q, t) = quadrant(self);
        if q == 0 {
            cos_quarter(t)
        } else if q == 1 {
            sin_quarter(t).neg()
        } else if q == 2 {
            cos_quarter(t).neg()
        } else {
            sin_quarter(t)
        }
    }

    /// Sine of this fraction of a full turn.
    pub fn sin_turn(self) -> (r: Real)
        requires
            0 <= self.raw < SCALE,
        ensures
            r.raw as int == fsin_turn(self.raw as int),
            -SCALE <= r.raw <= SCALE,
    {
        let (q, t) = quadrant(self);
        if q == 0 {
            sin_quarter(t)
        } else if q == 1 {
            cos_quarter(t)
        } else if q == 2 {
            sin_quarter(t).neg()
        } else {
            cos_quarter(t).neg()
        }
    }

    /// Tangent of this fraction of a full turn.
    pub fn tan_turn(self) -> (r: Real)
        requires
            0 <= self.raw < SCALE,
        ensures
            r.raw as int == ftan_turn(self.raw as int),
    {
        let s = self.sin_turn();
        let c = self.cos_turn();
        let cpos = c.max(Real { raw: 1 });
        s.div(cpos)
    }
}

/// Binary search for the integer square root of a 128-bit value.
fn isqrt_u128(n: u128) -> (r: u128)
    ensures
        is_isqrt(n as int, r as int),
{
    let mut lo: u128 = 0;
    let mut hi: u128 = 0xFFFF_FFFF_FFFF_FFFF;
    proof {
        assert((n as int) < (0xFFFF_FFFF_FFFF_FFFFu128 as int + 1) * (0xFFFF_FFFF_FFFF_FFFFu128
            as int + 1));
    }
    while lo < hi
        invariant
            lo <= hi,
            hi <= 0xFFFF_FFFF_FFFF_FFFF,
            (lo as int) * (lo as int) <= n as int,
            (n as int) < ((hi as int) + 1) * ((hi as int) + 1),
        decreases hi - lo,
    {
        let mid: u128 = lo + (hi - lo + 1) / 2;
        proof {
            assert(lo < mid <= hi);
            assert((mid as int) * (mid as int) <= (0xFFFF_FFFF_FFFF_FFFFu128 as int)
                * (0xFFFF_FFFF_FFFF_FFFFu128 as int)) by (nonlinear_arith)
                requires
                    0 <= mid <= 0xFFFF_FFFF_FFFF_FFFFu128,
            ;
        }
        if mid * mid <= n {
            lo = mid;
        } else {
            hi = mid - 1;
        }
    }
    lo
}

} // verus!

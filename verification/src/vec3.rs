//! Three-component vectors over the fixed-point scalar.
//!
//! `Vec3` serves as both a point and a direction, as `Point3` does for the
//! camera and spheres. Every operation is pinned by a spec mirror over the
//! component raw values, and the sign lemmas used by the hit-record normal
//! orientation proofs are stated here.

use vstd::prelude::*;

use crate::fixed::fadd;
use crate::fixed::fdiv;
use crate::fixed::fmul;
use crate::fixed::fneg;
use crate::fixed::fsqrt;
use crate::fixed::fsub;
use crate::fixed::lemma_fsqrt_pos;
use crate::fixed::Real;
use crate::fixed::RAW_MAX;
use crate::fixed::RAW_MIN;
use crate::fixed::SCALE;

verus! {

/// A vector of three fixed-point components.
#[derive(Clone, Copy, PartialEq, Eq, Structural, Debug)]
pub struct Vec3 {
    pub x: Real,
    pub y: Real,
    pub z: Real,
}

/// A location in space; structurally the same as a vector.
pub type Point3 = Vec3;

/// The fixed-point number with the given raw value, for building spec-level
/// results of saturated operations (whose raw values are always in range).
pub open spec fn rl(raw: int) -> Real {
    Real { raw: raw as i64 }
}

/// Spec mirror of componentwise addition.
pub open spec fn vadd(a: Vec3, b: Vec3) -> Vec3 {
    Vec3 {
        x: rl(fadd(a.x.raw as int, b.x.raw as int)),
        y: rl(fadd(a.y.raw as int, b.y.raw as int)),
        z: rl(fadd(a.z.raw as int, b.z.raw as int)),
    }
}

/// Spec mirror of componentwise subtraction.
pub open spec fn vsub(a: Vec3, b: Vec3) -> Vec3 {
    Vec3 {
        x: rl(fsub(a.x.raw as int, b.x.raw as int)),
        y: rl(fsub(a.y.raw as int, b.y.raw as int)),
        z: rl(fsub(a.z.raw as int, b.z.raw as int)),
    }
}

/// Spec mirror of componentwise negation.
pub open spec fn vneg(a: Vec3) -> Vec3 {
    Vec3 { x: rl(fneg(a.x.raw as int)), y: rl(fneg(a.y.raw as int)), z: rl(fneg(a.z.raw as int)) }
}

/// Spec mirror of scaling by a fixed-point factor.
pub open spec fn vscale(k: int, a: Vec3) -> Vec3 {
    Vec3 {
        x: rl(fmul(k, a.x.raw as int)),
        y: rl(fmul(k, a.y.raw as int)),
        z: rl(fmul(k, a.z.raw as int)),
    }
}

/// Spec mirror of componentwise (Hadamard) multiplication.
pub open spec fn vcmul(a: Vec3, b: Vec3) -> Vec3 {
    Vec3 {
        x: rl(fmul(a.x.raw as int, b.x.raw as int)),
        y: rl(fmul(a.y.raw as int, b.y.raw as int)),
        z: rl(fmul(a.z.raw as int, b.z.raw as int)),
    }
}

/// Spec mirror of the dot product, summed left to right.
pub open spec fn vdot(a: Vec3, b: Vec3) -> int {
    fadd(
        fadd(fmul(a.x.raw as int, b.x.raw as int), fmul(a.y.raw as int, b.y.raw as int)),
        fmul(a.z.raw as int, b.z.raw as int),
    )
}

/// Spec mirror of the cross product.
pub open spec fn vcross(a: Vec3, b: Vec3) -> Vec3 {
    Vec3 {
        x: rl(
            fsub(
                fmul(a.y.raw as int, b.z.raw as int),
                fmul(a.z.raw as int, b.y.raw as int),
            ),
        ),
        y: rl(
            fsub(
                fmul(a.z.raw as int, b.x.raw as int),
                fmul(a.x.raw as int, b.z.raw as int),
            ),
        ),
        z: rl(
            fsub(
                fmul(a.x.raw as int, b.y.raw as int),
                fmul(a.y.raw as int, b.x.raw as int),
            ),
        ),
    }
}

/// Spec mirror of the squared norm.
pub open spec fn vnorm_sq(a: Vec3) -> int {
    vdot(a, a)
}

/// Spec mirror of the norm.
pub open spec fn vnorm(a: Vec3) -> int {
    fsqrt(vnorm_sq(a))
}

/// Spec mirror of normalization: each component divided by the norm.
pub open spec fn vunit(a: Vec3) -> Vec3 {
    Vec3 {
        x: rl(fdiv(a.x.raw as int, vnorm(a))),
        y: rl(fdiv(a.y.raw as int, vnorm(a))),
        z: rl(fdiv(a.z.raw as int, vnorm(a))),
    }
}

/// Spec mirror of division by a scalar.
pub open spec fn vdivs(a: Vec3, k: int) -> Vec3
    recommends
        k != 0,
{
    Vec3 {
        x: rl(fdiv(a.x.raw as int, k)),
        y: rl(fdiv(a.y.raw as int, k)),
        z: rl(fdiv(a.z.raw as int, k)),
    }
}

/// The zero vector.
pub open spec fn vzero() -> Vec3 {
    Vec3 { x: Real { raw: 0 }, y: Real { raw: 0 }, z: Real { raw: 0 } }
}

/// Spec mirror of normalization made total: a direction whose squared norm
/// rounds to zero has no usable unit vector and maps to zero.
pub open spec fn vunit_or_zero(a: Vec3) -> Vec3 {
    if vnorm_sq(a) == 0 {
        vzero()
    } else {
        vunit(a)
    }
}

/// All components lie in the representable raw range (in particular none is
/// `i64::MIN`), so negation of each component is exact. Every vector built
/// from saturated operations satisfies this.
pub open spec fn vin_range(a: Vec3) -> bool {
    RAW_MIN <= a.x.raw && RAW_MIN <= a.y.raw && RAW_MIN <= a.z.raw
}

impl Vec3 {
    /// The vector with the given components.
    pub fn new(x: Real, y: Real, z: Real) -> (r: Vec3)
        ensures
            r == (Vec3 { x, y, z }),
    {
        Vec3 { x, y, z }
    }

    /// The zero vector.
    pub fn zero() -> (r: Vec3)
        ensures
            r == (Vec3 { x: Real { raw: 0 }, y: Real { raw: 0 }, z: Real { raw: 0 } }),
    {
        Vec3 { x: Real::zero(), y: Real::zero(), z: Real::zero() }
    }

    /// Componentwise sum.
    pub fn add(self, rhs: Vec3) -> (r: Vec3)
        ensures
            r == vadd(self, rhs),
            vin_range(r),
    {
        Vec3 { x: self.x.add(rhs.x), y: self.y.add(rhs.y), z: self.z.add(rhs.z) }
    }

    /// Componentwise difference.
    pub fn sub(self, rhs: Vec3) -> (r: Vec3)
        ensures
            r == vsub(self, rhs),
            vin_range(r),
    {
        Vec3 { x: self.x.sub(rhs.x), y: self.y.sub(rhs.y), z: self.z.sub(rhs.z) }
    }

    /// Componentwise negation.
    pub fn neg(self) -> (r: Vec3)
        ensures
            r == vneg(self),
            vin_range(r),
    {
        Vec3 { x: self.x.neg(), y: self.y.neg(), z: self.z.neg() }
    }

    /// The vector scaled by `k`.
    pub fn scale(self, k: Real) -> (r: Vec3)
        ensures
            r == vscale(k.raw as int, self),
            vin_range(r),
    {
        Vec3 { x: k.mul(self.x), y: k.mul(self.y), z: k.mul(self.z) }
    }

    /// Componentwise product.
    pub fn component_mul(self, rhs: Vec3) -> (r: Vec3)
        ensures
            r == vcmul(self, rhs),
            vin_range(r),
    {
        Vec3 { x: self.x.mul(rhs.x), y: self.y.mul(rhs.y), z: self.z.mul(rhs.z) }
    }

    /// Dot product.
    pub fn dot(self, rhs: Vec3) -> (r: Real)
        ensures
            r.raw as int == vdot(self, rhs),
    {
        self.x.mul(rhs.x).add(self.y.mul(rhs.y)).add(self.z.mul(rhs.z))
    }

    /// Cross product.
    pub fn cross(self, rhs: Vec3) -> (r: Vec3)
        ensures
            r == vcross(self, rhs),
            vin_range(r),
    {
        Vec3 {
            x: self.y.mul(rhs.z).sub(self.z.mul(rhs.y)),
            y: self.z.mul(rhs.x).sub(self.x.mul(rhs.z)),
            z: self.x.mul(rhs.y).sub(self.y.mul(rhs.x)),
        }
    }

    /// Squared norm.
    pub fn norm_squared(self) -> (r: Real)
        ensures
            r.raw as int == vnorm_sq(self),
            r.raw >= 0,
    {
        proof {
            lemma_vnorm_sq_nonneg(self);
        }
        self.dot(self)
    }

    /// Norm.
    pub fn norm(self) -> (r: Real)
        ensures
            r.raw as int == vnorm(self),
            r.raw >= 0,
    {
        self.norm_squared().sqrt()
    }

    /// Each component divided by the scalar `k`, which must be nonzero.
    pub fn div_scalar(self, k: Real) -> (r: Vec3)
        requires
            k.raw != 0,
        ensures
            r == vdivs(self, k.raw as int),
            vin_range(r),
    {
        Vec3 { x: self.x.div(k), y: self.y.div(k), z: self.z.div(k) }
    }

    /// The unit vector with this vector's direction. The squared norm must be
    /// positive; callers guard degenerate directions before normalizing.
    pub fn normalize(self) -> (r: Vec3)
        requires
            vnorm_sq(self) > 0,
        ensures
            r == vunit(self),
            vin_range(r),
    {
        let n = self.norm();
        proof {
            lemma_fsqrt_pos(vnorm_sq(self));
        }
        Vec3 { x: self.x.div(n), y: self.y.div(n), z: self.z.div(n) }
    }

    /// The unit vector with this vector's direction, or zero when the
    /// squared norm rounds to zero.
    pub fn unit_or_zero(self) -> (r: Vec3)
        ensures
            r == vunit_or_zero(self),
            vin_range(r),
    {
        let nsq = self.norm_squared();
        if nsq.raw == 0 {
            Vec3::zero()
        } else {
            self.normalize()
        }
    }
}

/// A squared fixed-point value is nonnegative, hence so is a sum of them.
pub proof fn lemma_vnorm_sq_nonneg(a: Vec3)
    ensures
        0 <= vnorm_sq(a) <= RAW_MAX,
{
    lemma_fmul_sq_nonneg(a.x.raw as int);
    lemma_fmul_sq_nonneg(a.y.raw as int);
    lemma_fmul_sq_nonneg(a.z.raw as int);
}

/// `fmul(a, a)` is nonnegative.
pub proof fn lemma_fmul_sq_nonneg(a: int)
    ensures
        0 <= fmul(a, a) <= RAW_MAX,
{
    assert(a * a >= 0) by (nonlinear_arith);
    vstd::arithmetic::div_mod::lemma_div_pos_is_pos(a * a, SCALE as int);
}

/// Scaling by zero yields the zero vector.
pub proof fn lemma_vscale_zero(v: Vec3)
    ensures
        vscale(0, v) == vzero(),
{
    vstd::arithmetic::div_mod::lemma_div_of0(SCALE as int);
}

/// Scaling by exactly one is the identity on representable vectors.
pub proof fn lemma_vscale_one(v: Vec3)
    requires
        vin_range(v),
    ensures
        vscale(SCALE as int, v) == v,
{
    crate::fixed::lemma_fmul_one(v.x.raw as int);
    crate::fixed::lemma_fmul_one(v.y.raw as int);
    crate::fixed::lemma_fmul_one(v.z.raw as int);
}

/// Scaling by exactly minus one negates a representable vector.
pub proof fn lemma_vscale_neg_one(v: Vec3)
    requires
        vin_range(v),
    ensures
        vscale(-(SCALE as int), v) == vneg(v),
{
    lemma_fmul_neg_left_one(v.x.raw as int);
    lemma_fmul_neg_left_one(v.y.raw as int);
    lemma_fmul_neg_left_one(v.z.raw as int);
}

/// `fmul(-SCALE, x)` is exact negation for representable `x`.
proof fn lemma_fmul_neg_left_one(x: int)
    requires
        RAW_MIN <= x <= RAW_MAX,
    ensures
        fmul(-(SCALE as int), x) == fneg(x),
{
    crate::fixed::lemma_fmul_one(x);
    assert((-(SCALE as int)) * x == -((SCALE as int) * x)) by (nonlinear_arith);
    crate::fixed::lemma_tdiv_neg_dividend((SCALE as int) * x, SCALE as int);
}

/// Adding the zero vector on the left is exact for representable vectors.
pub proof fn lemma_vadd_zero_left(v: Vec3)
    requires
        vin_range(v),
    ensures
        vadd(vzero(), v) == v,
{
}

/// Adding the zero vector on the right is exact for representable vectors.
pub proof fn lemma_vadd_zero_right(v: Vec3)
    requires
        vin_range(v),
    ensures
        vadd(v, vzero()) == v,
{
}

/// Dividing a representable vector by exactly one is the identity.
pub proof fn lemma_vdivs_one(v: Vec3)
    requires
        vin_range(v),
    ensures
        vdivs(v, SCALE as int) == v,
{
    crate::fixed::lemma_fdiv_one(v.x.raw as int);
    crate::fixed::lemma_fdiv_one(v.y.raw as int);
    crate::fixed::lemma_fdiv_one(v.z.raw as int);
}

/// A unit vector's components are representable.
pub proof fn lemma_vunit_in_range(v: Vec3)
    ensures
        vin_range(vunit(v)),
{
}

/// Negating one factor negates a fixed-point product exactly.
pub proof fn lemma_fmul_neg_right(a: int, b: int)
    requires
        RAW_MIN <= b <= RAW_MAX,
    ensures
        fmul(a, fneg(b)) == -fmul(a, b),
        RAW_MIN <= fmul(a, b),
{
    assert(fneg(b) == -b);
    assert(a * (-b) == -(a * b)) by (nonlinear_arith);
    crate::fixed::lemma_tdiv_neg_dividend(a * b, SCALE as int);
}

/// Negating the right argument negates a dot product exactly, provided the
/// right argument's components are in the representable range.
pub proof fn lemma_vdot_neg_right(a: Vec3, b: Vec3)
    requires
        vin_range(b),
    ensures
        vdot(a, vneg(b)) == -vdot(a, b),
        RAW_MIN <= vdot(a, b) <= RAW_MAX,
{
    lemma_fmul_neg_right(a.x.raw as int, b.x.raw as int);
    lemma_fmul_neg_right(a.y.raw as int, b.y.raw as int);
    lemma_fmul_neg_right(a.z.raw as int, b.z.raw as int);
}

} // verus!

//! The sphere primitive and its ray-intersection test.

use vstd::prelude::*;

use crate::fixed::fadd;
use crate::fixed::fdiv;
use crate::fixed::fmax;
use crate::fixed::fmul;
use crate::fixed::fsqrt;
use crate::fixed::fsub;
use crate::fixed::Real;
use crate::fixed::SCALE;
use crate::hittable::oriented_normal;
use crate::hittable::HitRecord;
use crate::interval::surrounds_spec;
use crate::interval::Interval;
use crate::material::Material;
use crate::ray::ray_at;
use crate::ray::Ray;
use crate::vec3::vdot;
use crate::vec3::vnorm_sq;
use crate::vec3::vsub;
use crate::vec3::Point3;
use crate::vec3::Vec3;

verus! {

/// A sphere bound to one material. The radius is floored at zero on
/// construction: a negative radius is nonsensical, and a zero-radius
/// sphere simply never hits.
#[derive(Clone, Copy, PartialEq, Eq, Structural, Debug)]
pub struct Sphere {
    pub center: Point3,
    pub radius: Real,
    pub material: Material,
}

/// Spec mirror of the outward normal at the hit point: `(p - center) /
/// radius`. Only reached with a positive radius: a zero-radius sphere
/// never produces a hit.
pub open spec fn sphere_outward(s: Sphere, r: Ray, root: int) -> Vec3
    recommends
        s.radius.raw != 0,
{
    let p = ray_at(r, root);
    crate::vec3::vdivs(vsub(p, s.center), s.radius.raw as int)
}

/// Spec mirror of the record built for an accepted root.
pub open spec fn sphere_record(s: Sphere, r: Ray, root: int) -> HitRecord {
    let p = ray_at(r, root);
    let outward = sphere_outward(s, r, root);
    HitRecord {
        p,
        normal: oriented_normal(r.direction, outward),
        material: s.material,
        t: Real { raw: root as i64 },
        front_face: vdot(r.direction, outward) < 0,
    }
}

/// Spec mirror of the half-discriminant quadratic solve, shared by the
/// intersection test and its interval-tightening lemmas.
pub open spec fn sphere_disc(s: Sphere, r: Ray) -> int {
    let oc = vsub(s.center, r.origin);
    let a = vnorm_sq(r.direction);
    let h = vdot(r.direction, oc);
    let c = fsub(vnorm_sq(oc), fmul(s.radius.raw as int, s.radius.raw as int));
    fsub(fmul(h, h), fmul(a, c))
}

/// Spec mirror of the nearer quadratic root `(h - sqrt(disc)) / a`.
pub open spec fn sphere_root1(s: Sphere, r: Ray) -> int {
    let oc = vsub(s.center, r.origin);
    let a = vnorm_sq(r.direction);
    let h = vdot(r.direction, oc);
    fdiv(fsub(h, fsqrt(sphere_disc(s, r))), a)
}

/// Spec mirror of the farther quadratic root `(h + sqrt(disc)) / a`.
pub open spec fn sphere_root2(s: Sphere, r: Ray) -> int {
    let oc = vsub(s.center, r.origin);
    let a = vnorm_sq(r.direction);
    let h = vdot(r.direction, oc);
    fdiv(fadd(h, fsqrt(sphere_disc(s, r))), a)
}

/// Spec mirror of `Sphere::hit`: a zero radius, no real root, or a
/// degenerate direction yields none; otherwise the nearer root strictly
/// inside the interval is taken, falling back to the farther root (the
/// path by which a ray starting inside the sphere still finds its exit).
pub open spec fn sphere_hit_spec(s: Sphere, r: Ray, ray_t: Interval) -> Option<HitRecord> {
    if s.radius.raw == 0 {
        None
    } else if sphere_disc(s, r) < 0 {
        None
    } else if vnorm_sq(r.direction) == 0 {
        None
    } else {
        let root1 = sphere_root1(s, r);
        let root2 = sphere_root2(s, r);
        if surrounds_spec(ray_t, root1) {
            Some(sphere_record(s, r, root1))
        } else if surrounds_spec(ray_t, root2) {
            Some(sphere_record(s, r, root2))
        } else {
            None
        }
    }
}

/// Law: a ray whose quadratic has no real root — no intersection — is
/// never reported as a hit, whatever the interval.
pub proof fn lemma_sphere_miss(s: Sphere, r: Ray, ray_t: Interval)
    ensures
        sphere_disc(s, r) < 0 ==> sphere_hit_spec(s, r, ray_t) == None::<HitRecord>,
{
}

/// Law: a zero-radius sphere never hits, for every ray and every interval.
pub proof fn lemma_zero_radius_never_hits(s: Sphere, r: Ray, ray_t: Interval)
    ensures
        s.radius.raw == 0 ==> sphere_hit_spec(s, r, ray_t) == None::<HitRecord>,
{
}

/// Law: a hit's stored normal opposes the incoming ray: their dot product
/// is never positive.
pub proof fn lemma_sphere_hit_normal_opposes(s: Sphere, r: Ray, ray_t: Interval)
    ensures
        sphere_hit_spec(s, r, ray_t) matches Some(rec) ==> vdot(r.direction, rec.normal) <= 0,
{
    if s.radius.raw != 0 && !(sphere_disc(s, r) < 0) && vnorm_sq(r.direction) != 0 {
        let root1 = sphere_root1(s, r);
        let root2 = sphere_root2(s, r);
        crate::hittable::lemma_oriented_normal_opposes(r.direction, sphere_outward(s, r, root1));
        crate::hittable::lemma_oriented_normal_opposes(r.direction, sphere_outward(s, r, root2));
    }
}

/// Law: a ray aimed exactly at the center — its direction the vector from
/// its origin to the center — always has a real root: the discriminant is
/// never negative, so such a ray is never dismissed for want of an
/// intersection. (Whether the roots then land inside the query interval
/// depends on the distances involved.)
pub proof fn lemma_aimed_ray_has_real_root(s: Sphere, r: Ray)
    requires
        r.direction == vsub(s.center, r.origin),
    ensures
        sphere_disc(s, r) >= 0,
{
    let oc = vsub(s.center, r.origin);
    let a = vnorm_sq(r.direction);
    let h = vdot(r.direction, oc);
    let r2 = fmul(s.radius.raw as int, s.radius.raw as int);
    let c = fsub(vnorm_sq(oc), r2);
    assert(h == a);
    crate::vec3::lemma_vnorm_sq_nonneg(r.direction);
    crate::vec3::lemma_fmul_sq_nonneg(s.radius.raw as int);
    assert(c <= a);
    crate::fixed::lemma_fmul_mono_right(a, c, a);
}

/// Law: a ray aimed exactly at the center of a sphere of nonzero radius,
/// from an origin not inside it, is always hit by any query interval that
/// starts below one and reaches past two in ray parameter: the farther
/// root lies between one (the center) and two, so when the nearer root
/// falls outside the interval the farther one cannot. The hit's parameter
/// is then strictly positive whenever the interval starts at or above
/// zero. (That the hit is seen front-face cannot be promised exactly: for
/// a radius near the resolution the outward normal's components can round
/// to zero.)
pub proof fn lemma_aimed_ray_hits(s: Sphere, r: Ray, ray_t: Interval)
    requires
        r.direction == vsub(s.center, r.origin),
        vnorm_sq(r.direction) > 0,
        s.radius.raw != 0,
        vnorm_sq(vsub(s.center, r.origin)) >= fmul(s.radius.raw as int, s.radius.raw as int),
        0 <= ray_t.min.raw < SCALE,
        ray_t.max.raw > 2 * SCALE,
    ensures
        sphere_hit_spec(s, r, ray_t) is Some,
        sphere_hit_spec(s, r, ray_t)->Some_0.t.raw > 0,
{
    let oc = vsub(s.center, r.origin);
    let a = vnorm_sq(r.direction);
    let h = vdot(r.direction, oc);
    let r2 = fmul(s.radius.raw as int, s.radius.raw as int);
    let c = fsub(vnorm_sq(oc), r2);
    assert(h == a);
    crate::vec3::lemma_vnorm_sq_nonneg(r.direction);
    crate::vec3::lemma_fmul_sq_nonneg(s.radius.raw as int);
    lemma_aimed_ray_has_real_root(s, r);
    let disc = sphere_disc(s, r);

    // The discriminant sits below the rescaled square of a, so its root
    // sits below a itself.
    assert(0 <= c <= a);
    crate::fixed::lemma_fmul_mono_right(a, 0, c);
    vstd::arithmetic::div_mod::lemma_div_of0(SCALE as int);
    assert(fmul(a, 0) == 0);
    assert(disc <= fmul(a, a));
    crate::fixed::lemma_fsqrt_mono(disc, fmul(a, a));
    crate::fixed::lemma_fsqrt_of_square(a);
    crate::fixed::lemma_fsqrt_nonneg(disc);
    let sq = fsqrt(disc);
    assert(0 <= sq <= a);

    // The farther root's numerator lies between a and 2a, so the root
    // itself lies between one and two.
    let x2 = fadd(h, sq);
    assert(a <= x2 <= a + sq);
    crate::fixed::lemma_fdiv_mono(a, x2, a);
    crate::fixed::lemma_fdiv_mono(x2, 2 * a, a);
    vstd::arithmetic::div_mod::lemma_div_multiples_vanish(SCALE as int, a);
    assert(fdiv(a, a) == SCALE as int);
    vstd::arithmetic::div_mod::lemma_div_multiples_vanish(2 * (SCALE as int), a);
    assert((2 * a) * (SCALE as int) == a * (2 * (SCALE as int))) by (nonlinear_arith);
    assert(fdiv(2 * a, a) == 2 * (SCALE as int));
    let root2 = sphere_root2(s, r);
    assert(SCALE as int <= root2 <= 2 * (SCALE as int));
    assert(surrounds_spec(ray_t, root2));
    lemma_sphere_hit_inside(s, r, ray_t);
}

/// The nearer root never exceeds the farther root: their numerators differ
/// by a nonnegative square root, and fixed-point division by the positive
/// squared direction norm is monotone.
pub proof fn lemma_sphere_roots_ordered(s: Sphere, r: Ray)
    requires
        vnorm_sq(r.direction) != 0,
    ensures
        sphere_root1(s, r) <= sphere_root2(s, r),
{
    crate::vec3::lemma_vnorm_sq_nonneg(r.direction);
    crate::fixed::lemma_fsqrt_nonneg(sphere_disc(s, r));
    let oc = vsub(s.center, r.origin);
    let h = vdot(r.direction, oc);
    let sq = fsqrt(sphere_disc(s, r));
    crate::fixed::lemma_fdiv_mono(fsub(h, sq), fadd(h, sq), vnorm_sq(r.direction));
}

/// A hit's parameter lies strictly inside the queried interval.
pub proof fn lemma_sphere_hit_inside(s: Sphere, r: Ray, ray_t: Interval)
    ensures
        sphere_hit_spec(s, r, ray_t) matches Some(rec) ==> surrounds_spec(
            ray_t,
            rec.t.raw as int,
        ),
{
}

/// Tightening the far bound filters the hit by its distance: the hit
/// against a narrower interval is the hit against the wider one when that
/// hit lies nearer than the new bound, and nothing otherwise.
pub proof fn lemma_sphere_hit_tighten(s: Sphere, r: Ray, wide: Interval, narrow: Interval)
    requires
        narrow.min == wide.min,
        narrow.max.raw <= wide.max.raw,
    ensures
        sphere_hit_spec(s, r, narrow) == match sphere_hit_spec(s, r, wide) {
            Some(rec) => if (rec.t.raw as int) < (narrow.max.raw as int) {
                Some(rec)
            } else {
                None::<HitRecord>
            },
            None => None::<HitRecord>,
        },
{
    if !(sphere_disc(s, r) < 0) && vnorm_sq(r.direction) != 0 {
        lemma_sphere_roots_ordered(s, r);
    }
}

impl Sphere {
    /// A sphere with the given center, radius floored at zero, and material.
    pub fn new(center: Point3, radius: Real, material: Material) -> (s: Sphere)
        ensures
            s.center == center,
            s.radius.raw as int == fmax(radius.raw as int, 0),
            s.material == material,
    {
        Sphere { center, radius: radius.max(Real::zero()), material }
    }

    /// The nearest intersection of `r` with the sphere strictly inside
    /// `ray_t`, or none.
    pub fn hit(&self, r: &Ray, ray_t: Interval) -> (res: Option<HitRecord>)
        ensures
            res == sphere_hit_spec(*self, *r, ray_t),
    {
        // A zero-radius sphere (a nonsensical radius floored at
        // construction) simply never hits.
        if self.radius.raw == 0 {
            return None;
        }

        let oc = self.center.sub(r.origin());
        let a = r.direction().norm_squared();
        let h = r.direction().dot(oc);
        let c = oc.norm_squared().sub(self.radius.mul(self.radius));

        let discriminant = h.mul(h).sub(a.mul(c));
        if discriminant.raw < 0 {
            return None;
        }
        // A zero direction (or one so small its squared norm rounds to
        // zero) admits no root; the quotient below would be undefined.
        if a.raw == 0 {
            return None;
        }

        let discriminant_sqrt = discriminant.sqrt();

        // Find the nearest root that lies in the acceptable range.
        let mut root = h.sub(discriminant_sqrt).div(a);
        if !ray_t.surrounds(root) {
            root = h.add(discriminant_sqrt).div(a);
            if !ray_t.surrounds(root) {
                return None;
            }
        }

        let p = r.at(root);
        let outward = p.sub(self.center).div_scalar(self.radius);
        let mut rec = HitRecord {
            t: root,
            p,
            normal: Vec3::zero(),
            material: self.material,
            front_face: false,
        };
        rec.set_face_normal(r, &outward);

        Some(rec)
    }
}

} // verus!

//! Intersection results and the closed set of intersectable shapes.

use vstd::prelude::*;

use crate::fixed::Real;
use crate::interval::Interval;
use crate::material::Material;
use crate::ray::Ray;
use crate::sphere::sphere_hit_spec;
use crate::sphere::Sphere;
use crate::vec3::lemma_vdot_neg_right;
use crate::vec3::vdot;
use crate::vec3::vin_range;
use crate::vec3::vneg;
use crate::vec3::Point3;
use crate::vec3::Vec3;

verus! {

/// The output of an intersection test: point, oriented surface normal, ray
/// parameter, orientation flag, and the material at that point (an owned
/// copy of the lightweight material value, so no lifetime ties a record to
/// the scene).
#[derive(Clone, Copy, PartialEq, Eq, Structural, Debug)]
pub struct HitRecord {
    pub p: Point3,
    pub normal: Vec3,
    pub material: Material,
    pub t: Real,
    pub front_face: bool,
}

/// Spec mirror of the normal-orientation step: the stored normal opposes
/// the incoming ray, flipping the outward normal when the ray starts
/// inside.
pub open spec fn oriented_normal(dir: Vec3, outward: Vec3) -> Vec3 {
    if vdot(dir, outward) < 0 {
        outward
    } else {
        vneg(outward)
    }
}

impl HitRecord {
    /// Sets the hit record's normal vector based on the given ray and outward normal.
    /// NOTE: the parameter `outward_normal` is assumed to have unit length.
    pub fn set_face_normal(&mut self, r: &Ray, outward_normal: &Vec3)
        ensures
            final (self).front_face == (vdot(r.direction, *outward_normal) < 0),
            final (self).normal == oriented_normal(r.direction, *outward_normal),
            final (self).p == old(self).p,
            final (self).t == old(self).t,
            final (self).material == old(self).material,
    {
        let d = r.direction().dot(*outward_normal);
        self.front_face = d.lt(Real::zero());
        self.normal = if self.front_face {
            *outward_normal
        } else {
            outward_normal.neg()
        };
    }
}

/// The oriented normal never points along the incoming ray: its dot product
/// with the ray direction is nonpositive whenever the outward normal's
/// components are representable.
pub proof fn lemma_oriented_normal_opposes(dir: Vec3, outward: Vec3)
    requires
        vin_range(outward),
    ensures
        vdot(dir, oriented_normal(dir, outward)) <= 0,
{
    if vdot(dir, outward) >= 0 {
        lemma_vdot_neg_right(dir, outward);
    }
}

/// Law: the orientation step never changes the normal's length — the
/// stored normal is the outward normal or its exact negation, and the two
/// have the same squared norm. (That the outward normal `(p - center) /
/// radius` itself has unit length within tolerance is a rounding fact of
/// the quadratic solve, exercised by the tests.)
pub proof fn lemma_oriented_normal_norm(dir: Vec3, outward: Vec3)
    requires
        vin_range(outward),
    ensures
        crate::vec3::vnorm_sq(oriented_normal(dir, outward)) == crate::vec3::vnorm_sq(outward),
{
    if !(vdot(dir, outward) < 0) {
        assert((-(outward.x.raw as int)) * (-(outward.x.raw as int)) == (outward.x.raw as int)
            * (outward.x.raw as int)) by (nonlinear_arith);
        assert((-(outward.y.raw as int)) * (-(outward.y.raw as int)) == (outward.y.raw as int)
            * (outward.y.raw as int)) by (nonlinear_arith);
        assert((-(outward.z.raw as int)) * (-(outward.z.raw as int)) == (outward.z.raw as int)
            * (outward.z.raw as int)) by (nonlinear_arith);
    }
}

/// A shape that a ray can intersect, as a closed sum over the known
/// primitive kinds, dispatched by pattern matching.
#[derive(Clone, Copy, PartialEq, Eq, Structural, Debug)]
pub enum Hittable {
    Sphere(Sphere),
}

/// Spec mirror of `Hittable::hit`.
pub open spec fn hittable_hit_spec(h: Hittable, r: Ray, ray_t: Interval) -> Option<HitRecord> {
    match h {
        Hittable::Sphere(s) => sphere_hit_spec(s, r, ray_t),
    }
}

/// A hit's parameter lies strictly inside the queried interval.
pub proof fn lemma_hittable_hit_inside(h: Hittable, r: Ray, ray_t: Interval)
    ensures
        hittable_hit_spec(h, r, ray_t) matches Some(rec) ==> crate::interval::surrounds_spec(
            ray_t,
            rec.t.raw as int,
        ),
{
    match h {
        Hittable::Sphere(s) => crate::sphere::lemma_sphere_hit_inside(s, r, ray_t),
    }
}

/// Tightening the far bound filters the hit by its distance, whatever the
/// shape.
pub proof fn lemma_hittable_hit_tighten(h: Hittable, r: Ray, wide: Interval, narrow: Interval)
    requires
        narrow.min == wide.min,
        narrow.max.raw <= wide.max.raw,
    ensures
        hittable_hit_spec(h, r, narrow) == match hittable_hit_spec(h, r, wide) {
            Some(rec) => if (rec.t.raw as int) < (narrow.max.raw as int) {
                Some(rec)
            } else {
                None::<HitRecord>
            },
            None => None::<HitRecord>,
        },
{
    match h {
        Hittable::Sphere(s) => crate::sphere::lemma_sphere_hit_tighten(s, r, wide, narrow),
    }
}

impl Hittable {
    /// The nearest intersection of `r` with this shape strictly inside
    /// `ray_t`, or none.
    pub fn hit(&self, r: &Ray, ray_t: Interval) -> (res: Option<HitRecord>)
        ensures
            res == hittable_hit_spec(*self, *r, ray_t),
    {
        match self {
            Hittable::Sphere(s) => s.hit(r, ray_t),
        }
    }
}

} // verus!

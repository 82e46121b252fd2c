//! A parametric line: origin plus scaled direction.

use vstd::prelude::*;

use crate::fixed::Real;
use crate::vec3::vadd;
use crate::vec3::vscale;
use crate::vec3::Point3;
use crate::vec3::Vec3;

verus! {

/// A ray, immutable once constructed. The direction need not be unit length.
#[derive(Clone, Copy, PartialEq, Eq, Structural, Debug)]
pub struct Ray {
    pub origin: Point3,
    pub direction: Vec3,
}

/// Spec mirror of `Ray::at`: the point reached after `t` (raw) times the
/// direction.
pub open spec fn ray_at(r: Ray, t: int) -> Point3 {
    vadd(r.origin, vscale(t, r.direction))
}

impl Ray {
    /// A ray from `origin` toward `direction`.
    pub fn new(origin: Point3, direction: Vec3) -> (r: Ray)
        ensures
            r == (Ray { origin, direction }),
    {
        Ray { origin, direction }
    }

    /// The ray's origin.
    pub fn origin(&self) -> (r: Point3)
        ensures
            r == self.origin,
    {
        self.origin
    }

    /// The ray's direction.
    pub fn direction(&self) -> (r: Vec3)
        ensures
            r == self.direction,
    {
        self.direction
    }

    /// The point at parameter `t`: `origin + t * direction`.
    pub fn at(&self, t: Real) -> (r: Point3)
        ensures
            r == ray_at(*self, t.raw as int),
    {
        self.origin.add(self.direction.scale(t))
    }
}

} // verus!

//! A closed numeric range used to bound valid intersection distances.

use vstd::prelude::*;

use crate::fixed::Real;

verus! {

/// A range `[min, max]`. Constructed with `min <= max` by convention; the
/// intersection routines only ever query strict interiors.
#[derive(Clone, Copy, PartialEq, Eq, Structural, Debug)]
pub struct Interval {
    pub min: Real,
    pub max: Real,
}

/// Spec mirror of `Interval::surrounds`: `x` lies strictly inside the range.
/// The strict lower comparison is what rejects a hit at the query boundary
/// and so prevents self-intersection at a scattering point.
pub open spec fn surrounds_spec(i: Interval, x: int) -> bool {
    (i.min.raw as int) < x < (i.max.raw as int)
}

impl Interval {
    /// The range `[min, max]`.
    pub fn new(min: Real, max: Real) -> (r: Interval)
        ensures
            r == (Interval { min, max }),
    {
        Interval { min, max }
    }

    /// Whether `x` lies strictly between the bounds.
    pub fn surrounds(&self, x: Real) -> (r: bool)
        ensures
            r == surrounds_spec(*self, x.raw as int),
    {
        self.min.lt(x) && x.lt(self.max)
    }
}

} // verus!

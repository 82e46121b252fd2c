//! An explicit, seedable uniform random source.
//!
//! Scattering and sampling draw from a generator handle passed down the call
//! chain, which keeps parallel workers independent and makes runs
//! reproducible from a seed. The state transition is a 64-bit linear
//! congruential step, so every draw is pinned by a spec function of the
//! previous state; fresh entropy for a non-reproducible render comes from
//! the `rand` crate behind a trusted wrapper.

use vstd::prelude::*;

use crate::fixed::Real;
use crate::fixed::SCALE;

verus! {

/// Multiplier of the linear congruential step.
pub const LCG_MUL: u64 = 6364136223846793005;

/// Increment of the linear congruential step.
pub const LCG_ADD: u64 = 1442695040888963407;

/// The state following `s`.
pub open spec fn next_state(s: u64) -> u64 {
    s.wrapping_mul(LCG_MUL).wrapping_add(LCG_ADD)
}

/// The fixed-point fraction in `[0, 1)` carried by the top bits of a state.
pub open spec fn unit_raw(s: u64) -> int {
    (s >> 44) as int
}

/// A deterministic pseudo-random generator.
#[derive(Clone, Copy, PartialEq, Eq, Structural, Debug)]
pub struct Rng {
    pub state: u64,
}

/// Relies on `rand::random::<u64>()`: one sample from the crate's
/// thread-local generator. Nothing is assumed of the value.
#[verifier::external_body]
fn entropy_bits() -> u64 {
    rand::random::<u64>()
}

impl Rng {
    /// A generator starting from the given seed.
    pub fn new(seed: u64) -> (r: Rng)
        ensures
            r.state == seed,
    {
        Rng { state: seed }
    }

    /// A generator seeded from process-wide entropy; no two calls need
    /// agree, so nothing is stated of the resulting state.
    pub fn from_entropy() -> Rng {
        Rng { state: entropy_bits() }
    }

    /// Advance the state one step and return it.
    pub fn next_bits(&mut self) -> (r: u64)
        ensures
            final (self).state == next_state(old(self).state),
            r == final (self).state,
    {
        self.state = self.state.wrapping_mul(LCG_MUL).wrapping_add(LCG_ADD);
        self.state
    }

    /// A fixed-point sample uniform over `[0, 1)`: one step of the state,
    /// whose top bits become the fractional raw value.
    pub fn next_unit(&mut self) -> (r: Real)
        ensures
            final (self).state == next_state(old(self).state),
            r.raw as int == unit_raw(final (self).state),
            0 <= r.raw < SCALE,
    {
        let bits = self.next_bits();
        let top: u64 = bits >> 44;
        proof {
            assert(bits >> 44 < 0x100000) by (bit_vector);
        }
        Real { raw: top as i64 }
    }
}

} // verus!

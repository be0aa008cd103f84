//! Randomness for the mutators.
//!
//! All random choices made by the mutators and the scheduler are drawn from a
//! seeded PRNG of the fuzzing framework, carried in a [`MutatorState`] that is
//! mutably borrowed by every mutator.

use vstd::prelude::*;

use libafl_bolts::rands::{Rand, RomuDuoJrRand, StdRand};

verus! {

#[verifier::external_type_specification]
#[verifier::external_body]
pub struct ExStdRand(RomuDuoJrRand);

/// Relies on `RomuDuoJrRand::with_seed` of libafl_bolts: builds a PRNG from a
/// seed.  Nothing is promised of the values it will produce.
#[verifier::external_body]
fn rand_with_seed(seed: u64) -> StdRand {
    StdRand::with_seed(seed)
}

/// Relies on `Rand::below` of libafl_bolts: for a positive bound it returns a
/// value strictly below the bound (`(next() * bound) >> 64`, computed in 128
/// bits).
#[verifier::external_body]
fn rand_below(rand: &mut StdRand, bound: usize) -> (r: usize)
    requires
        bound > 0,
    ensures
        r < bound,
{
    rand.below(core::num::NonZeroUsize::new(bound).unwrap())
}

/// The ambient state handed to every mutator: a seeded PRNG together with the
/// size bound that growing mutations must respect.
pub struct MutatorState {
    rand: StdRand,
    max_size: usize,
}

impl MutatorState {
    /// The size bound that growing mutations must not exceed.
    pub closed spec fn spec_max_size(&self) -> usize {
        self.max_size
    }

    /// Create a state with a fresh PRNG seeded with `seed`.
    pub fn new(seed: u64, max_size: usize) -> (r: Self)
        ensures
            r.spec_max_size() == max_size,
    {
        MutatorState { rand: rand_with_seed(seed), max_size }
    }

    /// The size bound that growing mutations must not exceed.
    pub fn max_size(&self) -> (r: usize)
        ensures
            r == self.spec_max_size(),
    {
        self.max_size
    }

    /// Draw a value uniformly from `[0, bound)`.
    pub fn below(&mut self, bound: usize) -> (r: usize)
        requires
            bound > 0,
        ensures
            r < bound,
            final(self).spec_max_size() == old(self).spec_max_size(),
    {
        rand_below(&mut self.rand, bound)
    }
}

} // verus!

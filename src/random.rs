use rand::rngs::StdRng;
use rand::seq::SliceRandom;
use rand::{Rng, SeedableRng};
use vstd::prelude::*;

verus! {

#[verifier::external_type_specification]
#[verifier::external_body]
pub struct ExStdRng(StdRng);

/// Relies on rand's `SeedableRng::seed_from_u64` for `StdRng`: a generator
/// whose stream is fixed by the seed.
#[verifier::external_body]
fn std_rng_from_seed(seed: u64) -> StdRng {
    StdRng::seed_from_u64(seed)
}

/// Relies on rand's `Rng::gen_range` on `0..bound`: a value in `[0, bound)`.
/// It panics on an empty range only, which `bound > 0` excludes.
#[verifier::external_body]
fn std_rng_below(rng: &mut StdRng, bound: u64) -> (r: u64)
    requires
        bound > 0,
    ensures
        r < bound,
{
    rng.gen_range(0..bound)
}

/// Relies on rand's `SliceRandom::choose` on a slice: one of its elements,
/// picked uniformly. It gives `None` on an empty slice only, which
/// `items.len() > 0` excludes.
#[verifier::external_body]
fn std_rng_choose(rng: &mut StdRng, items: &[u64]) -> (r: u64)
    requires
        items@.len() > 0,
    ensures
        items@.contains(r),
{
    *items.choose(rng).unwrap()
}

/// The single source of chance of a simulation. Built from a seed, so that
/// two sources with one seed give the same stream of draws.
pub struct RandomSource {
    rng: StdRng,
}

impl RandomSource {
    pub fn seeded(seed: u64) -> (r: RandomSource) {
        RandomSource { rng: std_rng_from_seed(seed) }
    }

    /// A uniform draw from `[0, bound)`.
    pub fn below(&mut self, bound: u64) -> (r: u64)
        requires
            bound > 0,
        ensures
            r < bound,
    {
        std_rng_below(&mut self.rng, bound)
    }

    /// One of `items`, picked uniformly.
    pub fn pick(&mut self, items: &Vec<u64>) -> (r: u64)
        requires
            items.len() > 0,
        ensures
            items@.contains(r),
    {
        std_rng_choose(&mut self.rng, items.as_slice())
    }

    /// A fair coin.
    pub fn coin(&mut self) -> (r: bool) {
        self.below(2) == 0
    }

    /// A Bernoulli trial that succeeds with probability `1 / n`.
    pub fn one_in(&mut self, n: u64) -> (r: bool)
        requires
            n > 0,
    {
        self.below(n) == 0
    }
}

} // verus!

//! The engine's random source.
//!
//! The master source is a plain pair (seed, uses) so snapshots carry it
//! whole: each reset derives a sub-seed from it deterministically, and
//! `diverge` replaces the seed from OS entropy so a resumed snapshot
//! stops replaying identically.  Only scenario resets draw randomness;
//! ticks never do.  The draws themselves come from `rand`'s standard
//! generator, seeded with the sub-seed, through the wrappers below.

use vstd::prelude::*;

verus! {

/// `rand`'s standard generator, used only while a scenario reset runs.
#[verifier::external_type_specification]
#[verifier::external_body]
pub struct ExStdRng(rand::rngs::StdRng);

/// The master random source: a seed and how many sub-seeds were drawn.
#[derive(Copy, Clone, Debug, PartialEq, Eq, Structural)]
pub struct RandomSource {
    pub seed: u64,
    pub uses: u64,
}

/// The sub-seed of draw number `uses` under `seed`: the seed xored with
/// a golden-ratio multiple of the draw count, so consecutive resets get
/// well-separated generator seeds.
pub open spec fn spec_sub_seed(seed: u64, uses: u64) -> u64 {
    seed ^ uses.wrapping_mul(0x9E37_79B9_7F4A_7C15)
}

impl RandomSource {
    pub fn new(seed: u64) -> (r: RandomSource)
        ensures
            r.seed == seed,
            r.uses == 0,
    {
        RandomSource { seed, uses: 0 }
    }

    /// Draw the next sub-seed; each draw gives a different one until the
    /// use counter wraps.
    pub fn next_sub_seed(&mut self) -> (s: u64)
        ensures
            final(self).seed == old(self).seed,
            final(self).uses == old(self).uses.wrapping_add(1),
            s == spec_sub_seed(old(self).seed, final(self).uses),
    {
        let uses = self.uses.wrapping_add(1);
        self.uses = uses;
        self.seed ^ uses.wrapping_mul(0x9E37_79B9_7F4A_7C15)
    }
}

/// Relies on rand::SeedableRng::seed_from_u64 for rand's StdRng: builds
/// a generator from a 64-bit seed (deterministically, but nothing about
/// the stream is assumed).
#[verifier::external_body]
pub fn rng_from_seed(seed: u64) -> rand::rngs::StdRng {
    <rand::rngs::StdRng as rand::SeedableRng>::seed_from_u64(seed)
}

/// Relies on rand::random: a fresh 64-bit value from the thread-local
/// entropy-seeded generator; nothing is assumed of it.
#[verifier::external_body]
pub fn fresh_seed() -> u64 {
    rand::random::<u64>()
}

/// Relies on rand::Rng::gen_range over `lo..hi`: panics on an empty
/// range, otherwise returns a value of the range.
#[verifier::external_body]
pub fn rng_gen_range(rng: &mut rand::rngs::StdRng, lo: u64, hi: u64) -> (r: u64)
    requires
        lo < hi,
    ensures
        lo <= r < hi,
{
    <rand::rngs::StdRng as rand::Rng>::gen_range(rng, lo..hi)
}

/// Relies on rand::Rng::gen for bool: a draw with no promised law.
#[verifier::external_body]
pub fn rng_gen_bool(rng: &mut rand::rngs::StdRng) -> bool {
    <rand::rngs::StdRng as rand::Rng>::gen::<bool>(rng)
}

} // verus!

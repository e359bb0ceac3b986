//! A seeded random source, backed by the standard generator of the
//! `rand` crate. That generator is deterministic: the seed alone fixes
//! the whole stream of draws. Each draw is therefore pinned to a named
//! value of the seed and of the draw's position, and rendering the same
//! scene twice from the same seed reads the very same stream.

use vstd::prelude::*;

verus! {

#[verifier::external_type_specification]
#[verifier::external_body]
pub struct ExStdRng(rand::rngs::StdRng);

/// The `idx`-th value that `rand`'s standard generator yields when
/// seeded from the given 64-bit seed.
pub uninterp spec fn std_rng_next(seed: u64, idx: nat) -> u64;

/// Relies on rand::SeedableRng::seed_from_u64: builds the generator
/// whose draws `std_rng_next` names, in its starting state.
#[verifier::external_body]
fn make_std_rng(seed: u64) -> rand::rngs::StdRng {
    <rand::rngs::StdRng as rand::SeedableRng>::seed_from_u64(seed)
}

/// A generator together with the seed it was built from and how many
/// values it has handed out.
pub struct RandomSource {
    rng: rand::rngs::StdRng,
    seed: Ghost<u64>,
    drawn: Ghost<nat>,
}

impl View for RandomSource {
    type V = (u64, nat);

    /// The seed and the number of values handed out so far.
    closed spec fn view(&self) -> (u64, nat) {
        (self.seed@, self.drawn@)
    }
}

impl RandomSource {
    /// A fresh source at the start of the stream the seed determines.
    pub fn new(seed: u64) -> (r: RandomSource)
        ensures
            r@ == (seed, 0nat),
    {
        RandomSource {
            rng: make_std_rng(seed),
            seed: Ghost(seed),
            drawn: Ghost(0nat),
        }
    }

    /// Relies on rand::RngCore::next_u64 on StdRng: with a fixed seed the
    /// sequence of draws is deterministic, so this call hands out the
    /// value at the stream's current position and advances the position.
    #[verifier::external_body]
    pub fn next_u64(&mut self) -> (r: u64)
        ensures
            final(self)@.0 == old(self)@.0,
            final(self)@.1 == old(self)@.1 + 1,
            r == std_rng_next(old(self)@.0, old(self)@.1),
    {
        rand::RngCore::next_u64(&mut self.rng)
    }
}

} // verus!

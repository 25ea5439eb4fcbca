//! A small deterministic pseudo-random generator.
//!
//! Randomness is injected, never global: every randomized board is a pure
//! function of the seed, so behaviour is reproducible. The generator is a
//! 64-bit linear congruential generator; each draw advances the state once
//! and reports the new state's top bit, which gives each cell an independent
//! alive-probability of one half.

use vstd::prelude::*;

verus! {

/// Multiplier of the linear congruential step.
pub const RNG_MULTIPLIER: u64 = 6364136223846793005;

/// Increment of the linear congruential step.
pub const RNG_INCREMENT: u64 = 1442695040888963407;

/// One advance of the generator state. Opaque: callers relate states through
/// this name alone, and never need the modular arithmetic behind it.
#[verifier::opaque]
pub open spec fn rng_step(s: u64) -> u64 {
    s.wrapping_mul(RNG_MULTIPLIER).wrapping_add(RNG_INCREMENT)
}

/// The boolean a state yields: its top bit.
pub open spec fn rng_bit(s: u64) -> bool {
    s >= 0x8000000000000000
}

/// The state after `k` advances from `s`.
pub open spec fn rng_iter(s: u64, k: nat) -> u64
    decreases k,
{
    if k == 0 {
        s
    } else {
        rng_step(rng_iter(s, (k - 1) as nat))
    }
}

/// The sequence of `n` booleans drawn from a generator seeded with `s`.
pub open spec fn random_cells(s: u64, n: nat) -> Seq<bool> {
    Seq::new(n, |i: int| rng_bit(rng_iter(s, (i + 1) as nat)))
}

/// The boolean the `j`-th draw from a generator seeded with `s` yields.
pub open spec fn rng_bit_at(s: u64, j: int) -> bool {
    rng_bit(rng_iter(s, (j + 1) as nat))
}

/// A seeded pseudo-random boolean source.
#[derive(Debug)]
pub struct Rng {
    state: u64,
}

impl Rng {
    /// The current generator state.
    pub closed spec fn spec_state(self) -> u64 {
        self.state
    }

    /// Builds a generator whose draws are determined by `seed` alone.
    pub fn new(seed: u64) -> (r: Rng)
        ensures
            r.spec_state() == seed,
    {
        Rng { state: seed }
    }

    /// Advances the state once and reports the new state's top bit.
    pub fn next_bool(&mut self) -> (b: bool)
        ensures
            final(self).spec_state() == rng_step(old(self).spec_state()),
            b == rng_bit(final(self).spec_state()),
    {
        proof {
            reveal(rng_step);
        }
        self.state = self.state.wrapping_mul(RNG_MULTIPLIER).wrapping_add(RNG_INCREMENT);
        self.state >= 0x8000000000000000
    }
}

} // verus!

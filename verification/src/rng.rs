//! Seeded, deterministic randomness.
//!
//! Every render work unit seeds its own generator from a single integer,
//! so sampling is reproducible by construction. The generator is an
//! xorshift128 from the `rand_xorshift` crate; its output is a pure
//! function of the seed, which the contracts here capture by naming the
//! draw stream: the `index`-th output of a generator seeded with `seed`
//! is `xorshift_stream(seed, index)`. Everything the library derives from
//! these draws is then itself a function of the seed.

use vstd::prelude::*;

use crate::fixed::{Fx, FX_SCALE};

verus! {

#[verifier::external_type_specification]
#[verifier::external_body]
pub struct ExXorShiftRng(rand_xorshift::XorShiftRng);

/// The `index`-th 64-bit output of an xorshift generator seeded with
/// `seed`. The algorithm is deterministic, so this is a mathematical
/// function of its two arguments; nothing more is assumed about it.
pub uninterp spec fn xorshift_stream(seed: u64, index: nat) -> u64;

/// A seeded random generator together with the count of draws made, so
/// that each draw can be pinned to its position in the stream.
pub struct SeededRng {
    inner: rand_xorshift::XorShiftRng,
    ghost_seed: Ghost<u64>,
    ghost_drawn: Ghost<nat>,
}

/// The raw value of the unit-interval sample carried by one draw: the low
/// bits of the word, scaled into `[0, 1)`.
pub open spec fn unit_from(bits: u64) -> int {
    (bits % (FX_SCALE as u64)) as int
}

/// Relies on `SeedableRng::seed_from_u64` for
/// `rand_xorshift::XorShiftRng`: seeding is deterministic (the seed is
/// expanded by a fixed splitmix construction), so the resulting generator
/// state is a pure function of `seed`. The state itself is opaque; what
/// it determines is captured by `SeededRng::next_u64`.
#[verifier::external_body]
fn xorshift_from_seed(seed: u64) -> (r: rand_xorshift::XorShiftRng) {
    rand::SeedableRng::seed_from_u64(seed)
}

impl SeededRng {
    /// The seed this generator was created from.
    pub closed spec fn seed(self) -> u64 {
        self.ghost_seed@
    }

    /// How many draws have been made.
    pub closed spec fn drawn(self) -> nat {
        self.ghost_drawn@
    }

    /// A generator seeded with `seed`, with no draws made yet.
    pub fn from_seed(seed: u64) -> (r: SeededRng)
        ensures
            r.seed() == seed,
            r.drawn() == 0,
    {
        SeededRng {
            inner: xorshift_from_seed(seed),
            ghost_seed: Ghost(seed),
            ghost_drawn: Ghost(0nat),
        }
    }

    /// Relies on `XorShiftRng::next_u64` (two xorshift128 words combined
    /// little-endian): the next output is a pure function of the current
    /// state, hence of the seed and of how many draws were made before.
    #[verifier::external_body]
    pub fn next_u64(&mut self) -> (r: u64)
        ensures
            r == xorshift_stream(old(self).seed(), old(self).drawn()),
            final(self).seed() == old(self).seed(),
            final(self).drawn() == old(self).drawn() + 1,
    {
        rand::Rng::next_u64(&mut self.inner)
    }

    /// One uniform sample in `[0, 1)`, from the low bits of the next draw.
    pub fn next_unit(&mut self) -> (r: Fx)
        ensures
            r.raw == unit_from(xorshift_stream(old(self).seed(), old(self).drawn())),
            0 <= r.raw < FX_SCALE,
            final(self).seed() == old(self).seed(),
            final(self).drawn() == old(self).drawn() + 1,
    {
        let bits = self.next_u64();
        Fx::from_raw((bits % 65536) as i64)
    }
}

} // verus!

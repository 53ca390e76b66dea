//! The random stream: a seeded generator drawn from in a fixed order.
//!
//! The generator itself is `rand`'s `StdRng`. For a fixed seed its output
//! sequence is fixed, so the k-th draw is named by the uninterpreted function
//! `rng_draw(seed, k)`; everything computed from the draws is then an exact
//! function of the seed, which is what makes a render reproducible.

use vstd::prelude::*;
use crate::fixed::SCALE;

verus! {

#[verifier::external_type_specification]
#[verifier::external_body]
pub struct ExStdRng(rand::rngs::StdRng);

/// The k-th 32-bit value drawn from a generator seeded with `seed`.
pub uninterp spec fn rng_draw(seed: u64, k: nat) -> u32;

/// A seeded random stream together with how many draws it has served.
pub struct RandomStream {
    inner: rand::rngs::StdRng,
    seed: Ghost<u64>,
    drawn: Ghost<nat>,
}

impl RandomStream {
    /// The seed this stream was created from.
    pub closed spec fn seed(&self) -> u64 {
        self.seed@
    }

    /// How many 32-bit draws have been served so far.
    pub closed spec fn drawn(&self) -> nat {
        self.drawn@
    }

    /// Seeds a fresh stream; no draws have been served yet.
    pub fn new(seed: u64) -> (r: RandomStream)
        ensures
            r.seed() == seed,
            r.drawn() == 0,
    {
        RandomStream { inner: stdrng_from_seed(seed), seed: Ghost(seed), drawn: Ghost(0nat) }
    }

    /// Relies on `rand::RngCore::next_u32` for `StdRng` (ChaCha with 12
    /// rounds): the output sequence is a fixed function of the seed alone, so
    /// the value served at position `k` is `rng_draw(seed, k)`.
    #[verifier::external_body]
    pub fn draw_u32(&mut self) -> (x: u32)
        ensures
            final(self).seed() == old(self).seed(),
            final(self).drawn() == old(self).drawn() + 1,
            x == rng_draw(old(self).seed(), old(self).drawn()),
    {
        rand::RngCore::next_u32(&mut self.inner)
    }

    /// Draws one value and maps it into `[0, SCALE)`: a uniform fixed-point
    /// fraction of a unit.
    pub fn draw_unit(&mut self) -> (t: u64)
        ensures
            final(self).seed() == old(self).seed(),
            final(self).drawn() == old(self).drawn() + 1,
            t == unit_spec(rng_draw(old(self).seed(), old(self).drawn())),
            t < SCALE,
    {
        let b: u32 = self.draw_u32();
        unit_from_bits(b)
    }
}

/// Relies on `rand::SeedableRng::seed_from_u64` for `StdRng`: the constructed
/// generator is a pure function of the 64-bit seed.
#[verifier::external_body]
fn stdrng_from_seed(seed: u64) -> rand::rngs::StdRng {
    <rand::rngs::StdRng as rand::SeedableRng>::seed_from_u64(seed)
}

/// The fixed-point fraction in `[0, SCALE)` that a 32-bit draw stands for.
pub open spec fn unit_spec(b: u32) -> int {
    ((b as int) * (SCALE as int)) / 0x1_0000_0000
}

/// Every draw maps into `[0, SCALE)`.
pub proof fn lemma_unit_spec_range(b: u32)
    ensures
        0 <= unit_spec(b) < SCALE,
{
    vstd::arithmetic::div_mod::lemma_div_pos_is_pos((b as int) * (SCALE as int), 0x1_0000_0000);
    assert((b as int) * (SCALE as int) <= 0xffff_ffffi64 as int * (SCALE as int))
        by (nonlinear_arith)
        requires
            b <= 0xffff_ffffu32,
            SCALE == 1_000_000,
    ;
    vstd::arithmetic::div_mod::lemma_div_is_ordered(
        (b as int) * (SCALE as int),
        0xffff_ffffi64 as int * (SCALE as int),
        0x1_0000_0000,
    );
    assert((0xffff_ffffi64 as int * (SCALE as int)) / 0x1_0000_0000 < SCALE as int);
}

/// Maps a 32-bit draw to a fixed-point fraction of a unit, truncating.
pub fn unit_from_bits(b: u32) -> (t: u64)
    ensures
        t == unit_spec(b),
        t < SCALE,
{
    proof {
        lemma_unit_spec_range(b);
    }
    let p: u128 = (b as u128) * (SCALE as u128);
    let q: u128 = p / 0x1_0000_0000u128;
    q as u64
}

} // verus!

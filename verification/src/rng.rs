//! The linear congruential generator that places spawned track objects.
//!
//! Each draw advances the 32-bit state by `state * 1664525 + 1013904223`
//! (mod 2^32) and hands out the top 24 bits, which the caller scales into a
//! range.

use vstd::prelude::*;

verus! {

/// The state a fresh spawner starts from.
pub const SPAWNER_SEED: u32 = 0x8b17_2084;

/// What a reset mixes into the seed it is given.
pub const RESEED_MASK: u32 = 0xa5a5_2084;

/// The multiplier of the generator.
pub const LCG_MULTIPLIER: u32 = 1_664_525;

/// The increment of the generator.
pub const LCG_INCREMENT: u32 = 1_013_904_223;

/// The largest sample a draw can give: 2^24 - 1.
pub const SAMPLE_MAX: u32 = 0x00ff_ffff;

/// One step of the generator.
pub open spec fn lcg_next(state: u32) -> u32 {
    ((state as nat * LCG_MULTIPLIER as nat + LCG_INCREMENT as nat) % 0x1_0000_0000) as u32
}

/// The sample that a state hands out: its top 24 bits.
pub open spec fn sample_of(state: u32) -> u32 {
    state / 256
}

/// The random state of an infinite spawner.
pub struct SpawnRng {
    state: u32,
}

impl View for SpawnRng {
    type V = u32;

    closed spec fn view(&self) -> u32 {
        self.state
    }
}

impl SpawnRng {
    /// The generator of a fresh spawner.
    pub fn new() -> (rng: Self)
        ensures
            rng@ == SPAWNER_SEED,
    {
        SpawnRng { state: SPAWNER_SEED }
    }

    /// Restarts the generator from `seed`, mixed with [`RESEED_MASK`].
    pub fn reseed(&mut self, seed: u32)
        ensures
            final(self)@ == seed ^ RESEED_MASK,
    {
        self.state = seed ^ RESEED_MASK;
    }

    /// Advances the generator one step and returns the new state's top 24 bits.
    pub fn next_sample(&mut self) -> (sample: u32)
        ensures
            final(self)@ == lcg_next(old(self)@),
            sample == sample_of(final(self)@),
            sample <= SAMPLE_MAX,
    {
        let next = self.state.wrapping_mul(LCG_MULTIPLIER).wrapping_add(LCG_INCREMENT);
        proof {
            lemma_wrapping_step(self.state);
        }
        self.state = next;
        let sample = next >> 8;
        assert(next >> 8 == next / 256) by (bit_vector);
        sample
    }

    /// The lowest bit of the current state.
    pub fn parity(&self) -> (bit: u32)
        ensures
            bit == self@ % 2,
    {
        let s = self.state;
        assert(s & 1 == s % 2) by (bit_vector);
        s & 1
    }
}

/// The wrapping multiply-then-add of the generator is the step modulo 2^32.
proof fn lemma_wrapping_step(s: u32)
    ensures
        vstd::wrapping::u32_specs::wrapping_add(vstd::wrapping::u32_specs::wrapping_mul(s, LCG_MULTIPLIER), LCG_INCREMENT)
            == lcg_next(s),
{
    let m: int = 0x1_0000_0000;
    let p: int = s as int * LCG_MULTIPLIER as int;
    let w: int = p % m;
    vstd::arithmetic::div_mod::lemma_add_mod_noop(p, LCG_INCREMENT as int, m);
    vstd::arithmetic::div_mod::lemma_mod_twice(p, m);
    vstd::arithmetic::div_mod::lemma_small_mod(LCG_INCREMENT as nat, m as nat);
    assert(0 <= w < m) by {
        vstd::arithmetic::div_mod::lemma_mod_bound(p, m);
    }
    assert(0 <= p) by (nonlinear_arith)
        requires p == s as int * LCG_MULTIPLIER as int, s >= 0;
    if w + LCG_INCREMENT >= m {
        vstd::arithmetic::div_mod::lemma_mod_sub_multiples_vanish(w + LCG_INCREMENT as int, m);
        vstd::arithmetic::div_mod::lemma_small_mod((w + LCG_INCREMENT - m) as nat, m as nat);
    } else {
        vstd::arithmetic::div_mod::lemma_small_mod((w + LCG_INCREMENT) as nat, m as nat);
    }
}

} // verus!

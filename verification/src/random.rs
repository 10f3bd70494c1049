//! The seeded random source. One stream serves the whole simulation, and
//! every draw is a function of the state before it.

use vstd::prelude::*;

verus! {

/// What a random source is started from.
pub type Seed = u64;

pub const GOLDEN_GAMMA: u64 = 0x9e37_79b9_7f4a_7c15;

pub const MIX_FIRST: u64 = 0xbf58_476d_1ce4_e5b9;

pub const MIX_SECOND: u64 = 0x94d0_49bb_1331_11eb;

/// The state that follows `state`.
pub open spec fn next_state(state: u64) -> u64 {
    state.wrapping_add(GOLDEN_GAMMA)
}

/// The number that a state yields: its bits mixed by two rounds of
/// xor-shift and multiply, and a last xor-shift.
pub open spec fn mix(state: u64) -> u64 {
    let a = (state ^ (state >> 30)).wrapping_mul(MIX_FIRST);
    let b = (a ^ (a >> 27)).wrapping_mul(MIX_SECOND);
    b ^ (b >> 31)
}

/// A deterministic pseudo-random generator.
#[derive(Clone, Copy, Debug, PartialEq, Eq, Structural)]
pub struct Randomizer {
    state: u64,
}

impl Randomizer {
    /// The state from which the next draw is made.
    pub closed spec fn spec_state(&self) -> u64 {
        self.state
    }

    /// A generator started from `seed`.
    pub fn new(seed: Seed) -> (r: Randomizer)
        ensures
            r.spec_state() == seed,
    {
        Randomizer { state: seed }
    }

    /// The state from which the next draw is made.
    pub fn state(&self) -> (s: u64)
        ensures
            s == self.spec_state(),
    {
        self.state
    }

    /// Draws the next number of the stream.
    pub fn next_u64(&mut self) -> (r: u64)
        ensures
            final(self).spec_state() == next_state(old(self).spec_state()),
            r == mix(next_state(old(self).spec_state())),
    {
        self.state = self.state.wrapping_add(GOLDEN_GAMMA);
        let s = self.state;
        let a = (s ^ (s >> 30)).wrapping_mul(MIX_FIRST);
        let b = (a ^ (a >> 27)).wrapping_mul(MIX_SECOND);
        b ^ (b >> 31)
    }

    /// Draws a number below `bound`: the next number of the stream, reduced
    /// modulo `bound`.
    pub fn below(&mut self, bound: u64) -> (r: u64)
        requires
            bound > 0,
        ensures
            final(self).spec_state() == next_state(old(self).spec_state()),
            r == mix(next_state(old(self).spec_state())) % bound,
    {
        let draw = self.next_u64();
        draw % bound
    }
}

} // verus!

//! SplitMix64: a small, portable, deterministic stream of 64-bit values.
use vstd::prelude::*;

verus! {

/// Increment added to the state before each output.
pub const GAMMA: u64 = 0x9e3779b97f4a7c15;

/// The output function of SplitMix64 applied to an already advanced state.
pub open spec fn mix(s: u64) -> u64 {
    let z1 = (s ^ (s >> 30u64)).wrapping_mul(0xbf58476d1ce4e5b9u64);
    let z2 = (z1 ^ (z1 >> 27u64)).wrapping_mul(0x94d049bb133111ebu64);
    z2 ^ (z2 >> 31u64)
}

/// A SplitMix64 generator; its whole state is one 64-bit word.
pub struct SplitMix64 {
    state: u64,
}

impl SplitMix64 {
    /// The current state word.
    pub closed spec fn state(&self) -> u64 {
        self.state
    }

    /// A generator whose state is zero.
    pub fn new() -> (r: Self)
        ensures
            r.state() == 0,
    {
        SplitMix64 { state: 0 }
    }

    /// A generator whose state is `seed`.
    pub fn from_seed(seed: u64) -> (r: Self)
        ensures
            r.state() == seed,
    {
        SplitMix64 { state: seed }
    }

    /// Advances the state by `GAMMA` (wrapping) and returns the mixed new state.
    pub fn gen_u64(&mut self) -> (r: u64)
        ensures
            final(self).state() == old(self).state().wrapping_add(GAMMA),
            r == mix(final(self).state()),
    {
        self.state = self.state.wrapping_add(GAMMA);
        let mut z: u64 = self.state;
        z = (z ^ (z >> 30u64)).wrapping_mul(0xbf58476d1ce4e5b9u64);
        z = (z ^ (z >> 27u64)).wrapping_mul(0x94d049bb133111ebu64);
        z ^ (z >> 31u64)
    }

    /// The upper 32 bits of the next 64-bit value.
    pub fn gen_u32(&mut self) -> (r: u32)
        ensures
            final(self).state() == old(self).state().wrapping_add(GAMMA),
            r == (mix(final(self).state()) >> 32u64) as u32,
    {
        let v = self.gen_u64();
        (v >> 32u64) as u32
    }
}

} // verus!

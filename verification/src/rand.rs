//! Deterministic pseudo-random generator (xorshift) used by the terrain
//! decoder to scatter cosmetic decoration tiles. Reproducibility matters:
//! the same seed and the same inputs always give the same stream.
use vstd::prelude::*;

verus! {

/// One step of the generator: increment, then three xorshifts.
/// The increment wraps so the step is total.
pub open spec fn rand_step(s0: i32) -> i32 {
    let s1 = vstd::wrapping::i32_specs::wrapping_add(s0, 1);
    let s2 = s1 ^ (s1 >> 6u32);
    let s3 = s2 ^ (s2 << 12u32);
    s3 ^ (s3 >> 13u32)
}

/// Xorshift generator state.
#[derive(Copy, Clone, Debug, PartialEq, Eq, Structural)]
pub struct RandState {
    pub state: i32,
}

impl RandState {
    pub fn new(state: i32) -> (r: RandState)
        ensures
            r.state == state,
    {
        RandState { state }
    }

    /// Advance the generator and return the new state value.
    pub fn next(&mut self) -> (r: i32)
        ensures
            final(self).state == rand_step(old(self).state),
            r == rand_step(old(self).state),
    {
        let mut s: i32 = self.state.wrapping_add(1);
        s = s ^ (s >> 6u32);
        s = s ^ (s << 12u32);
        s = s ^ (s >> 13u32);
        self.state = s;
        s
    }
}

} // verus!

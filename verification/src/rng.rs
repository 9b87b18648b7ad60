//! Pseudo-random sampling.
//!
//! Every render task owns one `RandomSource`, threaded explicitly through
//! each function that draws from it. The generator is a linear congruential
//! step on a 64-bit state whose upper half is handed out, so a whole
//! sampling sequence is a function of the seed alone and a render can be
//! reproduced bit for bit. A convenience constructor takes its seed from the
//! process-wide entropy of the `rand` crate instead.
use vstd::prelude::*;

verus! {

/// Multiplier of the congruential step.
pub const RNG_MUL: u64 = 6364136223846793005;

/// Increment of the congruential step.
pub const RNG_INC: u64 = 1442695040888963407;

/// The generator state that follows `s`.
pub open spec fn rng_next(s: u64) -> u64 {
    ((s * RNG_MUL + RNG_INC) % 0x1_0000_0000_0000_0000) as u64
}

/// The 32-bit word handed out when stepping from state `s`: the upper half
/// of the successor state.
pub open spec fn rng_out(s: u64) -> u64 {
    rng_next(s) / 0x1_0000_0000
}

/// The word drawn from state `s`, reduced below `n`.
pub open spec fn rng_below(s: u64, n: u64) -> u64 {
    rng_out(s) % n
}

/// The raw scalar drawn from state `s`, uniform in `[lo, hi)`.
pub open spec fn rng_in_range(s: u64, lo: int, hi: int) -> int {
    lo + rng_below(s, (hi - lo) as u64)
}

/// An explicitly owned pseudo-random source, one per render task.
#[derive(Clone, Copy, PartialEq, Eq, Structural, Debug)]
pub struct RandomSource {
    pub state: u64,
}

/// Relies on `rand::random` for one entropy word when a caller wants an
/// unpredictable seed; nothing can be promised of a random value, so no
/// contract is assumed of it.
pub assume_specification<T>[ rand::random::<T> ]() -> (r: T)
    where
        rand::distributions::Standard: rand::distributions::Distribution<T>,
;

impl RandomSource {
    /// A source whose whole sequence is determined by `seed`.
    pub fn new(seed: u64) -> (r: RandomSource)
        ensures
            r.state == seed,
    {
        RandomSource { state: seed }
    }

    /// A source seeded from the process entropy; the draws that follow are
    /// still a function of that one seed.
    pub fn from_entropy() -> RandomSource {
        RandomSource { state: rand::random::<u64>() }
    }

    /// Step the generator and hand out a 32-bit word.
    pub fn next_raw(&mut self) -> (r: u64)
        ensures
            final (self).state == rng_next(old(self).state),
            r == rng_out(old(self).state),
            r < 0x1_0000_0000,
    {
        proof {
            let s = self.state as int;
            assert(s * (RNG_MUL as int) + RNG_INC
                < 0x1_0000_0000_0000_0000_0000_0000_0000_0000int) by (nonlinear_arith)
                requires
                    0 <= s <= 0xFFFF_FFFF_FFFF_FFFFu64,
            ;
        }
        let p: u128 = (self.state as u128) * (RNG_MUL as u128) + (RNG_INC as u128);
        let ns: u64 = (p % 0x1_0000_0000_0000_0000u128) as u64;
        self.state = ns;
        ns / 0x1_0000_0000
    }

    /// Draw a word below `n`.
    pub fn below(&mut self, n: u64) -> (r: u64)
        requires
            1 <= n,
        ensures
            final (self).state == rng_next(old(self).state),
            r == rng_below(old(self).state, n),
            r < n,
    {
        let o = self.next_raw();
        o % n
    }

    /// Draw a raw scalar uniform in `[lo, hi)`.
    pub fn in_range(&mut self, lo: i64, hi: i64) -> (r: i64)
        requires
            lo < hi,
            hi - lo <= 0xFFFF_FFFF,
            crate::fx::fxv(lo as int),
            crate::fx::fxv(hi as int),
        ensures
            final (self).state == rng_next(old(self).state),
            r == rng_in_range(old(self).state, lo as int, hi as int),
            lo <= r < hi,
            crate::fx::fxv(r as int),
    {
        let span: u64 = (hi - lo) as u64;
        let o = self.below(span);
        lo + (o as i64)
    }
}

} // verus!

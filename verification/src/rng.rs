//! The engine's injectable random source: a 64-bit linear congruential
//! generator.
//!
//! The orbit policy redraws its target radius every captured frame. Holding
//! that draw in an explicit, seedable generator keeps a step a pure function
//! of the store's state, so repeated runs from the same snapshot agree.

use vstd::prelude::*;
use vstd::arithmetic::div_mod::lemma_mod_bound;

verus! {

/// Multiplier of the linear congruential step.
pub const LCG_MUL: u64 = 6364136223846793005;

/// Increment of the linear congruential step.
pub const LCG_INC: u64 = 1442695040888963407;

/// The successor state: `state * LCG_MUL + LCG_INC`, modulo 2^64.
pub open spec fn lcg_next(s: u64) -> u64 {
    (((s as int) * (LCG_MUL as int) + (LCG_INC as int)) % 18446744073709551616int) as u64
}

/// The value a draw in `[lo, hi)` yields from the post-draw state `s`.
pub open spec fn lcg_in_range(s: u64, lo: int, hi: int) -> int {
    lo + ((s as int) % (hi - lo))
}

/// A seedable deterministic generator.
pub struct Lcg {
    pub state: u64,
}

impl Lcg {
    /// Start the generator from a seed.
    pub fn new(seed: u64) -> (r: Lcg)
        ensures
            r.state == seed,
    {
        Lcg { state: seed }
    }

    /// Advance one step and hand back the new state.
    pub fn next_u64(&mut self) -> (r: u64)
        ensures
            final(self).state == lcg_next(old(self).state),
            r == final(self).state,
    {
        proof {
            assert((self.state as int) * (LCG_MUL as int) + (LCG_INC as int)
                <= u128::MAX as int) by (nonlinear_arith)
                requires
                    0 <= self.state as int <= u64::MAX as int,
            ;
            lemma_mod_bound(
                (self.state as int) * (LCG_MUL as int) + (LCG_INC as int),
                18446744073709551616int,
            );
        }
        let wide: u128 = (self.state as u128) * (LCG_MUL as u128) + (LCG_INC as u128);
        let next: u64 = (wide % 18446744073709551616u128) as u64;
        self.state = next;
        next
    }

    /// Draw a value uniformly-ish placed in `[lo, hi)`.
    pub fn next_in_range(&mut self, lo: i64, hi: i64) -> (r: i64)
        requires
            lo < hi,
            hi as int - lo as int <= i64::MAX as int,
        ensures
            final(self).state == lcg_next(old(self).state),
            r as int == lcg_in_range(final(self).state, lo as int, hi as int),
            lo <= r < hi,
    {
        let raw = self.next_u64();
        let span: u64 = (hi - lo) as u64;
        proof {
            lemma_mod_bound(raw as int, span as int);
        }
        let off: u64 = raw % span;
        lo + (off as i64)
    }
}

} // verus!

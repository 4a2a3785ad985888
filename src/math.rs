//! A small linear congruential generator.

use vstd::prelude::*;

verus! {

/// Multiplier of the generator.
pub const LCG_MULT: u64 = 1103515245;

/// Increment of the generator.
pub const LCG_INC: u64 = 12345;

/// Draws are integers below this bound; a draw over the bound is a fraction in [0, 1).
pub const DRAW_RANGE: u64 = 1000000;

/// The generator's state after one step from `seed`: `seed * 1103515245 + 12345` modulo 2^64.
pub open spec fn lcg_next(seed: u64) -> u64 {
    (((seed as nat * LCG_MULT as nat) % 0x1_0000_0000_0000_0000nat + LCG_INC as nat)
        % 0x1_0000_0000_0000_0000nat) as u64
}

/// Linear congruential generator over a 64-bit state.
pub struct SimpleRng {
    pub seed: u64,
}

impl SimpleRng {
    /// A generator whose state is `seed`.
    pub fn new(seed: u64) -> (r: Self)
        ensures
            r.seed == seed,
    {
        Self { seed }
    }

    /// Advances the state one step and returns the new state modulo 1,000,000.
    pub fn next_draw(&mut self) -> (r: u64)
        ensures
            final(self).seed == lcg_next(old(self).seed),
            r == lcg_next(old(self).seed) % DRAW_RANGE,
            r < DRAW_RANGE,
    {
        self.seed = self.seed.wrapping_mul(LCG_MULT).wrapping_add(LCG_INC);
        self.seed % DRAW_RANGE
    }
}

} // verus!

use vstd::prelude::*;
use vstd::arithmetic::div_mod::{lemma_add_mod_noop, lemma_mod_mod};

verus! {

/// Multiplier of the generator.
pub const LCG_A: u64 = 1664525;

/// Increment of the generator.
pub const LCG_C: u64 = 1013904223;

/// Modulus of the generator, 2^32.
pub const LCG_M: u64 = 0x1_0000_0000;

/// The state that follows `s`.
pub open spec fn lcg_step(s: u64) -> u64 {
    ((LCG_A * s + LCG_C) % (LCG_M as int)) as u64
}

/// The state after `n` steps from `s`.
pub open spec fn lcg_iterate(s: u64, n: nat) -> u64
    decreases n,
{
    if n == 0 {
        s
    } else {
        lcg_step(lcg_iterate(s, (n - 1) as nat))
    }
}

/// A linear congruential generator modulo 2^32; its output is a pure
/// function of the seed and of the number of draws made.
pub struct LinearCongruentialGenerator {
    state: u64,
}

impl LinearCongruentialGenerator {
    /// The current state, which is also the last value drawn.
    pub closed spec fn state(&self) -> u64 {
        self.state
    }

    pub fn new(seed: u64) -> (r: Self)
        ensures
            r.state() == seed,
    {
        LinearCongruentialGenerator { state: seed }
    }

    /// Advances the state and returns it; the result is below 2^32.
    pub fn next(&mut self) -> (r: u64)
        ensures
            r == lcg_step(old(self).state()),
            final(self).state() == r,
            r < LCG_M,
    {
        let s = self.state;
        let t = LCG_A.wrapping_mul(s).wrapping_add(LCG_C);
        proof {
            let big: int = 0x1_0000_0000_0000_0000;
            let m: int = LCG_M as int;
            assert(big == m * m);
            lemma_mod_mod((LCG_A * s) as int, m, m);
            lemma_mod_mod(((LCG_A * s) % big + LCG_C) as int, m, m);
            lemma_add_mod_noop((LCG_A * s) % big, LCG_C as int, m);
            lemma_add_mod_noop((LCG_A * s) as int, LCG_C as int, m);
            assert((LCG_C as int) % m == LCG_C as int);
        }
        self.state = t % LCG_M;
        self.state
    }

    /// Draws a value in `[min, max)`.
    pub fn next_range(&mut self, min: u64, max: u64) -> (r: u64)
        requires
            min < max,
        ensures
            r as int == min as int + (lcg_step(old(self).state()) as int) % ((max - min) as int),
            final(self).state() == lcg_step(old(self).state()),
            min <= r < max,
    {
        let v = self.next();
        min + v % (max - min)
    }
}

} // verus!

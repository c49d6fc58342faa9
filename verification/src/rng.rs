//! A small linear congruential pseudo-random number generator, used by
//! external consumers of the console (the game module) for piece selection.

use vstd::prelude::*;

verus! {

/// The next state of the generator: a linear congruential step modulo 2^32.
pub open spec fn lcg_next(state: u32) -> int {
    (state * 1664525 + 1013904223) % 0x100000000
}

/// A linear congruential pseudo-random number generator.
pub struct SimpleRng {
    state: u32,
}

impl SimpleRng {
    pub closed spec fn state_spec(&self) -> u32 {
        self.state
    }

    /// A generator seeded with the given value.
    pub fn new(seed: u32) -> (r: SimpleRng)
        ensures
            r.state_spec() == seed,
    {
        SimpleRng { state: seed }
    }

    /// Advances the generator one step and returns the new state.
    pub fn next_u32(&mut self) -> (r: u32)
        ensures
            r == lcg_next(old(self).state_spec()),
            final(self).state_spec() == r,
    {
        let a: u32 = 1664525;
        let c: u32 = 1013904223;
        let state = self.state;
        let next_state = state.wrapping_mul(a).wrapping_add(c);
        self.state = next_state;
        proof {
            let m = 0x100000000int;
            let prod = (state * 1664525) as int;
            vstd::arithmetic::div_mod::lemma_add_mod_noop(prod, 1013904223int, m);
            vstd::arithmetic::div_mod::lemma_small_mod(1013904223nat, m as nat);
            vstd::arithmetic::div_mod::lemma_mod_bound(prod, m);
            let wm = prod % m;
            if wm + 1013904223 <= u32::MAX {
                vstd::arithmetic::div_mod::lemma_small_mod((wm + 1013904223) as nat, m as nat);
            } else {
                vstd::arithmetic::div_mod::lemma_mod_multiples_vanish(
                    1,
                    wm + 1013904223 - m,
                    m,
                );
                vstd::arithmetic::div_mod::lemma_small_mod(
                    (wm + 1013904223 - m) as nat,
                    m as nat,
                );
            }
        }
        next_state
    }
}

} // verus!

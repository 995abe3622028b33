//! The xorshift64 generator behind every random draw of the simulation, and
//! the per-cell seed that makes parallel evaluation reproducible.

use vstd::prelude::*;

verus! {

/// One xorshift64 step; a zero state is first replaced by 1.
pub open spec fn xorshift_step(state: u64) -> u64 {
    let s0: u64 = if state == 0 { 1 } else { state };
    let s1: u64 = s0 ^ (s0 << 13u64);
    let s2: u64 = s1 ^ (s1 >> 7u64);
    s2 ^ (s2 << 17u64)
}

/// Advances a xorshift64 state by one step and returns the new state.
pub fn xorshift64(state: u64) -> (r: u64)
    ensures
        r == xorshift_step(state),
        r != 0,
{
    let mut s: u64 = if state == 0 { 1 } else { state };
    let s0 = s;
    s = s ^ (s << 13u64);
    let s1 = s;
    s = s ^ (s >> 7u64);
    let s2 = s;
    s = s ^ (s << 17u64);
    proof {
        assert(s1 != 0) by (bit_vector)
            requires
                s0 != 0,
                s1 == s0 ^ (s0 << 13u64),
        ;
        assert(s2 != 0) by (bit_vector)
            requires
                s1 != 0,
                s2 == s1 ^ (s1 >> 7u64),
        ;
        assert(s != 0) by (bit_vector)
            requires
                s2 != 0,
                s == s2 ^ (s2 << 17u64),
        ;
    }
    s
}

/// Advances a state held in place (the macro-weather stream) and returns the
/// new state.
pub fn advance_state(state: &mut u64) -> (r: u64)
    ensures
        r == xorshift_step(*old(state)),
        *final(state) == r,
{
    *state = xorshift64(*state);
    *state
}

/// A xorshift64 stream owned by one evaluation.
pub struct Rng {
    pub state: u64,
}

impl Rng {
    /// A stream that starts from `seed`; a zero seed acts as 1 on the first
    /// draw.
    pub fn new(seed: u64) -> (r: Rng)
        ensures
            r.state == seed,
    {
        Rng { state: seed }
    }

    /// The next 64-bit draw of the stream; it is also the new state.
    pub fn next_u64(&mut self) -> (r: u64)
        ensures
            r == xorshift_step(old(self).state),
            final(self).state == r,
            r != 0,
    {
        self.state = xorshift64(self.state);
        self.state
    }
}

} // verus!

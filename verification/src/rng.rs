//! A deterministic 64-bit pseudo-random generator (xorshift recurrence).
//!
//! The whole behaviour of the generator is a function of its state, so every
//! output and every state transition is pinned exactly by the spec functions
//! below: two generators constructed with the same seed produce the same
//! stream of values.

use vstd::prelude::*;

verus! {

/// One step of the xorshift recurrence on a 64-bit state.
pub open spec fn xorshift_step(s: u64) -> u64 {
    let a = s ^ (s << 13);
    let b = a ^ (a >> 17);
    b ^ (b << 43)
}

/// The value `rand(min, max)` returns when the generator's state is `s`.
pub open spec fn rand_result(s: u64, min: usize, max: usize) -> usize
    recommends
        min <= max,
{
    if min == max {
        min
    } else if min == 0 && max == usize::MAX {
        s as usize
    } else {
        (min + (s as int) % (max - min + 1)) as usize
    }
}

/// The generator state after a call of `rand(min, max)` on state `s`:
/// a degenerate range consumes no randomness, every other range consumes
/// one draw.
pub open spec fn rand_state(s: u64, min: usize, max: usize) -> u64 {
    if min == max {
        s
    } else {
        xorshift_step(s)
    }
}

/// A basic random number generator based on xorshift64 with 64 bits of state.
pub struct Rng {
    state: u64,
}

impl View for Rng {
    type V = u64;

    closed spec fn view(&self) -> u64 {
        self.state
    }
}

impl Rng {
    /// Construct a generator whose state is exactly the given seed.
    pub fn new(seed: u64) -> (r: Rng)
        ensures
            r@ == seed,
    {
        Rng { state: seed }
    }

    /// The current state, for replaying a run from the same seed.
    pub fn seed_value(&self) -> (s: u64)
        ensures
            s == self@,
    {
        self.state
    }

    /// Generate a random number: returns the current state and advances the
    /// state by one xorshift step.
    pub fn next(&mut self) -> (val: u64)
        ensures
            val == old(self)@,
            final(self)@ == xorshift_step(old(self)@),
    {
        let val = self.state;
        self.state = self.state ^ (self.state << 13);
        self.state = self.state ^ (self.state >> 17);
        self.state = self.state ^ (self.state << 43);
        val
    }

    /// Generate a random number uniformly distributed over the inclusive
    /// range `[min, max]`. A degenerate range returns `min` without touching
    /// the state; the full non-negative range returns the raw draw.
    pub fn rand(&mut self, min: usize, max: usize) -> (r: usize)
        requires
            min <= max,
        ensures
            min <= r <= max,
            r == rand_result(old(self)@, min, max),
            final(self)@ == rand_state(old(self)@, min, max),
    {
        if min == max {
            return min;
        }
        if min == 0 && max == usize::MAX {
            return self.next() as usize;
        }
        let range = max - min + 1;
        let rem = (self.next() % (range as u64)) as usize;
        min + rem
    }
}

} // verus!

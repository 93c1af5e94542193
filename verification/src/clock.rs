//! The frame clock: a scalar that advances by a fixed amount once per loop
//! iteration. It is deliberately not wall-clock time, so the animation rate
//! follows the iteration rate (in practice, the display refresh rate).
//!
//! The value is held as an exact integer count of time units; the graphics
//! layer widens it to the GPU's scalar uniform format when submitting a frame.

use vstd::prelude::*;

verus! {

/// How much the clock advances on every tick.
pub const TICK_INCREMENT: u64 = 10;

/// The retained, monotonically non-decreasing time scalar.
#[derive(Clone, Copy, PartialEq, Eq, Structural, Debug)]
pub struct FrameClock {
    pub time: u64,
}

impl FrameClock {
    /// A fresh clock, before the first iteration.
    pub open spec fn spec_new() -> FrameClock {
        FrameClock { time: 0 }
    }

    /// One tick, as a value-level function.
    pub open spec fn spec_tick(self) -> FrameClock {
        FrameClock { time: (self.time + TICK_INCREMENT) as u64 }
    }

    /// The clock obtained from a fresh one by `n` ticks.
    pub open spec fn spec_ticked(n: nat) -> FrameClock
        decreases n,
    {
        if n == 0 {
            Self::spec_new()
        } else {
            Self::spec_ticked((n - 1) as nat).spec_tick()
        }
    }

    pub fn new() -> (c: FrameClock)
        ensures
            c == Self::spec_new(),
    {
        FrameClock { time: 0 }
    }

    /// Advance by the fixed increment and return the new value.
    pub fn tick(&mut self) -> (t: u64)
        requires
            old(self).time + TICK_INCREMENT <= u64::MAX,
        ensures
            *final(self) == old(self).spec_tick(),
            t == final(self).time,
            t == old(self).time + TICK_INCREMENT,
    {
        self.time = self.time + TICK_INCREMENT;
        self.time
    }
}

/// Fixed-increment law: after `n` ticks of a fresh clock the value is exactly
/// `TICK_INCREMENT * n`, with no dependence on elapsed wall time.
pub proof fn lemma_clock_fixed_increment(n: nat)
    requires
        TICK_INCREMENT * n <= u64::MAX,
    ensures
        FrameClock::spec_ticked(n).time == TICK_INCREMENT * n,
    decreases n,
{
    if n > 0 {
        lemma_clock_fixed_increment((n - 1) as nat);
    }
}

} // verus!

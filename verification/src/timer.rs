//! Tick-driven countdown timers.
//!
//! Time counts milliseconds.  A `RepeatTimer` drives a spawner: it fires
//! on period completion and then starts a fresh period, discarding any
//! overshoot.  A `CountdownTimer` is one-shot and gates the player's
//! fire rate: it runs to its duration, stays finished, and is reset (or
//! replaced with a new duration) by its owner.

use vstd::prelude::*;

verus! {

/// Largest tick duration the simulation accepts, in milliseconds.
pub const DT_LIMIT: u64 = 1_000_000;

/// Largest timer period or duration, in milliseconds.
pub const PERIOD_LIMIT: u64 = 1_000_000_000;

/// A repeating countdown: `elapsed_ms` grows each tick and wraps to zero
/// on completion, dropping overshoot.
#[derive(Clone, Copy, PartialEq, Eq, Structural, Debug)]
pub struct RepeatTimer {
    pub period_ms: u64,
    pub elapsed_ms: u64,
}

impl RepeatTimer {
    pub open spec fn wf(self) -> bool {
        &&& 1 <= self.period_ms <= PERIOD_LIMIT
        &&& self.elapsed_ms < self.period_ms
    }

    pub fn new(period_ms: u64) -> (t: RepeatTimer)
        requires
            1 <= period_ms <= PERIOD_LIMIT,
        ensures
            t.period_ms == period_ms,
            t.elapsed_ms == 0,
            t.wf(),
    {
        RepeatTimer { period_ms, elapsed_ms: 0 }
    }

    /// Advance by `dt`; the result tells whether the period completed
    /// this tick.  Completion resets the countdown to a fresh period,
    /// discarding overshoot.
    pub fn tick(&mut self, dt: u64) -> (fired: bool)
        requires
            old(self).wf(),
            dt <= DT_LIMIT,
        ensures
            final(self).wf(),
            final(self).period_ms == old(self).period_ms,
            fired == (old(self).elapsed_ms + dt >= old(self).period_ms),
            fired ==> final(self).elapsed_ms == 0,
            !fired ==> final(self).elapsed_ms == old(self).elapsed_ms + dt,
    {
        let e = self.elapsed_ms + dt;
        if e >= self.period_ms {
            self.elapsed_ms = 0;
            true
        } else {
            self.elapsed_ms = e;
            false
        }
    }
}

/// A one-shot countdown: `elapsed_ms` grows each tick and saturates at
/// `duration_ms`; the timer is finished exactly when it has reached it.
#[derive(Clone, Copy, PartialEq, Eq, Structural, Debug)]
pub struct CountdownTimer {
    pub duration_ms: u64,
    pub elapsed_ms: u64,
}

impl CountdownTimer {
    pub open spec fn wf(self) -> bool {
        &&& 1 <= self.duration_ms <= PERIOD_LIMIT
        &&& self.elapsed_ms <= self.duration_ms
    }

    pub open spec fn spec_is_finished(self) -> bool {
        self.elapsed_ms >= self.duration_ms
    }

    pub fn new(duration_ms: u64) -> (t: CountdownTimer)
        requires
            1 <= duration_ms <= PERIOD_LIMIT,
        ensures
            t.duration_ms == duration_ms,
            t.elapsed_ms == 0,
            t.wf(),
    {
        CountdownTimer { duration_ms, elapsed_ms: 0 }
    }

    /// Advance by `dt`, saturating at the duration.
    pub fn tick(&mut self, dt: u64)
        requires
            old(self).wf(),
            dt <= DT_LIMIT,
        ensures
            final(self).wf(),
            final(self).duration_ms == old(self).duration_ms,
            old(self).elapsed_ms + dt <= old(self).duration_ms ==> final(self).elapsed_ms
                == old(self).elapsed_ms + dt,
            old(self).elapsed_ms + dt > old(self).duration_ms ==> final(self).elapsed_ms
                == old(self).duration_ms,
    {
        let e = self.elapsed_ms + dt;
        if e > self.duration_ms {
            self.elapsed_ms = self.duration_ms;
        } else {
            self.elapsed_ms = e;
        }
    }

    pub fn is_finished(&self) -> (r: bool)
        ensures
            r == self.spec_is_finished(),
    {
        self.elapsed_ms >= self.duration_ms
    }

    /// Start the countdown over with the same duration.
    pub fn reset(&mut self)
        ensures
            final(self).duration_ms == old(self).duration_ms,
            final(self).elapsed_ms == 0,
    {
        self.elapsed_ms = 0;
    }
}

} // verus!

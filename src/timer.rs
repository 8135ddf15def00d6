//! A throttling clock: it accumulates elapsed time until a period has passed.
use vstd::prelude::*;

verus! {

/// Period of the instruction clock (500 Hz), in nanoseconds.
pub const CLOCK_PERIOD_NANOS: u64 = 2_000_000;
/// Period of the frame clock (60 Hz), in nanoseconds, rounded up.
pub const FRAME_PERIOD_NANOS: u64 = 16_666_667;

/// An accumulator of elapsed time. Times are nanoseconds on one monotonic
/// clock chosen by the host.
#[derive(Clone, Copy, Debug)]
pub struct Timer {
    /// The time of the last update or reset.
    pub prev: u64,
    /// Time accumulated since the last reset, saturating.
    pub acc: u64,
    /// The time added by the last update.
    pub delta: u64,
}

/// A timer restarted at time `now`.
pub open spec fn restarted(now: u64) -> Timer {
    Timer { prev: now, acc: 0, delta: 0 }
}

impl Timer {
    /// A timer whose reference time is the clock's origin.
    pub fn new() -> (r: Timer)
        ensures
            r == restarted(0),
    {
        Timer { prev: 0, acc: 0, delta: 0 }
    }

    /// Adds the time elapsed since the previous update, read at `now`. A
    /// clock that seems to run backwards adds nothing.
    pub fn update(&mut self, now: u64)
        ensures
            final(self).prev == now,
            final(self).delta == (if now >= old(self).prev { now - old(self).prev } else { 0 }),
            final(self).acc == (if old(self).acc + final(self).delta <= u64::MAX {
                old(self).acc + final(self).delta
            } else {
                u64::MAX as int
            }),
    {
        self.delta = now.saturating_sub(self.prev);
        self.acc = self.acc.saturating_add(self.delta);
        self.prev = now;
    }

    /// Drops all accumulated time, excess over the period included, and
    /// measures from `now` on.
    pub fn reset(&mut self, now: u64)
        ensures
            *final(self) == restarted(now),
    {
        self.prev = now;
        self.delta = 0;
        self.acc = 0;
    }

    /// Whether at least `period` has accumulated.
    pub fn is_ready(&self, period: u64) -> (r: bool)
        ensures
            r == (self.acc >= period),
    {
        self.acc >= period
    }
}

} // verus!

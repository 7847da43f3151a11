//! Points in time and spans of time, counted in timer ticks.

use vstd::prelude::*;

verus! {

/// Ticks per second of the system timer.
pub const TICK_HZ: u64 = 1_000_000;

/// A point in time, in ticks since boot.
#[derive(Clone, Copy, Debug, PartialEq, Eq, Structural)]
pub struct Instant {
    pub ticks: u64,
}

/// A span of time in ticks.
#[derive(Clone, Copy, Debug, PartialEq, Eq, Structural)]
pub struct Duration {
    pub ticks: u64,
}

impl Duration {
    pub fn from_ticks(ticks: u64) -> (r: Duration)
        ensures
            r.ticks == ticks,
    {
        Duration { ticks }
    }

    pub fn from_secs(secs: u64) -> (r: Duration)
        requires
            secs * TICK_HZ <= u64::MAX,
        ensures
            r.ticks == secs * TICK_HZ,
    {
        Duration { ticks: secs * TICK_HZ }
    }

    pub fn from_millis(millis: u64) -> (r: Duration)
        requires
            millis * 1000 <= u64::MAX,
        ensures
            r.ticks == millis * 1000,
    {
        Duration { ticks: millis * 1000 }
    }

    pub fn from_micros(micros: u64) -> (r: Duration)
        ensures
            r.ticks == micros,
    {
        Duration { ticks: micros }
    }
}

impl Instant {
    pub fn from_ticks(ticks: u64) -> (r: Instant)
        ensures
            r.ticks == ticks,
    {
        Instant { ticks }
    }

    /// The last instant that can be told; stands for "never".
    pub fn max() -> (r: Instant)
        ensures
            r.ticks == u64::MAX,
    {
        Instant { ticks: u64::MAX }
    }

    /// The instant `span` later.
    pub fn after(self, span: Duration) -> (r: Instant)
        requires
            self.ticks + span.ticks <= u64::MAX,
        ensures
            r.ticks == self.ticks + span.ticks,
    {
        Instant { ticks: self.ticks + span.ticks }
    }

    /// The span since `earlier`, or zero where `earlier` is later.
    pub fn saturating_duration_since(self, earlier: Instant) -> (r: Duration)
        ensures
            r.ticks == if self.ticks >= earlier.ticks {
                self.ticks - earlier.ticks
            } else {
                0
            },
    {
        if self.ticks >= earlier.ticks {
            Duration { ticks: self.ticks - earlier.ticks }
        } else {
            Duration { ticks: 0 }
        }
    }
}

} // verus!

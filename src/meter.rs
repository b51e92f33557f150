//! Byte-rate meter over one-second wall-clock windows.
use vstd::prelude::*;

verus! {

/// Length of a metering window, in milliseconds.
pub const WINDOW_MS: u64 = 1000;

/// Counts bytes per window. Times are milliseconds on a monotonic clock.
#[derive(Clone, Copy, Debug, PartialEq, Eq, Structural)]
pub struct Measurement {
    /// Bytes charged in the running window.
    pub accumulator: u64,
    /// Bytes charged in the window completed last.
    pub latest: u64,
    /// When the running window began.
    pub window_start: u64,
}

/// Whether the running window is over at `now`.
pub open spec fn window_over(m: Measurement, now: u64) -> bool {
    now >= m.window_start && now - m.window_start >= WINDOW_MS
}

/// The meter after the window is rolled at `now`, where it is over.
pub open spec fn rolled(m: Measurement, now: u64) -> Measurement {
    if window_over(m, now) {
        Measurement { accumulator: 0, latest: m.accumulator, window_start: now }
    } else {
        m
    }
}

/// `a + b`, held at `u64::MAX`.
pub open spec fn add_sat(a: u64, b: u64) -> u64 {
    if a + b > u64::MAX {
        u64::MAX
    } else {
        (a + b) as u64
    }
}

/// The meter after `bytes` are charged at `now`.
pub open spec fn sampled(m: Measurement, bytes: u64, now: u64) -> Measurement {
    Measurement {
        accumulator: add_sat(rolled(m, now).accumulator, bytes),
        ..rolled(m, now)
    }
}

impl Measurement {
    /// A meter with nothing charged, its first window starting at `now`.
    pub fn new(now: u64) -> (r: Measurement)
        ensures
            r == (Measurement { accumulator: 0, latest: 0, window_start: now }),
    {
        Measurement { accumulator: 0, latest: 0, window_start: now }
    }

    /// Bytes of the window completed last, after rolling the window when a
    /// second or more has passed since it began.
    pub fn per_second(&mut self, now: u64) -> (r: u64)
        ensures
            *final(self) == rolled(*old(self), now),
            r == final(self).latest,
    {
        if now >= self.window_start && now - self.window_start >= WINDOW_MS {
            self.latest = self.accumulator;
            self.accumulator = 0;
            self.window_start = now;
        }
        self.latest
    }

    /// Charges `bytes` to the running window, rolling it first where it is
    /// over.
    pub fn sample(&mut self, bytes: u64, now: u64)
        ensures
            *final(self) == sampled(*old(self), bytes, now),
    {
        self.per_second(now);
        self.accumulator = self.accumulator.saturating_add(bytes);
    }
}

} // verus!

//! Plain clock values: spans and points on one monotonic clock.
use vstd::prelude::*;

verus! {

/// Nanoseconds in a millisecond.
pub const NS_PER_MS: u64 = 1_000_000;

/// Nanoseconds in a second.
pub const NS_PER_S: u64 = 1_000_000_000;

/// A span of time in nanoseconds.
#[derive(Clone, Copy, Debug, PartialEq, Eq, Structural)]
pub struct Duration {
    pub ns: u64,
}

/// `a + b`, or the largest value where that does not fit.
pub open spec fn sat_add(a: u64, b: u64) -> u64 {
    if a + b > u64::MAX {
        u64::MAX
    } else {
        (a + b) as u64
    }
}

/// `a * b`, or the largest value where that does not fit.
pub open spec fn sat_mul(a: u64, b: u64) -> u64 {
    if a * b > u64::MAX {
        u64::MAX
    } else {
        (a * b) as u64
    }
}

/// `a - b`, or zero where `b` is larger.
pub open spec fn sat_sub(a: u64, b: u64) -> u64 {
    if a < b {
        0
    } else {
        (a - b) as u64
    }
}

/// `a + b`, starting again from zero past the largest value.
pub open spec fn wrap_add(a: u64, b: u64) -> u64 {
    if a + b > u64::MAX {
        (a + b - u64::MAX - 1) as u64
    } else {
        (a + b) as u64
    }
}

/// Product that stops at the largest value.
pub fn saturating_mul_u64(a: u64, b: u64) -> (r: u64)
    ensures
        r == sat_mul(a, b),
{
    match a.checked_mul(b) {
        Some(v) => v,
        None => u64::MAX,
    }
}

impl Duration {
    /// `ns` nanoseconds.
    pub fn from_nanos(ns: u64) -> (d: Duration)
        ensures
            d.ns == ns,
    {
        Duration { ns }
    }

    /// `ms` milliseconds (stops at the longest span).
    pub fn from_millis(ms: u64) -> (d: Duration)
        ensures
            d.ns == sat_mul(ms, NS_PER_MS),
    {
        Duration { ns: saturating_mul_u64(ms, NS_PER_MS) }
    }

    /// `s` seconds (stops at the longest span).
    pub fn from_secs(s: u64) -> (d: Duration)
        ensures
            d.ns == sat_mul(s, NS_PER_S),
    {
        Duration { ns: saturating_mul_u64(s, NS_PER_S) }
    }

    /// Whole milliseconds.
    pub fn as_millis(&self) -> (ms: u64)
        ensures
            ms == self.ns / NS_PER_MS,
    {
        self.ns / NS_PER_MS
    }
}

/// A point on the monotonic clock, in nanoseconds since its start.
#[derive(Clone, Copy, Debug, PartialEq, Eq, Structural)]
pub struct Instant {
    pub ns: u64,
}

impl Instant {
    /// The point `ns` nanoseconds after the clock's start.
    pub fn at_nanos(ns: u64) -> (t: Instant)
        ensures
            t.ns == ns,
    {
        Instant { ns }
    }

    /// This point moved on by `d` (stops at the last point).
    pub fn plus(&self, d: Duration) -> (t: Instant)
        ensures
            t.ns == sat_add(self.ns, d.ns),
    {
        Instant { ns: self.ns.saturating_add(d.ns) }
    }

    /// Span since `earlier`, zero when `earlier` is later.
    pub fn saturating_duration_since(&self, earlier: Instant) -> (d: Duration)
        ensures
            d.ns == sat_sub(self.ns, earlier.ns),
    {
        Duration { ns: self.ns.saturating_sub(earlier.ns) }
    }
}

} // verus!

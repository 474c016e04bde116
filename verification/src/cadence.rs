//! Wall-clock cadence of the download loop's housekeeping.
//!
//! Draining and confirm offers follow events; the steps below run at these
//! periods.
use vstd::prelude::*;
use crate::time::{sat_sub, Instant};

verus! {

/// Getdata assignment, in nanoseconds (as all periods here).
pub const ASSIGN_PERIOD_NS: u64 = 50_000_000;

/// Stall and relative-slow disconnects, cooldown expiry.
pub const PEER_SLOW_PERIOD_NS: u64 = 1_000_000_000;

/// Compacting the ordered path and trimming its maps.
pub const HYGIENE_PERIOD_NS: u64 = 1_000_000_000;

/// Header poll. An empty work path does not wait for it.
pub const HEADERS_PERIOD_NS: u64 = 500_000_000;

/// When each step last ran.
#[derive(Debug)]
pub struct IbdLoopCadence {
    pub last_assign: Option<Instant>,
    pub last_peer_slow: Option<Instant>,
    pub last_hygiene: Option<Instant>,
    pub last_headers: Option<Instant>,
}

/// Has `period` passed since `last`? A first run is always due.
pub open spec fn is_due(last: Option<Instant>, now: Instant, period_ns: u64) -> bool {
    match last {
        Some(t) => sat_sub(now.ns, t.ns) >= period_ns,
        None => true,
    }
}

impl IbdLoopCadence {
    /// Nothing has run yet.
    pub fn new() -> (r: Self)
        ensures
            r == (IbdLoopCadence {
                last_assign: None,
                last_peer_slow: None,
                last_hygiene: None,
                last_headers: None,
            }),
    {
        IbdLoopCadence {
            last_assign: None,
            last_peer_slow: None,
            last_hygiene: None,
            last_headers: None,
        }
    }

    fn due(last: Option<Instant>, now: Instant, period_ns: u64) -> (b: bool)
        ensures
            b == is_due(last, now, period_ns),
    {
        match last {
            Some(t) => now.saturating_duration_since(t).ns >= period_ns,
            None => true,
        }
    }

    /// Assign on the first turn, every period, or at once when nothing is
    /// requested.
    pub fn assign_due(&self, now: Instant, inflight_empty: bool) -> (b: bool)
        ensures
            b == (inflight_empty || is_due(self.last_assign, now, ASSIGN_PERIOD_NS)),
    {
        inflight_empty || IbdLoopCadence::due(self.last_assign, now, ASSIGN_PERIOD_NS)
    }

    /// Assignment ran.
    pub fn mark_assign(&mut self, now: Instant)
        ensures
            *final(self) == (IbdLoopCadence { last_assign: Some(now), ..*old(self) }),
    {
        self.last_assign = Some(now);
    }

    /// Slow-peer checks due?
    pub fn peer_slow_due(&self, now: Instant) -> (b: bool)
        ensures
            b == is_due(self.last_peer_slow, now, PEER_SLOW_PERIOD_NS),
    {
        IbdLoopCadence::due(self.last_peer_slow, now, PEER_SLOW_PERIOD_NS)
    }

    /// Slow-peer checks ran.
    pub fn mark_peer_slow(&mut self, now: Instant)
        ensures
            *final(self) == (IbdLoopCadence { last_peer_slow: Some(now), ..*old(self) }),
    {
        self.last_peer_slow = Some(now);
    }

    /// Hygiene every period, or at once when the ordered path is bloated.
    pub fn hygiene_due(&self, now: Instant, bloated: bool) -> (b: bool)
        ensures
            b == (bloated || is_due(self.last_hygiene, now, HYGIENE_PERIOD_NS)),
    {
        bloated || IbdLoopCadence::due(self.last_hygiene, now, HYGIENE_PERIOD_NS)
    }

    /// Hygiene ran.
    pub fn mark_hygiene(&mut self, now: Instant)
        ensures
            *final(self) == (IbdLoopCadence { last_hygiene: Some(now), ..*old(self) }),
    {
        self.last_hygiene = Some(now);
    }

    /// Header poll every period, or at once when the work path is empty.
    pub fn headers_due(&self, now: Instant, path_empty: bool) -> (b: bool)
        ensures
            b == (path_empty || is_due(self.last_headers, now, HEADERS_PERIOD_NS)),
    {
        path_empty || IbdLoopCadence::due(self.last_headers, now, HEADERS_PERIOD_NS)
    }

    /// Header poll ran.
    pub fn mark_headers(&mut self, now: Instant)
        ensures
            *final(self) == (IbdLoopCadence { last_headers: Some(now), ..*old(self) }),
    {
        self.last_headers = Some(now);
    }
}

/// A step that has just run is not due again before its period is over, and is
/// due from then on.
pub proof fn law_period_gates(ran: Instant, now: Instant, period_ns: u64)
    requires
        now.ns >= ran.ns,
        period_ns > 0,
    ensures
        is_due(Some(ran), now, period_ns) <==> now.ns - ran.ns >= period_ns,
        !is_due(Some(ran), ran, period_ns),
        is_due(None, now, period_ns),
{
}

} // verus!

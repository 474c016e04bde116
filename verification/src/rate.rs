//! Receive-rate figures of one download peer.
use vstd::prelude::*;
use crate::time::sat_sub;

verus! {

/// Receive clocks and the smoothed rate of a peer. Times are milliseconds on
/// the download clock; zero means never.
#[derive(Clone, Copy, Debug, PartialEq, Eq, Structural)]
pub struct PeerRate {
    /// Last time block bytes came in.
    pub progress_ms: u64,
    /// Last time work was handed to an idle peer.
    pub work_started_ms: u64,
    /// How long the rate has been sampled while work was out.
    pub active_ms: u64,
    /// Smoothed bytes per second, absent before the first sample.
    pub ewma_bps: Option<u64>,
}

impl PeerRate {
    /// No byte received and no work started.
    pub open spec fn spec_idle() -> PeerRate {
        PeerRate { progress_ms: 0, work_started_ms: 0, active_ms: 0, ewma_bps: None }
    }

    /// No byte received and no work started.
    pub fn idle() -> (r: PeerRate)
        ensures
            r == PeerRate::spec_idle(),
    {
        PeerRate { progress_ms: 0, work_started_ms: 0, active_ms: 0, ewma_bps: None }
    }

    /// Smoothed bytes per second.
    pub fn bps(&self) -> (r: Option<u64>)
        ensures
            r == self.ewma_bps,
    {
        self.ewma_bps
    }

    /// Did block bytes come in within the last `stale_ms`?
    pub open spec fn recent(self, now_ms: u64, stale_ms: u64) -> bool {
        self.progress_ms != 0 && sat_sub(now_ms, self.progress_ms) <= stale_ms
    }

    /// Did block bytes come in within the last `stale_ms`?
    pub fn has_recent_rx(&self, now_ms: u64, stale_ms: u64) -> (b: bool)
        ensures
            b == self.recent(now_ms, stale_ms),
    {
        self.progress_ms != 0 && now_ms.saturating_sub(self.progress_ms) <= stale_ms
    }

    /// Work is out, and neither bytes nor fresh work came for `stall_ms`.
    pub open spec fn stuck(self, now_ms: u64, stall_ms: u64, has_work: bool) -> bool {
        has_work && sat_sub(now_ms, self.progress_ms) >= stall_ms && sat_sub(
            now_ms,
            self.work_started_ms,
        ) >= stall_ms
    }

    /// Work is out, and neither bytes nor fresh work came for `stall_ms`.
    pub fn stalled(&self, now_ms: u64, stall_ms: u64, has_work: bool) -> (b: bool)
        ensures
            b == self.stuck(now_ms, stall_ms, has_work),
    {
        has_work && now_ms.saturating_sub(self.progress_ms) >= stall_ms && now_ms.saturating_sub(
            self.work_started_ms,
        ) >= stall_ms
    }

    /// Work was handed to the idle peer at `now_ms`. Not a receipt.
    pub fn note_work_started(&mut self, now_ms: u64)
        ensures
            *final(self) == (PeerRate { work_started_ms: now_ms, ..*old(self) }),
    {
        self.work_started_ms = now_ms;
    }

    /// Block bytes came in at `now_ms`.
    pub fn note_rx(&mut self, now_ms: u64)
        ensures
            *final(self) == (PeerRate { progress_ms: now_ms, ..*old(self) }),
    {
        self.progress_ms = now_ms;
    }
}

} // verus!

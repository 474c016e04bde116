//! Limits the download loop runs under.
use vstd::prelude::*;

verus! {

/// Missing hashes above the tip that are always requested.
pub const TIP_HOLE_MAX: usize = 32;

/// Peers racing for one of those hashes.
pub const TIP_HOLE_MAX_PEERS: usize = 4;

/// Headers in one full reply.
pub const MAX_HEADERS_RESULTS: usize = 2000;

/// Limits of one download run.
#[derive(Clone, Copy, Debug, PartialEq, Eq, Structural)]
pub struct IbdConfig {
    /// Hashes requested at a time, over all peers.
    pub window: usize,
    /// Hashes requested at a time from one peer.
    pub per_peer: usize,
    /// How far above the tip bodies are fetched.
    pub densify_ahead: u32,
    /// Heights walked in one densify scan.
    pub far_scan_budget: usize,
    /// Age at which a pending mark goes stale, in milliseconds.
    pub pending_stale_ms: u64,
    /// Longest ordered path.
    pub max_ordered_headers: usize,
    /// Ordered path length past which headers are asked for only with cause.
    pub ordered_soft_cap: usize,
    /// Most addresses the dial book learns.
    pub max_peer_pool: usize,
}

} // verus!

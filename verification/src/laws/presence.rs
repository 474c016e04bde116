//! What the marks on a body mean for requesting it.
use vstd::prelude::*;
use crate::body::BodyView;
use crate::chain::HubView;
use crate::fetch::demoted;
use crate::hash::BlockHash;

verus! {

/// Are the marks of `g` the same in both?
pub open spec fn same_marks(a: BodyView, b: BodyView, g: BlockHash) -> bool {
    &&& a.known.contains(g) == b.known.contains(g)
    &&& a.pending.contains_key(g) == b.pending.contains_key(g)
    &&& a.pending.contains_key(g) ==> a.pending[g] == b.pending[g]
    &&& a.missing.contains(g) == b.missing.contains(g)
    &&& a.rejected.contains(g) == b.rejected.contains(g)
}

/// A body that came in is not requested again while its mark stands, and a second receipt
/// keeps the time of the first.
pub proof fn law_received_body_is_not_requested(
    b: BodyView,
    h: BlockHash,
    g: BlockHash,
    now_ms: u64,
    later_ms: u64,
    confirmed: bool,
)
    requires
        g != h,
    ensures
        b.with_pending(h, now_ms).skips(h, confirmed),
        !b.rejected.contains(h) && !b.pending.contains_key(h) ==> b.with_pending(
            h,
            now_ms,
        ).with_pending(h, later_ms).pending[h] == now_ms,
        !b.rejected.contains(h) ==> !b.with_pending(h, now_ms).missing.contains(h),
        same_marks(b.with_pending(h, now_ms), b, g),
{
}

/// A body found absent is requested again, confirmed or not, unless it was refused for good.
pub proof fn law_absent_body_is_requested(b: BodyView, h: BlockHash, g: BlockHash, confirmed: bool)
    requires
        !b.rejected.contains(h),
        g != h,
    ensures
        !b.with_missing(h).skips(h, confirmed),
        !b.with_missing(h).known.contains(h),
        same_marks(b.with_missing(h), b, g),
{
}

/// A body refused for good is never requested, whatever is found later.
pub proof fn law_refused_body_is_never_requested(
    b: BodyView,
    h: BlockHash,
    g: BlockHash,
    now_ms: u64,
    confirmed: bool,
)
    requires
        g != h,
    ensures
        b.with_rejected(h).skips(h, confirmed),
        b.with_rejected(h).with_missing(h).skips(h, confirmed),
        b.with_rejected(h).with_archived(h).skips(h, confirmed),
        !b.with_rejected(h).with_pending(h, now_ms).pending.contains_key(h),
        same_marks(b.with_rejected(h), b, g),
{
}

/// An archived body keeps no pending mark, and its mark alone does not stop a request: only
/// a confirmed block does.
pub proof fn law_archived_mark_alone_stops_nothing(b: BodyView, h: BlockHash, g: BlockHash)
    requires
        !b.rejected.contains(h),
        g != h,
    ensures
        b.with_archived(h).known.contains(h),
        !b.with_archived(h).pending.contains_key(h) && !b.with_archived(h).missing.contains(h),
        b.with_archived(h).skips(h, true),
        !b.with_archived(h).skips(h, false),
        same_marks(b.with_archived(h), b, g),
{
}

/// Asking about a body remembers a confirmed block as archived and touches nothing else.
pub proof fn law_asking_remembers_confirmed(b: BodyView, h: BlockHash, g: BlockHash)
    requires
        g != h,
    ensures
        b.after_skip_probe(h, false) == b,
        !b.rejected.contains(h) && !b.pending.contains_key(h) && !b.missing.contains(h)
            ==> b.after_skip_probe(h, true).known.contains(h),
        same_marks(b.after_skip_probe(h, true), b, g),
{
}

/// A pending mark stands only with wire of this very hash queued at its height, or with the
/// block confirmed; without either the body is absent, so that it is requested again.
pub proof fn law_pending_mark_needs_wire(
    b: BodyView,
    hub: HubView,
    h: BlockHash,
    height: Option<u32>,
    g: BlockHash,
)
    requires
        b.pending.contains_key(h),
        !b.rejected.contains(h),
        g != h,
    ensures
        hub.blocks.contains(h) || height is Some && hub.queue.contains_key(height->0)
            && hub.queue[height->0].hash == h ==> demoted(b, hub, h, height) == b,
        !hub.blocks.contains(h) && !(height is Some && hub.queue.contains_key(height->0)
            && hub.queue[height->0].hash == h) ==> !demoted(b, hub, h, height).skips(h, false),
        same_marks(demoted(b, hub, h, height), b, g),
{
}

} // verus!

//! What the confirm engine is offered, and how claims end.
use vstd::prelude::*;
use crate::body::BodyView;
use crate::chain::HubView;
use crate::confirm_feed::{offer_made, offered_from, plan_stale, FeedView, Offer};
use crate::hash::BlockHash;

verus! {

/// Is the block at `height` of the path there for confirm: neither confirmed nor refused,
/// and queued under its hash or taken?
pub open spec fn waits_at(h2h: Map<u32, BlockHash>, body: BodyView, hub: HubView, height: u32) -> bool {
    &&& h2h.contains_key(height)
    &&& !hub.blocks.contains(h2h[height])
    &&& !body.rejected.contains(h2h[height])
    &&& hub.taken_hi is Some && height <= hub.taken_hi->0 || hub.queue.contains_key(height)
        && hub.queue[height].hash == h2h[height]
}

proof fn lemma_offer_keeps(
    o: Offer,
    h2h: Map<u32, BlockHash>,
    body: BodyView,
    hub: HubView,
    height: int,
    limit: u32,
)
    requires
        0 <= height,
    ensures
        ({
            let r = offered_from(o, h2h, body, hub, height, limit);
            &&& r.max_ready >= o.max_ready
            &&& r.feed.inflight == o.feed.inflight
            &&& forall|at: u32| #[trigger]
                o.feed.ready.contains_key(at) ==> r.feed.ready.contains_key(at)
                    && r.feed.ready[at].hash == o.feed.ready[at].hash
        }),
    decreases limit - height + 1,
{
    if height <= limit && !crate::confirm_feed::offer_stops(h2h, body, hub, height as u32) {
        let hash = h2h[height as u32];
        let next = if hub.blocks.contains(hash) {
            o
        } else {
            Offer {
                feed: o.feed.noted(height as u32, hash, None),
                max_ready: crate::chain::max32(o.max_ready, height as u32),
                noted: o.noted + 1,
            }
        };
        lemma_offer_keeps(next, h2h, body, hub, height + 1, limit);
        let r = offered_from(o, h2h, body, hub, height, limit);
        assert forall|at: u32| #[trigger] o.feed.ready.contains_key(at) implies
            r.feed.ready.contains_key(at) && r.feed.ready[at].hash == o.feed.ready[at].hash by {
            assert(next.feed.ready.contains_key(at));
        }
    }
}

proof fn lemma_offer_reaches(
    o: Offer,
    h2h: Map<u32, BlockHash>,
    body: BodyView,
    hub: HubView,
    height: int,
    limit: u32,
    at: u32,
)
    requires
        0 <= height <= at <= limit,
        forall|k: u32| height <= k <= at ==> #[trigger] waits_at(h2h, body, hub, k),
        height == hub.path_lo() ==> {
            let first = h2h[hub.path_lo()];
            hub.parents.contains_key(first) ==> hub.tip is Some && (hub.tip->0).hash
                == hub.parents[first]
        },
        hub.path_lo() <= height,
    ensures
        ({
            let r = offered_from(o, h2h, body, hub, height, limit);
            &&& !o.feed.inflight.contains(at) ==> r.feed.ready.contains_key(at)
            &&& !o.feed.inflight.contains(at) && !o.feed.ready.contains_key(at)
                ==> r.feed.ready[at].hash == h2h[at]
            &&& r.max_ready >= at
        }),
    decreases limit - height + 1,
{
    assert(waits_at(h2h, body, hub, height as u32));
    let hash = h2h[height as u32];
    assert(!crate::confirm_feed::offer_stops(h2h, body, hub, height as u32));
    let next = Offer {
        feed: o.feed.noted(height as u32, hash, None),
        max_ready: crate::chain::max32(o.max_ready, height as u32),
        noted: o.noted + 1,
    };
    if height < at {
        lemma_offer_reaches(next, h2h, body, hub, height + 1, limit, at);
    } else {
        lemma_offer_keeps(next, h2h, body, hub, height + 1, limit);
        if !o.feed.inflight.contains(at) {
            assert(next.feed.ready.contains_key(at));
        }
    }
}

/// A run of waiting blocks from above the tip is offered whole, as far as 192 heights past
/// its start, unless its first block is known to have another parent than the tip. What is
/// in flight stays so, and the highest ready height reaches the run's end.
pub proof fn law_waiting_run_is_offered(
    feed: FeedView,
    max_ready: u32,
    h2h: Map<u32, BlockHash>,
    body: BodyView,
    hub: HubView,
    at: u32,
)
    requires
        hub.path_lo() <= at <= hub.path_lo() + 192,
        forall|k: u32| hub.path_lo() <= k <= at ==> #[trigger] waits_at(h2h, body, hub, k),
        ({
            let first = h2h[hub.path_lo()];
            hub.parents.contains_key(first) ==> hub.tip is Some && (hub.tip->0).hash
                == hub.parents[first]
        }),
    ensures
        ({
            let r = offer_made(feed, max_ready, h2h, body, hub);
            &&& !feed.inflight.contains(at) ==> r.feed.ready.contains_key(at)
            &&& !feed.inflight.contains(at) && !feed.ready.contains_key(at)
                ==> r.feed.ready[at].hash == h2h[at]
            &&& r.feed.inflight == feed.inflight
            &&& r.max_ready >= at
        }),
{
    let o = Offer { feed, max_ready, noted: 0 };
    let lo = hub.path_lo() as int;
    let limit = crate::chain::sat_add32(hub.path_lo(), 192);
    lemma_offer_reaches(o, h2h, body, hub, lo, limit, at);
    lemma_offer_keeps(o, h2h, body, hub, lo, limit);
}

proof fn lemma_offer_stops(
    o: Offer,
    h2h: Map<u32, BlockHash>,
    body: BodyView,
    hub: HubView,
    height: int,
    limit: u32,
    gap: u32,
    at: u32,
)
    requires
        0 <= height <= gap <= at,
        crate::confirm_feed::offer_stops(h2h, body, hub, gap),
    ensures
        offered_from(o, h2h, body, hub, height, limit).feed.ready.contains_key(at)
            == o.feed.ready.contains_key(at),
    decreases limit - height + 1,
{
    if height <= limit && !crate::confirm_feed::offer_stops(h2h, body, hub, height as u32) {
        let hash = h2h[height as u32];
        let next = if hub.blocks.contains(hash) {
            o
        } else {
            Offer {
                feed: o.feed.noted(height as u32, hash, None),
                max_ready: crate::chain::max32(o.max_ready, height as u32),
                noted: o.noted + 1,
            }
        };
        lemma_offer_stops(next, h2h, body, hub, height + 1, limit, gap, at);
    }
}

/// Nothing from a gap on becomes ready: where the path ends, where a block was refused,
/// where a body is not there, or where the first block has another parent than the tip.
pub proof fn law_offer_ends_at_a_gap(
    feed: FeedView,
    max_ready: u32,
    h2h: Map<u32, BlockHash>,
    body: BodyView,
    hub: HubView,
    gap: u32,
    at: u32,
)
    requires
        hub.path_lo() <= gap <= at,
        !h2h.contains_key(gap) || !hub.blocks.contains(h2h[gap]) && (body.rejected.contains(
            h2h[gap],
        ) || !(hub.taken_hi is Some && gap <= hub.taken_hi->0) && !(hub.queue.contains_key(gap)
            && hub.queue[gap].hash == h2h[gap]) || gap == hub.path_lo()
            && hub.parents.contains_key(h2h[gap]) && !(hub.tip is Some && (hub.tip->0).hash
            == hub.parents[h2h[gap]])),
    ensures
        offer_made(feed, max_ready, h2h, body, hub).feed.ready.contains_key(at)
            == feed.ready.contains_key(at),
{
    lemma_offer_stops(
        Offer { feed, max_ready, noted: 0 },
        h2h,
        body,
        hub,
        hub.path_lo() as int,
        crate::chain::sat_add32(hub.path_lo(), crate::confirm_feed::OFFER_AHEAD),
        gap,
        at,
    );
}

/// A height that is ready keeps the hash it was noted with first, and the wire it has; one
/// without wire takes the wire of a later note. Other heights are not touched.
pub proof fn law_first_note_keeps_its_hash(
    f: FeedView,
    height: u32,
    a: BlockHash,
    b: BlockHash,
    wire: Option<Seq<u8>>,
    bytes: Seq<u8>,
    other: u32,
)
    requires
        !f.inflight.contains(height),
        !f.ready.contains_key(height),
        other != height,
    ensures
        f.noted(height, a, wire).ready[height].hash == a,
        f.noted(height, a, wire).ready[height].wire == wire,
        f.noted(height, a, wire).noted(height, b, Some(bytes)).ready[height].hash == a,
        f.noted(height, a, None).noted(height, b, Some(bytes)).ready[height].wire == Some(bytes),
        wire is Some ==> f.noted(height, a, wire).noted(height, b, Some(bytes)).ready[height].wire
            == wire,
        f.noted(height, a, wire).ready.contains_key(other) == f.ready.contains_key(other),
        f.noted(height, a, wire).inflight == f.inflight,
        f.noted(height, a, wire).epoch == f.epoch,
{
}

/// A claim takes one height out of the ready ones and notes its epoch; putting it back and
/// finishing it touch no other height.
pub proof fn law_claims_touch_one_height(
    f: FeedView,
    height: u32,
    epoch: u64,
    row: (u32, BlockHash, Option<Seq<u8>>),
    other: u32,
)
    requires
        row.0 == height,
        other != height,
    ensures
        ({
            let c = f.claimed(height, epoch);
            &&& !c.ready.contains_key(height) && c.inflight.contains(height)
            &&& c.claimed_epoch[height] == epoch
            &&& c.claim_stale(height) <==> epoch != f.epoch
            &&& c.ready.contains_key(other) == f.ready.contains_key(other)
            &&& c.inflight.contains(other) == f.inflight.contains(other)
            &&& c.claim_stale(other) == f.claim_stale(other)
            &&& c.put_back(row).ready.contains_key(other) == f.ready.contains_key(other)
            &&& c.put_back(row).inflight.contains(other) == f.inflight.contains(other)
            &&& c.put_back(row).claimed_epoch == c.claimed_epoch
            &&& c.finished(seq![height]).inflight.contains(other) == f.inflight.contains(other)
            &&& c.finished(seq![height]).claim_stale(other) == f.claim_stale(other)
            &&& c.finished(seq![height]).ready.contains_key(height) == false
        }),
{
    assert(seq![height][0] == height);
    assert(seq![height].to_set().contains(height));
    assert(!seq![height].to_set().contains(other));
}

/// A batch is out of date exactly when it does not start right above the tip, or when the
/// feed was cleared after its claim.
pub proof fn law_stale_batch(hub: HubView, f: FeedView, first_h: u32, epoch: u64)
    requires
        f.claimed_epoch.contains_key(first_h),
        f.claimed_epoch[first_h] == epoch,
        hub.tip is Some ==> (hub.tip->0).height < u32::MAX,
    ensures
        hub.tip is Some ==> (plan_stale(hub, f, first_h) <==> first_h != (hub.tip->0).height + 1
            || epoch != f.epoch),
        hub.tip is None ==> (plan_stale(hub, f, first_h) <==> first_h != 0 || epoch != f.epoch),
        !f.cleared().single,
        f.cleared().epoch != f.epoch,
        f.cleared().claimed_epoch == f.claimed_epoch,
        f.cleared().stop == f.stop,
{
}

} // verus!

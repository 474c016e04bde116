//! Where a received body goes.
use vstd::prelude::*;
use crate::body_events::{
    body_failed, explored, framed_begun, learnable, lost_in, placed, DrainFrom, DrainTurn, FramedStep, PlaceStep,
    RewindReply,
};
use crate::assign::densify_top;
use crate::chain::HubView;
use crate::config::IbdConfig;
use crate::hash::BlockHash;
use crate::peers::{PeerAddr, PeerIp, SlotView};
use crate::state::WorkView;
use crate::wire::parses_as_block;

verus! {

/// Every body that densify may ask for is taken: with the writer at the first height above
/// the tip or past it, a body at a height above the tip that is no more than the fetched
/// stretch above it goes to the queue unless confirm has it, and the state stays.
pub proof fn law_fetched_bodies_are_taken(
    v: WorkView,
    hub: HubView,
    cfg: IbdConfig,
    write_next: u32,
    hash: BlockHash,
    height: u32,
    payload: Seq<u8>,
    now_ms: u64,
)
    requires
        v.hash_height.contains_key(hash) && v.hash_height[hash] == height,
        hub.tip is Some ==> height > hub.tip->0.height && (write_next > hub.tip->0.height
            || write_next == u32::MAX) && height <= hub.tip->0.height + 1 + cfg.densify_ahead,
        hub.tip is None ==> height > 0 && height <= cfg.densify_ahead,
        !(hub.taken_hi is Some && height <= hub.taken_hi->0),
        !hub.blocks.contains(hash),
        !(hub.queue.contains_key(height) && hub.queue[height].hash == hash),
    ensures
        placed(v, hub, cfg, write_next, hash, payload, now_ms) == (v, PlaceStep::Offer { height }),
{
}

/// Densify and placing agree on how far ahead is far enough: with the writer right above the
/// tip, the highest body that densify asks for is taken, and the one above it is refused.
pub proof fn law_densify_asks_as_far_as_bodies_are_taken(
    v: WorkView,
    hub: HubView,
    cfg: IbdConfig,
    hash: BlockHash,
    payload: Seq<u8>,
    now_ms: u64,
)
    requires
        hub.tip is Some,
        (hub.tip->0).height + 2 + cfg.densify_ahead <= u32::MAX,
        v.hash_height.contains_key(hash),
        hub.taken_hi is None,
        !hub.blocks.contains(hash),
        forall|ht: u32| !(#[trigger] hub.queue.contains_key(ht)),
        !v.body.rejected.contains(hash),
    ensures
        ({
            let next = ((hub.tip->0).height + 1) as u32;
            let top = densify_top(hub, cfg);
            let height = v.hash_height[hash];
            let (w, step) = placed(v, hub, cfg, next, hash, payload, now_ms);
            &&& top == next + cfg.densify_ahead
            &&& next <= height <= top ==> step == PlaceStep::Offer { height } && w == v
            &&& height > top ==> step == PlaceStep::Done && w.body.missing.contains(hash)
        }),
{
}

/// A body that is there for confirm already, queued under its hash, confirmed or taken, goes
/// nowhere, and nothing changes.
pub proof fn law_ready_body_goes_nowhere(
    v: WorkView,
    hub: HubView,
    cfg: IbdConfig,
    write_next: u32,
    hash: BlockHash,
    height: u32,
    payload: Seq<u8>,
    now_ms: u64,
)
    requires
        v.hash_height.contains_key(hash) && v.hash_height[hash] == height,
        hub.tip is Some && height > hub.tip->0.height,
        height <= hub.tip->0.height + cfg.densify_ahead || height <= write_next + cfg.densify_ahead,
        hub.taken_hi is Some && height <= hub.taken_hi->0 || hub.blocks.contains(hash)
            || hub.queue.contains_key(height) && hub.queue[height].hash == hash,
    ensures
        placed(v, hub, cfg, write_next, hash, payload, now_ms) == (v, PlaceStep::Done),
{
}

/// A body at or below the tip that is not the tip's own is held, bytes and all, and counts
/// as pending; no other body's mark changes.
pub proof fn law_side_body_is_held(
    v: WorkView,
    hub: HubView,
    cfg: IbdConfig,
    write_next: u32,
    hash: BlockHash,
    height: u32,
    payload: Seq<u8>,
    now_ms: u64,
    g: BlockHash,
)
    requires
        v.hash_height.contains_key(hash) && v.hash_height[hash] == height,
        hub.tip is Some && height <= hub.tip->0.height && hub.tip->0.hash != hash,
        parses_as_block(payload),
        g != hash,
    ensures
        ({
            let (w, step) = placed(v, hub, cfg, write_next, hash, payload, now_ms);
            &&& step == PlaceStep::Held { height }
            &&& w.reorg.held.contains_key(hash) && w.reorg.held[hash] == payload
            &&& !v.body.rejected.contains(hash) && !v.body.known.contains(hash)
                ==> w.body.pending.contains_key(hash)
            &&& w.reorg.held.contains_key(g) == v.reorg.held.contains_key(g)
            &&& v.reorg.held.contains_key(g) ==> w.reorg.held[g] == v.reorg.held[g]
            &&& w.body.pending.contains_key(g) == v.body.pending.contains_key(g)
            &&& w.body.missing.contains(g) == v.body.missing.contains(g)
            &&& w.body.known.contains(g) == v.body.known.contains(g)
            &&& w.height_to_hash == v.height_to_hash && w.ordered == v.ordered
        }),
{
}

/// A body without a height, or further ahead than both the tip's and the writer's stretch,
/// is missing again and goes nowhere.
pub proof fn law_body_too_far_ahead_is_missing(
    v: WorkView,
    hub: HubView,
    cfg: IbdConfig,
    write_next: u32,
    hash: BlockHash,
    payload: Seq<u8>,
    now_ms: u64,
    g: BlockHash,
)
    requires
        !v.hash_height.contains_key(hash) || hub.tip is Some && v.hash_height[hash]
            > hub.tip->0.height + cfg.densify_ahead && v.hash_height[hash] > write_next
            + cfg.densify_ahead,
        !v.body.rejected.contains(hash),
        g != hash,
    ensures
        ({
            let (w, step) = placed(v, hub, cfg, write_next, hash, payload, now_ms);
            &&& step == PlaceStep::Done
            &&& w.body.missing.contains(hash)
            &&& !w.body.pending.contains_key(hash) && !w.body.known.contains(hash)
            &&& w.body.missing.contains(g) == v.body.missing.contains(g)
            &&& w.body.pending.contains_key(g) == v.body.pending.contains_key(g)
            &&& w.body.known.contains(g) == v.body.known.contains(g)
            &&& w.reorg == v.reorg && w.inflight == v.inflight
        }),
{
}

/// A body that came in settles its request whatever it is. One of a block that was neither
/// refused nor confirmed goes on with its header's row where there is one, and else with the
/// header that its first 80 bytes spell; a shorter one is missing again.
pub proof fn law_received_body_goes_on(
    v: WorkView,
    hub: HubView,
    peer: usize,
    hash: BlockHash,
    payload: Seq<u8>,
    now_ms: u64,
    out: WorkView,
    step: FramedStep,
    i: int,
)
    requires
        framed_begun(v, hub, peer, hash, payload, now_ms, out, step),
    ensures
        !out.inflight.contains_key(hash),
        0 <= i < out.slots.len() ==> !out.slots[i].in_flight.contains(hash),
        out.height_to_hash == v.height_to_hash && out.ordered == v.ordered,
        v.body.rejected.contains(hash) || hub.blocks.contains(hash) ==> step is Done && out.body
            == v.body,
        !v.body.rejected.contains(hash) && !hub.blocks.contains(hash) ==> {
            &&& v.header_fks.contains_key(hash) ==> step == FramedStep::Place(v.header_fks[hash])
            &&& !v.header_fks.contains_key(hash) && payload.len() < 80 ==> step is Done
                && out.body.missing.contains(hash)
            &&& !v.header_fks.contains_key(hash) && payload.len() >= 80 ==> (
            step matches FramedStep::EnsureHeader(h) && h.spelled_by(payload.subrange(0, 80)))
        },
{
}

/// An unusable body settles its request, counts as progress of its peer, and is missing again
/// where it was pending; other bodies stay as they were.
pub proof fn law_unusable_body_is_missing_again(
    v: WorkView,
    peer: usize,
    hash: BlockHash,
    now_ms: u64,
    g: BlockHash,
)
    requires
        g != hash,
        !v.body.rejected.contains(hash),
    ensures
        ({
            let w = body_failed(v, peer, hash, now_ms);
            &&& !w.inflight.contains_key(hash)
            &&& w.inflight.contains_key(g) == v.inflight.contains_key(g)
            &&& v.body.pending.contains_key(hash) ==> w.body.missing.contains(hash)
                && !w.body.pending.contains_key(hash)
            &&& !v.body.pending.contains_key(hash) ==> w.body == v.body
            &&& w.body.pending.contains_key(g) == v.body.pending.contains_key(g)
            &&& w.body.missing.contains(g) == v.body.missing.contains(g)
            &&& w.height_to_hash == v.height_to_hash
        }),
{
}

/// Bodies are drained for at most 40 ms and control events for at most 5 ms or 512 of them;
/// control events come after bodies, and the turn ends after them.
pub proof fn law_drain_budgets(t: DrainTurn, elapsed_ns: u64)
    ensures
        t.from == DrainFrom::Body ==> (t.spent(elapsed_ns) <==> elapsed_ns >= 40_000_000)
            && t.following() == DrainFrom::Ctrl,
        t.from == DrainFrom::Ctrl ==> (t.spent(elapsed_ns) <==> elapsed_ns >= 5_000_000 || t.ctrl_n
            >= 512) && t.following() == DrainFrom::Stop,
        t.from == DrainFrom::Stop ==> !t.spent(elapsed_ns),
{
}

/// Exploration ends only with the answer that no branch is heavier.
pub proof fn law_exploration_ends_when_nothing_is_heavier(v: WorkView)
    ensures
        explored(v, RewindReply::Rewound) == v && explored(v, RewindReply::Failed) == v,
        explored(v, RewindReply::Kept).reorg.explore_tips.len() == 0,
        v.reorg.explore_tips.len() > 0 ==> explored(v, RewindReply::Kept).reorg.explore_need.len()
            == 0,
        explored(v, RewindReply::Kept).reorg.held == v.reorg.held && explored(
            v,
            RewindReply::Kept,
        ).reorg.awaiting == v.reorg.awaiting,
{
}

/// Neither our own address nor one without a host or a port is learned; every other is.
pub proof fn law_learned_addresses(local: PeerAddr, a: PeerAddr)
    ensures
        !learnable(local)(local),
        a.port == 0 ==> !learnable(local)(a),
        a.ip == (PeerIp::V4 { a: 0, b: 0, c: 0, d: 0 }) ==> !learnable(local)(a),
        a.ip == (PeerIp::V6 { hi: 0, lo: 0 }) ==> !learnable(local)(a),
        a != local && a.port > 0 && a.ip != (PeerIp::V4 { a: 0, b: 0, c: 0, d: 0 }) && a.ip != (
        PeerIp::V6 { hi: 0, lo: 0 }) ==> learnable(local)(a),
{
}

/// What is told of a lost peer is its address, its rate, and how long its first data took.
pub proof fn law_lost_peer_is_told_as_it_was(s: SlotView)
    requires
        s.first_data_ms >= s.connected_ms,
    ensures
        lost_in(s).addr == s.addr && lost_in(s).bps == s.rate.ewma_bps,
        lost_in(s).latency_ms == s.first_data_ms - s.connected_ms,
        lost_in(s).first_data_ms == s.first_data_ms,
{
}

} // verus!

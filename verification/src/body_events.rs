//! What incoming bodies and peer failures do to the work state.
//!
//! The store and the body queue stand outside: a step that needs their answer says
//! so, and the next step takes it.
use vstd::prelude::*;
use crate::chain::{offered, sat_add32, ChainHub, HubView, QueuedView};
use crate::config::IbdConfig;
use crate::confirm_feed::ConfirmFeed;
use crate::dial::{
    give_up_requests, given_up, peer_retired, release_peer_block_work, work_released,
};
use crate::hash::BlockHash;
use crate::header_events::{headers_taken, on_headers, rows_for, HeaderRow, HeadersStep};
use crate::inflight::{clear_hash_inflight, just};
use crate::peer_io::{
    note_block_progress, note_block_rx, progress_noted, rx_noted, PeerEvent,
};
use crate::peers::{any_slot, find_slot, slot_views, CmdView, PeerAddr, PeerCmd, PeerIp, SlotView};
use crate::reorg::ReorgView;
use crate::state::{cmd_views, req_views, IbdWorkState, WorkView};
use crate::time::sat_sub;
use crate::wire::{block_parses, decode_block_header_prefix, parses_as_block, BlockHeader};

verus! {

/// Control events handled in one turn at most.
pub const CTRL_DRAIN_EVENT_BUDGET: u64 = 512;

/// Time for control events in one turn.
pub const CTRL_DRAIN_TIME_BUDGET_NS: u64 = 5_000_000;

/// Time for body events in one turn: long, so that delivered bytes do not wait
/// behind headers, and bounded, so that the other work still runs.
pub const BODY_DRAIN_TIME_BUDGET_NS: u64 = 40_000_000;

/// Where the next event is taken from.
#[derive(Clone, Copy, Debug, PartialEq, Eq, Structural)]
pub enum DrainFrom {
    Body,
    Ctrl,
    /// The turn is over.
    Stop,
}

/// One turn of draining: bodies first, then control events within a budget.
#[derive(Clone, Copy, Debug, PartialEq, Eq, Structural)]
pub struct DrainTurn {
    /// What the turn is at.
    pub from: DrainFrom,
    /// Control events handled.
    pub ctrl_n: u64,
    /// Events handled.
    pub events: u64,
}

impl DrainTurn {
    /// A new turn.
    pub fn new() -> (t: Self)
        ensures
            t == (DrainTurn { from: DrainFrom::Body, ctrl_n: 0, events: 0 }),
    {
        DrainTurn { from: DrainFrom::Body, ctrl_n: 0, events: 0 }
    }

    /// Does the turn leave the source it is at, by its budget?
    pub open spec fn spent(self, elapsed_ns: u64) -> bool {
        match self.from {
            DrainFrom::Body => elapsed_ns >= BODY_DRAIN_TIME_BUDGET_NS,
            DrainFrom::Ctrl => self.ctrl_n >= CTRL_DRAIN_EVENT_BUDGET || elapsed_ns
                >= CTRL_DRAIN_TIME_BUDGET_NS,
            DrainFrom::Stop => false,
        }
    }

    /// The source after this one.
    pub open spec fn following(self) -> DrainFrom {
        match self.from {
            DrainFrom::Body => DrainFrom::Ctrl,
            _ => DrainFrom::Stop,
        }
    }

    /// Move on where the budget of the source is spent. `elapsed_ns` is the time since
    /// the turn came to it. True when the source changed, and with it the clock.
    pub fn budget(&mut self, elapsed_ns: u64) -> (moved: bool)
        ensures
            moved == old(self).spent(elapsed_ns),
            *final(self) == (if moved {
                DrainTurn { from: old(self).following(), ..*old(self) }
            } else {
                *old(self)
            }),
    {
        let moved = match self.from {
            DrainFrom::Body => elapsed_ns >= BODY_DRAIN_TIME_BUDGET_NS,
            DrainFrom::Ctrl => self.ctrl_n >= CTRL_DRAIN_EVENT_BUDGET || elapsed_ns
                >= CTRL_DRAIN_TIME_BUDGET_NS,
            DrainFrom::Stop => false,
        };
        if moved {
            self.ran_dry();
        }
        moved
    }

    /// The source has nothing more.
    pub fn ran_dry(&mut self)
        ensures
            *final(self) == (DrainTurn { from: old(self).following(), ..*old(self) }),
    {
        self.from = match self.from {
            DrainFrom::Body => DrainFrom::Ctrl,
            _ => DrainFrom::Stop,
        };
    }

    /// An event was taken from the source.
    pub fn took_one(&mut self)
        requires
            old(self).events < u64::MAX,
            old(self).ctrl_n < u64::MAX,
        ensures
            *final(self) == (DrainTurn {
                from: old(self).from,
                ctrl_n: if old(self).from == DrainFrom::Ctrl {
                    (old(self).ctrl_n + 1) as u64
                } else {
                    old(self).ctrl_n
                },
                events: (old(self).events + 1) as u64,
            }),
    {
        self.events = self.events + 1;
        if self.from == DrainFrom::Ctrl {
            self.ctrl_n = self.ctrl_n + 1;
        }
    }
}

/// How seeing whether to rewind to a heavier branch went.
#[derive(Clone, Copy, Debug, PartialEq, Eq, Structural)]
pub enum RewindReply {
    /// The tip was rewound.
    Rewound,
    /// No branch is heavier.
    Kept,
    /// It could not be told.
    Failed,
}

/// Is a branch explored, so that a rewind has to be considered?
pub fn exploring(st: &IbdWorkState) -> (b: bool)
    ensures
        b == (st@.reorg.explore_tips.len() > 0),
{
    st.reorg.explore_tips.len() > 0
}

/// The state once exploration was answered.
pub open spec fn explored(v: WorkView, reply: RewindReply) -> WorkView {
    if v.reorg.explore_tips.len() > 0 && reply == RewindReply::Kept {
        WorkView { reorg: v.reorg.without_explore(), ..v }
    } else {
        v
    }
}

/// Take the answer to exploration; true when the tip was rewound. Exploration ends
/// where no branch is heavier; without exploration nothing happens.
pub fn try_apply_exploration(st: &mut IbdWorkState, reply: RewindReply) -> (rewound: bool)
    ensures
        rewound == (old(st)@.reorg.explore_tips.len() > 0 && reply == RewindReply::Rewound),
        final(st)@ == explored(old(st)@, reply),
{
    if st.reorg.explore_tips.len() == 0 {
        return false;
    }
    match reply {
        RewindReply::Rewound => true,
        RewindReply::Kept => {
            st.reorg.clear_explore();
            false
        },
        RewindReply::Failed => false,
    }
}

/// Try to finish an awaited reorg once a body of it came in: by a rewind to the
/// heavier branch only.
pub fn try_complete_awaiting_reorg(st: &mut IbdWorkState, reply: RewindReply) -> (rewound: bool)
    ensures
        rewound == (old(st)@.reorg.explore_tips.len() > 0 && reply == RewindReply::Rewound),
        final(st)@ == explored(old(st)@, reply),
{
    try_apply_exploration(st, reply)
}

/// A whole body as it came in.
pub struct FramedBody {
    pub hash: BlockHash,
    pub payload: Vec<u8>,
}

/// What a body leads to.
#[derive(Debug)]
pub enum FramedStep {
    Done,
    /// Get this header a row, and go on with [`framed_ensured`].
    EnsureHeader(BlockHeader),
    /// The header has this row: go on with [`framed_place`].
    Place(u64),
}

/// The state once a body's bytes are noted and its request is settled.
pub open spec fn body_received(v: WorkView, peer: usize, hash: BlockHash, bytes: u64, now_ms: u64) -> WorkView {
    WorkView { slots: rx_noted(v.slots, peer, bytes, now_ms), ..v }.without_requests(just(hash))
}

/// The state with the body of `hash` marked missing.
pub open spec fn with_missing(v: WorkView, hash: BlockHash) -> WorkView {
    WorkView { body: v.body.with_missing(hash), ..v }
}

/// May `out` be the state once the body of `hash` came in from `peer`, and `step` what it
/// leads to?
pub open spec fn framed_begun(
    v: WorkView,
    hub: HubView,
    peer: usize,
    hash: BlockHash,
    payload: Seq<u8>,
    now_ms: u64,
    out: WorkView,
    step: FramedStep,
) -> bool {
    let c = body_received(v, peer, hash, payload.len() as u64, now_ms);
    if c.body.rejected.contains(hash) || hub.blocks.contains(hash) {
        step is Done && out == c
    } else if c.header_fks.contains_key(hash) {
        step == FramedStep::Place(c.header_fks[hash]) && out == c
    } else if payload.len() < 80 {
        step is Done && out == with_missing(c, hash)
    } else {
        &&& step matches FramedStep::EnsureHeader(h)
        &&& h.spelled_by(payload.subrange(0, 80))
        &&& out == c
    }
}

/// A body came in. Its bytes count for the peer, and its request is settled. A
/// rejected or confirmed block needs no more; one without a header row needs one; a
/// body too short for a header is missing again.
pub fn framed_begin(st: &mut IbdWorkState, hub: &ChainHub, peer: usize, body: &FramedBody, now_ms: u64) -> (step: FramedStep)
    ensures
        framed_begun(
            old(st)@,
            hub@,
            peer,
            body.hash,
            body.payload@,
            now_ms,
            final(st)@,
            step,
        ),
{
    note_block_rx(&mut st.slots, peer, body.payload.len(), now_ms);
    clear_hash_inflight(&mut st.slots, &mut st.inflight, body.hash);
    assert(st@ == body_received(old(st)@, peer, body.hash, body.payload@.len() as u64, now_ms));
    if st.body.is_rejected(&body.hash) || hub.has_block(&body.hash) {
        return FramedStep::Done;
    }
    if let Some(fk) = st.header_fks.get(&body.hash) {
        return FramedStep::Place(*fk);
    }
    match decode_block_header_prefix(&body.payload) {
        Some(h) => FramedStep::EnsureHeader(h),
        None => {
            st.body.mark_missing(body.hash);
            FramedStep::Done
        },
    }
}

/// The store was asked for a row: with one, the body can be placed; without, it is
/// missing again.
pub fn framed_ensured(st: &mut IbdWorkState, hash: BlockHash, row: Option<u64>) -> (step: FramedStep)
    ensures
        match row {
            Some(fk) => step == FramedStep::Place(fk) && final(st)@ == (WorkView {
                header_fks: old(st)@.header_fks.insert(hash, fk),
                ..old(st)@
            }),
            None => step is Done && final(st)@ == with_missing(old(st)@, hash),
        },
{
    match row {
        Some(fk) => {
            st.header_fks.insert(hash, fk);
            FramedStep::Place(fk)
        },
        None => {
            st.body.mark_missing(hash);
            FramedStep::Done
        },
    }
}

/// Where a body goes.
#[derive(Clone, Copy, Debug, PartialEq, Eq, Structural)]
pub enum PlaceStep {
    Done,
    /// It is held for a reorg: where a branch is explored see whether to rewind, and
    /// without a rewind go on with [`held_place`].
    Held { height: u32 },
    /// Offer it to the body queue, and go on with [`framed_offered`].
    Offer { height: u32 },
}

/// Is `height` above what is fetched ahead, of the tip and of the writer?
pub open spec fn beyond_horizon(hub: HubView, write_next: u32, ahead: u32, height: u32) -> bool {
    height > sat_add32(hub.tip_or_zero(), ahead) && height > sat_add32(write_next, ahead)
}

/// Is this a body beside the confirmed chain? The queue holds one body per height, so
/// a sibling of a confirmed block is held by its hash.
pub open spec fn is_side_body(hub: HubView, height: u32, hash: BlockHash, payload: Seq<u8>) -> bool {
    height <= hub.tip_or_zero() && hub.tip_hash() != Some(hash) && parses_as_block(payload)
}

/// Offer a body unless it is there already.
pub open spec fn offer_unless_ready(hub: HubView, height: u32, hash: BlockHash) -> PlaceStep {
    if hub.claim_ready(height, hash) {
        PlaceStep::Done
    } else {
        PlaceStep::Offer { height }
    }
}

/// The state with the body of `hash` held for a reorg.
pub open spec fn with_held(v: WorkView, hash: BlockHash, payload: Seq<u8>, now_ms: u64) -> WorkView {
    WorkView {
        reorg: ReorgView { held: v.reorg.held.insert(hash, payload), ..v.reorg },
        body: v.body.with_pending(hash, now_ms),
        ..v
    }
}

/// The state once the body of a header with a row was placed, and where it goes.
pub open spec fn placed(
    v: WorkView,
    hub: HubView,
    cfg: IbdConfig,
    write_next: u32,
    hash: BlockHash,
    payload: Seq<u8>,
    now_ms: u64,
) -> (WorkView, PlaceStep) {
    if !v.hash_height.contains_key(hash) || beyond_horizon(
        hub,
        write_next,
        cfg.densify_ahead,
        v.hash_height[hash],
    ) {
        (with_missing(v, hash), PlaceStep::Done)
    } else {
        let height = v.hash_height[hash];
        if is_side_body(hub, height, hash, payload) {
            (with_held(v, hash, payload, now_ms), PlaceStep::Held { height })
        } else {
            (v, offer_unless_ready(hub, height, hash))
        }
    }
}

/// Place a body whose header has a row. Without a height, or too far ahead, it is
/// missing again; beside the confirmed chain it is held; otherwise it is offered to
/// the queue, unless confirm has it.
pub fn framed_place(
    st: &mut IbdWorkState,
    hub: &ChainHub,
    cfg: &IbdConfig,
    write_next: u32,
    body: &FramedBody,
    now_ms: u64,
) -> (step: PlaceStep)
    ensures
        (final(st)@, step) == placed(
            old(st)@,
            hub@,
            *cfg,
            write_next,
            body.hash,
            body.payload@,
            now_ms,
        ),
{
    let height: u32 = match st.hash_height.get(&body.hash) {
        Some(h) => *h,
        None => {
            st.body.mark_missing(body.hash);
            return PlaceStep::Done;
        },
    };
    let tip_h: u32 = hub.tip_or_zero();
    let tip_hi: u32 = tip_h.saturating_add(cfg.densify_ahead);
    let densify_hi: u32 = write_next.saturating_add(cfg.densify_ahead);
    if height > tip_hi && height > densify_hi {
        st.body.mark_missing(body.hash);
        return PlaceStep::Done;
    }
    let is_tip = match hub.tip_hash() {
        Some(t) => t == body.hash,
        None => false,
    };
    if height <= tip_h && !is_tip && block_parses(&body.payload) {
        let payload = body.payload.clone();
        assert(payload@ =~= body.payload@);
        st.reorg.hold_body(body.hash, payload);
        st.body.mark_pending(body.hash, now_ms);
        return PlaceStep::Held { height };
    }
    held_place(hub, height, &body.hash)
}

/// Where a held body goes when the tip was not rewound: to the queue, unless confirm
/// has it.
pub fn held_place(hub: &ChainHub, height: u32, hash: &BlockHash) -> (step: PlaceStep)
    ensures
        step == offer_unless_ready(hub@, height, *hash),
{
    if hub.claim_ready(height, hash) {
        PlaceStep::Done
    } else {
        PlaceStep::Offer { height }
    }
}

/// A body was offered to the queue. Where the queue failed it is missing again;
/// otherwise the queue has it, or the one that was there first. True when the queue
/// took the offer: then see whether to rewind where a branch is explored, and go on
/// with [`framed_noted`].
pub fn framed_offered(
    st: &mut IbdWorkState,
    hub: &mut ChainHub,
    height: u32,
    header_fk: u64,
    body: FramedBody,
    ok: bool,
) -> (taken: bool)
    ensures
        taken == ok,
        ok ==> final(st)@ == old(st)@ && final(hub)@ == (HubView {
            queue: offered(
                old(hub)@.queue,
                height,
                (QueuedView { hash: body.hash, header_fk, payload: body.payload@ }),
            ),
            ..old(hub)@
        }),
        !ok ==> final(st)@ == with_missing(old(st)@, body.hash) && final(hub)@ == old(hub)@,
{
    if !ok {
        st.body.mark_missing(body.hash);
        return false;
    }
    hub.queue.offer(height, body.hash, header_fk, body.payload);
    true
}

/// A queued body is pending, and its height is ready for confirm.
pub fn framed_noted(st: &mut IbdWorkState, feed: &mut ConfirmFeed, height: u32, hash: BlockHash, now_ms: u64)
    ensures
        final(st)@ == (WorkView { body: old(st)@.body.with_pending(hash, now_ms), ..old(st)@ }),
        final(feed)@ == old(feed)@.noted(height, hash, None),
{
    st.body.mark_pending(hash, now_ms);
    feed.note(height, hash);
}

/// The state once a body turned out to be unusable.
pub open spec fn body_failed(v: WorkView, peer: usize, hash: BlockHash, now_ms: u64) -> WorkView {
    let c = WorkView { slots: progress_noted(v.slots, peer, now_ms), ..v }.without_requests(
        just(hash),
    );
    if c.body.pending.contains_key(hash) {
        with_missing(c, hash)
    } else {
        c
    }
}

/// A body was unusable: its request is settled, and a pending mark is void.
pub fn on_block_decode_failed(st: &mut IbdWorkState, peer: usize, hash: BlockHash, now_ms: u64)
    ensures
        final(st)@ == body_failed(old(st)@, peer, hash, now_ms),
{
    note_block_progress(&mut st.slots, peer, now_ms);
    clear_hash_inflight(&mut st.slots, &mut st.inflight, hash);
    if st.body.is_pending(&hash) {
        st.body.mark_missing(hash);
    }
}

/// A slot of which `gone` is no longer requested.
pub open spec fn slot_lacking(s: Seq<SlotView>, i: int, gone: Set<BlockHash>) -> Seq<SlotView> {
    s.update(i, SlotView { in_flight: s[i].in_flight.difference(gone), ..s[i] })
}

/// The state once `peer` said that it does not have `gone`.
pub open spec fn not_found_noted(v: WorkView, peer: usize, gone: Set<BlockHash>, now_ms: u64) -> WorkView {
    let s = progress_noted(v.slots, peer, now_ms);
    match any_slot(s, peer) {
        Some(i) => WorkView {
            slots: slot_lacking(s, i, gone),
            inflight: given_up(v.inflight, gone, peer),
            ..v
        },
        None => WorkView { slots: s, ..v },
    }
}

/// A peer does not have some blocks: they are no longer requested from it.
pub fn on_not_found(st: &mut IbdWorkState, peer: usize, hashes: &Vec<BlockHash>, now_ms: u64)
    ensures
        final(st)@ == not_found_noted(old(st)@, peer, hashes@.to_set(), now_ms),
{
    note_block_progress(&mut st.slots, peer, now_ms);
    let ghost s = slot_views(st.slots@);
    let at = match find_slot(&st.slots, peer, false) {
        Some(i) => i,
        None => {
            return;
        },
    };
    let ghost before = st.slots@;
    let mut i: usize = 0;
    assert(hashes@.take(0).to_set() =~= Set::<BlockHash>::empty());
    assert(slot_lacking(s, at as int, Set::empty()) =~= s) by {
        assert(s[at as int].in_flight.difference(Set::empty()) =~= s[at as int].in_flight);
    }
    while i < hashes.len()
        invariant
            i <= hashes@.len(),
            at < st.slots@.len(),
            s.len() == st.slots@.len(),
            slot_views(st.slots@) == slot_lacking(
                s,
                at as int,
                hashes@.take(i as int).to_set(),
            ),
            st@ == (WorkView { slots: slot_views(st.slots@), ..old(st)@ }),
        decreases hashes@.len() - i,
    {
        let h = hashes[i];
        let ghost was = st.slots@;
        st.slots[at].in_flight.remove(&h);
        proof {
            let done = hashes@.take(i as int).to_set();
            assert(hashes@.take(i + 1) =~= hashes@.take(i as int).push(h));
            hashes@.take(i as int).lemma_push_to_set_commute(h);
            assert(slot_views(was)[at as int] == was[at as int]@);
            assert(s[at as int].in_flight.difference(done).remove(h)
                =~= s[at as int].in_flight.difference(done.insert(h)));
            assert(st.slots@[at as int]@ =~= (SlotView {
                in_flight: was[at as int]@.in_flight.remove(h),
                ..was[at as int]@
            }));
            let want = slot_lacking(s, at as int, done.insert(h));
            assert forall|j: int| 0 <= j < st.slots@.len() implies slot_views(st.slots@)[j]
                == want[j] by {
                assert(slot_views(was)[j] == slot_lacking(s, at as int, done)[j]);
                if j == at {
                    assert(st.slots@[j]@ =~= want[j]);
                } else {
                    assert(st.slots@[j] == was[j]);
                }
            }
            assert(slot_views(st.slots@) =~= want);
        }
        i = i + 1;
    }
    assert(hashes@.take(i as int) =~= hashes@);
    give_up_requests(&mut st.inflight, hashes, peer);
}

/// Is this the unspecified address?
pub open spec fn unspecified(ip: PeerIp) -> bool {
    match ip {
        PeerIp::V4 { a, b, c, d } => a == 0 && b == 0 && c == 0 && d == 0,
        PeerIp::V6 { hi, lo } => hi == 0 && lo == 0,
    }
}

/// Is an advertised address worth learning: not our own, and complete?
pub open spec fn learnable(local: PeerAddr) -> spec_fn(PeerAddr) -> bool {
    |a: PeerAddr| a != local && !unspecified(a.ip) && a.port != 0
}

fn is_unspecified(ip: &PeerIp) -> (b: bool)
    ensures
        b == unspecified(*ip),
{
    match ip {
        PeerIp::V4 { a, b, c, d } => *a == 0 && *b == 0 && *c == 0 && *d == 0,
        PeerIp::V6 { hi, lo } => *hi == 0 && *lo == 0,
    }
}

/// The advertised addresses that the dial book may learn, in order.
pub fn inject_learned_addrs(addrs: &Vec<PeerAddr>, local: &PeerAddr) -> (r: Vec<PeerAddr>)
    ensures
        r@ == addrs@.filter(learnable(*local)),
{
    let mut r: Vec<PeerAddr> = Vec::new();
    let mut i: usize = 0;
    let ghost p = learnable(*local);
    assert(addrs@.take(0).filter(p) =~= Seq::<PeerAddr>::empty());
    while i < addrs.len()
        invariant
            i <= addrs@.len(),
            p == learnable(*local),
            r@ == addrs@.take(i as int).filter(p),
        decreases addrs@.len() - i,
    {
        let a: PeerAddr = addrs[i];
        proof {
            assert(addrs@.take(i + 1) =~= addrs@.take(i as int).push(a));
            addrs@.take(i as int).lemma_filter_push(a, p);
        }
        if a != *local && !is_unspecified(&a.ip) && a.port != 0 {
            r.push(a);
        }
        i = i + 1;
    }
    assert(addrs@.take(i as int) =~= addrs@);
    r
}

/// What the address book and the cooldowns are told of a lost peer.
#[derive(Clone, Copy, Debug, PartialEq, Eq, Structural)]
pub struct LostPeer {
    pub addr: PeerAddr,
    /// Zero where no block payload ever came in.
    pub first_data_ms: u64,
    pub latency_ms: u64,
    /// Its smoothed rate, where it has one.
    pub bps: Option<u64>,
}

/// What is told of the lost peer in slot `s`.
pub open spec fn lost_in(s: SlotView) -> LostPeer {
    LostPeer {
        addr: s.addr,
        first_data_ms: s.first_data_ms,
        latency_ms: sat_sub(s.first_data_ms, s.connected_ms),
        bps: s.rate.ewma_bps,
    }
}

/// The state once `peer` is lost.
pub open spec fn peer_lost(v: WorkView, peer: usize) -> WorkView {
    WorkView {
        slots: peer_retired(v.slots, peer),
        inflight: work_released(v.slots, v.inflight, peer),
        ..v
    }
}

/// A peer failed or closed: its slot is retired and its requests are free.
pub fn on_peer_dead(st: &mut IbdWorkState, peer: usize) -> (r: Option<LostPeer>)
    ensures
        final(st)@ == peer_lost(old(st)@, peer),
        r == (match any_slot(old(st)@.slots, peer) {
            Some(i) => Some(lost_in(old(st)@.slots[i])),
            None => None,
        }),
{
    let r = match find_slot(&st.slots, peer, false) {
        Some(i) => {
            assert(slot_views(st.slots@)[i as int] == st.slots@[i as int]@);
            let s = &st.slots[i];
            Some(
                LostPeer {
                    addr: s.addr,
                    first_data_ms: s.first_data_ms,
                    latency_ms: s.first_data_ms.saturating_sub(s.connected_ms),
                    bps: s.rate.bps(),
                },
            )
        },
        None => None,
    };
    release_peer_block_work(&mut st.slots, &mut st.inflight, peer);
    r
}

/// A shutdown for every slot, in order.
pub open spec fn shutdowns(s: Seq<SlotView>) -> Seq<(usize, CmdView)> {
    Seq::new(s.len(), |i: int| (s[i].id, CmdView::Shutdown))
}

/// Stop every peer: nothing is requested any more and no slot is left. Without a slot
/// nothing happens.
pub fn disconnect_all_peers(st: &mut IbdWorkState)
    ensures
        final(st)@ == (if old(st)@.slots.len() == 0 {
            old(st)@
        } else {
            WorkView {
                slots: Seq::empty(),
                inflight: Map::empty(),
                outbox: old(st)@.outbox + shutdowns(old(st)@.slots),
                ..old(st)@
            }
        }),
{
    let n: usize = st.slots.len();
    if n == 0 {
        return;
    }
    let ghost start = st@;
    let mut i: usize = 0;
    assert(st@.outbox =~= start.outbox + shutdowns(start.slots).take(0));
    while i < n
        invariant
            i <= n,
            n == st.slots@.len(),
            n == start.slots.len(),
            start.slots == slot_views(st.slots@),
            st@ == (WorkView {
                outbox: start.outbox + shutdowns(start.slots).take(i as int),
                ..start
            }),
        decreases n - i,
    {
        let ghost before = st.outbox@;
        let id: usize = st.slots[i].id;
        st.outbox.push((id, PeerCmd::Shutdown));
        proof {
            assert(cmd_views(st.outbox@) =~= cmd_views(before).push((id, CmdView::Shutdown)));
            assert(slot_views(st.slots@)[i as int].id == id);
            assert(start.outbox + shutdowns(start.slots).take(i + 1) =~= (start.outbox + shutdowns(
                start.slots,
            ).take(i as int)).push((id, CmdView::Shutdown)));
        }
        i = i + 1;
    }
    assert(shutdowns(start.slots).take(i as int) =~= shutdowns(start.slots));
    st.inflight.clear();
    st.slots = Vec::new();
    assert(req_views(st.inflight@) =~= Map::empty());
    assert(slot_views(st.slots@) =~= Seq::empty());
}

/// What a peer event leads to.
pub enum PeerStep {
    Done,
    /// A headers reply was taken in.
    Headers { step: HeadersStep, peer: usize, batch_len: usize },
    /// A body came in.
    Framed { next: FramedStep, body: FramedBody },
    /// Addresses for the dial book.
    Learned(Vec<PeerAddr>),
    /// A peer is gone.
    Lost(Option<LostPeer>),
}

/// Take in one peer event. `fks` holds, for a headers reply, the row that the store
/// gave each header.
pub fn apply_peer_event(
    st: &mut IbdWorkState,
    hub: &ChainHub,
    cfg: &IbdConfig,
    ev: PeerEvent,
    fks: &Vec<Option<u64>>,
    local: &PeerAddr,
    now_ms: u64,
) -> (r: PeerStep)
    requires
        ev matches PeerEvent::Headers { headers, .. } ==> fks@.len() == headers@.len(),
    ensures
        match ev {
            PeerEvent::Headers { peer, headers } => {
                &&& r matches PeerStep::Headers { step, peer: p, batch_len }
                &&& p == peer
                &&& batch_len == headers@.len()
                &&& exists|rows: Seq<HeaderRow>| #[trigger]
                    rows_for(rows, headers@, fks@) && headers_taken(
                        old(st)@,
                        hub@,
                        *cfg,
                        peer,
                        rows,
                        final(st)@,
                        step,
                    )
            },
            PeerEvent::BlockFramed { peer, hash, payload } => {
                &&& r matches PeerStep::Framed { next: step, body }
                &&& body.hash == hash
                &&& body.payload@ == payload@
                &&& framed_begun(
                    old(st)@,
                    hub@,
                    peer,
                    hash,
                    payload@,
                    now_ms,
                    final(st)@,
                    step,
                )
            },
            PeerEvent::BlockDecodeFailed { peer, hash } => r is Done && final(st)@ == body_failed(
                old(st)@,
                peer,
                hash,
                now_ms,
            ),
            PeerEvent::NotFound { peer, hashes } => r is Done && final(st)@ == not_found_noted(
                old(st)@,
                peer,
                hashes@.to_set(),
                now_ms,
            ),
            PeerEvent::Addrs { peer, addrs } => {
                &&& r matches PeerStep::Learned(l)
                &&& l@ == addrs@.filter(learnable(*local))
                &&& final(st)@ == old(st)@
            },
            PeerEvent::Dead { peer, reason } => {
                &&& r == PeerStep::Lost(
                    match any_slot(old(st)@.slots, peer) {
                        Some(i) => Some(lost_in(old(st)@.slots[i])),
                        None => None,
                    },
                )
                &&& final(st)@ == peer_lost(old(st)@, peer)
            },
        },
{
    match ev {
        PeerEvent::Headers { peer, headers } => {
            let batch_len: usize = headers.len();
            let step = on_headers(st, hub, cfg, peer, &headers, fks);
            PeerStep::Headers { step, peer, batch_len }
        },
        PeerEvent::BlockFramed { peer, hash, payload } => {
            let body = FramedBody { hash, payload };
            let step = framed_begin(st, hub, peer, &body, now_ms);
            PeerStep::Framed { next: step, body }
        },
        PeerEvent::BlockDecodeFailed { peer, hash } => {
            on_block_decode_failed(st, peer, hash, now_ms);
            PeerStep::Done
        },
        PeerEvent::NotFound { peer, hashes } => {
            on_not_found(st, peer, &hashes, now_ms);
            PeerStep::Done
        },
        PeerEvent::Addrs { peer, addrs } => PeerStep::Learned(inject_learned_addrs(&addrs, local)),
        PeerEvent::Dead { peer, reason } => PeerStep::Lost(on_peer_dead(st, peer)),
    }
}

/// Headers cannot keep a turn busy: it takes no more control events than its budget, and
/// once it has come to them it does not go back to bodies.
pub proof fn law_control_events_are_bounded(t: DrainTurn, elapsed_ns: u64)
    requires
        t.ctrl_n <= CTRL_DRAIN_EVENT_BUDGET,
    ensures
        t.from == DrainFrom::Ctrl && !t.spent(elapsed_ns) ==> t.ctrl_n + 1
            <= CTRL_DRAIN_EVENT_BUDGET,
        t.following() != DrainFrom::Body,
{
}

/// A rejected block is never fetched, held or queued again: whatever peer sends it,
/// only the bytes and the settled request are noted.
pub proof fn law_rejected_body_is_ignored(v: WorkView, peer: usize, hash: BlockHash, bytes: u64, now_ms: u64)
    requires
        v.body.rejected.contains(hash),
    ensures
        body_received(v, peer, hash, bytes, now_ms).body == v.body,
        body_received(v, peer, hash, bytes, now_ms).reorg == v.reorg,
        body_received(v, peer, hash, bytes, now_ms).height_to_hash == v.height_to_hash,
        !body_received(v, peer, hash, bytes, now_ms).inflight.contains_key(hash),
{
}

} // verus!

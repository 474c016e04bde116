//! What incoming headers do to the work path.
use vstd::prelude::*;
use crate::assign_plan::{
    enqueues_header, should_enqueue_header, want_headers_beyond_soft_cap, wants_headers,
};
use crate::chain::{larger, max32, sat_add32, sat_sub32, ChainHub, HubView};
use crate::config::{IbdConfig, MAX_HEADERS_RESULTS};
use crate::dial::{
    headers_asked, headers_polled, next_turn, request_headers, request_headers_from,
};
use crate::exit::{
    advances_locator, header_lag_behind_peers, logs_at, rerequests_at,
    should_advance_locator_after_known_batch, should_rerequest_headers_on_empty_lag,
    should_reseed_work_path_on_empty_lag,
};
use crate::hash::BlockHash;
use crate::keyed::KeyMap;
use crate::path::{are_tips, push_ordered, work_path_tips};
use crate::peers::{alive_ids, live_ids};
use crate::state::{IbdWorkState, WorkView};
use crate::wire::{hash_header, BlockHeader};

verus! {

/// The height of a child of `prev`, as far as `prev` is placed: in the known
/// headers, at the tip, or on the best chain.
pub open spec fn child_height(known: Map<BlockHash, u32>, hub: HubView, prev: BlockHash) -> Option<u32> {
    if prev == BlockHash::spec_zero() {
        Some(0)
    } else if known.contains_key(prev) {
        Some(sat_add32(known[prev], 1))
    } else if hub.tip_hash() == Some(prev) {
        Some(sat_add32(hub.tip_or_zero(), 1))
    } else if hub.heights.contains_key(prev) {
        Some(sat_add32(hub.heights[prev], 1))
    } else {
        None
    }
}

/// The height of a child of `prev`. A competing header often has a confirmed parent
/// below the tip that the known headers do not hold; a parent that is on no chain
/// gives none.
pub fn parent_height(hash_height: &KeyMap<BlockHash, u32>, hub: &ChainHub, prev: &BlockHash) -> (r:
    Option<u32>)
    ensures
        r == child_height(hash_height@, hub@, *prev),
{
    if prev.is_zero() {
        return Some(0);
    }
    if let Some(ph) = hash_height.get(prev) {
        return Some((*ph).saturating_add(1));
    }
    if let Some(t) = hub.tip_hash() {
        if t == *prev {
            return Some(hub.tip_or_zero().saturating_add(1));
        }
    }
    match hub.heights.get(prev) {
        Some(h) => Some((*h).saturating_add(1)),
        None => None,
    }
}

/// The height of a header in a batch: by its parent, or else by the header before
/// it.
pub open spec fn batch_height(
    v: WorkView,
    hub: HubView,
    prev: BlockHash,
    batch_prev: Option<(BlockHash, u32)>,
) -> Option<u32> {
    match child_height(v.hash_height, hub, prev) {
        Some(h) => Some(h),
        None => match batch_prev {
            Some((ph, pht)) => if ph == prev {
                Some(sat_add32(pht, 1))
            } else {
                None
            },
            None => None,
        },
    }
}

/// The height of a header in a batch.
pub fn batch_header_height(
    st: &IbdWorkState,
    hub: &ChainHub,
    prev: &BlockHash,
    batch_prev: Option<(BlockHash, u32)>,
) -> (r: Option<u32>)
    ensures
        r == batch_height(st@, hub@, *prev, batch_prev),
{
    match parent_height(&st.hash_height, hub, prev) {
        Some(h) => Some(h),
        None => match batch_prev {
            Some((ph, pht)) => if ph == *prev {
                Some(pht.saturating_add(1))
            } else {
                None
            },
            None => None,
        },
    }
}

/// A header at `height` noted: on the path where the slot is its own, for
/// exploration where another header holds the slot.
pub open spec fn header_noted(
    v: WorkView,
    hub: HubView,
    hash: BlockHash,
    height: u32,
    prev: BlockHash,
) -> WorkView {
    let w = v.with_slot_try(hash, height, prev, hub.tip);
    if v.takes_slot(hash, height, prev, hub.tip) {
        WorkView {
            max_peer_height: max32(w.max_peer_height, height),
            max_ordered_height: max32(w.max_ordered_height, height),
            ..w
        }
    } else if v.height_to_hash.contains_key(height) && v.height_to_hash[height] != hash {
        WorkView { reorg: w.reorg.with_explore(seq![hash], Some(hash)), ..w }
    } else {
        w
    }
}

/// Note a header at `height`.
pub fn note_header_path(
    st: &mut IbdWorkState,
    hub: &ChainHub,
    hash: BlockHash,
    height: u32,
    prev: BlockHash,
)
    ensures
        final(st)@ == header_noted(old(st)@, hub@, hash, height, prev),
{
    if st.try_set_path_slot(hash, height, prev, hub.tip) {
        st.max_peer_height = larger(st.max_peer_height, height);
        st.max_ordered_height = larger(st.max_ordered_height, height);
        return;
    }
    let other = match st.height_to_hash.get(&height) {
        Some(cur) => *cur != hash,
        None => false,
    };
    if other {
        let mut one: Vec<BlockHash> = Vec::new();
        one.push(hash);
        assert(one@ =~= seq![hash]);
        st.reorg.register_explore(&one, Some(hash));
    }
}

/// Does a header's parent make it acceptable? Known, confirmed, or none at all.
pub open spec fn parent_known(v: WorkView, hub: HubView, prev: BlockHash) -> bool {
    ||| v.known_headers.contains(prev)
    ||| hub.blocks.contains(prev)
    ||| prev == BlockHash::spec_zero()
    ||| hub.tip_hash() == Some(prev)
}

/// Is a header passed over: confirmed, bad, or without a known parent?
pub open spec fn header_skipped(v: WorkView, hub: HubView, hash: BlockHash, prev: BlockHash) -> bool {
    ||| hub.blocks.contains(hash)
    ||| !v.sound(hash)
    ||| !parent_known(v, hub, prev) && hub.tip is Some && v.known_headers != Set::<
        BlockHash,
    >::empty()
}

/// Does a header that is known now go on the ordered path?
pub open spec fn goes_on_path(v: WorkView, hub: HubView, max_ordered: usize, hash: BlockHash) -> bool {
    &&& v.hash_height.contains_key(hash)
    &&& v.on_path(hash, v.hash_height[hash])
    &&& v.ordered.len() < max_ordered
    &&& enqueues_header(
        v.ordered_set.contains(hash),
        v.inflight.contains_key(hash),
        v.body.pending.contains_key(hash),
        v.body.rejected.contains(hash),
        hub.blocks.contains(hash),
        Some(v.hash_height[hash]),
        match hub.tip {
            Some(t) => Some(t.height),
            None => None,
        },
    )
    &&& !v.ordered_set.contains(hash)
}

/// The state once a header was tried for the ordered path, and whether it went on
/// it.
pub open spec fn header_tried(
    v: WorkView,
    hub: HubView,
    max_ordered: usize,
    hash: BlockHash,
    prev: BlockHash,
) -> (WorkView, bool) {
    let w = WorkView { known_headers: v.known_headers.insert(hash), ..v };
    if hub.blocks.contains(hash) {
        (w, false)
    } else if header_skipped(v, hub, hash, prev) {
        (v, false)
    } else if goes_on_path(w, hub, max_ordered, hash) {
        (w.with_ordered(hash), true)
    } else {
        (w, false)
    }
}

/// Put a header on the ordered path where it belongs there; true when it went on
/// it. A confirmed header is known; a bad one, or one without a known parent, is
/// not.
pub fn try_enqueue_ordered_header(
    st: &mut IbdWorkState,
    hub: &ChainHub,
    max_ordered: usize,
    hash: BlockHash,
    prev: BlockHash,
) -> (added: bool)
    ensures
        (final(st)@, added) == header_tried(old(st)@, hub@, max_ordered, hash, prev),
{
    if hub.has_block(&hash) {
        st.known_headers.insert(hash);
        return false;
    }
    if st.body.is_rejected(&hash) || st.reorg.invalid.contains(&hash) {
        return false;
    }
    let on_tip = match hub.tip_hash() {
        Some(t) => t == prev,
        None => false,
    };
    let prev_ok = st.known_headers.contains(&prev) || hub.has_block(&prev) || prev.is_zero()
        || on_tip;
    if !prev_ok && hub.tip.is_some() && !st.known_headers.is_empty() {
        return false;
    }
    st.known_headers.insert(hash);
    let ht: u32 = match st.hash_height.get(&hash) {
        Some(h) => *h,
        None => {
            return false;
        },
    };
    if !st.is_on_path(&hash, ht) || st.ordered.len() >= max_ordered {
        return false;
    }
    if !should_enqueue_header(
        st.ordered_set.contains(&hash),
        st.inflight.contains_key(&hash),
        st.body.is_pending(&hash),
        st.body.is_rejected(&hash),
        hub.has_block(&hash),
        Some(ht),
        hub.tip_height(),
    ) {
        return false;
    }
    if st.ordered_set.contains(&hash) {
        return false;
    }
    push_ordered(st, hash);
    true
}

/// A header with its hash, and the row the store gave it.
#[derive(Clone, Copy, Debug, PartialEq, Eq, Structural)]
pub struct HeaderRow {
    pub hash: BlockHash,
    pub prev: BlockHash,
    pub header_fk: Option<u64>,
}

/// A batch of headers under way.
#[verifier::ext_equal]
pub struct Batch {
    pub st: WorkView,
    /// The header before, where it has a height.
    pub prev: Option<(BlockHash, u32)>,
    /// How many went on the ordered path.
    pub added: nat,
}

/// One header taken in.
pub open spec fn batch_step(b: Batch, hub: HubView, max_ordered: usize, r: HeaderRow) -> Batch {
    let height = batch_height(b.st, hub, r.prev, b.prev);
    let v = match height {
        Some(h) => header_noted(b.st, hub, r.hash, h, r.prev),
        None => b.st,
    };
    let w = match r.header_fk {
        Some(fk) => if v.header_fks.contains_key(r.hash) {
            v
        } else {
            WorkView { header_fks: v.header_fks.insert(r.hash, fk), ..v }
        },
        None => v,
    };
    let (x, added) = header_tried(w, hub, max_ordered, r.hash, r.prev);
    Batch {
        st: x,
        prev: match height {
            Some(h) => Some((r.hash, h)),
            None => b.prev,
        },
        added: if added {
            b.added + 1
        } else {
            b.added
        },
    }
}

/// The headers from `i` on taken in.
pub open spec fn batch_from(b: Batch, hub: HubView, max_ordered: usize, rows: Seq<HeaderRow>, i: int) -> Batch
    decreases rows.len() - i,
{
    if i < 0 || i >= rows.len() {
        b
    } else {
        batch_from(batch_step(b, hub, max_ordered, rows[i]), hub, max_ordered, rows, i + 1)
    }
}

/// A whole batch of headers taken in.
pub open spec fn batch_taken(v: WorkView, hub: HubView, max_ordered: usize, rows: Seq<HeaderRow>) -> Batch {
    batch_from(Batch { st: v, prev: None, added: 0 }, hub, max_ordered, rows, 0)
}

/// Take in a batch of headers whose hashes and rows are known; gives how many went
/// on the ordered path.
pub fn on_header_rows(
    st: &mut IbdWorkState,
    hub: &ChainHub,
    max_ordered: usize,
    rows: &Vec<HeaderRow>,
) -> (added: usize)
    ensures
        final(st)@ == batch_taken(old(st)@, hub@, max_ordered, rows@).st,
        added == batch_taken(old(st)@, hub@, max_ordered, rows@).added,
{
    let mut added: usize = 0;
    let mut batch_prev: Option<(BlockHash, u32)> = None;
    let ghost all = batch_taken(st@, hub@, max_ordered, rows@);
    let mut i: usize = 0;
    while i < rows.len()
        invariant
            i <= rows@.len(),
            added <= i,
            batch_from(
                Batch { st: st@, prev: batch_prev, added: added as nat },
                hub@,
                max_ordered,
                rows@,
                i as int,
            ) == all,
        decreases rows@.len() - i,
    {
        let r: HeaderRow = rows[i];
        if let Some(h) = batch_header_height(st, hub, &r.prev, batch_prev) {
            note_header_path(st, hub, r.hash, h, r.prev);
            batch_prev = Some((r.hash, h));
        }
        if let Some(fk) = r.header_fk {
            if !st.header_fks.contains_key(&r.hash) {
                st.header_fks.insert(r.hash, fk);
            }
        }
        if try_enqueue_ordered_header(st, hub, max_ordered, r.hash, r.prev) {
            added = added + 1;
        }
        i = i + 1;
    }
    added
}

/// Are `rows` the headers with their hashes, and the rows that the store gave?
pub open spec fn rows_for(rows: Seq<HeaderRow>, headers: Seq<BlockHeader>, fks: Seq<Option<u64>>) -> bool {
    &&& rows.len() == headers.len()
    &&& forall|i: int|
        0 <= i < rows.len() ==> (#[trigger] rows[i]).hash.bytes() == headers[i].digest()
            && rows[i].prev == headers[i].prev && rows[i].header_fk == fks[i]
}

/// Does the store have to be asked for the row of a header?
pub fn header_lacks_row(st: &IbdWorkState, header: &BlockHeader) -> (b: bool)
    ensures
        exists|hash: BlockHash|
            #![trigger st@.header_fks.contains_key(hash)]
            hash.bytes() == header.digest() && b == !st@.header_fks.contains_key(hash),
{
    let hash = hash_header(header);
    let b = !st.header_fks.contains_key(&hash);
    assert(hash.bytes() == header.digest() && b == !st@.header_fks.contains_key(hash));
    b
}

/// Take in a batch of headers; gives how many went on the ordered path. `fks` holds
/// per header the row that the store gave it, where it was asked and gave one.
pub fn on_headers_batch(
    st: &mut IbdWorkState,
    hub: &ChainHub,
    max_ordered: usize,
    headers: &Vec<BlockHeader>,
    fks: &Vec<Option<u64>>,
) -> (added: usize)
    requires
        fks@.len() == headers@.len(),
    ensures
        exists|rows: Seq<HeaderRow>| #[trigger]
            rows_for(rows, headers@, fks@) && final(st)@ == batch_taken(
                old(st)@,
                hub@,
                max_ordered,
                rows,
            ).st && added == batch_taken(old(st)@, hub@, max_ordered, rows).added,
{
    let mut rows: Vec<HeaderRow> = Vec::new();
    let mut i: usize = 0;
    while i < headers.len()
        invariant
            i <= headers@.len(),
            fks@.len() == headers@.len(),
            rows@.len() == i,
            forall|j: int|
                0 <= j < i ==> (#[trigger] rows@[j]).hash.bytes() == headers@[j].digest()
                    && rows@[j].prev == headers@[j].prev && rows@[j].header_fk == fks@[j],
        decreases headers@.len() - i,
    {
        let hash = hash_header(&headers[i]);
        rows.push(HeaderRow { hash, prev: headers[i].prev, header_fk: fks[i] });
        i = i + 1;
    }
    assert(rows_for(rows@, headers@, fks@));
    on_header_rows(st, hub, max_ordered, &rows)
}

/// The state once headers were asked of the peer whose turn it is.
pub open spec fn with_poll(v: WorkView, hub: HubView, tips: Seq<BlockHash>) -> WorkView {
    WorkView {
        header_req_seq: next_turn(v.slots, v.header_req_seq),
        outbox: headers_polled(v.outbox, v.slots, hub, v.header_req_seq, tips),
        ..v
    }
}

/// May `out` be the state once headers were asked in turn?
pub open spec fn polled(v: WorkView, hub: HubView, out: WorkView) -> bool {
    exists|tips: Seq<BlockHash>| #[trigger] are_tips(v, tips) && out == with_poll(v, hub, tips)
}

/// May `out` be the state once headers were asked of `peer`?
pub open spec fn asked_of(v: WorkView, hub: HubView, peer: usize, out: WorkView) -> bool {
    exists|tips: Seq<BlockHash>| #[trigger]
        are_tips(v, tips) && out == (WorkView {
            outbox: headers_asked(v.outbox, v.slots, peer, hub, tips),
            ..v
        })
}

/// Ask the peer whose turn it is for headers.
pub fn poll_headers(st: &mut IbdWorkState, hub: &ChainHub)
    ensures
        polled(old(st)@, hub@, final(st)@),
{
    let tips = work_path_tips(st);
    let _ = request_headers(&st.slots, hub, &mut st.header_req_seq, &tips, &mut st.outbox);
    assert(are_tips(old(st)@, tips@) && st@ == with_poll(old(st)@, hub@, tips@));
}

/// Ask `peer` for headers.
pub fn ask_headers_of(st: &mut IbdWorkState, hub: &ChainHub, peer: usize)
    ensures
        asked_of(old(st)@, hub@, peer, final(st)@),
{
    let tips = work_path_tips(st);
    let _ = request_headers_from(&st.slots, peer, hub, &tips, &mut st.outbox);
    assert(are_tips(old(st)@, tips@) && st@ == (WorkView {
        outbox: headers_asked(old(st)@.outbox, old(st)@.slots, peer, hub@, tips@),
        ..old(st)@
    }));
}

/// What an empty reply leads to.
#[derive(Clone, Copy, Debug, PartialEq, Eq, Structural)]
pub enum EmptyAction {
    /// Headers are complete.
    Complete,
    /// Plant the stored path again, then ask in turn.
    Reseed,
    /// Ask in turn.
    Poll,
    /// Headers are open; wait.
    Wait,
    /// Leave everything as it is.
    Nothing,
}

/// Is the work path idle: nothing ordered, nothing requested?
pub open spec fn path_idle(v: WorkView) -> bool {
    v.ordered.len() == 0 && v.inflight.dom() == Set::<BlockHash>::empty()
}

/// What an empty reply leads to, the streak counted already.
pub open spec fn empty_action(v: WorkView, hub: HubView, soft_cap: usize) -> EmptyAction {
    let lag = v.header_lag(hub.tip_or_zero());
    let streak = v.empty_header_streak;
    if streak >= max32(live_ids(v.slots).len() as u32, 2) && path_idle(v) {
        EmptyAction::Complete
    } else if lag > 2 {
        if !rerequests_at(streak) {
            EmptyAction::Wait
        } else if v.ordered_set == Set::<BlockHash>::empty() && logs_at(streak) {
            EmptyAction::Reseed
        } else {
            EmptyAction::Poll
        }
    } else if streak < 8 && v.ordered_set.len() < soft_cap {
        EmptyAction::Poll
    } else if streak >= 8 {
        EmptyAction::Complete
    } else {
        EmptyAction::Nothing
    }
}

/// The state once an empty reply was counted.
pub open spec fn streak_counted(v: WorkView) -> WorkView {
    WorkView { empty_header_streak: sat_add32(v.empty_header_streak, 1), ..v }
}

/// May `out` be the state after an empty reply, before a reseed?
pub open spec fn empty_taken(v: WorkView, hub: HubView, soft_cap: usize, out: WorkView) -> bool {
    let c = streak_counted(v);
    let open = if c.header_lag(hub.tip_or_zero()) > 2 {
        WorkView { headers_done: false, ..c }
    } else {
        c
    };
    match empty_action(c, hub, soft_cap) {
        EmptyAction::Complete => out == (WorkView { headers_done: true, ..c }),
        EmptyAction::Poll => polled(open, hub, out),
        EmptyAction::Reseed => out == open,
        EmptyAction::Wait => out == open,
        EmptyAction::Nothing => out == c,
    }
}

/// An empty reply came in. Headers are complete once every peer had nothing more and
/// no work is left, or after eight of them close to the peers' height; a lag keeps
/// them open. On [`EmptyAction::Reseed`] the caller plants the stored path and then
/// asks in turn with [`poll_headers`].
pub fn on_empty_headers(st: &mut IbdWorkState, hub: &ChainHub, cfg: &IbdConfig) -> (a: EmptyAction)
    ensures
        a == empty_action(streak_counted(old(st)@), hub@, cfg.ordered_soft_cap),
        empty_taken(old(st)@, hub@, cfg.ordered_soft_cap, final(st)@),
{
    st.empty_header_streak = st.empty_header_streak.saturating_add(1);
    let ghost c = st@;
    assert(c == streak_counted(old(st)@));
    let tip_h: u32 = hub.tip_or_zero();
    let lag: u32 = header_lag_behind_peers(st, tip_h);
    let idle = st.ordered.len() == 0 && st.inflight.is_empty();
    assert(idle == path_idle(c)) by {
        assert(c.inflight.dom() =~= st.inflight@.dom());
        if st.inflight@.dom() == Set::<BlockHash>::empty() {
            assert(st.inflight@ =~= Map::empty());
        }
    }
    let peers_n: u32 = alive_ids(&st.slots).len() as u32;
    let streak: u32 = st.empty_header_streak;
    if streak >= larger(peers_n, 2) && idle {
        st.headers_done = true;
        return EmptyAction::Complete;
    }
    if lag > 2 {
        st.headers_done = false;
        if !should_rerequest_headers_on_empty_lag(streak) {
            return EmptyAction::Wait;
        }
        if should_reseed_work_path_on_empty_lag(streak, st.ordered_set.is_empty()) {
            return EmptyAction::Reseed;
        }
        poll_headers(st, hub);
        return EmptyAction::Poll;
    }
    if streak < 8 && st.ordered_set.len() < cfg.ordered_soft_cap {
        poll_headers(st, hub);
        return EmptyAction::Poll;
    }
    if streak >= 8 {
        st.headers_done = true;
        return EmptyAction::Complete;
    }
    EmptyAction::Nothing
}

/// Are more headers wanted though the path is long: little of it is ready?
pub open spec fn needs_headroom(v: WorkView) -> bool {
    wants_headers(
        v.ordered_set.len() as usize,
        v.body.known.len() as usize,
        sat_sub32(v.max_ordered_height, v.max_ready_height),
        4096,
    )
}

/// Is there room for more headers on the path?
pub open spec fn takes_headers(v: WorkView, cfg: IbdConfig) -> bool {
    v.ordered_set.len() < cfg.max_ordered_headers && (v.ordered_set.len() < cfg.ordered_soft_cap
        || needs_headroom(v))
}

fn headroom_needed(st: &IbdWorkState) -> (b: bool)
    ensures
        b == needs_headroom(st@),
{
    want_headers_beyond_soft_cap(
        st.ordered_set.len(),
        st.body.known_len(),
        st.max_ordered_height.saturating_sub(st.max_ready_height),
        4096,
    )
}

/// May `out` be the state after a reply of `batch_len` headers that were all known?
pub open spec fn known_headers_noted(
    v: WorkView,
    hub: HubView,
    cfg: IbdConfig,
    peer: usize,
    batch_len: int,
    out: WorkView,
) -> bool {
    if takes_headers(v, cfg) && advances_locator(
        v.ordered_set.len() as usize,
        v.header_lag(hub.tip_or_zero()),
        batch_len >= MAX_HEADERS_RESULTS,
        needs_headroom(v),
    ) {
        asked_of(v, hub, peer, out)
    } else {
        out == v
    }
}

/// May `out` be the state after a reply of `batch_len` headers with new ones among them?
pub open spec fn new_headers_noted(
    v: WorkView,
    hub: HubView,
    cfg: IbdConfig,
    peer: usize,
    batch_len: int,
    out: WorkView,
) -> bool {
    let w = WorkView { empty_header_streak: 0, headers_done: false, ..v };
    if batch_len >= MAX_HEADERS_RESULTS && takes_headers(v, cfg) {
        asked_of(w, hub, peer, out)
    } else {
        out == w
    }
}

/// A reply held only known headers. Where the locator has to move on and there is
/// room, the same peer is asked again.
pub fn on_known_headers_batch(
    st: &mut IbdWorkState,
    hub: &ChainHub,
    cfg: &IbdConfig,
    peer: usize,
    batch_len: usize,
)
    ensures
        known_headers_noted(old(st)@, hub@, *cfg, peer, batch_len as int, final(st)@),
{
    let live: usize = st.ordered_set.len();
    let need = headroom_needed(st);
    let lag: u32 = header_lag_behind_peers(st, hub.tip_or_zero());
    if live < cfg.max_ordered_headers && (live < cfg.ordered_soft_cap || need)
        && should_advance_locator_after_known_batch(
        live,
        lag,
        batch_len >= MAX_HEADERS_RESULTS,
        need,
    ) {
        ask_headers_of(st, hub, peer);
    }
}

/// A reply held new headers. The streak of empty ones ends; after a full reply the
/// same peer is asked again where there is room.
pub fn on_new_headers(
    st: &mut IbdWorkState,
    hub: &ChainHub,
    cfg: &IbdConfig,
    peer: usize,
    batch_len: usize,
)
    ensures
        new_headers_noted(old(st)@, hub@, *cfg, peer, batch_len as int, final(st)@),
{
    st.empty_header_streak = 0;
    st.headers_done = false;
    let live: usize = st.ordered_set.len();
    let need = headroom_needed(st);
    if batch_len >= MAX_HEADERS_RESULTS && live < cfg.max_ordered_headers && (live
        < cfg.ordered_soft_cap || need) {
        ask_headers_of(st, hub, peer);
    }
}

/// What a headers reply leads to.
#[derive(Clone, Copy, Debug, PartialEq, Eq, Structural)]
pub enum HeadersStep {
    Done,
    /// New headers: see whether a competing branch is heavier now, and go on with
    /// [`on_new_headers`].
    Weigh,
    /// Plant the stored path again, then ask in turn.
    Reseed,
}

/// May `out` be the state once a headers reply with these rows was taken in, and
/// `step` what it leads to?
pub open spec fn headers_taken(
    v: WorkView,
    hub: HubView,
    cfg: IbdConfig,
    peer: usize,
    rows: Seq<HeaderRow>,
    out: WorkView,
    step: HeadersStep,
) -> bool {
    let b = batch_taken(v, hub, cfg.max_ordered_headers, rows);
    if b.added > 0 {
        step == HeadersStep::Weigh && out == b.st
    } else if rows.len() == 0 {
        &&& step == (if empty_action(streak_counted(v), hub, cfg.ordered_soft_cap)
            == EmptyAction::Reseed {
            HeadersStep::Reseed
        } else {
            HeadersStep::Done
        })
        &&& empty_taken(v, hub, cfg.ordered_soft_cap, out)
    } else {
        &&& step == HeadersStep::Done
        &&& known_headers_noted(b.st, hub, cfg, peer, rows.len() as int, out)
    }
}

/// A headers reply came in.
pub fn on_headers(
    st: &mut IbdWorkState,
    hub: &ChainHub,
    cfg: &IbdConfig,
    peer: usize,
    headers: &Vec<BlockHeader>,
    fks: &Vec<Option<u64>>,
) -> (step: HeadersStep)
    requires
        fks@.len() == headers@.len(),
    ensures
        exists|rows: Seq<HeaderRow>| #[trigger]
            rows_for(rows, headers@, fks@) && headers_taken(
                old(st)@,
                hub@,
                *cfg,
                peer,
                rows,
                final(st)@,
                step,
            ),
{
    let batch_len: usize = headers.len();
    let added = on_headers_batch(st, hub, cfg.max_ordered_headers, headers, fks);
    let ghost mid = st@;
    let ghost rows = choose|rows: Seq<HeaderRow>| #[trigger]
        rows_for(rows, headers@, fks@) && mid == batch_taken(
            old(st)@,
            hub@,
            cfg.max_ordered_headers,
            rows,
        ).st && added == batch_taken(old(st)@, hub@, cfg.max_ordered_headers, rows).added;
    if added > 0 {
        assert(headers_taken(old(st)@, hub@, *cfg, peer, rows, st@, HeadersStep::Weigh));
        return HeadersStep::Weigh;
    }
    if batch_len == 0 {
        assert(mid == old(st)@);
        let a = on_empty_headers(st, hub, cfg);
        let step = if a == EmptyAction::Reseed {
            HeadersStep::Reseed
        } else {
            HeadersStep::Done
        };
        assert(headers_taken(old(st)@, hub@, *cfg, peer, rows, st@, step));
        return step;
    }
    on_known_headers_batch(st, hub, cfg, peer, batch_len);
    assert(headers_taken(old(st)@, hub@, *cfg, peer, rows, st@, HeadersStep::Done));
    HeadersStep::Done
}

/// A bad header never gets onto the ordered path, and one that is on it is not put
/// on it twice.
pub proof fn law_only_sound_headers_are_ordered(
    v: WorkView,
    hub: HubView,
    max_ordered: usize,
    hash: BlockHash,
    prev: BlockHash,
)
    ensures
        header_tried(v, hub, max_ordered, hash, prev).1 ==> v.sound(hash) && !v.ordered_set.contains(
            hash,
        ) && !hub.blocks.contains(hash) && v.on_path(hash, v.hash_height[hash]) && header_tried(
            v,
            hub,
            max_ordered,
            hash,
            prev,
        ).0.ordered == v.ordered.push(hash),
        !header_tried(v, hub, max_ordered, hash, prev).1 ==> header_tried(
            v,
            hub,
            max_ordered,
            hash,
            prev,
        ).0.ordered == v.ordered,
{
}

} // verus!

//! Requested hashes: per peer and over all peers.
use vstd::prelude::*;
use crate::chain::ChainHub;
use crate::hash::BlockHash;
use crate::keyed::{KeyMap, KeySet};
use crate::peers::{
    any_slot, find_slot, live_slot, slot_views, CmdView, PeerCmd, PeerSlot, SlotView,
};
use crate::rate::PeerRate;
use crate::reorg::lists;
use crate::state::{cmd_views, req_views, IbdWorkState, InflightReq, ReqView, WorkView};
use crate::time::sat_add;

verus! {

/// A slot that no longer has any hash of `gone` requested.
pub open spec fn slot_without(s: SlotView, gone: Set<BlockHash>) -> SlotView {
    SlotView { in_flight: s.in_flight.difference(gone), ..s }
}

/// Slots that no longer have any hash of `gone` requested.
pub open spec fn slots_without(s: Seq<SlotView>, gone: Set<BlockHash>) -> Seq<SlotView> {
    Seq::new(s.len(), |i: int| slot_without(s[i], gone))
}

/// One hash.
pub open spec fn just(h: BlockHash) -> Set<BlockHash> {
    Set::<BlockHash>::empty().insert(h)
}

impl WorkView {
    /// No hash of `gone` is requested, from anybody.
    pub open spec fn without_requests(self, gone: Set<BlockHash>) -> WorkView {
        WorkView {
            slots: slots_without(self.slots, gone),
            inflight: self.inflight.remove_keys(gone),
            ..self
        }
    }
}

proof fn lemma_req_remove(m: Map<BlockHash, InflightReq>, h: BlockHash)
    ensures
        req_views(m.remove(h)) == req_views(m).remove(h),
{
    assert(req_views(m.remove(h)) =~= req_views(m).remove(h));
}

proof fn lemma_req_insert(m: Map<BlockHash, InflightReq>, h: BlockHash, r: InflightReq)
    ensures
        req_views(m.insert(h, r)) == req_views(m).insert(h, r@),
{
    assert(req_views(m.insert(h, r)) =~= req_views(m).insert(h, r@));
}

/// Drop `hash` from every peer and from the request map.
pub fn clear_hash_inflight(
    slots: &mut Vec<PeerSlot>,
    inflight: &mut KeyMap<BlockHash, InflightReq>,
    hash: BlockHash,
)
    ensures
        slot_views(final(slots)@) == slots_without(slot_views(old(slots)@), just(hash)),
        req_views(final(inflight)@) == req_views(old(inflight)@).remove_keys(just(hash)),
{
    inflight.remove(&hash);
    proof {
        lemma_req_remove(old(inflight)@, hash);
        assert(req_views(old(inflight)@).remove(hash) =~= req_views(old(inflight)@).remove_keys(
            just(hash),
        ));
    }
    let mut i: usize = 0;
    while i < slots.len()
        invariant
            i <= slots@.len(),
            slots@.len() == old(slots)@.len(),
            forall|j: int|
                0 <= j < i ==> #[trigger] slots@[j]@ == slot_without(old(slots)@[j]@, just(hash)),
            forall|j: int| i <= j < slots@.len() ==> #[trigger] slots@[j] == old(slots)@[j],
        decreases slots@.len() - i,
    {
        slots[i].in_flight.remove(&hash);
        assert(slots@[i as int]@ =~= slot_without(old(slots)@[i as int]@, just(hash)));
        i = i + 1;
    }
    assert(slot_views(slots@) =~= slots_without(slot_views(old(slots)@), just(hash)));
}

fn drop_from_slot(slot: &mut PeerSlot, gone: &KeySet<BlockHash>)
    ensures
        final(slot)@ == slot_without(old(slot)@, gone@),
{
    let items = slot.in_flight.members();
    let ghost before = slot@;
    let mut i: usize = 0;
    while i < items.len()
        invariant
            i <= items@.len(),
            items@.to_set() == before.in_flight,
            slot@ == (SlotView { in_flight: slot.in_flight@, ..before }),
            slot.in_flight@.subset_of(before.in_flight),
            forall|h: BlockHash| #[trigger]
                before.in_flight.contains(h) && !slot.in_flight@.contains(h) ==> gone@.contains(h),
            forall|j: int|
                0 <= j < i && gone@.contains(#[trigger] items@[j]) ==> !slot.in_flight@.contains(
                    items@[j],
                ),
        decreases items@.len() - i,
    {
        let h = items[i];
        if gone.contains(&h) {
            slot.in_flight.remove(&h);
        }
        i = i + 1;
    }
    assert(slot.in_flight@ =~= before.in_flight.difference(gone@)) by {
        assert forall|h: BlockHash| slot.in_flight@.contains(h) implies !gone@.contains(h) by {
            assert(items@.to_set().contains(h));
            let j = choose|j: int| 0 <= j < items@.len() && items@[j] == h;
            assert(!gone@.contains(items@[j]));
        }
    }
}

fn drop_from_map(inflight: &mut KeyMap<BlockHash, InflightReq>, gone: &KeySet<BlockHash>)
    ensures
        req_views(final(inflight)@) == req_views(old(inflight)@).remove_keys(gone@),
{
    let keys = inflight.keys();
    let ghost before = inflight@;
    let mut i: usize = 0;
    while i < keys.len()
        invariant
            i <= keys@.len(),
            keys@.to_set() == before.dom(),
            inflight@.dom().subset_of(before.dom()),
            forall|h: BlockHash| #[trigger]
                inflight@.contains_key(h) ==> inflight@[h] == before[h],
            forall|h: BlockHash| #[trigger]
                before.contains_key(h) && !inflight@.contains_key(h) ==> gone@.contains(h),
            forall|j: int|
                0 <= j < i && gone@.contains(#[trigger] keys@[j]) ==> !inflight@.contains_key(
                    keys@[j],
                ),
        decreases keys@.len() - i,
    {
        let h = keys[i];
        if gone.contains(&h) {
            inflight.remove(&h);
        }
        i = i + 1;
    }
    assert(req_views(inflight@) =~= req_views(before).remove_keys(gone@)) by {
        assert forall|h: BlockHash| inflight@.contains_key(h) implies !gone@.contains(h) by {
            assert(keys@.to_set().contains(h));
            let j = choose|j: int| 0 <= j < keys@.len() && keys@[j] == h;
            assert(!gone@.contains(keys@[j]));
        }
    }
}

fn drop_requests(
    slots: &mut Vec<PeerSlot>,
    inflight: &mut KeyMap<BlockHash, InflightReq>,
    gone: &KeySet<BlockHash>,
)
    ensures
        slot_views(final(slots)@) == slots_without(slot_views(old(slots)@), gone@),
        req_views(final(inflight)@) == req_views(old(inflight)@).remove_keys(gone@),
{
    drop_from_map(inflight, gone);
    let mut i: usize = 0;
    while i < slots.len()
        invariant
            i <= slots@.len(),
            slots@.len() == old(slots)@.len(),
            forall|j: int|
                0 <= j < i ==> #[trigger] slots@[j]@ == slot_without(old(slots)@[j]@, gone@),
            forall|j: int| i <= j < slots@.len() ==> #[trigger] slots@[j] == old(slots)@[j],
        decreases slots@.len() - i,
    {
        drop_from_slot(&mut slots[i], gone);
        i = i + 1;
    }
    assert(slot_views(slots@) =~= slots_without(slot_views(old(slots)@), gone@));
}

/// Free what was requested of blocks that are confirmed by now.
pub fn prune_satisfied_inflight(
    slots: &mut Vec<PeerSlot>,
    inflight: &mut KeyMap<BlockHash, InflightReq>,
    hub: &ChainHub,
)
    ensures
        slot_views(final(slots)@) == slots_without(slot_views(old(slots)@), hub@.blocks),
        req_views(final(inflight)@) == req_views(old(inflight)@).remove_keys(hub@.blocks),
{
    drop_requests(slots, inflight, &hub.blocks);
}

impl WorkView {
    /// Can a request for `h` still feed the work path or the awaited branch?
    pub open spec fn feeds(self, h: BlockHash) -> bool {
        ||| self.ordered_set.contains(h)
        ||| self.reorg.awaiting_need().contains(h)
        ||| self.hash_height.contains_key(h) && self.on_path(h, self.hash_height[h])
    }

    /// Requested hashes that feed neither the path nor the awaited branch.
    pub open spec fn off_path(self) -> Set<BlockHash> {
        Set::new(|h: BlockHash| self.inflight.contains_key(h) && !self.feeds(h))
    }
}

/// Drop requests that can feed neither the work path nor the awaited branch.
/// Exploration is not kept: it is requested anew while it lasts.
pub fn prune_off_path_inflight(st: &mut IbdWorkState)
    ensures
        final(st)@ == old(st)@.without_requests(old(st)@.off_path()),
{
    let await_need = st.reorg.awaiting_need_getdata();
    let keys = st.inflight.keys();
    let mut gone: KeySet<BlockHash> = KeySet::new();
    let mut i: usize = 0;
    while i < keys.len()
        invariant
            i <= keys@.len(),
            st@ == old(st)@,
            await_need@ == st@.reorg.awaiting_need(),
            keys@.to_set() == st@.inflight.dom(),
            forall|h: BlockHash| #[trigger] gone@.contains(h) ==> st@.off_path().contains(h),
            forall|j: int|
                0 <= j < i && !gone@.contains(#[trigger] keys@[j]) ==> st@.feeds(keys@[j]),
        decreases keys@.len() - i,
    {
        let h = keys[i];
        assert(keys@.to_set().contains(keys@[i as int]));
        let on_path = match st.hash_height.get(&h) {
            Some(ht) => st.is_on_path(&h, *ht),
            None => false,
        };
        if !st.ordered_set.contains(&h) && !lists(&await_need, &h) && !on_path {
            gone.insert(h);
        }
        i = i + 1;
    }
    assert(gone@ =~= st@.off_path()) by {
        assert forall|h: BlockHash| st@.off_path().contains(h) implies gone@.contains(h) by {
            assert(keys@.to_set().contains(h));
            let j = choose|j: int| 0 <= j < keys@.len() && keys@[j] == h;
            assert(st@.inflight.contains_key(keys@[j]));
        }
    }
    drop_requests(&mut st.slots, &mut st.inflight, &gone);
}

/// The request map once `hash` is requested from `peer` too.
pub open spec fn with_request(
    m: Map<BlockHash, ReqView>,
    hash: BlockHash,
    peer: usize,
    now_ms: u64,
) -> Map<BlockHash, ReqView> {
    if m.contains_key(hash) {
        m.insert(hash, m[hash].with_peer(peer))
    } else {
        m.insert(hash, ReqView { peers: seq![peer], started_ms: now_ms })
    }
}

/// Record `peer` as asked for `hash`. A first request keeps its time.
pub fn inflight_add_peer(
    inflight: &mut KeyMap<BlockHash, InflightReq>,
    hash: BlockHash,
    peer: usize,
    now_ms: u64,
)
    ensures
        req_views(final(inflight)@) == with_request(req_views(old(inflight)@), hash, peer, now_ms),
{
    let ghost before = inflight@;
    match inflight.remove(&hash) {
        Some(mut req) => {
            req.add_peer(peer);
            proof {
                lemma_req_insert(before.remove(hash), hash, req);
                assert(req_views(before.remove(hash)).insert(hash, req@) =~= req_views(
                    before,
                ).insert(hash, req@));
            }
            inflight.insert(hash, req);
        },
        None => {
            let req = InflightReq::new(peer, now_ms);
            proof {
                lemma_req_insert(before.remove(hash), hash, req);
                assert(req_views(before.remove(hash)).insert(hash, req@) =~= req_views(
                    before,
                ).insert(hash, req@));
            }
            inflight.insert(hash, req);
        },
    }
}

/// The request map once every hash of `hs` is requested from `peer`, in order.
pub open spec fn with_requests(
    m: Map<BlockHash, ReqView>,
    hs: Seq<BlockHash>,
    peer: usize,
    now_ms: u64,
) -> Map<BlockHash, ReqView>
    decreases hs.len(),
{
    if hs.len() == 0 {
        m
    } else {
        with_request(with_requests(m, hs.drop_last(), peer, now_ms), hs.last(), peer, now_ms)
    }
}

/// Hashes that the slot has not been asked for.
pub open spec fn unasked(s: SlotView) -> spec_fn(BlockHash) -> bool {
    |h: BlockHash| !s.in_flight.contains(h)
}

/// Hashes that one peer alone was asked for.
pub open spec fn asked_once(m: Map<BlockHash, ReqView>) -> spec_fn(BlockHash) -> bool {
    |h: BlockHash| m.contains_key(h) && m[h].peers.len() == 1
}

/// A slot once it was asked for `hs`. An idle slot starts to work at `now_ms`.
pub open spec fn slot_with(s: SlotView, hs: Seq<BlockHash>, now_ms: u64) -> SlotView {
    SlotView {
        in_flight: s.in_flight.union(hs.to_set()),
        rate: if s.in_flight == Set::<BlockHash>::empty() {
            PeerRate { work_started_ms: now_ms, ..s.rate }
        } else {
            s.rate
        },
        ..s
    }
}

/// What is left of `room` after `n` more hashes.
pub open spec fn room_after(room: usize, n: nat) -> usize {
    if room < n {
        0
    } else {
        (room - n) as usize
    }
}

impl WorkView {
    /// Hashes of `batch` that go out to `pid`: those its alive slot was not asked
    /// for yet.
    pub open spec fn going_out(self, pid: usize, batch: Seq<BlockHash>) -> Seq<BlockHash> {
        match live_slot(self.slots, pid) {
            Some(i) => batch.filter(unasked(self.slots[i])),
            None => Seq::empty(),
        }
    }

    /// `batch` requested from `pid`.
    pub open spec fn with_issued(self, pid: usize, batch: Seq<BlockHash>, now_ms: u64) -> WorkView {
        let out = self.going_out(pid, batch);
        if out.len() == 0 {
            self
        } else {
            let i = live_slot(self.slots, pid)->0;
            WorkView {
                slots: self.slots.update(i, slot_with(self.slots[i], out, now_ms)),
                inflight: with_requests(self.inflight, out, pid, now_ms),
                outbox: self.outbox.push((pid, CmdView::GetData { hashes: out })),
                ..self
            }
        }
    }

    /// How many hashes of `batch` nobody else was asked for, once it is requested.
    pub open spec fn newly_asked(self, pid: usize, batch: Seq<BlockHash>, now_ms: u64) -> nat {
        self.going_out(pid, batch).filter(
            asked_once(self.with_issued(pid, batch, now_ms).inflight),
        ).len()
    }

    /// Has `pid` an alive slot with fewer than `per_peer` hashes requested?
    pub open spec fn has_slot(self, pid: usize, per_peer: usize) -> bool {
        match live_slot(self.slots, pid) {
            Some(i) => self.slots[i].in_flight.len() < per_peer,
            None => false,
        }
    }
}

/// Has `pid` an alive slot with fewer than `per_peer` hashes requested?
pub fn peer_has_slot(st: &IbdWorkState, pid: usize, per_peer: usize) -> (b: bool)
    ensures
        b == st@.has_slot(pid, per_peer),
{
    match find_slot(&st.slots, pid, true) {
        Some(i) => st.slots[i].in_flight.len() < per_peer,
        None => false,
    }
}

fn ask_slot(slot: &mut PeerSlot, hs: &Vec<BlockHash>, now_ms: u64)
    requires
        hs@.len() > 0,
    ensures
        final(slot)@ == slot_with(old(slot)@, hs@, now_ms),
{
    let idle = slot.in_flight.is_empty();
    let ghost before = slot@;
    let mut i: usize = 0;
    assert(before.in_flight.union(hs@.take(0).to_set()) =~= before.in_flight);
    while i < hs.len()
        invariant
            i <= hs@.len(),
            slot@ == (SlotView {
                in_flight: before.in_flight.union(hs@.take(i as int).to_set()),
                ..before
            }),
        decreases hs@.len() - i,
    {
        let h = hs[i];
        slot.in_flight.insert(h);
        assert(hs@.take(i + 1) =~= hs@.take(i as int).push(h));
        proof {
            hs@.take(i as int).lemma_push_to_set_commute(h);
        }
        i = i + 1;
        assert(slot.in_flight@ =~= before.in_flight.union(hs@.take(i as int).to_set()));
    }
    assert(hs@.take(i as int) =~= hs@);
    if idle {
        slot.rate.note_work_started(now_ms);
    }
}

fn add_requests(
    inflight: &mut KeyMap<BlockHash, InflightReq>,
    hs: &Vec<BlockHash>,
    peer: usize,
    now_ms: u64,
)
    ensures
        req_views(final(inflight)@) == with_requests(req_views(old(inflight)@), hs@, peer, now_ms),
{
    let mut i: usize = 0;
    while i < hs.len()
        invariant
            i <= hs@.len(),
            req_views(inflight@) == with_requests(
                req_views(old(inflight)@),
                hs@.take(i as int),
                peer,
                now_ms,
            ),
        decreases hs@.len() - i,
    {
        inflight_add_peer(inflight, hs[i], peer, now_ms);
        i = i + 1;
        assert(hs@.take(i as int).drop_last() =~= hs@.take(i - 1));
    }
    assert(hs@.take(i as int) =~= hs@);
}

fn count_asked_once(inflight: &KeyMap<BlockHash, InflightReq>, hs: &Vec<BlockHash>) -> (n: usize)
    ensures
        n == hs@.filter(asked_once(req_views(inflight@))).len(),
{
    let ghost p = asked_once(req_views(inflight@));
    let mut n: usize = 0;
    let mut i: usize = 0;
    while i < hs.len()
        invariant
            i <= hs@.len(),
            n <= i,
            p == asked_once(req_views(inflight@)),
            n == hs@.take(i as int).filter(p).len(),
        decreases hs@.len() - i,
    {
        let h = hs[i];
        proof {
            assert(hs@.take(i + 1) =~= hs@.take(i as int).push(h));
            hs@.take(i as int).lemma_filter_push(h, p);
        }
        let once = match inflight.get(&h) {
            Some(req) => req.len() == 1,
            None => false,
        };
        if once {
            n = n + 1;
        }
        i = i + 1;
    }
    assert(hs@.take(i as int) =~= hs@);
    n
}

fn pick_unasked(slot: &PeerSlot, batch: &Vec<BlockHash>) -> (r: (Vec<BlockHash>, Vec<BlockHash>))
    ensures
        r.0@ == batch@.filter(unasked(slot@)),
        r.1@ == r.0@,
{
    let ghost p = unasked(slot@);
    let mut out: Vec<BlockHash> = Vec::new();
    let mut twin: Vec<BlockHash> = Vec::new();
    let mut i: usize = 0;
    while i < batch.len()
        invariant
            i <= batch@.len(),
            p == unasked(slot@),
            out@ == batch@.take(i as int).filter(p),
            twin@ == out@,
        decreases batch@.len() - i,
    {
        let h = batch[i];
        proof {
            assert(batch@.take(i + 1) =~= batch@.take(i as int).push(h));
            batch@.take(i as int).lemma_filter_push(h, p);
        }
        if !slot.in_flight.contains(&h) {
            out.push(h);
            twin.push(h);
        }
        i = i + 1;
    }
    assert(batch@.take(i as int) =~= batch@);
    (out, twin)
}

/// Request `batch` from `pid`, leaving out what its slot was asked for already.
/// True when anything went out. `room` shrinks by the hashes that nobody else
/// was asked for; `issued` grows by all that went out and stops at the largest
/// value.
pub fn issue_batch(
    st: &mut IbdWorkState,
    pid: usize,
    batch: Vec<BlockHash>,
    room: &mut usize,
    issued: &mut u64,
    now_ms: u64,
) -> (sent: bool)
    ensures
        sent == (old(st)@.going_out(pid, batch@).len() > 0),
        final(st)@ == old(st)@.with_issued(pid, batch@, now_ms),
        *final(room) == room_after(*old(room), old(st)@.newly_asked(pid, batch@, now_ms)),
        *final(issued) == sat_add(*old(issued), old(st)@.going_out(pid, batch@).len() as u64),
{
    let ghost before = st@;
    let idx = match find_slot(&st.slots, pid, true) {
        Some(i) => i,
        None => {
            return false;
        },
    };
    let (out, twin) = pick_unasked(&st.slots[idx], &batch);
    assert(out@ == before.going_out(pid, batch@));
    if out.len() == 0 {
        return false;
    }
    ask_slot(&mut st.slots[idx], &out, now_ms);
    assert(slot_views(st.slots@) =~= before.slots.update(
        idx as int,
        slot_with(before.slots[idx as int], out@, now_ms),
    ));
    add_requests(&mut st.inflight, &out, pid, now_ms);
    let n: usize = count_asked_once(&st.inflight, &out);
    *room = room.saturating_sub(n);
    *issued = issued.saturating_add(out.len() as u64);
    st.outbox.push((pid, PeerCmd::GetData { hashes: twin }));
    assert(cmd_views(st.outbox@) =~= before.outbox.push((pid, CmdView::GetData { hashes: out@ })));
    true
}

/// Request one hash from `pid`.
pub fn issue_one(
    st: &mut IbdWorkState,
    pid: usize,
    h: BlockHash,
    room: &mut usize,
    issued: &mut u64,
    now_ms: u64,
) -> (sent: bool)
    ensures
        sent == (old(st)@.going_out(pid, seq![h]).len() > 0),
        final(st)@ == old(st)@.with_issued(pid, seq![h], now_ms),
        *final(room) == room_after(*old(room), old(st)@.newly_asked(pid, seq![h], now_ms)),
        *final(issued) == sat_add(*old(issued), old(st)@.going_out(pid, seq![h]).len() as u64),
{
    let mut one: Vec<BlockHash> = Vec::new();
    one.push(h);
    assert(one@ =~= seq![h]);
    issue_batch(st, pid, one, room, issued, now_ms)
}

/// `pid` no longer owns the request for `hash`.
pub open spec fn without_owner(v: WorkView, hash: BlockHash, pid: usize) -> WorkView {
    WorkView {
        slots: match any_slot(v.slots, pid) {
            Some(i) => v.slots.update(i, slot_without(v.slots[i], just(hash))),
            None => v.slots,
        },
        inflight: if !v.inflight.contains_key(hash) {
            v.inflight
        } else if v.inflight[hash].without_peer(pid).peers.len() == 0 {
            v.inflight.remove(hash)
        } else {
            v.inflight.insert(hash, v.inflight[hash].without_peer(pid))
        },
        ..v
    }
}

/// Take the request for `hash` away from `pid`.
pub fn drop_hash_owner(st: &mut IbdWorkState, hash: BlockHash, pid: usize)
    ensures
        final(st)@ == without_owner(old(st)@, hash, pid),
{
    let ghost before = st@;
    if let Some(i) = find_slot(&st.slots, pid, false) {
        st.slots[i].in_flight.remove(&hash);
        assert(st.slots@[i as int]@ =~= slot_without(before.slots[i as int], just(hash)));
        assert(slot_views(st.slots@) =~= before.slots.update(
            i as int,
            slot_without(before.slots[i as int], just(hash)),
        ));
    }
    let ghost reqs = st.inflight@;
    match st.inflight.remove(&hash) {
        Some(mut req) => {
            let empty = req.remove_peer(pid);
            proof {
                lemma_req_remove(reqs, hash);
                lemma_req_insert(reqs.remove(hash), hash, req);
                assert(req_views(reqs.remove(hash)).insert(hash, req@) =~= req_views(reqs).insert(
                    hash,
                    req@,
                ));
            }
            if !empty {
                st.inflight.insert(hash, req);
            }
        },
        None => {
            assert(reqs.remove(hash) =~= reqs);
        },
    }
}

} // verus!

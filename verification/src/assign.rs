//! Getdata assignment: tip batch first, then densify outward.
//!
//! The tip batch (the heights right above the tip) is always requested, raced
//! over several peers. Densify fills missing heights further out with one peer
//! each, closest first, within per-peer caps and the global window.
use vstd::prelude::*;
use crate::assign_plan::{densify_slots, densify_slots_for_peer};
use crate::body::lemma_all_missing;
use crate::chain::{larger, max32, queue_has_hash, sat_add32, ChainHub, HubView};
use crate::config::{IbdConfig, TIP_HOLE_MAX};
use crate::fetch::{
    band_scan, collect_height_band, contiguous_tip_holes, demote_zombie_pending_for_fetch, demoted,
    lemma_next_need_shrinks, min32, next_need, pop_need, tip_holes, Turn,
};
use crate::hash::BlockHash;
use crate::inflight::{
    clear_hash_inflight, drop_hash_owner, issue_one, just, peer_has_slot,
    prune_off_path_inflight, prune_satisfied_inflight, room_after, slot_without, slots_without,
    without_owner,
};
use crate::order::{ascending, lemma_ascending, sorted};
use crate::peers::{alive_ids, find_slot, live_ids, live_slot, slot_views, PeerSlot, SlotView};
use crate::race::{
    bps_of, cover_tip_holes, covered, peer_bps, peer_has_recent_rx, peer_rate, rank_peers_by_speed,
    ranked, rate_of, TIP_HOLE_RX_STALE_MS,
};
use crate::relslow::{median, median_u64, tight_pack, RELATIVE_SLOW_CLUSTER_SPREAD};
use crate::reorg::{ReorgState, ReorgView};
use crate::state::{IbdWorkState, WorkView};
use crate::time::{sat_add, sat_sub, saturating_mul_u64, wrap_add};
use std::collections::{HashMap, HashSet, VecDeque};

verus! {

/// How much assign work to do this call.
#[derive(Clone, Copy, Debug, PartialEq, Eq, Structural)]
pub enum AssignDepth {
    /// Tip batch only.
    Critical,
    /// Tip batch and densify.
    Full,
}

/// Is the tip race alone enough: the confirm window covered, and few requests out?
pub open spec fn saturated(inflight_len: usize, bq_confirm_window_covered: bool) -> bool {
    inflight_len < 16 && bq_confirm_window_covered
}

/// True when the confirm window of the body queue is covered and few requests
/// are out: then the tip race alone is enough. Many pending bodies are not by
/// themselves saturation; they mean that wire is already here.
pub fn archive_pipeline_saturated(
    _pending_len: usize,
    inflight_len: usize,
    bq_confirm_window_covered: bool,
) -> (b: bool)
    ensures
        b == saturated(inflight_len, bq_confirm_window_covered),
{
    inflight_len < 16 && bq_confirm_window_covered
}

/// Counters of the assign step. They wrap.
#[derive(Clone, Copy, Debug, PartialEq, Eq, Structural)]
pub struct LoopStats {
    pub assign_ns: u64,
    pub assign_issued: u64,
}

/// Book one assign step: its time and what it issued.
pub fn finish_assign(loop_stats: &mut LoopStats, elapsed_ns: u64, issued: u64)
    ensures
        final(loop_stats).assign_ns == wrap_add(
            old(loop_stats).assign_ns,
            elapsed_ns,
        ),
        final(loop_stats).assign_issued == wrap_add(
            old(loop_stats).assign_issued,
            issued,
        ),
{
    loop_stats.assign_ns = loop_stats.assign_ns.wrapping_add(elapsed_ns);
    if issued > 0 {
        loop_stats.assign_issued = loop_stats.assign_issued.wrapping_add(issued);
    }
}

/// The rates of those peers of `ids` that have one.
pub open spec fn known_rates(slots: Seq<SlotView>, ids: Seq<usize>) -> Seq<u64>
    decreases ids.len(),
{
    if ids.len() == 0 {
        Seq::empty()
    } else {
        match rate_of(slots, ids.last()) {
            Some(b) => known_rates(slots, ids.drop_last()).push(b),
            None => known_rates(slots, ids.drop_last()),
        }
    }
}

/// Median rate of the pack and whether the pack is tight. Without any rate there
/// is no median, and the pack counts as tight.
pub open spec fn pack_of(slots: Seq<SlotView>, ids: Seq<usize>) -> (Option<u64>, bool) {
    let s = ascending(known_rates(slots, ids));
    if known_rates(slots, ids).len() == 0 {
        (None, true)
    } else {
        (Some(median(s)), tight_pack(s))
    }
}

/// Median rate of the alive pack, and whether the pack is a tight cluster.
pub fn pack_ewma_bps(slots: &Vec<PeerSlot>, alive: &Vec<usize>) -> (r: (Option<u64>, bool))
    ensures
        r == pack_of(slot_views(slots@), alive@),
{
    let ghost v = slot_views(slots@);
    let mut samples: Vec<u64> = Vec::new();
    let mut i: usize = 0;
    while i < alive.len()
        invariant
            i <= alive@.len(),
            v == slot_views(slots@),
            samples@ == known_rates(v, alive@.take(i as int)),
        decreases alive@.len() - i,
    {
        assert(alive@.take(i + 1).drop_last() =~= alive@.take(i as int));
        if let Some(b) = peer_rate(slots, alive[i]) {
            samples.push(b);
        }
        i = i + 1;
    }
    assert(alive@.take(i as int) =~= alive@);
    if samples.len() == 0 {
        return (None, true);
    }
    proof {
        lemma_ascending(samples@);
    }
    let s = sorted(&samples);
    let lo: u64 = s[0];
    let hi: u64 = s[s.len() - 1];
    let tight = if lo == 0 {
        hi == 0
    } else {
        hi <= saturating_mul_u64(lo, RELATIVE_SLOW_CLUSTER_SPREAD)
    };
    (Some(median_u64(s.as_slice())), tight)
}

/// Densify cap of `pid`.
pub fn densify_cap_for(
    slots: &Vec<PeerSlot>,
    pid: usize,
    per_peer: usize,
    tip_hole: bool,
    pack_median: Option<u64>,
    pack_tight: bool,
) -> (n: usize)
    ensures
        n == densify_slots(
            per_peer,
            tip_hole,
            rate_of(slot_views(slots@), pid),
            pack_median,
            pack_tight,
        ),
{
    densify_slots_for_peer(per_peer, tip_hole, peer_rate(slots, pid), pack_median, pack_tight)
}

/// Densify caps of all alive peers.
pub open spec fn caps_of(
    slots: Seq<SlotView>,
    alive: Seq<usize>,
    per_peer: usize,
    tip_hole: bool,
) -> Map<usize, usize> {
    let pack = pack_of(slots, alive);
    Map::new(
        |pid: usize| alive.contains(pid),
        |pid: usize| densify_slots(per_peer, tip_hole, rate_of(slots, pid), pack.0, pack.1),
    )
}

/// The cap of `pid`, one where it has none.
pub open spec fn cap_in(caps: Map<usize, usize>, pid: usize) -> usize {
    if caps.contains_key(pid) {
        caps[pid]
    } else {
        1
    }
}

fn cap_of(caps: &HashMap<usize, usize>, pid: usize) -> (n: usize)
    ensures
        n == cap_in(caps@, pid),
{
    match caps.get(&pid) {
        Some(c) => *c,
        None => 1,
    }
}

fn densify_caps(slots: &Vec<PeerSlot>, alive: &Vec<usize>, per_peer: usize, tip_hole: bool) -> (r: HashMap<
    usize,
    usize,
>)
    ensures
        r@ == caps_of(slot_views(slots@), alive@, per_peer, tip_hole),
{
    let ghost v = slot_views(slots@);
    let ghost want = caps_of(v, alive@, per_peer, tip_hole);
    let pack = pack_ewma_bps(slots, alive);
    let mut caps: HashMap<usize, usize> = HashMap::new();
    let mut i: usize = 0;
    while i < alive.len()
        invariant
            i <= alive@.len(),
            v == slot_views(slots@),
            pack == pack_of(v, alive@),
            want == caps_of(v, alive@, per_peer, tip_hole),
            caps@.dom().subset_of(want.dom()),
            forall|p: usize| #[trigger] caps@.contains_key(p) ==> caps@[p] == want[p],
            forall|j: int| 0 <= j < i ==> caps@.contains_key(#[trigger] alive@[j]),
        decreases alive@.len() - i,
    {
        let pid: usize = alive[i];
        assert(alive@.contains(pid));
        let cap: usize = densify_cap_for(slots, pid, per_peer, tip_hole, pack.0, pack.1);
        caps.insert(pid, cap);
        i = i + 1;
    }
    assert(caps@ =~= want) by {
        assert forall|p: usize| want.contains_key(p) implies caps@.contains_key(p) by {
            let j = choose|j: int| 0 <= j < alive@.len() && alive@[j] == p;
            assert(caps@.contains_key(alive@[j]));
        }
    }
    caps
}

/// Is the request for `h` a hung densify request: one owner, above the tip batch,
/// body not there, and an alive owner that received nothing for too long?
pub open spec fn is_hung(t: Turn, tip_batch_hi: u32, now_ms: u64) -> spec_fn(BlockHash) -> bool {
    |h: BlockHash|
        {
            &&& t.st.inflight.contains_key(h)
            &&& t.st.inflight[h].peers.len() == 1
            &&& t.st.hash_height.contains_key(h)
            &&& t.st.hash_height[h] > tip_batch_hi
            &&& !t.hub.claim_ready(t.st.hash_height[h], h)
            &&& match live_slot(t.st.slots, t.st.inflight[h].peers[0]) {
                Some(i) => !t.st.slots[i].rate.recent(now_ms, TIP_HOLE_RX_STALE_MS),
                None => false,
            }
            &&& sat_sub(now_ms, t.st.inflight[h].started_ms) >= TIP_HOLE_RX_STALE_MS
        }
}

/// Is `pid` faster than `owner`?
pub open spec fn outruns(slots: Seq<SlotView>, pid: usize, owner: usize) -> bool {
    pid != owner && bps_of(slots, pid) > bps_of(slots, owner)
}

/// The fastest peer of `ids` that outruns `owner` and has a free densify slot;
/// the first listed among equals.
pub open spec fn steal_dest(v: WorkView, ids: Seq<usize>, owner: usize, caps: Map<usize, usize>) -> Option<usize>
    decreases ids.len(),
{
    if ids.len() == 0 {
        None
    } else {
        let best = steal_dest(v, ids.drop_last(), owner, caps);
        let pid = ids.last();
        if outruns(v.slots, pid, owner) && v.has_slot(pid, cap_in(caps, pid)) && (best is None
            || bps_of(v.slots, pid) > bps_of(v.slots, best->0)) {
            Some(pid)
        } else {
            best
        }
    }
}

/// Stealing under way.
#[verifier::ext_equal]
pub struct Steal {
    pub st: WorkView,
    pub issued: u64,
}

/// A hung request moved to a faster peer; where none has a slot, it is dropped and
/// densify starts from its height again. Without any faster peer it stays.
pub open spec fn steal_one(
    s: Steal,
    h: BlockHash,
    alive: Seq<usize>,
    caps: Map<usize, usize>,
    now_ms: u64,
) -> Steal {
    if !s.st.inflight.contains_key(h) || s.st.inflight[h].peers.len() == 0 {
        s
    } else {
        let owner = s.st.inflight[h].peers[0];
        if !(exists|i: int| 0 <= i < alive.len() && outruns(s.st.slots, #[trigger] alive[i], owner)) {
            s
        } else {
            let v = without_owner(s.st, h, owner);
            match steal_dest(s.st, alive, owner, caps) {
                Some(pid) => Steal {
                    st: v.with_issued(pid, seq![h], now_ms),
                    issued: sat_add(s.issued, v.going_out(pid, seq![h]).len() as u64),
                },
                None => match s.st.height_of(h) {
                    Some(ht) => Steal {
                        st: WorkView { densify_scan_lo: min32(v.densify_scan_lo, ht), ..v },
                        ..s
                    },
                    None => Steal { st: v, ..s },
                },
            }
        }
    }
}

/// The hung requests of `row` from `i` on moved, in order.
pub open spec fn steal_from(
    s: Steal,
    row: Seq<BlockHash>,
    i: int,
    alive: Seq<usize>,
    caps: Map<usize, usize>,
    now_ms: u64,
) -> Steal
    decreases row.len() - i,
{
    if i >= row.len() {
        s
    } else {
        steal_from(steal_one(s, row[i], alive, caps, now_ms), row, i + 1, alive, caps, now_ms)
    }
}

/// Does `order` list every requested hash once?
pub open spec fn lists_requests(order: Seq<BlockHash>, v: WorkView) -> bool {
    order.no_duplicates() && order.to_set() == v.inflight.dom()
}

/// All hung requests moved, taken in the given order.
pub open spec fn stolen(
    t: Turn,
    order: Seq<BlockHash>,
    alive: Seq<usize>,
    tip_batch_hi: u32,
    caps: Map<usize, usize>,
    now_ms: u64,
) -> Steal {
    steal_from(
        Steal { st: t.st, issued: 0 },
        order.filter(is_hung(t, tip_batch_hi, now_ms)),
        0,
        alive,
        caps,
        now_ms,
    )
}

fn is_hung_request(
    st: &IbdWorkState,
    hub: &ChainHub,
    h: &BlockHash,
    tip_batch_hi: u32,
    now_ms: u64,
) -> (b: bool)
    ensures
        b == is_hung((Turn { st: st@, hub: hub@ }), tip_batch_hi, now_ms)(*h),
{
    let req = match st.inflight.get(h) {
        Some(r) => r,
        None => {
            return false;
        },
    };
    if req.len() != 1 {
        return false;
    }
    let ht: u32 = match st.hash_height.get(h) {
        Some(x) => *x,
        None => {
            return false;
        },
    };
    if ht <= tip_batch_hi || hub.claim_ready(ht, h) {
        return false;
    }
    match find_slot(&st.slots, req.peers[0], true) {
        Some(i) => !peer_has_recent_rx(&st.slots[i], now_ms) && now_ms.saturating_sub(
            req.started_ms,
        ) >= TIP_HOLE_RX_STALE_MS,
        None => false,
    }
}

/// The destination and whether anybody outruns the owner.
fn find_dest(st: &IbdWorkState, alive: &Vec<usize>, owner: usize, caps: &HashMap<usize, usize>) -> (r: (
    bool,
    Option<usize>,
))
    ensures
        r.0 == (exists|i: int|
            0 <= i < alive@.len() && outruns(st@.slots, #[trigger] alive@[i], owner)),
        r.1 == steal_dest(st@, alive@, owner, caps@),
{
    let owner_bps: u64 = peer_bps(&st.slots, owner);
    let mut any = false;
    let mut best: Option<usize> = None;
    let mut i: usize = 0;
    while i < alive.len()
        invariant
            i <= alive@.len(),
            owner_bps == bps_of(st@.slots, owner),
            any == (exists|j: int|
                0 <= j < i && outruns(st@.slots, #[trigger] alive@[j], owner)),
            best == steal_dest(st@, alive@.take(i as int), owner, caps@),
        decreases alive@.len() - i,
    {
        let pid: usize = alive[i];
        assert(alive@.take(i + 1).drop_last() =~= alive@.take(i as int));
        let bps: u64 = peer_bps(&st.slots, pid);
        if pid != owner && bps > owner_bps {
            assert(outruns(st@.slots, alive@[i as int], owner));
            any = true;
            let better = match best {
                Some(b) => bps > peer_bps(&st.slots, b),
                None => true,
            };
            if peer_has_slot(st, pid, cap_of(caps, pid)) && better {
                best = Some(pid);
            }
        }
        i = i + 1;
    }
    assert(alive@.take(i as int) =~= alive@);
    (any, best)
}

fn steal_request(
    st: &mut IbdWorkState,
    h: BlockHash,
    alive: &Vec<usize>,
    caps: &HashMap<usize, usize>,
    issued: &mut u64,
    now_ms: u64,
)
    ensures
        (Steal { st: final(st)@, issued: *final(issued) }) == steal_one(
            (Steal { st: old(st)@, issued: *old(issued) }),
            h,
            alive@,
            caps@,
            now_ms,
        ),
{
    let owner: usize = match st.inflight.get(&h) {
        Some(req) => {
            if req.len() == 0 {
                return;
            }
            req.peers[0]
        },
        None => {
            return;
        },
    };
    let (any, dest) = find_dest(st, alive, owner, caps);
    if !any {
        return;
    }
    let ht = match st.hash_height.get(&h) {
        Some(x) => Some(*x),
        None => None,
    };
    drop_hash_owner(st, h, owner);
    match dest {
        Some(pid) => {
            let mut room: usize = 1;
            let _ = issue_one(st, pid, h, &mut room, issued, now_ms);
        },
        None => {
            if let Some(x) = ht {
                if x < st.densify_scan_lo {
                    st.densify_scan_lo = x;
                }
            }
        },
    }
}

/// Move hung single-peer densify requests to a faster peer with a free slot. In
/// which order the requests are taken is left open.
pub fn steal_hung_densify(
    st: &mut IbdWorkState,
    hub: &ChainHub,
    alive: &Vec<usize>,
    tip_batch_hi: u32,
    caps: &HashMap<usize, usize>,
    now_ms: u64,
) -> (issued: u64)
    ensures
        exists|order: Seq<BlockHash>| #[trigger]
            lists_requests(order, old(st)@) && (Steal { st: final(st)@, issued }) == stolen(
                (Turn { st: old(st)@, hub: hub@ }),
                order,
                alive@,
                tip_batch_hi,
                caps@,
                now_ms,
            ),
{
    let ghost t = Turn { st: st@, hub: hub@ };
    let ghost p = is_hung(t, tip_batch_hi, now_ms);
    let keys = st.inflight.keys();
    assert(st@.inflight.dom() =~= st.inflight@.dom());
    assert(lists_requests(keys@, st@));
    let mut hung: Vec<BlockHash> = Vec::new();
    let mut i: usize = 0;
    while i < keys.len()
        invariant
            i <= keys@.len(),
            t == (Turn { st: st@, hub: hub@ }),
            p == is_hung(t, tip_batch_hi, now_ms),
            hung@ == keys@.take(i as int).filter(p),
            *st == *old(st),
        decreases keys@.len() - i,
    {
        let h = keys[i];
        proof {
            assert(keys@.take(i + 1) =~= keys@.take(i as int).push(h));
            keys@.take(i as int).lemma_filter_push(h, p);
        }
        if is_hung_request(st, hub, &h, tip_batch_hi, now_ms) {
            hung.push(h);
        }
        i = i + 1;
    }
    assert(keys@.take(i as int) =~= keys@);
    let ghost all = stolen(t, keys@, alive@, tip_batch_hi, caps@, now_ms);
    let mut issued: u64 = 0;
    let mut k: usize = 0;
    while k < hung.len()
        invariant
            k <= hung@.len(),
            steal_from(
                Steal { st: st@, issued },
                hung@,
                k as int,
                alive@,
                caps@,
                now_ms,
            ) == all,
        decreases hung@.len() - k,
    {
        steal_request(st, hung[k], alive, caps, &mut issued, now_ms);
        k = k + 1;
    }
    issued
}

/// Highest height of the tip batch.
pub open spec fn batch_hi(hub: HubView) -> u32 {
    sat_add32(hub.path_lo(), (TIP_HOLE_MAX - 1) as u32)
}

/// Pending hashes of the tip batch whose mark is at least `stale_ms` old.
pub open spec fn stale_in_batch(t: Turn, stale_ms: u64, now_ms: u64) -> Set<BlockHash> {
    Set::new(
        |h: BlockHash|
            {
                &&& t.st.body.pending.contains_key(h)
                &&& sat_sub(now_ms, t.st.body.pending[h]) >= stale_ms
                &&& t.st.hash_height.contains_key(h)
                &&& t.hub.path_lo() <= t.st.hash_height[h] <= batch_hi(t.hub)
            },
    )
}

/// Stale pending hashes of the tip batch become missing and are free to be
/// requested again.
pub open spec fn batch_expired(t: Turn, stale_ms: u64, now_ms: u64) -> WorkView {
    let gone = stale_in_batch(t, stale_ms, now_ms);
    WorkView { body: t.st.body.with_set_missing(gone), ..t.st.without_requests(gone) }
}

fn expire_tip_batch(st: &mut IbdWorkState, hub: &ChainHub, stale_ms: u64, now_ms: u64)
    ensures
        final(st)@ == batch_expired((Turn { st: old(st)@, hub: hub@ }), stale_ms, now_ms),
{
    let ghost t = Turn { st: st@, hub: hub@ };
    let lo: u32 = hub.path_lo();
    let hi: u32 = lo.saturating_add((TIP_HOLE_MAX - 1) as u32);
    let heights = &st.hash_height;
    let in_batch = |h: &BlockHash| -> (b: bool)
        ensures
            b == (heights@.contains_key(*h) && lo <= heights@[*h] <= hi),
    {
        match heights.get(h) {
            Some(x) => lo <= *x && *x <= hi,
            None => false,
        }
    };
    let stale = st.body.expire_stale_pending_if(now_ms, stale_ms, in_batch);
    let ghost gone = stale_in_batch(t, stale_ms, now_ms);
    proof {
        lemma_all_missing(t.st.body, stale@);
        assert forall|h: BlockHash| gone.contains(h) == stale@.to_set().contains(h) by {
            if t.st.body.pending.contains_key(h) && !stale@.contains(h) {
                assert(sat_sub(now_ms, t.st.body.pending[h]) < stale_ms || call_ensures(
                    in_batch,
                    (&h,),
                    false,
                ));
            }
        }
        assert(stale@.to_set() =~= gone);
    }
    let mut i: usize = 0;
    let ghost mid = st@;
    assert(mid.without_requests(stale@.take(0).to_set()) =~= mid) by {
        assert(stale@.take(0).to_set() =~= Set::<BlockHash>::empty());
        assert(slots_without(mid.slots, Set::empty()) =~= mid.slots) by {
            assert forall|j: int| 0 <= j < mid.slots.len() implies slots_without(
                mid.slots,
                Set::empty(),
            )[j] == mid.slots[j] by {
                assert(slot_without(mid.slots[j], Set::empty()) =~= mid.slots[j]);
            }
        }
    }
    while i < stale.len()
        invariant
            i <= stale@.len(),
            st@ == mid.without_requests(stale@.take(i as int).to_set()),
        decreases stale@.len() - i,
    {
        let h = stale[i];
        clear_hash_inflight(&mut st.slots, &mut st.inflight, h);
        proof {
            assert(stale@.take(i + 1) =~= stale@.take(i as int).push(h));
            stale@.take(i as int).lemma_push_to_set_commute(h);
            lemma_without_twice(mid, stale@.take(i as int).to_set(), h);
        }
        i = i + 1;
    }
    assert(stale@.take(i as int) =~= stale@);
}

proof fn lemma_without_twice(v: WorkView, gone: Set<BlockHash>, h: BlockHash)
    ensures
        v.without_requests(gone).without_requests(just(h)) == v.without_requests(gone.insert(h)),
{
    let a = v.without_requests(gone).without_requests(just(h));
    let b = v.without_requests(gone.insert(h));
    assert forall|j: int| 0 <= j < a.slots.len() implies a.slots[j] == b.slots[j] by {
        assert(a.slots[j] =~= b.slots[j]);
    }
    assert(a.slots =~= b.slots);
    assert(a.inflight =~= b.inflight);
}

/// The rotation counter one step on; it wraps.
pub open spec fn next_rot(rot: usize) -> usize {
    if rot == usize::MAX {
        0
    } else {
        (rot + 1) as usize
    }
}

/// Pulling bodies of competing branches under way.
#[verifier::ext_equal]
pub struct Pull {
    pub turn: Turn,
    pub room: usize,
    pub rot: usize,
    pub issued: u64,
}

/// `h` offered to `tries` peers in rotation, until one takes it.
pub open spec fn offer_round(
    p: Pull,
    h: BlockHash,
    alive: Seq<usize>,
    tries: nat,
    per_peer: usize,
    now_ms: u64,
) -> Pull
    decreases tries,
{
    if tries == 0 {
        p
    } else {
        let pid = alive[p.rot as int % alive.len() as int];
        let on = Pull { rot: next_rot(p.rot), ..p };
        if !p.turn.st.has_slot(pid, per_peer) {
            offer_round(on, h, alive, (tries - 1) as nat, per_peer, now_ms)
        } else {
            let v = p.turn.st;
            let asked = Pull {
                turn: Turn { st: v.with_issued(pid, seq![h], now_ms), hub: p.turn.hub },
                room: room_after(p.room, v.newly_asked(pid, seq![h], now_ms)),
                issued: sat_add(p.issued, v.going_out(pid, seq![h]).len() as u64),
                ..on
            };
            if v.going_out(pid, seq![h]).len() > 0 {
                asked
            } else {
                offer_round(asked, h, alive, (tries - 1) as nat, per_peer, now_ms)
            }
        }
    }
}

/// One body of a competing branch pulled by hash: unless it is requested,
/// confirmed or queued already, or must not be downloaded.
pub open spec fn pull_one(p: Pull, h: BlockHash, alive: Seq<usize>, per_peer: usize, now_ms: u64) -> Pull {
    let t = p.turn;
    if t.st.inflight.contains_key(h) || t.hub.blocks.contains(h) || queue_has_hash(t.hub.queue, h) {
        p
    } else {
        let body = demoted(t.st.body, t.hub, h, t.st.height_of(h));
        let after = Turn {
            st: WorkView { body: body.after_skip_probe(h, false), ..t.st },
            hub: t.hub,
        };
        if body.skips(h, false) {
            Pull { turn: after, ..p }
        } else {
            offer_round(Pull { turn: after, ..p }, h, alive, alive.len(), per_peer, now_ms)
        }
    }
}

/// The bodies of `need` from `i` on pulled while there is room.
pub open spec fn pull_from(
    p: Pull,
    need: Seq<BlockHash>,
    i: int,
    alive: Seq<usize>,
    per_peer: usize,
    now_ms: u64,
) -> Pull
    decreases need.len() - i,
{
    if i >= need.len() || p.room == 0 {
        p
    } else {
        pull_from(pull_one(p, need[i], alive, per_peer, now_ms), need, i + 1, alive, per_peer, now_ms)
    }
}

/// Room of the pull: what the window leaves, and at least a reserve of eight (or
/// of what is needed), so that a full window cannot starve a competing branch.
pub open spec fn pull_room(window: usize, out: nat, need: nat) -> usize {
    let free = room_after(window, out);
    let reserve = if need < 8 {
        need
    } else {
        8
    };
    if free >= reserve {
        free
    } else {
        reserve as usize
    }
}

/// Every needed body of a competing branch pulled.
pub open spec fn pulled(t: Turn, issued: u64, alive: Seq<usize>, cfg: IbdConfig, now_ms: u64) -> Pull {
    let need = t.st.reorg.need();
    let p = pull_from(
        Pull {
            turn: t,
            room: pull_room(cfg.window, t.st.inflight.dom().len(), need.len()),
            rot: t.st.assign_rot,
            issued,
        },
        need,
        0,
        alive,
        cfg.per_peer,
        now_ms,
    );
    Pull {
        turn: Turn { st: WorkView { assign_rot: p.rot, ..p.turn.st }, hub: p.turn.hub },
        ..p
    }
}

fn offer_to_peers(
    st: &mut IbdWorkState,
    h: BlockHash,
    alive: &Vec<usize>,
    per_peer: usize,
    room: &mut usize,
    rot: &mut usize,
    issued: &mut u64,
    now_ms: u64,
    Ghost(hub): Ghost<HubView>,
)
    requires
        alive@.len() > 0,
    ensures
        (Pull {
            turn: (Turn { st: final(st)@, hub }),
            room: *final(room),
            rot: *final(rot),
            issued: *final(issued),
        }) == offer_round(
            (Pull {
                turn: (Turn { st: old(st)@, hub }),
                room: *old(room),
                rot: *old(rot),
                issued: *old(issued),
            }),
            h,
            alive@,
            alive@.len(),
            per_peer,
            now_ms,
        ),
{
    let ghost all = offer_round(
        Pull { turn: Turn { st: st@, hub }, room: *room, rot: *rot, issued: *issued },
        h,
        alive@,
        alive@.len(),
        per_peer,
        now_ms,
    );
    let n: usize = alive.len();
    let mut tries: usize = n;
    while tries > 0
        invariant_except_break
            n == alive@.len(),
            n > 0,
            offer_round(
                Pull { turn: Turn { st: st@, hub }, room: *room, rot: *rot, issued: *issued },
                h,
                alive@,
                tries as nat,
                per_peer,
                now_ms,
            ) == all,
        ensures
            (Pull { turn: Turn { st: st@, hub }, room: *room, rot: *rot, issued: *issued }) == all,
        decreases tries,
    {
        let pid: usize = alive[*rot % n];
        *rot = if *rot == usize::MAX {
            0
        } else {
            *rot + 1
        };
        tries = tries - 1;
        if peer_has_slot(st, pid, per_peer) {
            if issue_one(st, pid, h, room, issued, now_ms) {
                break;
            }
        }
    }
}

/// Pull the bodies that competing branches need, by hash: the queue keeps one
/// body per height and may hold another block there.
fn pull_reorg_need(
    st: &mut IbdWorkState,
    hub: &ChainHub,
    alive: &Vec<usize>,
    cfg: &IbdConfig,
    issued: &mut u64,
    now_ms: u64,
)
    requires
        alive@.len() > 0,
    ensures
        ({
            let p = pulled((Turn { st: old(st)@, hub: hub@ }), *old(issued), alive@, *cfg, now_ms);
            (Turn { st: final(st)@, hub: hub@ }) == p.turn && *final(issued) == p.issued
        }),
{
    let ghost t = Turn { st: st@, hub: hub@ };
    let need = st.reorg.need_getdata();
    assert(st@.inflight.dom() =~= st.inflight@.dom());
    let free: usize = cfg.window.saturating_sub(st.inflight.len());
    let reserve: usize = if need.len() < 8 {
        need.len()
    } else {
        8
    };
    let mut room: usize = if free >= reserve {
        free
    } else {
        reserve
    };
    let mut rot: usize = st.assign_rot;
    let ghost all = pull_from(
        Pull { turn: t, room, rot, issued: *issued },
        need@,
        0,
        alive@,
        cfg.per_peer,
        now_ms,
    );
    let mut i: usize = 0;
    while i < need.len() && room > 0
        invariant
            i <= need@.len(),
            alive@.len() > 0,
            pull_from(
                Pull { turn: Turn { st: st@, hub: hub@ }, room, rot, issued: *issued },
                need@,
                i as int,
                alive@,
                cfg.per_peer,
                now_ms,
            ) == all,
        decreases need@.len() - i,
    {
        let h = need[i];
        let ghost was = Pull { turn: Turn { st: st@, hub: hub@ }, room, rot, issued: *issued };
        i = i + 1;
        if !st.inflight.contains_key(&h) && !hub.has_block(&h) && !hub.queue.has_hash(&h) {
            let ht = match st.hash_height.get(&h) {
                Some(x) => Some(*x),
                None => None,
            };
            demote_zombie_pending_for_fetch(&mut st.body, hub, h, ht);
            if !st.body.skip_download(false, &h) {
                offer_to_peers(
                    st,
                    h,
                    alive,
                    cfg.per_peer,
                    &mut room,
                    &mut rot,
                    issued,
                    now_ms,
                    Ghost(hub@),
                );
            }
        }
        assert((Pull { turn: Turn { st: st@, hub: hub@ }, room, rot, issued: *issued })
            == pull_one(was, h, alive@, cfg.per_peer, now_ms));
    }
    st.assign_rot = rot;
}

/// Handing out densify hashes under way.
#[verifier::ext_equal]
pub struct Feed {
    pub turn: Turn,
    pub q: Seq<BlockHash>,
    pub room: usize,
    pub issued: u64,
}

/// One peer fed from the queue while it has a slot and there is room.
pub open spec fn feed_peer(f: Feed, pid: usize, cap: usize, now_ms: u64) -> Feed
    decreases f.q.len(),
{
    proof {
        lemma_next_need_shrinks(f.turn, f.q);
    }
    if f.room == 0 || f.q.len() == 0 || !f.turn.st.has_slot(pid, cap) {
        f
    } else {
        let (t, rest, got) = next_need(f.turn, f.q);
        match got {
            None => Feed { turn: t, q: rest, ..f },
            Some(h) => {
                let v = t.st;
                let next = Feed {
                    turn: Turn { st: v.with_issued(pid, seq![h], now_ms), hub: t.hub },
                    q: rest,
                    room: room_after(f.room, v.newly_asked(pid, seq![h], now_ms)),
                    issued: sat_add(f.issued, v.going_out(pid, seq![h]).len() as u64),
                };
                if v.going_out(pid, seq![h]).len() > 0 {
                    feed_peer(next, pid, cap, now_ms)
                } else {
                    next
                }
            },
        }
    }
}

/// The peers of `row` from `i` on fed, in order.
pub open spec fn feed_from(
    f: Feed,
    row: Seq<usize>,
    i: int,
    caps: Map<usize, usize>,
    now_ms: u64,
) -> Feed
    decreases row.len() - i,
{
    if i >= row.len() || f.room == 0 || f.q.len() == 0 {
        f
    } else {
        feed_from(feed_peer(f, row[i], cap_in(caps, row[i]), now_ms), row, i + 1, caps, now_ms)
    }
}

fn feed_one_peer(
    st: &mut IbdWorkState,
    hub: &ChainHub,
    q: &mut VecDeque<BlockHash>,
    pid: usize,
    cap: usize,
    room: &mut usize,
    issued: &mut u64,
    now_ms: u64,
)
    ensures
        (Feed {
            turn: (Turn { st: final(st)@, hub: hub@ }),
            q: final(q)@,
            room: *final(room),
            issued: *final(issued),
        }) == feed_peer(
            (Feed {
                turn: (Turn { st: old(st)@, hub: hub@ }),
                q: old(q)@,
                room: *old(room),
                issued: *old(issued),
            }),
            pid,
            cap,
            now_ms,
        ),
{
    let ghost all = feed_peer(
        Feed { turn: Turn { st: st@, hub: hub@ }, q: q@, room: *room, issued: *issued },
        pid,
        cap,
        now_ms,
    );
    let mut going = true;
    while going && *room > 0 && q.len() > 0
        invariant
            going ==> feed_peer(
                Feed { turn: Turn { st: st@, hub: hub@ }, q: q@, room: *room, issued: *issued },
                pid,
                cap,
                now_ms,
            ) == all,
            !going ==> (Feed {
                turn: Turn { st: st@, hub: hub@ },
                q: q@,
                room: *room,
                issued: *issued,
            }) == all,
        decreases q@.len(), (if going { 1int } else { 0int }),
    {
        if !peer_has_slot(st, pid, cap) {
            going = false;
        } else {
            proof {
                lemma_next_need_shrinks(Turn { st: st@, hub: hub@ }, q@);
            }
            match pop_need(q, st, hub) {
                None => {
                    going = false;
                },
                Some(h) => {
                    going = issue_one(st, pid, h, room, issued, now_ms);
                },
            }
        }
    }
}

/// Is there a peer of `alive` with a free densify slot?
pub open spec fn anyone_free(v: WorkView, alive: Seq<usize>, caps: Map<usize, usize>) -> bool {
    exists|i: int|
        0 <= i < alive.len() && v.has_slot(#[trigger] alive[i], cap_in(caps, alive[i]))
}

fn any_free(st: &IbdWorkState, alive: &Vec<usize>, caps: &HashMap<usize, usize>) -> (b: bool)
    ensures
        b == anyone_free(st@, alive@, caps@),
{
    let mut i: usize = 0;
    while i < alive.len()
        invariant
            i <= alive@.len(),
            forall|j: int|
                0 <= j < i ==> !st@.has_slot(#[trigger] alive@[j], cap_in(caps@, alive@[j])),
        decreases alive@.len() - i,
    {
        if peer_has_slot(st, alive[i], cap_of(caps, alive[i])) {
            assert(st@.has_slot(alive@[i as int], cap_in(caps@, alive@[i as int])));
            return true;
        }
        i = i + 1;
    }
    false
}

/// The densify start moved up to the path, or back to it where the path has
/// moved back.
pub open spec fn with_path_lo(v: WorkView, path_lo: u32) -> WorkView {
    WorkView {
        assign_path_lo: path_lo,
        densify_scan_lo: max32(
            if path_lo < v.assign_path_lo {
                path_lo
            } else {
                v.densify_scan_lo
            },
            path_lo,
        ),
        ..v
    }
}

/// The densify step: hung requests are moved first, then missing heights up to
/// `band_hi` are handed out to ranked peers within their caps and the window.
pub open spec fn densified(
    t: Turn,
    order: Seq<BlockHash>,
    alive: Seq<usize>,
    cfg: IbdConfig,
    tip_hole: bool,
    band_hi: u32,
    now_ms: u64,
) -> (Turn, u64) {
    let caps = caps_of(t.st.slots, alive, cfg.per_peer, tip_hole);
    let s = stolen(t, order, alive, batch_hi(t.hub), caps, now_ms);
    let room = room_after(cfg.window, s.st.inflight.dom().len());
    let v = with_path_lo(s.st, t.hub.path_lo());
    if room == 0 {
        (Turn { st: s.st, hub: t.hub }, s.issued)
    } else if !anyone_free(v, alive, caps) {
        (Turn { st: v, hub: t.hub }, s.issued)
    } else {
        let (found, need) = band_scan(
            Turn { st: v, hub: t.hub },
            v.densify_scan_lo,
            band_hi,
            room,
            cfg.far_scan_budget,
        );
        let f = feed_from(
            Feed { turn: found, q: need, room, issued: s.issued },
            ranked(found.st.slots, alive, Set::empty()),
            0,
            caps,
            now_ms,
        );
        (f.turn, f.issued)
    }
}

/// The densify step up to `band_hi`. In which order hung requests are moved is
/// left open.
pub fn assign_densify(
    st: &mut IbdWorkState,
    hub: &mut ChainHub,
    cfg: &IbdConfig,
    alive: &Vec<usize>,
    tip_hole: bool,
    band_hi: u32,
    now_ms: u64,
) -> (issued: u64)
    ensures
        exists|order: Seq<BlockHash>| #[trigger]
            lists_requests(order, old(st)@) && ((Turn { st: final(st)@, hub: final(hub)@ }), issued)
                == densified(
                (Turn { st: old(st)@, hub: old(hub)@ }),
                order,
                alive@,
                *cfg,
                tip_hole,
                band_hi,
                now_ms,
            ),
{
    let ghost t = Turn { st: st@, hub: hub@ };
    let caps = densify_caps(&st.slots, alive, cfg.per_peer, tip_hole);
    let path_lo: u32 = hub.path_lo();
    let tip_batch_hi: u32 = path_lo.saturating_add((TIP_HOLE_MAX - 1) as u32);
    let mut issued: u64 = steal_hung_densify(st, hub, alive, tip_batch_hi, &caps, now_ms);
    let ghost order = choose|order: Seq<BlockHash>| #[trigger]
        lists_requests(order, t.st) && (Steal { st: st@, issued }) == stolen(
            t,
            order,
            alive@,
            tip_batch_hi,
            caps@,
            now_ms,
        );
    assert(lists_requests(order, t.st));
    assert(st@.inflight.dom() =~= st.inflight@.dom());
    let mut room: usize = cfg.window.saturating_sub(st.inflight.len());
    if room == 0 {
        return issued;
    }
    if path_lo < st.assign_path_lo {
        st.densify_scan_lo = path_lo;
    }
    st.assign_path_lo = path_lo;
    st.densify_scan_lo = larger(st.densify_scan_lo, path_lo);
    if !any_free(st, alive, &caps) {
        return issued;
    }
    let lo: u32 = st.densify_scan_lo;
    let mut q = collect_height_band(st, hub, lo, band_hi, room, cfg.far_scan_budget);
    let none: HashSet<usize> = HashSet::new();
    let row = rank_peers_by_speed(&st.slots, alive, &none);
    let ghost all = feed_from(
        Feed { turn: Turn { st: st@, hub: hub@ }, q: q@, room, issued },
        row@,
        0,
        caps@,
        now_ms,
    );
    let mut i: usize = 0;
    while i < row.len() && room > 0 && q.len() > 0
        invariant
            i <= row@.len(),
            feed_from(
                Feed { turn: Turn { st: st@, hub: hub@ }, q: q@, room, issued },
                row@,
                i as int,
                caps@,
                now_ms,
            ) == all,
        decreases row@.len() - i,
    {
        let pid: usize = row[i];
        feed_one_peer(st, hub, &mut q, pid, cap_of(&caps, pid), &mut room, &mut issued, now_ms);
        i = i + 1;
    }
    issued
}

/// What the soft limit of the body queue is asked with: where densify starts, how far
/// it would go, and how far bodies have come already.
#[derive(Clone, Copy, Debug, PartialEq, Eq, Structural)]
pub struct BandAsk {
    pub path_lo: u32,
    pub densify_hi: u32,
    pub fetched_hi: Option<u32>,
}

/// Is `r` the highest height whose body is queued or was taken for lookup?
pub open spec fn is_fetched_hi(hub: HubView, r: Option<u32>) -> bool {
    match r {
        Some(m) => (hub.queue.contains_key(m) || hub.taken_hi == Some(m)) && (forall|h: u32|
            #[trigger] hub.queue.contains_key(h) ==> h <= m) && (hub.taken_hi matches Some(t)
            ==> t <= m),
        None => hub.queue.dom() == Set::<u32>::empty() && hub.taken_hi is None,
    }
}

/// The highest height that densify may reach, but for the soft limit of the body queue.
pub open spec fn densify_top(hub: HubView, cfg: IbdConfig) -> u32 {
    sat_add32(hub.path_lo(), cfg.densify_ahead)
}

/// What to ask the soft limit of the body queue with before [`assign_densify`].
pub fn densify_band(hub: &ChainHub, cfg: &IbdConfig) -> (a: BandAsk)
    ensures
        a.path_lo == hub@.path_lo(),
        a.densify_hi == densify_top(hub@, *cfg),
        is_fetched_hi(hub@, a.fetched_hi),
{
    let path_lo: u32 = hub.path_lo();
    let fetched_hi = match (hub.queue.max_height(), hub.taken_hi) {
        (Some(m), Some(t)) => Some(larger(m, t)),
        (Some(m), None) => Some(m),
        (None, taken) => taken,
    };
    proof {
        if hub@.queue.dom() == Set::<u32>::empty() {
            assert forall|h: u32| !(#[trigger] hub@.queue.contains_key(h)) by {
                assert(!hub@.queue.dom().contains(h));
            }
        }
    }
    BandAsk { path_lo, densify_hi: path_lo.saturating_add(cfg.densify_ahead), fetched_hi }
}

/// Requests that cannot help any more dropped: confirmed ones, and ones that feed
/// neither the path nor the awaited branch.
pub open spec fn pruned(t: Turn) -> WorkView {
    let v = t.st.without_requests(t.hub.blocks);
    v.without_requests(v.off_path())
}

/// First step of an assign turn: the ids of the alive peers. With any alive,
/// requests that cannot help any more are dropped.
pub fn assign_begin(st: &mut IbdWorkState, hub: &ChainHub) -> (alive: Vec<usize>)
    ensures
        alive@ == live_ids(old(st)@.slots),
        final(st)@ == (if alive@.len() == 0 {
            old(st)@
        } else {
            pruned(Turn { st: old(st)@, hub: hub@ })
        }),
{
    let alive = alive_ids(&st.slots);
    if alive.len() > 0 {
        prune_satisfied_inflight(&mut st.slots, &mut st.inflight, hub);
        prune_off_path_inflight(st);
    }
    alive
}

/// The competing-branch bookkeeping that an answer gives, as values.
pub open spec fn answer_view(heavier: Option<ReorgState>) -> Option<ReorgView> {
    match heavier {
        Some(r) => Some(r@),
        None => None,
    }
}

/// The state once it was seen whether a heavier branch lies beside the tip.
pub open spec fn branch_seen(v: WorkView, heavier: Option<ReorgView>) -> WorkView {
    match heavier {
        Some(r) => WorkView { reorg: r, ..v },
        None => v,
    }
}

/// Second step of an assign turn, and after new headers: it was seen whether a heavier
/// branch lies beside the tip. Where one does, `heavier` is the bookkeeping that gathers
/// it; true then.
pub fn branch_answered(st: &mut IbdWorkState, heavier: Option<ReorgState>) -> (found: bool)
    ensures
        found == (heavier is Some),
        final(st)@ == branch_seen(old(st)@, answer_view(heavier)),
{
    match heavier {
        Some(r) => {
            st.reorg = r;
            true
        },
        None => false,
    }
}

/// The tip step: stale pending marks of the batch expire, its holes are raced
/// for, and bodies of competing branches are pulled.
pub open spec fn tip_assigned(t: Turn, alive: Seq<usize>, cfg: IbdConfig, now_ms: u64) -> Pull {
    let e = Turn { st: batch_expired(t, cfg.pending_stale_ms, now_ms), hub: t.hub };
    let c = covered(e, tip_holes(e, TIP_HOLE_MAX), alive, cfg.per_peer, now_ms);
    pulled(c.turn, c.issued, alive, cfg, now_ms)
}

/// Is there a hole above the tip once stale pending marks have expired?
pub open spec fn hole_seen(t: Turn, cfg: IbdConfig, now_ms: u64) -> bool {
    let e = Turn { st: batch_expired(t, cfg.pending_stale_ms, now_ms), hub: t.hub };
    tip_holes(e, TIP_HOLE_MAX).len() > 0
}

/// The tip step of an assign turn; hands back what was issued and whether there
/// is a tip hole.
pub fn assign_tip_batch(
    st: &mut IbdWorkState,
    hub: &mut ChainHub,
    cfg: &IbdConfig,
    alive: &Vec<usize>,
    now_ms: u64,
) -> (r: (u64, bool))
    requires
        alive@.len() > 0,
    ensures
        ({
            let p = tip_assigned((Turn { st: old(st)@, hub: old(hub)@ }), alive@, *cfg, now_ms);
            (Turn { st: final(st)@, hub: final(hub)@ }) == p.turn && r.0 == p.issued
        }),
        r.1 == hole_seen((Turn { st: old(st)@, hub: old(hub)@ }), *cfg, now_ms),
{
    expire_tip_batch(st, hub, cfg.pending_stale_ms, now_ms);
    let holes = contiguous_tip_holes(st, hub, TIP_HOLE_MAX);
    let mut issued: u64 = cover_tip_holes(st, hub, cfg, alive, &holes, now_ms);
    pull_reorg_need(st, hub, alive, cfg, &mut issued, now_ms);
    (issued, holes.len() > 0)
}

/// An assign turn before its tip step: pruned, and the heavier branch seen to.
pub open spec fn turn_begun(t: Turn, heavier: Option<ReorgView>) -> Turn {
    Turn { st: branch_seen(pruned(t), heavier), hub: t.hub }
}

/// One whole assign turn: prune, heavier branch, tip step and, at full depth, densify up
/// to `band_hi`; in which order hung requests are moved is `order`.
pub open spec fn assigned(
    t: Turn,
    heavier: Option<ReorgView>,
    order: Seq<BlockHash>,
    cfg: IbdConfig,
    depth: AssignDepth,
    band_hi: u32,
    now_ms: u64,
) -> (Turn, u64) {
    let alive = live_ids(t.st.slots);
    let p = turn_begun(t, heavier);
    let tip = tip_assigned(p, alive, cfg, now_ms);
    match depth {
        AssignDepth::Critical => (tip.turn, tip.issued),
        AssignDepth::Full => {
            let d = densified(
                tip.turn,
                order,
                alive,
                cfg,
                hole_seen(p, cfg, now_ms),
                band_hi,
                now_ms,
            );
            (d.0, sat_add(tip.issued, d.1))
        },
    }
}

/// Assign getdata for one turn. `heavier` is what seeing whether a heavier branch lies
/// beside the tip answered, `band_hi` the highest height densify may reach under the soft
/// limits of the body queue. Without an alive peer nothing happens.
pub fn assign_work_ordered(
    st: &mut IbdWorkState,
    hub: &mut ChainHub,
    cfg: &IbdConfig,
    loop_stats: &mut LoopStats,
    heavier: Option<ReorgState>,
    depth: AssignDepth,
    band_hi: u32,
    now_ms: u64,
    elapsed_ns: u64,
)
    ensures
        live_ids(old(st)@.slots).len() == 0 ==> final(st)@ == old(st)@ && final(hub)@ == old(hub)@
            && *final(loop_stats) == *old(loop_stats),
        live_ids(old(st)@.slots).len() > 0 ==> exists|order: Seq<BlockHash>, issued: u64|
            (#[trigger] assign_order(
                (Turn { st: old(st)@, hub: old(hub)@ }),
                answer_view(heavier),
                order,
                *cfg,
                depth,
                now_ms,
            )) && (#[trigger] booked(*old(loop_stats), elapsed_ns, issued)) == *final(loop_stats)
                && ((Turn { st: final(st)@, hub: final(hub)@ }), issued) == assigned(
                (Turn { st: old(st)@, hub: old(hub)@ }),
                answer_view(heavier),
                order,
                *cfg,
                depth,
                band_hi,
                now_ms,
            ),
{
    let ghost t = Turn { st: st@, hub: hub@ };
    let alive = assign_begin(st, hub);
    if alive.len() == 0 {
        return;
    }
    let ghost seen = answer_view(heavier);
    branch_answered(st, heavier);
    let ghost p = Turn { st: st@, hub: hub@ };
    assert(p == turn_begun(t, seen));
    let (tip_issued, tip_hole) = assign_tip_batch(st, hub, cfg, &alive, now_ms);
    let ghost tip = tip_assigned(p, alive@, *cfg, now_ms);
    assert(tip.turn == (Turn { st: st@, hub: hub@ }));
    match depth {
        AssignDepth::Critical => {
            finish_assign(loop_stats, elapsed_ns, tip_issued);
            proof {
                let order = Seq::<BlockHash>::empty();
                assert(assign_order(t, seen, order, *cfg, depth, now_ms));
                assert(booked(*old(loop_stats), elapsed_ns, tip_issued) == *loop_stats);
            }
        },
        AssignDepth::Full => {
            let more: u64 = assign_densify(st, hub, cfg, &alive, tip_hole, band_hi, now_ms);
            let issued: u64 = tip_issued.saturating_add(more);
            finish_assign(loop_stats, elapsed_ns, issued);
            proof {
                let order = choose|order: Seq<BlockHash>| #[trigger]
                    lists_requests(order, tip.turn.st) && (Turn { st: st@, hub: hub@ }, more)
                        == densified(
                        tip.turn,
                        order,
                        alive@,
                        *cfg,
                        tip_hole,
                        band_hi,
                        now_ms,
                    );
                assert(assign_order(t, seen, order, *cfg, depth, now_ms));
                assert(booked(*old(loop_stats), elapsed_ns, issued) == *loop_stats);
            }
        },
    }
}

/// The counters after one more assign step.
pub open spec fn booked(s: LoopStats, elapsed_ns: u64, issued: u64) -> LoopStats {
    LoopStats {
        assign_ns: wrap_add(s.assign_ns, elapsed_ns),
        assign_issued: wrap_add(s.assign_issued, issued),
    }
}

/// May hung requests be taken in this order? At full depth every request that is
/// out after the tip step is listed once.
pub open spec fn assign_order(
    t: Turn,
    heavier: Option<ReorgView>,
    order: Seq<BlockHash>,
    cfg: IbdConfig,
    depth: AssignDepth,
    now_ms: u64,
) -> bool {
    depth == AssignDepth::Full ==> lists_requests(
        order,
        tip_assigned(turn_begun(t, heavier), live_ids(t.st.slots), cfg, now_ms).turn.st,
    )
}

} // verus!

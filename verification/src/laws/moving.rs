//! Hung requests move to the fastest peer that is free.
use vstd::prelude::*;
use crate::assign::{cap_in, is_hung, outruns, steal_dest, steal_one, Steal};
use crate::fetch::Turn;
use crate::hash::BlockHash;
use crate::inflight::{unasked, with_requests, without_owner};
use crate::laws::fetching::is_there;
use crate::peers::{lemma_slot_from, live_slot, CmdView};
use crate::race::bps_of;
use crate::rate::PeerRate;
use crate::requests::lemma_filter_one;
use crate::state::{other_than, ReqView, WorkView};

verus! {

/// A measured rate, zero where there is none yet.
pub open spec fn measured(rate: PeerRate) -> u64 {
    match rate.ewma_bps {
        Some(b) => b,
        None => 0,
    }
}

/// Is `p` a listed peer, alive in slot `i`, with fewer hashes out than its cap?
pub open spec fn free_at(v: WorkView, alive: Seq<usize>, caps: Map<usize, usize>, p: usize, i: int) -> bool {
    &&& alive.contains(p)
    &&& live_slot(v.slots, p) == Some(i)
    &&& caps.contains_key(p)
    &&& v.slots[i].in_flight.len() < caps[p]
}

/// Is the peer in slot `i` faster than `owner`? An owner without an alive slot has no rate.
pub open spec fn faster_at(v: WorkView, i: int, owner: usize) -> bool {
    match live_slot(v.slots, owner) {
        Some(o) => measured(v.slots[o].rate) < measured(v.slots[i].rate),
        None => 0 < measured(v.slots[i].rate),
    }
}

proof fn lemma_dest_is_fastest(v: WorkView, ids: Seq<usize>, owner: usize, caps: Map<usize, usize>)
    ensures
        match steal_dest(v, ids, owner, caps) {
            Some(d) => ids.contains(d) && outruns(v.slots, d, owner) && v.has_slot(
                d,
                cap_in(caps, d),
            ) && forall|p: usize| #[trigger]
                ids.contains(p) && p != owner && v.has_slot(p, cap_in(caps, p)) ==> bps_of(
                    v.slots,
                    p,
                ) <= bps_of(v.slots, d),
            None => forall|p: usize| #[trigger]
                ids.contains(p) && v.has_slot(p, cap_in(caps, p)) ==> !outruns(v.slots, p, owner),
        },
    decreases ids.len(),
{
    if ids.len() > 0 {
        let before = ids.drop_last();
        lemma_dest_is_fastest(v, before, owner, caps);
        assert forall|p: usize| #[trigger] ids.contains(p) implies before.contains(p) || p
            == ids.last() by {
            let j = choose|j: int| 0 <= j < ids.len() && ids[j] == p;
            if j < before.len() {
                assert(before[j] == p);
            }
        }
        assert forall|p: usize| #[trigger] before.contains(p) implies ids.contains(p) by {
            let j = choose|j: int| 0 <= j < before.len() && before[j] == p;
            assert(ids[j] == p);
        }
        assert(ids[ids.len() - 1] == ids.last());
    }
}

proof fn lemma_lone_owner_goes(v: WorkView, h: BlockHash, owner: usize)
    requires
        v.inflight.contains_key(h),
        v.inflight[h].peers == seq![owner],
    ensures
        !without_owner(v, h, owner).inflight.contains_key(h),
        without_owner(v, h, owner).outbox == v.outbox,
{
    let e = Seq::<usize>::empty();
    assert(e.push(owner) =~= seq![owner]);
    e.lemma_filter_push(owner, other_than(owner));
    e.lemma_filter_len(other_than(owner));
    assert(e.filter(other_than(owner)) =~= e);
}

/// Slots with the same ids and lives are found alike.
pub proof fn lemma_same_slots_found(a: Seq<crate::peers::SlotView>, b: Seq<crate::peers::SlotView>, pid: usize)
    requires
        a.len() == b.len(),
        forall|k: int|
            0 <= k < a.len() ==> (#[trigger] b[k]).id == a[k].id && b[k].alive == a[k].alive,
    ensures
        live_slot(b, pid) == live_slot(a, pid),
{
    lemma_slot_from(a, pid, true, 0);
    lemma_slot_from(b, pid, true, 0);
    match (live_slot(a, pid), live_slot(b, pid)) {
        (Some(i), Some(j)) => {
            if i < j {
                assert(b[i].id == pid && b[i].alive);
            } else if j < i {
                assert(b[j].id == a[j].id);
                assert(a[j].id == pid && a[j].alive);
            }
        },
        (Some(i), None) => {
            assert(b[i].id == pid && b[i].alive);
        },
        (None, Some(j)) => {
            assert(b[j].id == a[j].id);
            assert(a[j].id == pid && a[j].alive);
        },
        (None, None) => {},
    }
}

/// Where a hung request ends up once its lone owner was let go and `d` is asked.
proof fn lemma_moved(v: WorkView, h: BlockHash, owner: usize, d: usize, now_ms: u64)
    requires
        v.inflight.contains_key(h),
        v.inflight[h].peers == seq![owner],
    ensures
        ({
            let w = without_owner(v, h, owner).with_issued(d, seq![h], now_ms);
            if w.inflight.contains_key(h) {
                &&& w.inflight[h].peers == seq![d]
                &&& w.inflight[h].started_ms == now_ms
                &&& w.outbox == v.outbox.push((d, CmdView::GetData { hashes: seq![h] }))
            } else {
                live_slot(v.slots, d) matches Some(i) ==> d == owner
                    || v.slots[i].in_flight.contains(h)
            }
        }),
{
    let u = without_owner(v, h, owner);
    lemma_lone_owner_goes(v, h, owner);
    lemma_slot_from(v.slots, owner, false, 0);
    lemma_same_slots_found(v.slots, u.slots, d);
    lemma_slot_from(v.slots, d, true, 0);
    if let Some(i) = live_slot(v.slots, d) {
        lemma_filter_one(h, unasked(u.slots[i]));
        let out = u.going_out(d, seq![h]);
        if out.len() > 0 {
            assert(out == seq![h]);
            assert(out.drop_last() =~= Seq::<BlockHash>::empty());
            assert(out.last() == h);
            assert(with_requests(u.inflight, out.drop_last(), d, now_ms) == u.inflight);
        }
    }
}

/// Whoever a hung request moves to was free and faster than its owner, and every other
/// alive peer that was free is no faster.
pub proof fn law_hung_request_moves_to_the_fastest(
    s: Steal,
    h: BlockHash,
    alive: Seq<usize>,
    caps: Map<usize, usize>,
    now_ms: u64,
    owner: usize,
    d: usize,
    p: usize,
    i: int,
)
    requires
        s.st.inflight.contains_key(h),
        s.st.inflight[h].peers == seq![owner],
        forall|k: int| 0 <= k < alive.len() ==> caps.contains_key(#[trigger] alive[k]),
        ({
            let r = steal_one(s, h, alive, caps, now_ms).st;
            r.inflight.contains_key(h) && r.inflight[h].peers.contains(d) && d != owner
        }),
    ensures
        ({
            let k = live_slot(s.st.slots, d)->0;
            &&& live_slot(s.st.slots, d) is Some
            &&& free_at(s.st, alive, caps, d, k)
            &&& faster_at(s.st, k, owner)
            &&& p != owner && free_at(s.st, alive, caps, p, i) ==> measured(s.st.slots[i].rate)
                <= measured(s.st.slots[k].rate)
        }),
{
    let v = s.st;
    lemma_dest_is_fastest(v, alive, owner, caps);
    lemma_lone_owner_goes(v, h, owner);
    assert(!seq![owner].contains(d));
    let x = steal_dest(v, alive, owner, caps)->0;
    assert(steal_dest(v, alive, owner, caps) is Some);
    lemma_moved(v, h, owner, x, now_ms);
    assert(x == d);
    let j = choose|j: int| 0 <= j < alive.len() && alive[j] == x;
    assert(caps.contains_key(alive[j]));
}

/// With a faster alive peer that is free, a hung request is moved: one of the alive peers
/// is asked for it afresh, alone, and its owner is let go.
pub proof fn law_hung_request_is_moved(
    s: Steal,
    h: BlockHash,
    alive: Seq<usize>,
    caps: Map<usize, usize>,
    now_ms: u64,
    owner: usize,
    p: usize,
    i: int,
) -> (d: usize)
    requires
        s.st.inflight.contains_key(h),
        s.st.inflight[h].peers == seq![owner],
        forall|k: int|
            0 <= k < s.st.slots.len() && (#[trigger] s.st.slots[k]).in_flight.contains(h)
                ==> s.st.slots[k].id == owner,
        p != owner,
        free_at(s.st, alive, caps, p, i),
        faster_at(s.st, i, owner),
    ensures
        d != owner,
        alive.contains(d),
        ({
            let r = steal_one(s, h, alive, caps, now_ms).st;
            &&& r.inflight.contains_key(h)
            &&& r.inflight[h] == (ReqView { peers: seq![d], started_ms: now_ms })
            &&& r.outbox == s.st.outbox.push((d, CmdView::GetData { hashes: seq![h] }))
        }),
{
    let v = s.st;
    lemma_dest_is_fastest(v, alive, owner, caps);
    let j = choose|j: int| 0 <= j < alive.len() && alive[j] == p;
    assert(outruns(v.slots, alive[j], owner));
    let d = steal_dest(v, alive, owner, caps)->0;
    lemma_slot_from(v.slots, d, true, 0);
    lemma_moved(v, h, owner, d, now_ms);
    d
}

/// Where faster alive peers exist but none is free, a hung request is given up: nobody owns
/// it, and densify starts no higher than its height again.
pub proof fn law_hung_request_is_given_up_to_densify(
    s: Steal,
    h: BlockHash,
    alive: Seq<usize>,
    caps: Map<usize, usize>,
    now_ms: u64,
    owner: usize,
    p: usize,
    i: int,
)
    requires
        s.st.inflight.contains_key(h),
        s.st.inflight[h].peers == seq![owner],
        s.st.hash_height.contains_key(h),
        alive.contains(p) && p != owner && live_slot(s.st.slots, p) == Some(i),
        faster_at(s.st, i, owner),
        forall|k: int|
            0 <= k < alive.len() ==> caps.contains_key(#[trigger] alive[k]) && (live_slot(
                s.st.slots,
                alive[k],
            ) matches Some(j) ==> s.st.slots[j].in_flight.len() >= caps[alive[k]]),
    ensures
        ({
            let r = steal_one(s, h, alive, caps, now_ms);
            &&& !r.st.inflight.contains_key(h)
            &&& r.st.densify_scan_lo <= s.st.hash_height[h]
            &&& r.st.densify_scan_lo <= s.st.densify_scan_lo
            &&& r.st.outbox == s.st.outbox
            &&& r.issued == s.issued
        }),
{
    let v = s.st;
    lemma_dest_is_fastest(v, alive, owner, caps);
    lemma_lone_owner_goes(v, h, owner);
    let j = choose|j: int| 0 <= j < alive.len() && alive[j] == p;
    assert(outruns(v.slots, alive[j], owner));
    if steal_dest(v, alive, owner, caps) is Some {
        let d = steal_dest(v, alive, owner, caps)->0;
        let k = choose|k: int| 0 <= k < alive.len() && alive[k] == d;
        assert(caps.contains_key(alive[k]));
    }
}

/// With no faster alive peer, a hung request stays where it is and nothing is sent.
pub proof fn law_hung_request_stays_with_the_fastest(
    s: Steal,
    h: BlockHash,
    alive: Seq<usize>,
    caps: Map<usize, usize>,
    now_ms: u64,
    owner: usize,
)
    requires
        s.st.inflight.contains_key(h),
        s.st.inflight[h].peers == seq![owner],
        forall|k: int, i: int|
            0 <= k < alive.len() && alive[k] != owner && live_slot(
                s.st.slots,
                #[trigger] alive[k],
            ) == Some(i) ==> !(#[trigger] faster_at(s.st, i, owner)),
    ensures
        steal_one(s, h, alive, caps, now_ms) == s,
{
    assert forall|k: int| 0 <= k < alive.len() implies !outruns(
        s.st.slots,
        #[trigger] alive[k],
        owner,
    ) by {
        if let Some(i) = live_slot(s.st.slots, alive[k]) {
            assert(alive[k] != owner ==> !faster_at(s.st, i, owner));
        }
    }
}

/// A request above the tip batch counts as hung exactly when it has one owner, its body is
/// not there, it is at least thirty seconds old, and the owner is alive and received nothing
/// for longer than that.
pub proof fn law_only_old_silent_requests_are_hung(
    t: Turn,
    tip_batch_hi: u32,
    now_ms: u64,
    h: BlockHash,
    owner: usize,
)
    requires
        t.st.inflight.contains_key(h),
        t.st.inflight[h].peers == seq![owner],
        t.st.hash_height.contains_key(h),
    ensures
        is_hung(t, tip_batch_hi, now_ms)(h) <==> {
            let i = live_slot(t.st.slots, owner)->0;
            let ht = t.st.hash_height[h];
            &&& ht > tip_batch_hi
            &&& !is_there(t.hub, ht, h)
            &&& now_ms - t.st.inflight[h].started_ms >= 30_000
            &&& live_slot(t.st.slots, owner) is Some
            &&& t.st.slots[i].rate.progress_ms == 0 || now_ms - t.st.slots[i].rate.progress_ms
                > 30_000
        },
{
}

/// A request with several owners, for a tip-batch height, or for a body that is there is
/// never moved as hung.
pub proof fn law_raced_requests_are_not_hung(t: Turn, tip_batch_hi: u32, now_ms: u64, h: BlockHash)
    requires
        !t.st.inflight.contains_key(h) || t.st.inflight[h].peers.len() != 1
            || !t.st.hash_height.contains_key(h) || t.st.hash_height[h] <= tip_batch_hi || is_there(
            t.hub,
            t.st.hash_height[h],
            h,
        ),
    ensures
        !is_hung(t, tip_batch_hi, now_ms)(h),
{
}

} // verus!

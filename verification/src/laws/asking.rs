//! What asking a peer for blocks does to the books, and what undoes it.
use vstd::prelude::*;
use crate::assign_plan::{bloated, trimmed};
use crate::dial::given_up;
use crate::hash::BlockHash;
use crate::inflight::{room_after, slot_with, with_request};
use crate::laws::speed::lemma_filter_all;
use crate::peers::SlotView;
use crate::state::{other_than, ReqView, WorkView};

verus! {

/// A request starts when its first peer is asked and keeps that time; each peer is listed
/// once, behind those asked before it, and other requests are not touched.
pub proof fn law_request_lists_each_peer_once(
    m: Map<BlockHash, ReqView>,
    h: BlockHash,
    p: usize,
    now_ms: u64,
    g: BlockHash,
)
    requires
        g != h,
        m.contains_key(h) ==> m[h].peers.no_duplicates(),
    ensures
        ({
            let w = with_request(m, h, p, now_ms);
            &&& w.contains_key(h) && w[h].peers.contains(p) && w[h].peers.no_duplicates()
            &&& !m.contains_key(h) ==> w[h].started_ms == now_ms && w[h].peers.len() == 1
            &&& m.contains_key(h) ==> w[h].started_ms == m[h].started_ms
            &&& m.contains_key(h) && !m[h].peers.contains(p) ==> w[h].peers == m[h].peers.push(p)
            &&& m.contains_key(h) && m[h].peers.contains(p) ==> w == m
            &&& w.contains_key(g) == m.contains_key(g)
            &&& m.contains_key(g) ==> w[g] == m[g]
        }),
{
    let w = with_request(m, h, p, now_ms);
    if !m.contains_key(h) {
        assert(w[h].peers[0] == p);
    } else if !m[h].peers.contains(p) {
        let n = m[h].peers.len() as int;
        assert(w[h].peers[n] == p);
    } else {
        assert(w =~= m);
    }
}

/// A peer that is let go leaves a request's list, and nobody else does.
pub proof fn law_let_go_removes_one_owner(r: ReqView, p: usize, q: usize)
    ensures
        !r.without_peer(p).peers.contains(p),
        q != p ==> r.without_peer(p).peers.contains(q) == r.peers.contains(q),
        r.without_peer(p).started_ms == r.started_ms,
        r.without_peer(p).peers.len() <= r.peers.len(),
{
    lemma_filter_all(r.peers, other_than(p));
}

/// When a peer gives its requests up, those it shared stay with the others, those it had
/// alone are free, and requests that it was not asked for stay as they were.
pub proof fn law_given_up_requests(
    m: Map<BlockHash, ReqView>,
    set: Set<BlockHash>,
    p: usize,
    q: usize,
    h: BlockHash,
)
    requires
        m.contains_key(h),
        q != p,
    ensures
        ({
            let w = given_up(m, set, p);
            &&& !set.contains(h) ==> w.contains_key(h) && w[h] == m[h]
            &&& set.contains(h) && m[h].peers.contains(q) ==> w.contains_key(h)
                && w[h].peers.contains(q) && !w[h].peers.contains(p) && w[h].started_ms
                == m[h].started_ms
            &&& set.contains(h) && (forall|k: int|
                0 <= k < m[h].peers.len() ==> (#[trigger] m[h].peers[k]) == p) ==> !w.contains_key(
                h,
            )
        }),
{
    law_let_go_removes_one_owner(m[h], p, q);
    let f = other_than(p);
    lemma_filter_all(m[h].peers, f);
    if forall|k: int| 0 <= k < m[h].peers.len() ==> (#[trigger] m[h].peers[k]) == p {
        assert forall|k: int| 0 <= k < m[h].peers.len() implies !f(#[trigger] m[h].peers[k]) by {}
    }
}

/// Asking an idle peer starts its work clock; asking a busy one leaves it. The peer's
/// requests grow by exactly what it is asked for.
pub proof fn law_asking_starts_an_idle_clock(s: SlotView, hs: Seq<BlockHash>, now_ms: u64, h: BlockHash)
    ensures
        (forall|g: BlockHash| !(#[trigger] s.in_flight.contains(g))) ==> slot_with(
            s,
            hs,
            now_ms,
        ).rate.work_started_ms == now_ms,
        s.in_flight.contains(h) ==> slot_with(s, hs, now_ms).rate == s.rate,
        slot_with(s, hs, now_ms).in_flight.contains(h) <==> s.in_flight.contains(h) || hs.contains(
            h,
        ),
        slot_with(s, hs, now_ms).rate.progress_ms == s.rate.progress_ms,
        slot_with(s, hs, now_ms).id == s.id && slot_with(s, hs, now_ms).alive == s.alive,
{
    if forall|g: BlockHash| !(#[trigger] s.in_flight.contains(g)) {
        assert(s.in_flight =~= Set::<BlockHash>::empty());
    }
}

/// Room shrinks by what was asked for and never below nothing.
pub proof fn law_room_shrinks(room: usize, n: nat)
    ensures
        n <= room ==> room_after(room, n) == room - n,
        n > room ==> room_after(room, n) == 0,
{
}

/// Forgetting requests takes them off every peer and off the books, and touches no others.
pub proof fn law_forgotten_requests(v: WorkView, gone: Set<BlockHash>, h: BlockHash, i: int)
    requires
        0 <= i < v.slots.len(),
    ensures
        ({
            let w = v.without_requests(gone);
            &&& gone.contains(h) ==> !w.inflight.contains_key(h) && !w.slots[i].in_flight.contains(h)
            &&& !gone.contains(h) ==> w.inflight.contains_key(h) == v.inflight.contains_key(h)
                && w.slots[i].in_flight.contains(h) == v.slots[i].in_flight.contains(h)
            &&& !gone.contains(h) && v.inflight.contains_key(h) ==> w.inflight[h] == v.inflight[h]
            &&& w.slots[i].id == v.slots[i].id && w.slots[i].rate == v.slots[i].rate
            &&& w.ordered == v.ordered && w.body == v.body
        }),
{
}

/// Trimming the front stops at the first live hash, and loses none that is live.
pub proof fn law_trim_stops_at_the_first_live(s: Seq<BlockHash>, live: Set<BlockHash>)
    ensures
        trimmed(s, live).len() <= s.len(),
        trimmed(s, live).len() > 0 ==> live.contains(trimmed(s, live)[0]),
        s.len() > 0 && live.contains(s[0]) ==> trimmed(s, live) == s,
        s.skip(s.len() - trimmed(s, live).len()) == trimmed(s, live),
        forall|k: int|
            0 <= k < s.len() - trimmed(s, live).len() ==> !live.contains(#[trigger] s[k]),
    decreases s.len(),
{
    let t = trimmed(s, live);
    if s.len() == 0 || live.contains(s[0]) {
        assert(s.skip(0) =~= s);
    } else {
        let r = s.drop_first();
        law_trim_stops_at_the_first_live(r, live);
        assert(s.skip(s.len() - t.len()) =~= r.skip(r.len() - t.len()));
        assert forall|k: int| 0 <= k < s.len() - t.len() implies !live.contains(#[trigger] s[k]) by {
            if k > 0 {
                assert(r[k - 1] == s[k]);
            }
        }
    }
}

/// The ordered path is rebuilt only from 65 entries on, and only with more ghosts than half
/// of what is live and more than 64.
pub proof fn law_path_is_rebuilt_when_bloated(len: nat, live: nat)
    requires
        live <= len,
    ensures
        bloated(len, live) <==> len > 64 && len - live > 64 && len - live > live / 2,
{
}

} // verus!

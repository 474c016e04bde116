//! Blocks right above the tip are raced for by the fastest free peers.
use vstd::prelude::*;
use crate::hash::BlockHash;
use crate::inflight::{unasked, with_request, with_requests};
use crate::laws::fetching::is_there;
use crate::laws::moving::lemma_same_slots_found;
use crate::laws::speed::{law_rank_is_by_speed, rate_at};
use crate::peers::{lemma_slot_from, live_slot, CmdView};
use crate::race::{cover_one, race_from, ranked, Cover, Race};
use crate::requests::lemma_filter_one;
use crate::state::WorkView;

verus! {

/// Who `h` is requested from.
pub open spec fn owners(v: WorkView, h: BlockHash) -> Seq<usize> {
    if v.inflight.contains_key(h) {
        v.inflight[h].peers
    } else {
        Seq::empty()
    }
}

/// Is `p` alive, not asked for `h`, and below its limit of requests?
pub open spec fn is_free(v: WorkView, p: usize, h: BlockHash, per_peer: usize) -> bool {
    match live_slot(v.slots, p) {
        Some(i) => !v.slots[i].in_flight.contains(h) && v.slots[i].in_flight.len() < per_peer
            && !owners(v, h).contains(p),
        None => false,
    }
}

/// Does every slot have finitely many requests?
pub open spec fn finite_slots(v: WorkView) -> bool {
    forall|k: int| 0 <= k < v.slots.len() ==> (#[trigger] v.slots[k]).in_flight.finite()
}

proof fn lemma_asked(v: WorkView, p: usize, h: BlockHash, now_ms: u64)
    requires
        live_slot(v.slots, p) is Some,
        !v.slots[live_slot(v.slots, p)->0].in_flight.contains(h),
        !owners(v, h).contains(p),
    ensures
        ({
            let i = live_slot(v.slots, p)->0;
            let w = v.with_issued(p, seq![h], now_ms);
            &&& 0 <= i < v.slots.len() && v.slots[i].id == p
            &&& w.slots.len() == v.slots.len()
            &&& forall|k: int|
                0 <= k < v.slots.len() ==> (#[trigger] w.slots[k]).id == v.slots[k].id
                    && w.slots[k].alive == v.slots[k].alive
            &&& forall|k: int|
                0 <= k < v.slots.len() && k != i ==> (#[trigger] w.slots[k]) == v.slots[k]
            &&& w.slots[i].in_flight == v.slots[i].in_flight.insert(h)
            &&& owners(w, h) == owners(v, h).push(p)
            &&& w.outbox == v.outbox.push((p, CmdView::GetData { hashes: seq![h] }))
        }),
{
    let i = live_slot(v.slots, p)->0;
    lemma_slot_from(v.slots, p, true, 0);
    lemma_filter_one(h, unasked(v.slots[i]));
    let out = v.going_out(p, seq![h]);
    assert(out == seq![h]);
    assert(out.drop_last() =~= Seq::<BlockHash>::empty());
    assert(out.last() == h);
    assert(with_requests(v.inflight, out.drop_last(), p, now_ms) == v.inflight);
    assert(with_requests(v.inflight, out, p, now_ms) == with_request(v.inflight, h, p, now_ms));
    let w = v.with_issued(p, seq![h], now_ms);
    assert(w.slots[i].in_flight =~= v.slots[i].in_flight.insert(h)) by {
        assert forall|g: BlockHash| seq![h].to_set().contains(g) == (g == h) by {
            assert(seq![h][0] == h);
        }
    }
    assert(owners(w, h) =~= owners(v, h).push(p));
}

proof fn lemma_join_keeps_the_rest(
    v: WorkView,
    p: usize,
    h: BlockHash,
    per_peer: usize,
    now_ms: u64,
    q: usize,
)
    requires
        is_free(v, p, h, per_peer),
        finite_slots(v),
    ensures
        ({
            let w = v.with_issued(p, seq![h], now_ms);
            &&& finite_slots(w)
            &&& q != p ==> is_free(w, q, h, per_peer) == is_free(v, q, h, per_peer)
            &&& !is_free(w, p, h, per_peer)
        }),
{
    lemma_asked(v, p, h, now_ms);
    let w = v.with_issued(p, seq![h], now_ms);
    let i = live_slot(v.slots, p)->0;
    lemma_same_slots_found(v.slots, w.slots, q);
    lemma_same_slots_found(v.slots, w.slots, p);
    lemma_slot_from(v.slots, q, true, 0);
    assert forall|k: int| 0 <= k < w.slots.len() implies (#[trigger] w.slots[k]).in_flight.finite() by {
        assert(v.slots[k].in_flight.finite());
        if k == i {
            assert(w.slots[i].in_flight == v.slots[i].in_flight.insert(h));
        } else {
            assert(w.slots[k] == v.slots[k]);
        }
    }
    let a = owners(v, h);
    assert(a.push(p)[a.len() as int] == p);
    if q != p {
        if let Some(k) = live_slot(v.slots, q) {
            assert(k != i);
            assert(w.slots[k] == v.slots[k]);
        }
        if a.push(p).contains(q) {
            let k = choose|k: int| 0 <= k < a.push(p).len() && a.push(p)[k] == q;
            assert(a[k] == q);
        }
        if a.contains(q) {
            let k = choose|k: int| 0 <= k < a.len() && a[k] == q;
            assert(a.push(p)[k] == q);
        }
    }
}

proof fn lemma_may_join(v: WorkView, p: usize, h: BlockHash, evicted: Option<usize>, per_peer: usize)
    ensures
        v.may_join(p, h, evicted, per_peer) == (evicted != Some(p) && is_free(v, p, h, per_peer)),
{
}

proof fn lemma_race(
    r: Race,
    h: BlockHash,
    row: Seq<usize>,
    i: int,
    evicted: Option<usize>,
    per_peer: usize,
    now_ms: u64,
    k: int,
    m: int,
)
    requires
        0 <= i,
        row.no_duplicates(),
        finite_slots(r.st),
        r.need >= 0,
    ensures
        ({
            let e = race_from(r, h, row, i, evicted, per_peer, now_ms);
            &&& 0 <= e.need <= r.need
            &&& e.placed == (r.placed || e.need < r.need)
            &&& owners(e.st, h).len() == owners(r.st, h).len() + r.need - e.need
            &&& e.st.outbox.len() == r.st.outbox.len() + r.need - e.need
            &&& forall|q: usize| #[trigger]
                owners(r.st, h).contains(q) ==> owners(e.st, h).contains(q)
            &&& i <= k < row.len() && e.need > 0 && evicted != Some(row[k]) && is_free(
                r.st,
                row[k],
                h,
                per_peer,
            ) ==> owners(e.st, h).contains(row[k])
            &&& i <= k < m < row.len() && evicted != Some(row[k]) && is_free(
                r.st,
                row[k],
                h,
                per_peer,
            ) && owners(e.st, h).contains(row[m]) && !owners(r.st, h).contains(row[m])
                ==> owners(e.st, h).contains(row[k])
        }),
    decreases row.len() - i,
{
    if i >= row.len() || r.need <= 0 {
    } else {
        let p = row[i];
        lemma_may_join(r.st, p, h, evicted, per_peer);
        if r.st.may_join(p, h, evicted, per_peer) {
            let next = Race {
                st: r.st.with_issued(p, seq![h], now_ms),
                issued: crate::time::sat_add(r.issued, 1),
                need: r.need - 1,
                placed: true,
            };
            lemma_asked(r.st, p, h, now_ms);
            lemma_join_keeps_the_rest(r.st, p, h, per_peer, now_ms, p);
            lemma_race(next, h, row, i + 1, evicted, per_peer, now_ms, k, m);
            let a = owners(r.st, h);
            let b = owners(next.st, h);
            assert(b[a.len() as int] == p);
            assert(b.contains(p));
            let e = race_from(r, h, row, i, evicted, per_peer, now_ms);
            assert(owners(e.st, h).contains(p));
            assert forall|q: usize| #[trigger] a.contains(q) implies owners(e.st, h).contains(q) by {
                let j = choose|j: int| 0 <= j < a.len() && a[j] == q;
                assert(b[j] == q);
                assert(b.contains(q));
            }
            if i < k < row.len() {
                assert(row[k] != p);
                lemma_join_keeps_the_rest(r.st, p, h, per_peer, now_ms, row[k]);
            }
            if i < m < row.len() {
                assert(row[m] != p);
                if b.contains(row[m]) {
                    let j = choose|j: int| 0 <= j < b.len() && b[j] == row[m];
                    assert(a[j] == row[m]);
                }
            }
        } else {
            lemma_race(r, h, row, i + 1, evicted, per_peer, now_ms, k, m);
        }
    }
}

proof fn lemma_let_go(v: WorkView, h: BlockHash, pid: usize, q: usize, per_peer: usize)
    requires
        q != pid,
        finite_slots(v),
    ensures
        ({
            let w = crate::inflight::without_owner(v, h, pid);
            &&& finite_slots(w)
            &&& is_free(w, q, h, per_peer) == is_free(v, q, h, per_peer)
            &&& owners(w, h).contains(q) == owners(v, h).contains(q)
            &&& owners(w, h).len() <= owners(v, h).len()
            &&& forall|x: usize| rate_at(w.slots, x) == #[trigger] rate_at(v.slots, x)
        }),
{
    let w = crate::inflight::without_owner(v, h, pid);
    lemma_slot_from(v.slots, pid, false, 0);
    assert forall|k: int| 0 <= k < v.slots.len() implies (#[trigger] w.slots[k]).id
        == v.slots[k].id && w.slots[k].alive == v.slots[k].alive by {}
    lemma_same_slots_found(v.slots, w.slots, q);
    lemma_slot_from(v.slots, q, true, 0);
    assert forall|x: usize| rate_at(w.slots, x) == #[trigger] rate_at(v.slots, x) by {
        lemma_same_slots_found(v.slots, w.slots, x);
        lemma_slot_from(v.slots, x, true, 0);
        if let Some(k) = live_slot(v.slots, x) {
            assert(w.slots[k].rate == v.slots[k].rate);
        }
    }
    assert forall|k: int| 0 <= k < w.slots.len() implies (#[trigger] w.slots[k]).in_flight.finite() by {
        assert(v.slots[k].in_flight.finite());
    }
    let a = owners(v, h);
    let f = crate::state::other_than(pid);
    a.filter_lemma(f);
    a.lemma_filter_len(f);
    if a.contains(q) {
        let k = choose|k: int| 0 <= k < a.len() && a[k] == q;
        assert(f(a[k]));
        assert(a.filter(f).contains(q));
    }
    if a.filter(f).contains(q) {
        lemma_filter_from(a, f, q);
    }
}

proof fn lemma_filter_from(s: Seq<usize>, f: spec_fn(usize) -> bool, x: usize)
    requires
        s.filter(f).contains(x),
    ensures
        s.contains(x),
    decreases s.len(),
{
    reveal(Seq::filter);
    if s.len() > 0 {
        let t = s.drop_last();
        let k = choose|k: int| 0 <= k < s.filter(f).len() && s.filter(f)[k] == x;
        if k < t.filter(f).len() {
            assert(t.filter(f)[k] == x);
            lemma_filter_from(t, f, x);
            let j = choose|j: int| 0 <= j < t.len() && t[j] == x;
            assert(s[j] == x);
        } else {
            assert(s[s.len() - 1] == x);
        }
    }
}

proof fn lemma_row(slots: Seq<crate::peers::SlotView>, alive: Seq<usize>, avoid: Set<usize>, p: usize)
    requires
        alive.no_duplicates(),
    ensures
        ranked(slots, alive, avoid).no_duplicates(),
        alive.contains(p) <==> ranked(slots, alive, avoid).contains(p),
{
    let leq = crate::race::ranks(slots, avoid);
    assert(vstd::relations::total_ordering(leq));
    alive.lemma_sort_by_ensures(leq);
    let r = ranked(slots, alive, avoid);
    alive.lemma_multiset_has_no_duplicates();
    r.lemma_multiset_has_no_duplicates_conv();
    alive.to_multiset_ensures();
    r.to_multiset_ensures();
    assert(alive.contains(p) <==> alive.to_multiset().count(p) > 0);
    assert(r.contains(p) <==> r.to_multiset().count(p) > 0);
}

/// A block above the tip whose body is not there is asked of up to four peers. A free alive
/// peer that does not own the request, and is not just being let go, joins unless four race
/// already; and whoever joins in its place is no slower.
pub proof fn law_tip_block_is_raced_by_the_fastest(
    c: Cover,
    h: BlockHash,
    alive: Seq<usize>,
    per_peer: usize,
    now_ms: u64,
    p: usize,
    q: usize,
)
    requires
        alive.no_duplicates(),
        finite_slots(c.turn.st),
        c.turn.st.hash_height.contains_key(h),
        !is_there(c.turn.hub, c.turn.st.hash_height[h], h),
        !(c.turn.st.reorg.awaiting is Some && (c.turn.st.reorg.awaiting->0).0 == h),
        owners(c.turn.st, h).len() <= 4,
        alive.contains(p),
        is_free(c.turn.st, p, h, per_peer),
        c.turn.st.evicts(h, now_ms) != Some(p),
    ensures
        ({
            let v = c.turn.st;
            let w = cover_one(c, h, alive, per_peer, now_ms).turn.st;
            &&& 1 <= owners(w, h).len() <= 4
            &&& !c.stuck ==> !cover_one(c, h, alive, per_peer, now_ms).stuck
            &&& owners(w, h).contains(p) || owners(w, h).len() == 4
            &&& alive.contains(q) && owners(w, h).contains(q) && !owners(v, h).contains(q)
                && !owners(w, h).contains(p) ==> rate_at(v.slots, p) <= rate_at(v.slots, q)
        }),
{
    let t = crate::race::hole_cleared(c.turn, h);
    let v = c.turn.st;
    assert(t.st.slots == v.slots && t.st.inflight == v.inflight);
    let evicted = t.st.evicts(h, now_ms);
    assert(evicted == v.evicts(h, now_ms));
    let u = match evicted {
        Some(pid) => crate::inflight::without_owner(t.st, h, pid),
        None => t.st,
    };
    let avoid = match evicted {
        Some(pid) => Set::<usize>::empty().insert(pid),
        None => Set::<usize>::empty(),
    };
    if let Some(pid) = evicted {
        lemma_let_go(t.st, h, pid, p, per_peer);
        if q != pid {
            lemma_let_go(t.st, h, pid, q, per_peer);
        }
    }
    assert(finite_slots(u));
    assert(is_free(t.st, p, h, per_peer) == is_free(v, p, h, per_peer));
    assert(is_free(u, p, h, per_peer));
    assert(u.owners_of(h) == owners(u, h).len());
    if u.owners_of(h) < 4 {
        let row = ranked(u.slots, alive, avoid);
        lemma_row(u.slots, alive, avoid, p);
        lemma_row(u.slots, alive, avoid, q);
        let k = choose|k: int| 0 <= k < row.len() && row[k] == p;
        let r = Race { st: u, issued: c.issued, need: 4 - u.owners_of(h), placed: false };
        lemma_race(r, h, row, 0, evicted, per_peer, now_ms, k, k);
        let e = race_from(r, h, row, 0, evicted, per_peer, now_ms);
        assert(cover_one(c, h, alive, per_peer, now_ms).turn.st == e.st);
        if owners(e.st, h).contains(p) {
            let j = choose|j: int| 0 <= j < owners(e.st, h).len() && owners(e.st, h)[j] == p;
        }
        if alive.contains(q) && owners(e.st, h).contains(q) && !owners(v, h).contains(q)
            && !owners(e.st, h).contains(p) {
            let m = choose|m: int| 0 <= m < row.len() && row[m] == q;
            assert(m != k);
            if k < m {
                if evicted == Some(q) {
                    assert(!owners(u, h).contains(q)) by {
                        if owners(u, h).contains(q) {
                            lemma_filter_from(owners(v, h), crate::state::other_than(q), q);
                        }
                    }
                }
                lemma_race(r, h, row, 0, evicted, per_peer, now_ms, k, m);
                assert(false);
            } else {
                law_rank_is_by_speed(u.slots, alive, avoid, m, k);
                assert(!avoid.contains(p));
                assert(!avoid.contains(row[m]));
            }
        }
    }
}

/// Racing for a hole clears the way for its body: no other block's wire stays queued at its
/// height, and a pending mark without wire is void.
pub proof fn law_race_clears_the_way(
    c: Cover,
    h: BlockHash,
    alive: Seq<usize>,
    per_peer: usize,
    now_ms: u64,
    other: u32,
)
    requires
        c.turn.st.hash_height.contains_key(h),
        !is_there(c.turn.hub, c.turn.st.hash_height[h], h),
        !(c.turn.st.reorg.awaiting is Some && (c.turn.st.reorg.awaiting->0).0 == h),
        !c.turn.st.body.rejected.contains(h),
        other != c.turn.st.hash_height[h],
    ensures
        ({
            let w = cover_one(c, h, alive, per_peer, now_ms).turn;
            &&& !w.hub.queue.contains_key(c.turn.st.hash_height[h])
            &&& w.hub.queue.contains_key(other) == c.turn.hub.queue.contains_key(other)
            &&& !w.st.body.pending.contains_key(h)
            &&& c.turn.st.body.pending.contains_key(h) ==> w.st.body.missing.contains(h)
        }),
{
    let t = crate::race::hole_cleared(c.turn, h);
    let evicted = t.st.evicts(h, now_ms);
    let u = match evicted {
        Some(pid) => crate::inflight::without_owner(t.st, h, pid),
        None => t.st,
    };
    let avoid = match evicted {
        Some(pid) => Set::<usize>::empty().insert(pid),
        None => Set::<usize>::empty(),
    };
    if u.owners_of(h) < 4 {
        let r = Race { st: u, issued: c.issued, need: 4 - u.owners_of(h), placed: false };
        lemma_race_keeps_marks(r, h, ranked(u.slots, alive, avoid), 0, evicted, per_peer, now_ms);
    }
}

proof fn lemma_race_keeps_marks(
    r: Race,
    h: BlockHash,
    row: Seq<usize>,
    i: int,
    evicted: Option<usize>,
    per_peer: usize,
    now_ms: u64,
)
    ensures
        race_from(r, h, row, i, evicted, per_peer, now_ms).st.body == r.st.body,
    decreases row.len() - i,
{
    if i >= row.len() || r.need <= 0 {
    } else if r.st.may_join(row[i], h, evicted, per_peer) {
        let next = Race {
            st: r.st.with_issued(row[i], seq![h], now_ms),
            issued: crate::time::sat_add(r.issued, 1),
            need: r.need - 1,
            placed: true,
        };
        lemma_race_keeps_marks(next, h, row, i + 1, evicted, per_peer, now_ms);
    } else {
        lemma_race_keeps_marks(r, h, row, i + 1, evicted, per_peer, now_ms);
    }
}

/// A hole that nobody can take ends the race; otherwise the next one is raced for too. What
/// is there, or the held tip of an awaited branch, is not raced for.
pub proof fn law_settled_holes_are_left_alone(
    c: Cover,
    h: BlockHash,
    alive: Seq<usize>,
    per_peer: usize,
    now_ms: u64,
)
    requires
        c.turn.st.hash_height.contains_key(h),
        is_there(c.turn.hub, c.turn.st.hash_height[h], h) || c.turn.st.reorg.awaiting is Some && (
        c.turn.st.reorg.awaiting->0).0 == h,
    ensures
        cover_one(c, h, alive, per_peer, now_ms) == c,
{
}

} // verus!

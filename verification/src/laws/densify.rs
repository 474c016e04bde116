//! Missing heights are found closest first and handed out until every peer is full.
use vstd::prelude::*;
use crate::assign::{feed_from, feed_peer, Feed};
use crate::fetch::{band_scan, next_need, scan_from, scan_step, Scan, Turn};
use crate::hash::BlockHash;
use crate::inflight::{unasked, with_request, with_requests};
use crate::laws::fetching::{is_there, law_absent_path_body_is_needed};
use crate::peers::{lemma_slot_from, live_slot};
use crate::requests::lemma_filter_one;
use crate::state::WorkView;

verus! {

/// Does the path's block at `ht` still need a request?
pub open spec fn lacks(t: Turn, ht: u32) -> bool {
    let h = t.st.height_to_hash[ht];
    &&& t.st.height_to_hash.contains_key(ht)
    &&& !is_there(t.hub, ht, h)
    &&& !t.st.inflight.contains_key(h)
    &&& !t.st.body.known.contains(h)
    &&& !t.st.body.rejected.contains(h)
}

/// Does the path hold no block twice?
pub open spec fn path_once(t: Turn) -> bool {
    forall|a: u32, b: u32| #[trigger]
        t.st.height_to_hash.contains_key(a) && #[trigger] t.st.height_to_hash.contains_key(b) && a
            != b ==> t.st.height_to_hash[a] != t.st.height_to_hash[b]
}

proof fn lemma_step_keeps(s: Scan, ht: u32, x: u32)
    requires
        x != ht,
        path_once(s.turn),
    ensures
        ({
            let n = scan_step(s, ht);
            &&& n.turn.st.height_to_hash == s.turn.st.height_to_hash
            &&& n.turn.st.max_ordered_height == s.turn.st.max_ordered_height
            &&& lacks(n.turn, x) == lacks(s.turn, x)
            &&& lacks(s.turn, ht) ==> n.out == s.out.push(s.turn.st.height_to_hash[ht])
            &&& !lacks(s.turn, ht) ==> n.out == s.out
            &&& n.tracking ==> s.tracking && n.prefix == crate::chain::sat_add32(ht, 1) && !lacks(
                s.turn,
                ht,
            )
            &&& !n.tracking ==> n.prefix == s.prefix
        }),
{
    law_absent_path_body_is_needed(s.turn, ht, x);
    if s.turn.st.height_to_hash.contains_key(ht) && s.turn.st.height_to_hash.contains_key(x) {
        assert(s.turn.st.height_to_hash[ht] != s.turn.st.height_to_hash[x]);
    }
}

proof fn lemma_scan(s: Scan, ht: int, hi: int, cap: usize, budget: int, x: u32, y: u32)
    requires
        0 <= ht,
        hi < u32::MAX,
        path_once(s.turn),
        s.tracking ==> s.prefix == ht,
        !s.tracking ==> s.prefix <= ht,
    ensures
        ({
            let r = scan_from(s, ht, hi, cap, budget);
            let hx = s.turn.st.height_to_hash[x];
            let hy = s.turn.st.height_to_hash[y];
            &&& s.out.len() <= r.out.len()
            &&& r.out.take(s.out.len() as int) == s.out
            &&& ht <= x <= hi && lacks(s.turn, x) && r.out.len() < cap && budget > hi - ht
                ==> r.out.contains(hx)
            &&& ht <= x < y <= hi && lacks(s.turn, x) && s.turn.st.height_to_hash.contains_key(y)
                && r.out.skip(s.out.len() as int).contains(hy) ==> r.out.contains(hx)
            &&& r.out.skip(s.out.len() as int).contains(hx) && s.turn.st.height_to_hash.contains_key(
                x,
            ) ==> ht <= x <= hi && lacks(s.turn, x)
            &&& ht <= x && x < r.prefix ==> !lacks(s.turn, x)
            &&& r.prefix >= s.prefix
            &&& !s.tracking ==> r.prefix == s.prefix
        }),
    decreases hi - ht + 1,
{
    let r = scan_from(s, ht, hi, cap, budget);
    if ht > hi || s.out.len() >= cap || budget <= 0 {
        assert(r.out.take(s.out.len() as int) =~= s.out);
        assert(r.out.skip(s.out.len() as int) =~= Seq::<BlockHash>::empty());
    } else {
        let n = scan_step(s, ht as u32);
        let h2h = s.turn.st.height_to_hash;
        let here = h2h[ht as u32];
        lemma_step_keeps(s, ht as u32, (ht + 1) as u32);
        if x != ht {
            lemma_step_keeps(s, ht as u32, x);
        }
        if y != ht {
            lemma_step_keeps(s, ht as u32, y);
        }
        lemma_scan(n, ht + 1, hi, cap, budget - 1, x, y);
        assert(r.out.take(s.out.len() as int) =~= r.out.take(n.out.len() as int).take(
            s.out.len() as int,
        ));
        assert(n.out.take(s.out.len() as int) =~= s.out);
        let tail = r.out.skip(s.out.len() as int);
        let rest = r.out.skip(n.out.len() as int);
        if lacks(s.turn, ht as u32) {
            assert(r.out[s.out.len() as int] == r.out.take(n.out.len() as int)[s.out.len() as int]);
            assert(r.out[s.out.len() as int] == here);
            assert(r.out.contains(here));
            assert(tail =~= seq![here] + rest);
        } else {
            assert(tail =~= rest);
        }
        if tail.contains(h2h[y]) && !rest.contains(h2h[y]) {
            let k = choose|k: int| 0 <= k < tail.len() && tail[k] == h2h[y];
            if k > 0 {
                assert(rest[k - 1] == h2h[y]);
            }
            assert(h2h[y] == here);
        }
        if tail.contains(h2h[x]) && !rest.contains(h2h[x]) {
            let k = choose|k: int| 0 <= k < tail.len() && tail[k] == h2h[x];
            if k > 0 {
                assert(rest[k - 1] == h2h[x]);
            }
            assert(h2h[x] == here);
        }
        if ht < y && h2h.contains_key(ht as u32) && h2h.contains_key(y) {
            assert(h2h[y] != here);
        }
        if ht != x && h2h.contains_key(ht as u32) && h2h.contains_key(x) {
            assert(h2h[x] != here);
        }
    }
}

/// A band scan finds the heights that need a request, closest to the tip first: where a
/// higher one is found every lower one is, and with room and budget left all are. What is
/// found does need a request, and the start of the next scan passes over none that does.
pub proof fn law_scan_finds_the_closest_missing(
    t: Turn,
    lo: u32,
    hi: u32,
    cap: usize,
    budget: usize,
    x: u32,
    y: u32,
)
    requires
        path_once(t),
        lo <= hi < u32::MAX,
        cap > 0,
        hi <= t.st.max_ordered_height,
        lo <= x <= hi,
        lo <= y <= hi,
        t.st.height_to_hash.contains_key(y),
    ensures
        ({
            let (w, out) = band_scan(t, lo, hi, cap, budget);
            let hx = t.st.height_to_hash[x];
            let hy = t.st.height_to_hash[y];
            &&& lacks(t, x) && out.len() < cap && budget > hi - lo ==> out.contains(hx)
            &&& x < y && lacks(t, x) && out.contains(hy) ==> out.contains(hx)
            &&& out.contains(hy) ==> lacks(t, y)
            &&& x < w.st.densify_scan_lo && t.st.densify_scan_lo <= lo ==> !lacks(t, x)
            &&& w.st.densify_scan_lo >= t.st.densify_scan_lo
        }),
{
    let s = Scan { turn: t, out: Seq::empty(), prefix: lo, tracking: true };
    lemma_scan(s, lo as int, hi as int, cap, budget as int, x, y);
    lemma_scan(s, lo as int, hi as int, cap, budget as int, y, y);
    let r = scan_from(s, lo as int, hi as int, cap, budget as int);
    assert(r.out.skip(0) =~= r.out);
    lemma_scan_start(s, lo as int, hi as int, cap, budget as int);
}

proof fn lemma_scan_start(s: Scan, ht: int, hi: int, cap: usize, budget: int)
    ensures
        scan_from(s, ht, hi, cap, budget).turn.st.densify_scan_lo == s.turn.st.densify_scan_lo,
    decreases hi - ht + 1,
{
    if ht > hi || s.out.len() >= cap || budget <= 0 {
    } else {
        lemma_scan_start(scan_step(s, ht as u32), ht + 1, hi, cap, budget - 1);
    }
}

/// Is everything that a slot was asked for a request that is out?
pub open spec fn slots_tied(v: WorkView) -> bool {
    forall|k: int, h: BlockHash|
        0 <= k < v.slots.len() && (#[trigger] v.slots[k]).in_flight.contains(h)
            ==> #[trigger] v.inflight.contains_key(h)
}

proof fn lemma_need_is_new(t: Turn, q: Seq<BlockHash>)
    ensures
        ({
            let (w, rest, got) = next_need(t, q);
            &&& w.st.slots == t.st.slots && w.st.inflight == t.st.inflight && w.hub == t.hub
            &&& got is Some ==> !t.st.inflight.contains_key(got->0) && q.contains(got->0)
            &&& got is None ==> rest.len() == 0
        }),
    decreases q.len(),
{
    if q.len() > 0 {
        let h = q[0];
        let has = t.hub.blocks.contains(h);
        let after = Turn {
            st: WorkView { body: t.st.body.after_skip_probe(h, has), ..t.st },
            hub: t.hub,
        };
        if t.st.body.skips(h, has) || t.st.inflight.contains_key(h) {
            lemma_need_is_new(after, q.drop_first());
            let (w, rest, got) = next_need(after, q.drop_first());
            if got is Some {
                let k = choose|k: int|
                    0 <= k < q.drop_first().len() && q.drop_first()[k] == got->0;
                assert(q[k + 1] == got->0);
            }
        }
    }
}

/// Asking for a hash that is not out keeps slots and requests tied.
pub proof fn lemma_issue_tied(v: WorkView, p: usize, h: BlockHash, now_ms: u64)
    requires
        slots_tied(v),
        !v.inflight.contains_key(h),
        live_slot(v.slots, p) is Some,
    ensures
        v.going_out(p, seq![h]).len() == 1,
        v.with_issued(p, seq![h], now_ms).inflight.contains_key(h),
        slots_tied(v.with_issued(p, seq![h], now_ms)),
{
    let i = live_slot(v.slots, p)->0;
    lemma_slot_from(v.slots, p, true, 0);
    assert(!v.slots[i].in_flight.contains(h));
    lemma_filter_one(h, unasked(v.slots[i]));
    let out = v.going_out(p, seq![h]);
    assert(out == seq![h]);
    assert(out.drop_last() =~= Seq::<BlockHash>::empty());
    assert(with_requests(v.inflight, out.drop_last(), p, now_ms) == v.inflight);
    assert(with_requests(v.inflight, out, p, now_ms) == with_request(v.inflight, h, p, now_ms));
    let w = v.with_issued(p, seq![h], now_ms);
    assert forall|k: int, g: BlockHash|
        0 <= k < w.slots.len() && (#[trigger] w.slots[k]).in_flight.contains(g) implies
        #[trigger] w.inflight.contains_key(g) by {
        if g != h {
            if k == i {
                assert(v.slots[i].in_flight.contains(g)) by {
                    if seq![h].to_set().contains(g) {
                        assert(seq![h][0] == h);
                    }
                }
            } else {
                assert(w.slots[k] == v.slots[k]);
            }
            assert(v.inflight.contains_key(g));
        }
    }
}

/// Handing out goes on with a peer until it has no free slot, the window is full, or nothing
/// is left to hand out.
pub proof fn law_peer_is_fed_until_full(f: Feed, pid: usize, cap: usize, now_ms: u64)
    requires
        slots_tied(f.turn.st),
    ensures
        ({
            let r = feed_peer(f, pid, cap, now_ms);
            &&& r.room == 0 || r.q.len() == 0 || !r.turn.st.has_slot(pid, cap)
            &&& slots_tied(r.turn.st)
            &&& r.room <= f.room
            &&& r.q.len() <= f.q.len()
        }),
    decreases f.q.len(),
{
    crate::fetch::lemma_next_need_shrinks(f.turn, f.q);
    if f.room == 0 || f.q.len() == 0 || !f.turn.st.has_slot(pid, cap) {
    } else {
        let (t, rest, got) = next_need(f.turn, f.q);
        lemma_need_is_new(f.turn, f.q);
        if let Some(h) = got {
            let v = t.st;
            lemma_issue_tied(v, pid, h, now_ms);
            let next = Feed {
                turn: Turn { st: v.with_issued(pid, seq![h], now_ms), hub: t.hub },
                q: rest,
                room: crate::inflight::room_after(f.room, v.newly_asked(pid, seq![h], now_ms)),
                issued: crate::time::sat_add(f.issued, v.going_out(pid, seq![h]).len() as u64),
            };
            law_peer_is_fed_until_full(next, pid, cap, now_ms);
        }
    }
}

/// Peers are fed in rank order: before a peer gets anything, the one before it is full. At
/// the end the window is full, nothing is left, or every peer had its turn.
pub proof fn law_peers_are_fed_in_order(
    f: Feed,
    row: Seq<usize>,
    i: int,
    caps: Map<usize, usize>,
    now_ms: u64,
)
    requires
        slots_tied(f.turn.st),
        0 <= i < row.len(),
        f.room > 0,
        f.q.len() > 0,
    ensures
        ({
            let one = feed_peer(f, row[i], crate::assign::cap_in(caps, row[i]), now_ms);
            &&& feed_from(f, row, i, caps, now_ms) == feed_from(one, row, i + 1, caps, now_ms)
            &&& one.room == 0 || one.q.len() == 0 || !one.turn.st.has_slot(
                row[i],
                crate::assign::cap_in(caps, row[i]),
            )
            &&& one.room == 0 || one.q.len() == 0 ==> feed_from(f, row, i, caps, now_ms) == one
        }),
{
    law_peer_is_fed_until_full(f, row[i], crate::assign::cap_in(caps, row[i]), now_ms);
    reveal_with_fuel(feed_from, 2);
}

} // verus!

//! How far an assign turn reaches: which bodies it may ask for at all.
use vstd::prelude::*;
use crate::assign::{
    anyone_free, assigned, batch_expired, batch_hi, branch_seen, cap_in, caps_of, densified,
    feed_from, feed_peer, hole_seen, is_hung, next_rot, offer_round, pull_from, pull_one, pull_room,
    steal_dest, steal_from, steal_one, stolen, tip_assigned, turn_begun, with_path_lo, AssignDepth,
    Feed, Pull, Steal,
};
use crate::chain::{max32, queue_has_hash, sat_add32, HubView};
use crate::config::{IbdConfig, TIP_HOLE_MAX, TIP_HOLE_MAX_PEERS};
use crate::fetch::{
    band_scan, demoted, holes_from, lemma_next_need_shrinks, min32, need_at, next_need, scan_from,
    scan_step, tip_holes, Scan, Turn,
};
use crate::hash::BlockHash;
use crate::inflight::{room_after, unasked, with_requests, without_owner};
use crate::peers::{live_ids, live_slot};
use crate::race::{
    cover_from, cover_one, covered, hole_cleared, hole_open, race_from, ranked, Cover, Race,
};
use crate::reorg::ReorgView;
use crate::requests::{law_pruned_requests_feed, lemma_filter_one};
use crate::state::WorkView;
use crate::time::sat_add;

verus! {

/// What an assign turn starts from.
#[verifier::ext_equal]
pub struct Begun {
    pub st: WorkView,
    pub hub: HubView,
    /// The competing branches once it was seen whether one beside the tip is heavier.
    pub reorg: ReorgView,
}

/// What an assign turn that starts from `t` starts from, with the answer on a heavier
/// branch.
pub open spec fn begun(t: Turn, heavier: Option<ReorgView>) -> Begun {
    Begun { st: t.st, hub: t.hub, reorg: branch_seen(t.st, heavier).reorg }
}

/// May a turn that starts from `t` leave a request for `h`? Never for a confirmed block.
/// Else the request was out and still feeds the path or the awaited branch, or `h` is
/// needed of a competing branch, or it is the path's block at a height above the tip and
/// not above `top`.
pub open spec fn in_reach(t: Begun, top: u32, h: BlockHash) -> bool {
    &&& !t.hub.blocks.contains(h)
    &&& {
        ||| t.st.inflight.contains_key(h) && t.st.feeds(h)
        ||| t.reorg.need().contains(h)
        ||| exists|ht: u32| #[trigger]
            t.st.height_to_hash.contains_key(ht) && t.st.height_to_hash[ht] == h
                && t.hub.path_lo() <= ht <= top
    }
}

/// What a turn keeps while it goes from `t` to `w`.
spec fn keeps_reach(t: Begun, w: Turn, top: u32) -> bool {
    &&& w.st.height_to_hash == t.st.height_to_hash
    &&& w.st.reorg == t.reorg
    &&& w.hub.blocks == t.hub.blocks
    &&& w.hub.tip == t.hub.tip
    &&& forall|h: BlockHash| #[trigger] w.st.inflight.contains_key(h) ==> in_reach(t, top, h)
}

/// Asking a peer for one hash adds no other request and leaves the path alone.
proof fn lemma_issued(v: WorkView, pid: usize, h: BlockHash, now_ms: u64)
    ensures
        ({
            let w = v.with_issued(pid, seq![h], now_ms);
            &&& w.height_to_hash == v.height_to_hash
            &&& w.reorg == v.reorg
            &&& forall|g: BlockHash| #[trigger]
                w.inflight.contains_key(g) ==> v.inflight.contains_key(g) || g == h
        }),
{
    if let Some(i) = live_slot(v.slots, pid) {
        lemma_filter_one(h, unasked(v.slots[i]));
        let out = v.going_out(pid, seq![h]);
        if out.len() > 0 {
            assert(out == seq![h]);
            assert(out.drop_last() =~= Seq::<BlockHash>::empty());
            assert(with_requests(v.inflight, out.drop_last(), pid, now_ms) == v.inflight);
            assert(out.last() == h);
        }
    }
}

proof fn lemma_race(
    t: Begun,
    top: u32,
    hub: HubView,
    r: Race,
    h: BlockHash,
    row: Seq<usize>,
    i: int,
    evicted: Option<usize>,
    per_peer: usize,
    now_ms: u64,
)
    requires
        keeps_reach(t, Turn { st: r.st, hub }, top),
        in_reach(t, top, h),
    ensures
        keeps_reach(
            t,
            Turn { st: race_from(r, h, row, i, evicted, per_peer, now_ms).st, hub },
            top,
        ),
    decreases row.len() - i,
{
    if i >= row.len() || r.need <= 0 {
    } else if r.st.may_join(row[i], h, evicted, per_peer) {
        lemma_issued(r.st, row[i], h, now_ms);
        lemma_race(
            t,
            top,
            hub,
            Race {
                st: r.st.with_issued(row[i], seq![h], now_ms),
                issued: sat_add(r.issued, 1),
                need: r.need - 1,
                placed: true,
            },
            h,
            row,
            i + 1,
            evicted,
            per_peer,
            now_ms,
        );
    } else {
        lemma_race(t, top, hub, r, h, row, i + 1, evicted, per_peer, now_ms);
    }
}

proof fn lemma_cover_one(
    t: Begun,
    top: u32,
    c: Cover,
    h: BlockHash,
    alive: Seq<usize>,
    per_peer: usize,
    now_ms: u64,
)
    requires
        keeps_reach(t, c.turn, top),
        in_reach(t, top, h),
    ensures
        keeps_reach(t, cover_one(c, h, alive, per_peer, now_ms).turn, top),
{
    if hole_open(c.turn, h) {
        let o = hole_cleared(c.turn, h);
        assert(keeps_reach(t, o, top));
        let evicted = o.st.evicts(h, now_ms);
        let v = match evicted {
            Some(pid) => without_owner(o.st, h, pid),
            None => o.st,
        };
        assert(keeps_reach(t, Turn { st: v, hub: o.hub }, top));
        let already = v.owners_of(h);
        if already < TIP_HOLE_MAX_PEERS {
            let avoid = match evicted {
                Some(pid) => Set::<usize>::empty().insert(pid),
                None => Set::<usize>::empty(),
            };
            lemma_race(
                t,
                top,
                o.hub,
                Race {
                    st: v,
                    issued: c.issued,
                    need: TIP_HOLE_MAX_PEERS - already,
                    placed: false,
                },
                h,
                ranked(v.slots, alive, avoid),
                0,
                evicted,
                per_peer,
                now_ms,
            );
        }
    }
}

proof fn lemma_cover(
    t: Begun,
    top: u32,
    c: Cover,
    holes: Seq<BlockHash>,
    i: int,
    alive: Seq<usize>,
    per_peer: usize,
    now_ms: u64,
)
    requires
        0 <= i,
        keeps_reach(t, c.turn, top),
        forall|j: int| 0 <= j < holes.len() ==> in_reach(t, top, #[trigger] holes[j]),
    ensures
        keeps_reach(t, cover_from(c, holes, i, alive, per_peer, now_ms).turn, top),
    decreases holes.len() - i,
{
    if i >= holes.len() || c.stuck {
    } else {
        lemma_cover_one(t, top, c, holes[i], alive, per_peer, now_ms);
        lemma_cover(
            t,
            top,
            cover_one(c, holes[i], alive, per_peer, now_ms),
            holes,
            i + 1,
            alive,
            per_peer,
            now_ms,
        );
    }
}

/// The holes above the tip are in reach: they are the path's blocks of the tip batch.
proof fn lemma_holes(t: Begun, e: Turn, top: u32, ht: int, limit: int, max: int)
    requires
        keeps_reach(t, e, top),
        t.hub.path_lo() <= ht,
        limit <= u32::MAX,
        ht + max - 1 <= top || limit <= top,
    ensures
        forall|j: int|
            0 <= j < holes_from(e, ht, limit, max).len() ==> in_reach(
                t,
                top,
                #[trigger] holes_from(e, ht, limit, max)[j],
            ),
    decreases limit - ht + 1,
{
    let all = holes_from(e, ht, limit, max);
    if ht > limit || max <= 0 || !e.st.height_to_hash.contains_key(ht as u32) {
    } else {
        let h = e.st.height_to_hash[ht as u32];
        let rest = holes_from(e, ht + 1, limit, max - 1);
        lemma_holes(t, e, top, ht + 1, limit, max - 1);
        assert forall|j: int| 0 <= j < all.len() implies in_reach(t, top, #[trigger] all[j]) by {
            if j > 0 {
                assert(all[j] == rest[j - 1]);
            } else {
                assert(t.st.height_to_hash.contains_key(ht as u32));
            }
        }
    }
}

proof fn lemma_offer(
    t: Begun,
    top: u32,
    p: Pull,
    h: BlockHash,
    alive: Seq<usize>,
    tries: nat,
    per_peer: usize,
    now_ms: u64,
)
    requires
        keeps_reach(t, p.turn, top),
        in_reach(t, top, h),
    ensures
        keeps_reach(t, offer_round(p, h, alive, tries, per_peer, now_ms).turn, top),
    decreases tries,
{
    if tries > 0 {
        let pid = alive[p.rot as int % alive.len() as int];
        let on = Pull { rot: next_rot(p.rot), ..p };
        if !p.turn.st.has_slot(pid, per_peer) {
            lemma_offer(t, top, on, h, alive, (tries - 1) as nat, per_peer, now_ms);
        } else {
            let v = p.turn.st;
            lemma_issued(v, pid, h, now_ms);
            if v.going_out(pid, seq![h]).len() == 0 {
                let asked = Pull {
                    turn: Turn { st: v.with_issued(pid, seq![h], now_ms), hub: p.turn.hub },
                    room: room_after(p.room, v.newly_asked(pid, seq![h], now_ms)),
                    issued: sat_add(p.issued, v.going_out(pid, seq![h]).len() as u64),
                    ..on
                };
                lemma_offer(t, top, asked, h, alive, (tries - 1) as nat, per_peer, now_ms);
            }
        }
    }
}

proof fn lemma_pull(
    t: Begun,
    top: u32,
    p: Pull,
    need: Seq<BlockHash>,
    i: int,
    alive: Seq<usize>,
    per_peer: usize,
    now_ms: u64,
)
    requires
        0 <= i,
        keeps_reach(t, p.turn, top),
        need == t.reorg.need(),
    ensures
        keeps_reach(t, pull_from(p, need, i, alive, per_peer, now_ms).turn, top),
    decreases need.len() - i,
{
    if i >= need.len() || p.room == 0 {
    } else {
        let h = need[i];
        assert(need.contains(h));
        let w = p.turn;
        if w.st.inflight.contains_key(h) || w.hub.blocks.contains(h) || queue_has_hash(
            w.hub.queue,
            h,
        ) {
        } else {
            let body = demoted(w.st.body, w.hub, h, w.st.height_of(h));
            let after = Turn {
                st: WorkView { body: body.after_skip_probe(h, false), ..w.st },
                hub: w.hub,
            };
            assert(keeps_reach(t, after, top));
            if !body.skips(h, false) {
                let from = Pull { turn: after, ..p };
                lemma_offer(t, top, from, h, alive, alive.len(), per_peer, now_ms);
            }
        }
        lemma_pull(
            t,
            top,
            pull_one(p, h, alive, per_peer, now_ms),
            need,
            i + 1,
            alive,
            per_peer,
            now_ms,
        );
    }
}

proof fn lemma_steal(
    t: Begun,
    top: u32,
    hub: HubView,
    s: Steal,
    row: Seq<BlockHash>,
    i: int,
    alive: Seq<usize>,
    caps: Map<usize, usize>,
    now_ms: u64,
)
    requires
        keeps_reach(t, Turn { st: s.st, hub }, top),
    ensures
        keeps_reach(t, Turn { st: steal_from(s, row, i, alive, caps, now_ms).st, hub }, top),
    decreases row.len() - i,
{
    if i < row.len() {
        let h = row[i];
        if s.st.inflight.contains_key(h) && s.st.inflight[h].peers.len() > 0 {
            let owner = s.st.inflight[h].peers[0];
            let v = without_owner(s.st, h, owner);
            if let Some(pid) = steal_dest(s.st, alive, owner, caps) {
                lemma_issued(v, pid, h, now_ms);
            }
        }
        let next = steal_one(s, h, alive, caps, now_ms);
        assert(keeps_reach(t, Turn { st: next.st, hub }, top));
        lemma_steal(t, top, hub, next, row, i + 1, alive, caps, now_ms);
    }
}

/// A scan finds only blocks of the path in its range.
proof fn lemma_scan(t: Begun, top: u32, s: Scan, ht: int, hi: int, max: usize, budget: int)
    requires
        keeps_reach(t, s.turn, top),
        forall|j: int| 0 <= j < s.out.len() ==> in_reach(t, top, #[trigger] s.out[j]),
        t.hub.path_lo() <= ht,
        hi <= top,
    ensures
        ({
            let e = scan_from(s, ht, hi, max, budget);
            &&& keeps_reach(t, e.turn, top)
            &&& forall|j: int| 0 <= j < e.out.len() ==> in_reach(t, top, #[trigger] e.out[j])
        }),
    decreases hi - ht + 1,
{
    if ht > hi || s.out.len() >= max || budget <= 0 {
    } else {
        let n = scan_step(s, ht as u32);
        let need = need_at(s.turn, ht as u32).1;
        if let Some(h) = need {
            assert(t.st.height_to_hash.contains_key(ht as u32));
            assert(in_reach(t, top, h));
        }
        assert(keeps_reach(t, n.turn, top));
        assert forall|j: int| 0 <= j < n.out.len() implies in_reach(t, top, #[trigger] n.out[j]) by {
            if j < s.out.len() {
                assert(n.out[j] == s.out[j]);
            }
        }
        lemma_scan(t, top, n, ht + 1, hi, max, budget - 1);
    }
}

/// What is found needed is one of the queue, and what is left was in it.
proof fn lemma_next_need(t: Begun, top: u32, w: Turn, q: Seq<BlockHash>)
    requires
        keeps_reach(t, w, top),
        forall|j: int| 0 <= j < q.len() ==> in_reach(t, top, #[trigger] q[j]),
    ensures
        ({
            let (n, rest, got) = next_need(w, q);
            &&& keeps_reach(t, n, top)
            &&& forall|j: int| 0 <= j < rest.len() ==> in_reach(t, top, #[trigger] rest[j])
            &&& got is Some ==> in_reach(t, top, got->0)
        }),
    decreases q.len(),
{
    if q.len() > 0 {
        let h = q[0];
        let has = w.hub.blocks.contains(h);
        let after = Turn {
            st: WorkView { body: w.st.body.after_skip_probe(h, has), ..w.st },
            hub: w.hub,
        };
        let left = q.drop_first();
        assert(keeps_reach(t, after, top));
        assert forall|j: int| 0 <= j < left.len() implies in_reach(t, top, #[trigger] left[j]) by {
            assert(left[j] == q[j + 1]);
        }
        lemma_next_need(t, top, after, left);
    }
}

proof fn lemma_feed_peer(t: Begun, top: u32, f: Feed, pid: usize, slots: usize, now_ms: u64)
    requires
        keeps_reach(t, f.turn, top),
        forall|j: int| 0 <= j < f.q.len() ==> in_reach(t, top, #[trigger] f.q[j]),
    ensures
        ({
            let e = feed_peer(f, pid, slots, now_ms);
            &&& keeps_reach(t, e.turn, top)
            &&& forall|j: int| 0 <= j < e.q.len() ==> in_reach(t, top, #[trigger] e.q[j])
        }),
    decreases f.q.len(),
{
    lemma_next_need_shrinks(f.turn, f.q);
    if f.room == 0 || f.q.len() == 0 || !f.turn.st.has_slot(pid, slots) {
    } else {
        lemma_next_need(t, top, f.turn, f.q);
        let (n, rest, got) = next_need(f.turn, f.q);
        if let Some(h) = got {
            let v = n.st;
            lemma_issued(v, pid, h, now_ms);
            let next = Feed {
                turn: Turn { st: v.with_issued(pid, seq![h], now_ms), hub: n.hub },
                q: rest,
                room: room_after(f.room, v.newly_asked(pid, seq![h], now_ms)),
                issued: sat_add(f.issued, v.going_out(pid, seq![h]).len() as u64),
            };
            assert(keeps_reach(t, next.turn, top));
            if v.going_out(pid, seq![h]).len() > 0 {
                lemma_feed_peer(t, top, next, pid, slots, now_ms);
            }
        }
    }
}

proof fn lemma_feed(
    t: Begun,
    top: u32,
    f: Feed,
    row: Seq<usize>,
    i: int,
    caps: Map<usize, usize>,
    now_ms: u64,
)
    requires
        keeps_reach(t, f.turn, top),
        forall|j: int| 0 <= j < f.q.len() ==> in_reach(t, top, #[trigger] f.q[j]),
    ensures
        keeps_reach(t, feed_from(f, row, i, caps, now_ms).turn, top),
    decreases row.len() - i,
{
    if i >= row.len() || f.room == 0 || f.q.len() == 0 {
    } else {
        let cap = cap_in(caps, row[i]);
        lemma_feed_peer(t, top, f, row[i], cap, now_ms);
        lemma_feed(t, top, feed_peer(f, row[i], cap, now_ms), row, i + 1, caps, now_ms);
    }
}

proof fn lemma_densified(
    t: Begun,
    top: u32,
    w: Turn,
    order: Seq<BlockHash>,
    alive: Seq<usize>,
    cfg: IbdConfig,
    tip_hole: bool,
    band_hi: u32,
    now_ms: u64,
)
    requires
        keeps_reach(t, w, top),
        band_hi <= top,
    ensures
        keeps_reach(
            t,
            densified(w, order, alive, cfg, tip_hole, band_hi, now_ms).0,
            top,
        ),
{
    let caps = caps_of(w.st.slots, alive, cfg.per_peer, tip_hole);
    let row = order.filter(is_hung(w, batch_hi(w.hub), now_ms));
    lemma_steal(t, top, w.hub, Steal { st: w.st, issued: 0 }, row, 0, alive, caps, now_ms);
    let s = stolen(w, order, alive, batch_hi(w.hub), caps, now_ms);
    let room = room_after(cfg.window, s.st.inflight.dom().len());
    let v = with_path_lo(s.st, w.hub.path_lo());
    let from = Turn { st: v, hub: w.hub };
    assert(keeps_reach(t, from, top));
    if room > 0 && anyone_free(v, alive, caps) {
        let lo = v.densify_scan_lo;
        let (found, need) = band_scan(from, lo, band_hi, room, cfg.far_scan_budget);
        if lo <= band_hi {
            let end = min32(band_hi, max32(from.st.max_ordered_height, lo));
            let start = Scan { turn: from, out: Seq::empty(), prefix: lo, tracking: true };
            let budget = cfg.far_scan_budget as int;
            lemma_scan(t, top, start, lo as int, end as int, room, budget);
        }
        assert(keeps_reach(t, found, top));
        lemma_feed(
            t,
            top,
            Feed { turn: found, q: need, room, issued: s.issued },
            ranked(found.st.slots, alive, Set::empty()),
            0,
            caps,
            now_ms,
        );
    }
}

/// An assign turn never asks beyond its horizon: each request that is out afterwards is for
/// a block that is not confirmed and that either was requested before and still feeds the
/// path or the awaited branch, or is needed of a competing branch, or stands on the path
/// within the tip batch or, at full depth, up to `band_hi`.
pub proof fn law_assign_stays_in_reach(
    t: Turn,
    heavier: Option<ReorgView>,
    order: Seq<BlockHash>,
    cfg: IbdConfig,
    depth: AssignDepth,
    band_hi: u32,
    now_ms: u64,
    h: BlockHash,
)
    requires
        assigned(t, heavier, order, cfg, depth, band_hi, now_ms).0.st.inflight.contains_key(h),
    ensures
        in_reach(
            begun(t, heavier),
            (if depth == AssignDepth::Full {
                max32(batch_hi(t.hub), band_hi)
            } else {
                batch_hi(t.hub)
            }),
            h,
        ),
{
    let top = if depth == AssignDepth::Full {
        max32(batch_hi(t.hub), band_hi)
    } else {
        batch_hi(t.hub)
    };
    let alive = live_ids(t.st.slots);
    let from = begun(t, heavier);
    let p = turn_begun(t, heavier);
    assert(keeps_reach(from, p, top)) by {
        assert forall|g: BlockHash| #[trigger] p.st.inflight.contains_key(g) implies in_reach(
            from,
            top,
            g,
        ) by {
            law_pruned_requests_feed(t, g);
        }
    }
    let e = Turn { st: batch_expired(p, cfg.pending_stale_ms, now_ms), hub: t.hub };
    assert(keeps_reach(from, e, top));
    let holes = tip_holes(e, TIP_HOLE_MAX);
    let lo = e.hub.path_lo();
    let limit = sat_add32(lo, (TIP_HOLE_MAX * 4) as u32);
    lemma_holes(from, e, top, lo as int, limit as int, TIP_HOLE_MAX as int);
    let c = covered(e, holes, alive, cfg.per_peer, now_ms);
    lemma_cover(
        from,
        top,
        Cover { turn: e, issued: 0, stuck: false },
        holes,
        0,
        alive,
        cfg.per_peer,
        now_ms,
    );
    assert(keeps_reach(from, c.turn, top));
    let need = c.turn.st.reorg.need();
    let start = Pull {
        turn: c.turn,
        room: pull_room(cfg.window, c.turn.st.inflight.dom().len(), need.len()),
        rot: c.turn.st.assign_rot,
        issued: c.issued,
    };
    lemma_pull(from, top, start, need, 0, alive, cfg.per_peer, now_ms);
    let tip = tip_assigned(p, alive, cfg, now_ms);
    assert(keeps_reach(from, tip.turn, top));
    if depth == AssignDepth::Full {
        let hole = hole_seen(p, cfg, now_ms);
        lemma_densified(from, top, tip.turn, order, alive, cfg, hole, band_hi, now_ms);
    }
}

} // verus!

//! Which bodies are asked for, and which requests are kept.
use vstd::prelude::*;
use crate::assign::{batch_expired, hole_seen, pruned, pull_room, saturated, stale_in_batch, with_path_lo};
use crate::chain::HubView;
use crate::config::IbdConfig;
use crate::fetch::{holes_from, need_at, next_need, tip_holes, Turn};
use crate::hash::BlockHash;
use crate::laws::branches::law_branches_need_what_is_not_held;
use crate::state::WorkView;

verus! {

/// Is the body of `h` there for confirm at `ht`: taken, confirmed, or queued under its hash?
pub open spec fn is_there(hub: HubView, ht: u32, h: BlockHash) -> bool {
    ||| hub.taken_hi is Some && ht <= hub.taken_hi->0
    ||| hub.blocks.contains(h)
    ||| hub.queue.contains_key(ht) && hub.queue[ht].hash == h
}

/// The path's block at a height needs a request exactly when its body is not there, not
/// requested, not archived and not refused; a pending mark without wire does not stop it.
/// Looking takes another block's wire out of that height and touches no other.
pub proof fn law_absent_path_body_is_needed(t: Turn, ht: u32, other: u32)
    requires
        other != ht,
    ensures
        ({
            let (w, need) = need_at(t, ht);
            let h = t.st.height_to_hash[ht];
            &&& need is Some <==> t.st.height_to_hash.contains_key(ht) && !is_there(t.hub, ht, h)
                && !t.st.inflight.contains_key(h) && !t.st.body.known.contains(h)
                && !t.st.body.rejected.contains(h)
            &&& need is Some ==> need == Some(h) && !w.hub.queue.contains_key(ht)
                && !w.st.body.pending.contains_key(h)
            &&& w.st.inflight == t.st.inflight && w.st.height_to_hash == t.st.height_to_hash
            &&& w.hub.queue.contains_key(other) == t.hub.queue.contains_key(other)
            &&& t.hub.queue.contains_key(other) ==> w.hub.queue[other] == t.hub.queue[other]
            &&& need is None ==> w.hub == t.hub
        }),
{
}

proof fn lemma_holes(t: Turn, ht: int, limit: int, max: int, k: int)
    requires
        0 <= ht,
        limit <= u32::MAX,
    ensures
        ({
            let r = holes_from(t, ht, limit, max);
            &&& max >= 0 ==> r.len() <= max
            &&& 0 <= k < r.len() ==> ht + k <= limit && t.st.height_to_hash.contains_key(
                (ht + k) as u32,
            ) && t.st.height_to_hash[(ht + k) as u32] == r[k] && !t.st.body.rejected.contains(r[k])
                && !is_there(t.hub, (ht + k) as u32, r[k])
            &&& r.len() < max && ht + r.len() <= limit ==> {
                let at = (ht + r.len()) as u32;
                let h = t.st.height_to_hash[at];
                ||| !t.st.height_to_hash.contains_key(at)
                ||| t.st.body.rejected.contains(h)
                ||| t.st.reorg.awaiting is Some && (t.st.reorg.awaiting->0).0 == h
                ||| is_there(t.hub, at, h)
            }
        }),
    decreases limit - ht + 1,
{
    let r = holes_from(t, ht, limit, max);
    if r.len() > 0 {
        let rest = holes_from(t, ht + 1, limit, max - 1);
        lemma_holes(t, ht + 1, limit, max - 1, k - 1);
        assert(r == seq![t.st.height_to_hash[ht as u32]] + rest);
        if 0 < k < r.len() {
            assert(r[k] == rest[k - 1]);
        }
    }
}

/// The hole above the tip is the path's own blocks, height by height from the first above
/// the tip, each not refused and not there; it ends where it is full or where the next block
/// is unknown, refused, the held tip of an awaited branch, or there.
pub proof fn law_tip_hole_is_the_missing_run(t: Turn, max: usize, k: int)
    requires
        0 < max <= 1_000_000,
        t.hub.path_lo() <= u32::MAX - 4_000_000,
    ensures
        ({
            let lo = t.hub.path_lo();
            let r = tip_holes(t, max);
            &&& r.len() <= max
            &&& 0 <= k < r.len() ==> t.st.height_to_hash.contains_key((lo + k) as u32)
                && t.st.height_to_hash[(lo + k) as u32] == r[k] && !t.st.body.rejected.contains(
                r[k],
            ) && !is_there(t.hub, (lo + k) as u32, r[k])
            &&& r.len() < max ==> {
                let at = (lo + r.len()) as u32;
                let h = t.st.height_to_hash[at];
                ||| !t.st.height_to_hash.contains_key(at)
                ||| t.st.body.rejected.contains(h)
                ||| t.st.reorg.awaiting is Some && (t.st.reorg.awaiting->0).0 == h
                ||| is_there(t.hub, at, h)
            }
        }),
{
    let lo = t.hub.path_lo();
    lemma_holes(
        t,
        lo as int,
        crate::chain::sat_add32(lo, (max * 4) as u32) as int,
        max as int,
        k,
    );
}

/// The tip batch is the 32 heights above the tip: a pending mark there is stale from its
/// time limit on, and a mark beyond it never is.
pub proof fn law_tip_batch_marks_go_stale(t: Turn, stale_ms: u64, now_ms: u64, h: BlockHash)
    requires
        t.st.body.pending.contains_key(h),
        t.st.hash_height.contains_key(h),
        now_ms >= t.st.body.pending[h],
        t.hub.path_lo() <= u32::MAX - 32,
    ensures
        stale_in_batch(t, stale_ms, now_ms).contains(h) <==> t.hub.path_lo()
            <= t.st.hash_height[h] < t.hub.path_lo() + 32 && now_ms - t.st.body.pending[h]
            >= stale_ms,
{
}

/// A stale mark of the tip batch is void: its body is missing, and it is requested from
/// nobody. Other hashes keep their marks and requests.
pub proof fn law_stale_marks_are_void(t: Turn, stale_ms: u64, now_ms: u64, h: BlockHash)
    requires
        !t.st.body.rejected.contains(h),
    ensures
        ({
            let w = batch_expired(t, stale_ms, now_ms);
            let gone = stale_in_batch(t, stale_ms, now_ms).contains(h);
            &&& gone ==> w.body.missing.contains(h) && !w.body.pending.contains_key(h)
                && !w.inflight.contains_key(h)
            &&& !gone ==> w.body.pending.contains_key(h) == t.st.body.pending.contains_key(h)
                && w.body.missing.contains(h) == t.st.body.missing.contains(h)
                && w.inflight.contains_key(h) == t.st.inflight.contains_key(h)
            &&& w.height_to_hash == t.st.height_to_hash
        }),
{
}

/// There is a hole at the tip exactly when the block right above it is known, not refused,
/// not the held tip of an awaited branch, and not there.
pub proof fn law_hole_is_the_missing_next_block(t: Turn, cfg: IbdConfig, now_ms: u64)
    requires
        t.hub.path_lo() < u32::MAX - 200,
    ensures
        ({
            let lo = t.hub.path_lo();
            let h = t.st.height_to_hash[lo];
            hole_seen(t, cfg, now_ms) <==> t.st.height_to_hash.contains_key(lo)
                && !t.st.body.rejected.contains(h) && !(t.st.reorg.awaiting is Some && (
            t.st.reorg.awaiting->0).0 == h) && !is_there(t.hub, lo, h)
        }),
{
    let e = Turn { st: batch_expired(t, cfg.pending_stale_ms, now_ms), hub: t.hub };
    assert(e.st.body.rejected == t.st.body.rejected);
    assert(e.st.reorg == t.st.reorg);
}

/// A competing branch may always ask for eight bodies, or for all it needs; with more of the
/// window free, for that many.
pub proof fn law_branches_have_a_reserve(window: usize, out: nat, need: nat)
    ensures
        pull_room(window, out, need) >= (if need < 8 {
            need
        } else {
            8
        }),
        out <= window ==> pull_room(window, out, need) >= window - out,
        window - out >= 8 ==> pull_room(window, out, need) == window - out,
        out >= window ==> pull_room(window, out, need) <= 8,
{
}

/// Densify never starts below the path; it goes on where it was, and starts at the path
/// again when the path has moved back.
pub proof fn law_densify_start_follows_the_path(v: WorkView, path_lo: u32)
    ensures
        with_path_lo(v, path_lo).densify_scan_lo >= path_lo,
        path_lo < v.assign_path_lo ==> with_path_lo(v, path_lo).densify_scan_lo == path_lo,
        path_lo >= v.assign_path_lo && v.densify_scan_lo >= path_lo ==> with_path_lo(
            v,
            path_lo,
        ).densify_scan_lo == v.densify_scan_lo,
        with_path_lo(v, path_lo).assign_path_lo == path_lo,
        with_path_lo(with_path_lo(v, path_lo), path_lo) == with_path_lo(v, path_lo),
{
}

/// A request survives pruning exactly when its block is not confirmed and is ordered, on the
/// path, or still needed by the awaited branch.
pub proof fn law_useful_requests_survive(t: Turn, h: BlockHash)
    requires
        t.st.inflight.contains_key(h),
    ensures
        pruned(t).inflight.contains_key(h) <==> !t.hub.blocks.contains(h) && (
        t.st.ordered_set.contains(h) || t.st.hash_height.contains_key(h)
            && t.st.height_to_hash.contains_key(t.st.hash_height[h])
            && t.st.height_to_hash[t.st.hash_height[h]] == h || !t.st.reorg.held.contains_key(h)
            && t.st.reorg.awaiting is Some && (t.st.reorg.awaiting->0).1.contains(h)),
        pruned(t).inflight.contains_key(h) ==> pruned(t).inflight[h] == t.st.inflight[h],
{
    law_branches_need_what_is_not_held(t.st.reorg, h);
}

/// The next request off a queue is its first hash that is neither marked, confirmed nor
/// requested; what lies before it is passed over, and what lies after it stays.
pub proof fn law_queue_gives_its_first_need(t: Turn, q: Seq<BlockHash>)
    requires
        q.len() > 0,
        !t.st.body.rejected.contains(q[0]),
        !t.st.body.pending.contains_key(q[0]),
    ensures
        !t.st.inflight.contains_key(q[0]) && (t.st.body.missing.contains(q[0])
            || !t.hub.blocks.contains(q[0])) ==> next_need(t, q).2 == Some(q[0]) && next_need(
            t,
            q,
        ).1 == q.drop_first(),
        t.st.inflight.contains_key(q[0]) ==> next_need(t, q).1.len() < q.len() && (q.len() == 1
            ==> next_need(t, q).2 is None),
{
    crate::fetch::lemma_next_need_shrinks(t, q);
    if q.len() == 1 {
        assert(q.drop_first().len() == 0);
        reveal_with_fuel(next_need, 2);
    }
}

/// Densify rests only with the confirm window covered and fewer than sixteen requests out.
pub proof fn law_densify_rests_when_covered(out: usize, covered: bool)
    ensures
        saturated(out, covered) <==> covered && out <= 15,
{
}

} // verus!

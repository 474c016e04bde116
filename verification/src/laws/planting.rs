//! How headers find their place on the work path.
use vstd::prelude::*;
use crate::chain::{ChainTip, HubView};
use crate::hash::BlockHash;
use crate::header_events::{batch_step, child_height, goes_on_path, header_noted, header_tried, Batch, HeaderRow};
use crate::laws::branches::law_exploring_adds_a_branch;
use crate::path::{
    are_tips, live_ordered, newest_four, note_step, path_planted, path_tips, plant_from, with_tips,
    Noted, PathEntry, Planting,
};
use crate::state::WorkView;

verus! {

/// A header stands one above its parent: above a known header, above the tip, or above a
/// confirmed block; a header without a parent stands at zero, and one whose parent is placed
/// nowhere has no height.
pub proof fn law_child_stands_one_above(known: Map<BlockHash, u32>, hub: HubView, prev: BlockHash)
    requires
        prev != BlockHash::spec_zero(),
    ensures
        child_height(known, hub, BlockHash::spec_zero()) == Some(0u32),
        known.contains_key(prev) && known[prev] < u32::MAX ==> child_height(known, hub, prev)
            == Some((known[prev] + 1) as u32),
        !known.contains_key(prev) && hub.tip is Some && (hub.tip->0).hash == prev && (
        hub.tip->0).height < u32::MAX ==> child_height(known, hub, prev) == Some(
            ((hub.tip->0).height + 1) as u32,
        ),
        !known.contains_key(prev) && !(hub.tip is Some && (hub.tip->0).hash == prev)
            && hub.heights.contains_key(prev) && hub.heights[prev] < u32::MAX ==> child_height(
            known,
            hub,
            prev,
        ) == Some((hub.heights[prev] + 1) as u32),
        !known.contains_key(prev) && !(hub.tip is Some && (hub.tip->0).hash == prev)
            && !hub.heights.contains_key(prev) ==> child_height(known, hub, prev) is None,
{
}

/// A header takes a free slot of the path exactly when it builds on the block below that
/// slot or on the tip; a taken slot is never given to another header.
pub proof fn law_path_grows_on_its_parent(
    v: WorkView,
    h: BlockHash,
    height: u32,
    prev: BlockHash,
    tip: ChainTip,
)
    requires
        height > 0,
    ensures
        v.with_slot_try(h, height, prev, Some(tip)).hash_height[h] == height,
        !v.height_to_hash.contains_key(height) ==> (v.with_slot_try(
            h,
            height,
            prev,
            Some(tip),
        ).height_to_hash.contains_key(height) <==> prev == tip.hash && height == tip.height + 1
            || v.height_to_hash.contains_key((height - 1) as u32) && v.height_to_hash[(height
            - 1) as u32] == prev),
        v.with_slot_try(h, height, prev, Some(tip)).height_to_hash.contains_key(height)
            && !v.height_to_hash.contains_key(height) ==> v.with_slot_try(
            h,
            height,
            prev,
            Some(tip),
        ).height_to_hash[height] == h,
        v.height_to_hash.contains_key(height) ==> v.with_slot_try(
            h,
            height,
            prev,
            Some(tip),
        ).height_to_hash == v.height_to_hash,
{
    if v.height_to_hash.contains_key(height) {
        assert(v.with_slot_try(h, height, prev, Some(tip)).height_to_hash =~= v.height_to_hash);
    }
}

/// A header that takes its slot raises the peers' and the path's height to its own; one
/// whose slot another header holds is explored instead, and the path stays.
pub proof fn law_noted_header_is_planted_or_explored(
    v: WorkView,
    hub: HubView,
    h: BlockHash,
    height: u32,
    prev: BlockHash,
)
    requires
        v.reorg.explore_need.no_duplicates(),
        v.reorg.explore_tips.no_duplicates(),
    ensures
        ({
            let w = header_noted(v, hub, h, height, prev);
            let other = v.height_to_hash.contains_key(height) && v.height_to_hash[height] != h;
            let holds = w.height_to_hash.contains_key(height) && w.height_to_hash[height] == h;
            &&& w.hash_height[h] == height
            &&& other ==> w.height_to_hash == v.height_to_hash && w.reorg.explore_need.contains(h)
                && w.reorg.explore_tips.contains(h) && w.max_ordered_height
                == v.max_ordered_height
            &&& holds && !v.height_to_hash.contains_key(height) ==> w.max_peer_height >= height
                && w.max_ordered_height >= height && w.reorg == v.reorg
            &&& w.max_peer_height >= v.max_peer_height && w.max_ordered_height
                >= v.max_ordered_height
            &&& w.max_peer_height <= height || w.max_peer_height == v.max_peer_height
        }),
{
    law_exploring_adds_a_branch(v.reorg, seq![h], Some(h), h);
    assert(seq![h][0] == h);
    assert(seq![h].contains(h));
    let w = header_noted(v, hub, h, height, prev);
    if v.height_to_hash.contains_key(height) && v.height_to_hash[height] != h {
        assert(w.height_to_hash =~= v.height_to_hash);
    }
}

/// A header on the path is ordered exactly when it is neither ordered, requested, pending,
/// refused nor confirmed, lies above the tip, and the path has room.
pub proof fn law_path_header_is_ordered(
    v: WorkView,
    hub: HubView,
    max_ordered: usize,
    h: BlockHash,
    height: u32,
)
    requires
        v.hash_height.contains_key(h) && v.hash_height[h] == height,
        v.height_to_hash.contains_key(height) && v.height_to_hash[height] == h,
        hub.tip is Some,
    ensures
        goes_on_path(v, hub, max_ordered, h) <==> v.ordered.len() < max_ordered
            && !v.ordered_set.contains(h) && !v.inflight.contains_key(h)
            && !v.body.pending.contains_key(h) && !v.body.rejected.contains(h)
            && !hub.blocks.contains(h) && height > (hub.tip->0).height,
{
}

/// A confirmed header is known but not ordered; a header without a known parent, or one that
/// was refused, is neither. An ordered header goes to the end of the path.
pub proof fn law_tried_header_is_known(
    v: WorkView,
    hub: HubView,
    max_ordered: usize,
    h: BlockHash,
    prev: BlockHash,
)
    ensures
        ({
            let (w, added) = header_tried(v, hub, max_ordered, h, prev);
            let linked = v.known_headers.contains(prev) || hub.blocks.contains(prev) || prev
                == BlockHash::spec_zero() || hub.tip is Some && (hub.tip->0).hash == prev;
            &&& hub.blocks.contains(h) ==> w.known_headers.contains(h) && !added
            &&& linked && !v.body.rejected.contains(h) && !v.reorg.invalid.contains(h)
                ==> w.known_headers.contains(h)
            &&& !hub.blocks.contains(h) && (v.body.rejected.contains(h)
                || v.reorg.invalid.contains(h)) ==> w == v && !added
            &&& !hub.blocks.contains(h) && !linked && hub.tip is Some && (exists|k: BlockHash|
                #[trigger] v.known_headers.contains(k)) ==> w == v && !added
            &&& added ==> w.ordered == v.ordered.push(h) && w.ordered_set.contains(h)
            &&& !added ==> w.ordered == v.ordered && w.ordered_set == v.ordered_set
        }),
{
    if exists|k: BlockHash| #[trigger] v.known_headers.contains(k) {
        assert(v.known_headers != Set::<BlockHash>::empty());
    }
}

/// In a batch of headers each that follows the one before stands one above it, and the store's
/// first row for a header is kept.
pub proof fn law_batch_climbs_by_one(
    b: Batch,
    hub: HubView,
    max_ordered: usize,
    r: HeaderRow,
    before: BlockHash,
    height: u32,
)
    requires
        b.prev == Some((before, height)),
        r.prev == before,
        before != BlockHash::spec_zero(),
        height < u32::MAX,
        !b.st.hash_height.contains_key(before),
        !(hub.tip is Some && (hub.tip->0).hash == before),
        !hub.heights.contains_key(before),
    ensures
        batch_step(b, hub, max_ordered, r).prev == Some((r.hash, (height + 1) as u32)),
        batch_step(b, hub, max_ordered, r).st.hash_height[r.hash] == height + 1,
        b.st.header_fks.contains_key(r.hash) ==> batch_step(
            b,
            hub,
            max_ordered,
            r,
        ).st.header_fks[r.hash] == b.st.header_fks[r.hash],
        !b.st.header_fks.contains_key(r.hash) && r.header_fk is Some ==> batch_step(
            b,
            hub,
            max_ordered,
            r,
        ).st.header_fks[r.hash] == r.header_fk->0,
{
}

/// A stored header at or below the tip that is not the tip makes the path a fork, and its
/// missing body is wanted; above the tip of a fork missing bodies are wanted up to four.
pub proof fn law_fork_wants_its_missing_bodies(n: Noted, e: PathEntry, tip: ChainTip)
    ensures
        ({
            let r = note_step(n, e, tip);
            let beside = e.height <= tip.height && e.hash != tip.hash;
            &&& r.fork <==> n.fork || beside
            &&& r.st.known_headers.contains(e.hash) && r.st.hash_height[e.hash] == e.height
                && r.st.header_fks[e.hash] == e.header_fk
            &&& e.has_body ==> r.need == n.need
            &&& !e.has_body && beside ==> r.need == n.need.push(e.hash)
            &&& !e.has_body && !beside && n.fork && n.need.len() <= 3 ==> r.need == n.need.push(
                e.hash,
            )
            &&& !e.has_body && !beside && (!n.fork || n.need.len() >= 4) ==> r.need == n.need
        }),
{
}

proof fn lemma_planting_ready(p: Planting, path: Seq<PathEntry>, i: int, tip: Option<ChainTip>, k: int)
    requires
        0 <= i <= k < path.len(),
        p.prefix,
        forall|j: int| i <= j <= k ==> (#[trigger] path[j]).has_body,
        forall|j: int| i <= j <= k ==> !p.st.reorg.invalid.contains((#[trigger] path[j]).hash),
        forall|a: int, b: int|
            0 <= a < b < path.len() ==> (#[trigger] path[a]).height <= (#[trigger] path[b]).height,
    ensures
        plant_from(p, path, i, tip).ready_to >= path[k].height,
    decreases path.len() - i,
{
    let next = crate::path::plant_step(p, path[i], tip);
    assert(next.st.reorg == p.st.reorg);
    if i < k {
        lemma_planting_ready(next, path, i + 1, tip, k);
    } else {
        lemma_ready_grows(next, path, i + 1, tip, path[k].height);
    }
}

proof fn lemma_ready_grows(p: Planting, path: Seq<PathEntry>, i: int, tip: Option<ChainTip>, at: u32)
    requires
        0 <= i,
        p.ready_to >= at,
        forall|j: int| i <= j < path.len() ==> (#[trigger] path[j]).height >= at,
    ensures
        plant_from(p, path, i, tip).ready_to >= at,
    decreases path.len() - i,
{
    if i < path.len() && !p.st.reorg.invalid.contains(path[i].hash) {
        assert(path[i].height >= at);
        lemma_ready_grows(crate::path::plant_step(p, path[i], tip), path, i + 1, tip, at);
    }
}

proof fn lemma_ready_stays(p: Planting, path: Seq<PathEntry>, i: int, tip: Option<ChainTip>)
    requires
        0 <= i,
        !p.prefix,
    ensures
        plant_from(p, path, i, tip).ready_to == p.ready_to,
    decreases path.len() - i,
{
    if i < path.len() && !p.st.reorg.invalid.contains(path[i].hash) {
        lemma_ready_stays(crate::path::plant_step(p, path[i], tip), path, i + 1, tip);
    }
}

/// A planted path is ready as far as its bodies reach without a gap, and no further: a path
/// whose first body is missing is ready no higher than before. Headers stay open.
pub proof fn law_planted_path_is_ready_to_its_first_gap(
    v: WorkView,
    path: Seq<PathEntry>,
    hub: HubView,
    k: int,
)
    requires
        0 <= k < path.len(),
        forall|a: int, b: int|
            0 <= a < b < path.len() ==> (#[trigger] path[a]).height <= (#[trigger] path[b]).height,
        forall|j: int| 0 <= j <= k ==> !v.reorg.invalid.contains((#[trigger] path[j]).hash),
    ensures
        (forall|j: int| 0 <= j <= k ==> (#[trigger] path[j]).has_body) ==> path_planted(
            v,
            path,
            hub,
        ).max_ready_height >= path[k].height,
        !path[0].has_body ==> path_planted(v, path, hub).max_ready_height <= v.max_ready_height
            || path_planted(v, path, hub).max_ready_height == hub.tip_or_zero(),
        !path_planted(v, path, hub).headers_done,
        path_planted(v, path, hub).max_ready_height >= v.max_ready_height,
{
    let p = Planting { st: v, ready_to: hub.tip_or_zero(), prefix: true };
    lemma_planting_max(p, path, 0, hub.tip);
    if forall|j: int| 0 <= j <= k ==> (#[trigger] path[j]).has_body {
        lemma_planting_ready(p, path, 0, hub.tip, k);
    }
    assert(!v.reorg.invalid.contains(path[0].hash));
    if !path[0].has_body {
        lemma_ready_stays(crate::path::plant_step(p, path[0], hub.tip), path, 1, hub.tip);
    }
}

proof fn lemma_planting_max(p: Planting, path: Seq<PathEntry>, i: int, tip: Option<ChainTip>)
    requires
        0 <= i,
    ensures
        plant_from(p, path, i, tip).st.max_ready_height == p.st.max_ready_height,
    decreases path.len() - i,
{
    if i < path.len() && !p.st.reorg.invalid.contains(path[i].hash) {
        lemma_planting_max(crate::path::plant_step(p, path[i], tip), path, i + 1, tip);
    }
}

proof fn lemma_with_tips(v: WorkView, acc: Seq<BlockHash>, tips: Seq<BlockHash>, i: int)
    requires
        0 <= i,
        forall|k: int| 0 <= k < acc.len() ==> v.sound(#[trigger] acc[k]),
        acc.len() < 8,
    ensures
        ({
            let r = with_tips(v, acc, tips, i);
            &&& acc.len() <= r.len() <= 8
            &&& r.take(acc.len() as int) == acc
            &&& forall|k: int| 0 <= k < r.len() ==> v.sound(#[trigger] r[k])
            &&& r.len() < 8 ==> forall|k: int|
                i <= k < tips.len() && v.sound(#[trigger] tips[k]) ==> r.contains(tips[k])
        }),
    decreases tips.len() - i,
{
    let r = with_tips(v, acc, tips, i);
    if i >= tips.len() {
        assert(r.take(acc.len() as int) =~= acc);
    } else if !v.sound(tips[i]) {
        lemma_with_tips(v, acc, tips, i + 1);
    } else {
        let next = if acc.contains(tips[i]) {
            acc
        } else {
            acc.push(tips[i])
        };
        if next.len() < 8 {
            lemma_with_tips(v, next, tips, i + 1);
            assert(r.take(acc.len() as int) =~= r.take(next.len() as int).take(acc.len() as int));
            assert(next.take(acc.len() as int) =~= acc);
            assert(next.contains(tips[i])) by {
                if !acc.contains(tips[i]) {
                    assert(next[acc.len() as int] == tips[i]);
                }
            }
            let m = choose|m: int| 0 <= m < next.len() && next[m] == tips[i];
            assert(r.take(next.len() as int)[m] == r[m]);
            assert(r.contains(tips[i]));
        } else {
            assert(r.take(acc.len() as int) =~= acc);
        }
    }
}

/// Locator tips are at most eight, all sound, and begin with the newest block of the work
/// path where that is live; below eight every sound explored tip is among them.
pub proof fn law_locator_tips(v: WorkView, t: BlockHash)
    ensures
        ({
            let r = path_tips(v);
            &&& r.len() <= 8
            &&& forall|k: int| 0 <= k < r.len() ==> v.sound(#[trigger] r[k])
            &&& r.len() < 8 && v.reorg.explore_tips.contains(t) && v.sound(t) ==> r.contains(t)
            &&& v.ordered.len() > 0 && v.ordered_set.contains(v.ordered.last()) && v.sound(
                v.ordered.last(),
            ) ==> r.len() > 0 && r[0] == v.ordered.last()
        }),
{
    let four = newest_four(v.ordered);
    let p = live_ordered(v);
    let first = four.filter(p);
    four.filter_lemma(p);
    assert(first.len() <= four.len() <= 4);
    assert forall|k: int| 0 <= k < first.len() implies v.sound(#[trigger] first[k]) by {
        assert(p(first[k]));
    }
    lemma_with_tips(v, first, v.reorg.explore_tips, 0);
    let r = path_tips(v);
    if v.ordered.len() > 0 && p(v.ordered.last()) {
        assert(four[0] == v.ordered.last());
        lemma_filter_first(four, p);
        assert(r.take(first.len() as int)[0] == r[0]);
    }
    if r.len() < 8 && v.reorg.explore_tips.contains(t) && v.sound(t) {
        let k = choose|k: int|
            0 <= k < v.reorg.explore_tips.len() && v.reorg.explore_tips[k] == t;
        assert(v.sound(v.reorg.explore_tips[k]));
    }
}

proof fn lemma_filter_first(s: Seq<BlockHash>, p: spec_fn(BlockHash) -> bool)
    requires
        s.len() > 0,
        p(s[0]),
    ensures
        s.filter(p).len() > 0,
        s.filter(p)[0] == s[0],
    decreases s.len(),
{
    reveal(Seq::filter);
    let t = s.drop_last();
    if t.len() > 0 {
        lemma_filter_first(t, p);
    } else {
        assert(t.filter(p).len() == 0);
    }
}

/// Without any live tip the locator starts at a highest sound header, where one is known.
pub proof fn law_locator_falls_back_to_the_highest(v: WorkView, tips: Seq<BlockHash>, h: BlockHash)
    requires
        are_tips(v, tips),
        path_tips(v).len() == 0,
        v.hash_height.contains_key(h),
        v.sound(h),
    ensures
        tips.len() == 1,
        v.hash_height.contains_key(tips[0]) && v.sound(tips[0]),
        v.hash_height[tips[0]] >= v.hash_height[h],
{
}

} // verus!

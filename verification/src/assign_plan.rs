//! Pure ordered-path helpers.
use vstd::prelude::*;
use crate::hash::BlockHash;
use crate::keyed::KeySet;
use crate::time::{sat_mul, saturating_mul_u64};
use std::collections::VecDeque;

verus! {

/// `s` from its first live member on.
pub open spec fn trimmed(s: Seq<BlockHash>, live: Set<BlockHash>) -> Seq<BlockHash>
    decreases s.len(),
{
    if s.len() == 0 || live.contains(s[0]) {
        s
    } else {
        trimmed(s.drop_first(), live)
    }
}

/// Mark `h` done in the ordered set and trim ghosts off the front, so that the
/// next front, where there is one, is live.
///
/// A hash removed from the middle leaves a ghost in the deque until the front
/// reaches it or [`compact_ordered`] drops it.
pub fn remove_from_ordered(
    ordered: &mut VecDeque<BlockHash>,
    ordered_set: &mut KeySet<BlockHash>,
    h: BlockHash,
)
    ensures
        final(ordered_set)@ == old(ordered_set)@.remove(h),
        final(ordered)@ == trimmed(old(ordered)@, old(ordered_set)@.remove(h)),
{
    ordered_set.remove(&h);
    let ghost all = ordered@;
    while ordered.len() > 0
        invariant
            ordered_set@ == old(ordered_set)@.remove(h),
            trimmed(ordered@, ordered_set@) == trimmed(all, ordered_set@),
        ensures
            ordered@ == trimmed(all, ordered_set@),
        decreases ordered@.len(),
    {
        let front = ordered[0];
        if ordered_set.contains(&front) {
            break;
        }
        let ghost was = ordered@;
        let _ = ordered.pop_front();
        assert(ordered@ =~= was.drop_first());
    }
}

/// Does the deque hold so many ghosts that it is worth rebuilding?
pub open spec fn bloated(len: nat, live: nat) -> bool {
    &&& len > 64
    &&& len > live + (if live / 2 > 64 {
        live / 2
    } else {
        64
    })
}

/// Rebuild `ordered` from its live members, in order. Left alone while the deque
/// is small or not much larger than the live set.
pub fn compact_ordered(ordered: &mut VecDeque<BlockHash>, ordered_set: &KeySet<BlockHash>)
    ensures
        final(ordered)@ == (if bloated(old(ordered)@.len(), ordered_set@.len()) {
            old(ordered)@.filter(|h: BlockHash| ordered_set@.contains(h))
        } else {
            old(ordered)@
        }),
{
    let len: usize = ordered.len();
    if len <= 64 {
        return;
    }
    let live: usize = ordered_set.len();
    let half: usize = live / 2;
    let ghost_budget: usize = if half > 64 {
        half
    } else {
        64
    };
    if len <= live.saturating_add(ghost_budget) {
        return;
    }
    let mut next: VecDeque<BlockHash> = VecDeque::new();
    let mut i: usize = 0;
    let ghost p = |h: BlockHash| ordered_set@.contains(h);
    while i < ordered.len()
        invariant
            i <= ordered@.len(),
            ordered@ == old(ordered)@,
            p == (|h: BlockHash| ordered_set@.contains(h)),
            next@ == ordered@.take(i as int).filter(p),
        decreases ordered@.len() - i,
    {
        let h = ordered[i];
        proof {
            assert(ordered@.take(i + 1) =~= ordered@.take(i as int).push(h));
            ordered@.take(i as int).lemma_filter_push(h, p);
        }
        if ordered_set.contains(&h) {
            next.push_back(h);
        }
        i = i + 1;
    }
    assert(ordered@.take(i as int) =~= ordered@);
    *ordered = next;
}

/// Densify slots of one peer: two while a tip hole is open, else half of
/// `per_peer` (at least one).
pub open spec fn far_slots(per_peer: usize, tip_hole: bool) -> usize {
    if tip_hole {
        2
    } else if per_peer / 2 > 1 {
        per_peer / 2
    } else {
        1
    }
}

/// Densify slots per peer: a drip while a tip hole is open, so that getdata for
/// the tip always finds room; else half of `per_peer`.
pub fn far_slots_per_peer(per_peer: usize, tip_hole: bool) -> (n: usize)
    ensures
        n == far_slots(per_peer, tip_hole),
{
    if tip_hole {
        2
    } else {
        let half: usize = per_peer / 2;
        if half > 1 {
            half
        } else {
            1
        }
    }
}

/// Is this peer at least twice as fast as the pack median?
pub open spec fn fast_outlier(peer_bps: Option<u64>, pack_median: Option<u64>) -> bool {
    match (peer_bps, pack_median) {
        (Some(bps), Some(med)) => med > 0 && bps >= sat_mul(med, 2),
        _ => false,
    }
}

/// Densify cap of one peer.
pub open spec fn densify_slots(
    per_peer: usize,
    tip_hole: bool,
    peer_bps: Option<u64>,
    pack_median: Option<u64>,
    pack_tight: bool,
) -> usize {
    if !tip_hole && !pack_tight && fast_outlier(peer_bps, pack_median) {
        per_peer
    } else {
        far_slots(per_peer, tip_hole)
    }
}

/// Per-peer densify cap: two while a tip hole is open; otherwise half of
/// `per_peer`, or all of it for a peer at twice the median of a pack that is not
/// a tight cluster.
pub fn densify_slots_for_peer(
    per_peer: usize,
    tip_hole: bool,
    peer_bps: Option<u64>,
    pack_median: Option<u64>,
    pack_tight: bool,
) -> (n: usize)
    ensures
        n == densify_slots(per_peer, tip_hole, peer_bps, pack_median, pack_tight),
{
    let base: usize = far_slots_per_peer(per_peer, tip_hole);
    if tip_hole || pack_tight {
        return base;
    }
    match (peer_bps, pack_median) {
        (Some(bps), Some(med)) => {
            let twice: u64 = saturating_mul_u64(med, 2);
            if med > 0 && bps >= twice {
                per_peer
            } else {
                base
            }
        },
        _ => base,
    }
}

/// Request more headers past the soft cap? Only for a live path that is at
/// least three quarters claim-ready and whose gap to the ready height is short.
pub open spec fn wants_headers(live: usize, known_ready: usize, ready_gap: u32, gap_need: u32) -> bool {
    &&& live > 0
    &&& known_ready >= (if live * 3 > usize::MAX {
        usize::MAX as int
    } else {
        live * 3
    }) / 4
    &&& ready_gap < gap_need
}

/// Whether to request more headers past the soft cap.
///
/// An empty path is not headroom: treating it so would answer every known
/// one-header announce with another request.
pub fn want_headers_beyond_soft_cap(
    live: usize,
    known_ready: usize,
    ready_gap: u32,
    gap_need: u32,
) -> (b: bool)
    ensures
        b == wants_headers(live, known_ready, ready_gap, gap_need),
{
    if live == 0 {
        return false;
    }
    let thrice: usize = match live.checked_mul(3) {
        Some(x) => x,
        None => usize::MAX,
    };
    let mostly_ready = known_ready >= thrice / 4;
    mostly_ready && ready_gap < gap_need
}

/// May a header enter `ordered`? Not while it is already listed, requested,
/// queued, refused or confirmed, and not at or below the tip.
pub open spec fn enqueues_header(
    in_ordered: bool,
    inflight: bool,
    pending: bool,
    rejected: bool,
    has_block: bool,
    height: Option<u32>,
    tip_h: Option<u32>,
) -> bool {
    &&& !in_ordered && !inflight && !pending && !rejected && !has_block
    &&& !(height is Some && tip_h is Some && height->0 <= tip_h->0)
}

/// Admit a header onto `ordered`, the first time or again after a drain.
pub fn should_enqueue_header(
    in_ordered: bool,
    inflight: bool,
    pending: bool,
    rejected: bool,
    has_block: bool,
    height: Option<u32>,
    tip_h: Option<u32>,
) -> (b: bool)
    ensures
        b == enqueues_header(in_ordered, inflight, pending, rejected, has_block, height, tip_h),
{
    if in_ordered || inflight || pending || rejected || has_block {
        return false;
    }
    match (height, tip_h) {
        (Some(ht), Some(tip)) => ht > tip,
        _ => true,
    }
}

/// What is left at the front after a removal is live.
pub proof fn law_front_is_live(s: Seq<BlockHash>, live: Set<BlockHash>)
    ensures
        trimmed(s, live).len() > 0 ==> live.contains(trimmed(s, live)[0]),
        trimmed(s, live).is_suffix_of(s),
    decreases s.len(),
{
    if s.len() > 0 && !live.contains(s[0]) {
        law_front_is_live(s.drop_first(), live);
        let t = trimmed(s.drop_first(), live);
        assert(s.subrange(s.len() - t.len(), s.len() as int) =~= s.drop_first().subrange(
            s.drop_first().len() - t.len(),
            s.drop_first().len() as int,
        ));
    } else {
        assert(s.subrange(0, s.len() as int) =~= s);
    }
}

/// Trimming loses no live member.
pub proof fn law_trim_keeps_live(s: Seq<BlockHash>, live: Set<BlockHash>, h: BlockHash)
    requires
        live.contains(h),
        s.contains(h),
    ensures
        trimmed(s, live).contains(h),
    decreases s.len(),
{
    if s.len() > 0 && !live.contains(s[0]) {
        let i = choose|i: int| 0 <= i < s.len() && s[i] == h;
        assert(s.drop_first()[i - 1] == h);
        law_trim_keeps_live(s.drop_first(), live, h);
    }
}

} // verus!

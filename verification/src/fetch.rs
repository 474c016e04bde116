//! Which hashes of the work path still have to be fetched.
use vstd::prelude::*;
use crate::body::{BodyPresence, BodyView};
use crate::chain::{larger, max32, sat_add32, ChainHub, HubView};
use crate::hash::BlockHash;
use crate::state::{IbdWorkState, WorkView};
use std::collections::VecDeque;

verus! {

/// Work state and chain side by side, as values.
#[verifier::ext_equal]
pub struct Turn {
    pub st: WorkView,
    pub hub: HubView,
}

/// What the body queue holds for a wanted hash.
#[derive(Clone, Copy, Debug, PartialEq, Eq, Structural)]
pub enum BqWireAt {
    Ready,
    Gap,
}

impl HubView {
    /// Does the queue hold `want` at `ht`?
    pub open spec fn wire_ready(self, ht: u32, want: BlockHash) -> bool {
        self.queue.contains_key(ht) && self.queue[ht].hash == want
    }

    /// The queue without another hash at `ht`.
    pub open spec fn without_wrong_wire(self, ht: u32, want: BlockHash) -> HubView {
        if self.queue.contains_key(ht) && self.queue[ht].hash != want {
            HubView { queue: self.queue.remove(ht), ..self }
        } else {
            self
        }
    }
}

/// Look for `want` in the queue at `ht`. Another hash there is taken out.
pub fn bq_wire_for_hash(hub: &mut ChainHub, ht: u32, want: BlockHash) -> (r: BqWireAt)
    ensures
        r == (if old(hub)@.wire_ready(ht, want) {
            BqWireAt::Ready
        } else {
            BqWireAt::Gap
        }),
        final(hub)@ == old(hub)@.without_wrong_wire(ht, want),
{
    match hub.queue.hash_at_height(ht) {
        Some(q) => {
            if q == want {
                BqWireAt::Ready
            } else {
                hub.queue.dequeue_height(ht);
                BqWireAt::Gap
            }
        },
        None => BqWireAt::Gap,
    }
}

/// Body marks once a zombie pending mark of `h` is demoted: a mark with neither
/// a confirmed block nor queued wire of this very hash behind it.
pub open spec fn demoted(body: BodyView, hub: HubView, h: BlockHash, height: Option<u32>) -> BodyView {
    if body.pending.contains_key(h) && !hub.blocks.contains(h) && !(height is Some
        && hub.wire_ready(height->0, h)) {
        body.with_missing(h)
    } else {
        body
    }
}

/// Demote a pending mark that no queued wire of this hash stands behind, so that
/// it can be requested again.
pub fn demote_zombie_pending_for_fetch(
    body: &mut BodyPresence,
    hub: &ChainHub,
    hash: BlockHash,
    height: Option<u32>,
)
    ensures
        final(body)@ == demoted(old(body)@, hub@, hash, height),
{
    if !body.is_pending(&hash) || hub.has_block(&hash) {
        return;
    }
    if let Some(ht) = height {
        if let Some(q) = hub.queue.hash_at_height(ht) {
            if q == hash {
                return;
            }
        }
    }
    body.mark_missing(hash);
}

/// The hash at `ht` that still needs a request, and the state after looking.
///
/// Queued wire of the very hash counts before the pending mark: a pending mark
/// without it is a zombie and is demoted.
pub open spec fn need_at(t: Turn, ht: u32) -> (Turn, Option<BlockHash>) {
    if !t.st.height_to_hash.contains_key(ht) {
        (t, None)
    } else {
        let h = t.st.height_to_hash[ht];
        if t.hub.claim_ready(ht, h) || t.st.inflight.contains_key(h) || t.st.body.rejected.contains(
            h,
        ) || t.st.body.known.contains(h) {
            (t, None)
        } else {
            let hub = t.hub.without_wrong_wire(ht, h);
            let body = demoted(t.st.body, hub, h, Some(ht));
            let has = hub.blocks.contains(h);
            (
                Turn {
                    st: WorkView { body: body.after_skip_probe(h, has), ..t.st },
                    hub,
                },
                if body.skips(h, has) {
                    None
                } else {
                    Some(h)
                },
            )
        }
    }
}

/// Hash at `ht` that still needs a new single-peer request.
pub fn need_hash_at(st: &mut IbdWorkState, hub: &mut ChainHub, ht: u32) -> (r: Option<BlockHash>)
    ensures
        ((Turn { st: final(st)@, hub: final(hub)@ }), r) == need_at(
            (Turn { st: old(st)@, hub: old(hub)@ }),
            ht,
        ),
{
    let h = match st.height_to_hash.get(&ht) {
        Some(h) => *h,
        None => {
            return None;
        },
    };
    if hub.claim_ready(ht, &h) || st.inflight.contains_key(&h) || st.body.is_rejected(&h)
        || st.body.is_known_archived(&h) {
        return None;
    }
    if bq_wire_for_hash(hub, ht, h) == BqWireAt::Ready {
        return None;
    }
    demote_zombie_pending_for_fetch(&mut st.body, hub, h, Some(ht));
    let has = hub.has_block(&h);
    if st.body.skip_download(has, &h) {
        return None;
    }
    Some(h)
}

/// Is the height filled as far as densify is concerned: claim-ready, requested,
/// or archived?
pub open spec fn prefix_filled(t: Turn, ht: u32) -> bool {
    t.st.height_to_hash.contains_key(ht) && ({
        let h = t.st.height_to_hash[ht];
        t.hub.claim_ready(ht, h) || t.st.inflight.contains_key(h) || t.st.body.known.contains(h)
    })
}

/// Is the height filled as far as densify is concerned?
pub fn densify_prefix_filled(st: &IbdWorkState, hub: &ChainHub, ht: u32) -> (b: bool)
    ensures
        b == prefix_filled((Turn { st: st@, hub: hub@ }), ht),
{
    match st.height_to_hash.get(&ht) {
        Some(h) => hub.claim_ready(ht, h) || st.inflight.contains_key(h)
            || st.body.is_known_archived(h),
        None => false,
    }
}

/// A height scan under way.
#[verifier::ext_equal]
pub struct Scan {
    pub turn: Turn,
    /// Hashes to request, lowest height first.
    pub out: Seq<BlockHash>,
    /// First height that is not known to be filled.
    pub prefix: u32,
    /// Still inside the filled prefix?
    pub tracking: bool,
}

/// The scan after one more height.
pub open spec fn scan_step(s: Scan, ht: u32) -> Scan {
    let (t, need) = need_at(s.turn, ht);
    let filled = need is None && prefix_filled(t, ht);
    Scan {
        turn: t,
        out: match need {
            Some(h) => s.out.push(h),
            None => s.out,
        },
        prefix: if s.tracking && filled {
            sat_add32(ht, 1)
        } else {
            s.prefix
        },
        tracking: s.tracking && filled,
    }
}

/// The scan over `ht..=hi`, stopped at `cap` hashes or after `budget` heights.
pub open spec fn scan_from(s: Scan, ht: int, hi: int, cap: usize, budget: int) -> Scan
    decreases hi - ht + 1,
{
    if ht > hi || s.out.len() >= cap || budget <= 0 {
        s
    } else {
        scan_from(scan_step(s, ht as u32), ht + 1, hi, cap, budget - 1)
    }
}

/// The smaller of two heights.
pub open spec fn min32(a: u32, b: u32) -> u32 {
    if a <= b {
        a
    } else {
        b
    }
}

/// What a band scan of `lo..=hi` finds, and the state after it. The scan ends at
/// the highest ordered height, and moves the densify start past the filled
/// prefix.
pub open spec fn band_scan(t: Turn, lo: u32, hi: u32, cap: usize, budget: usize) -> (Turn, Seq<BlockHash>) {
    if lo > hi || cap == 0 {
        (t, Seq::empty())
    } else {
        let top = min32(hi, max32(t.st.max_ordered_height, lo));
        let s = scan_from(
            Scan { turn: t, out: Seq::empty(), prefix: lo, tracking: true },
            lo as int,
            top as int,
            cap,
            budget as int,
        );
        (
            Turn {
                st: WorkView {
                    densify_scan_lo: max32(s.prefix, s.turn.st.densify_scan_lo),
                    ..s.turn.st
                },
                hub: s.turn.hub,
            },
            s.out,
        )
    }
}

/// Single-peer need list over an inclusive height band, closest to the tip
/// first. Filled heights take no slot of `cap`; only the walk is bounded.
pub fn collect_height_band(
    st: &mut IbdWorkState,
    hub: &mut ChainHub,
    lo: u32,
    hi: u32,
    cap: usize,
    budget: usize,
) -> (r: VecDeque<BlockHash>)
    ensures
        ((Turn { st: final(st)@, hub: final(hub)@ }), r@) == band_scan(
            (Turn { st: old(st)@, hub: old(hub)@ }),
            lo,
            hi,
            cap,
            budget,
        ),
{
    let ghost start = Turn { st: st@, hub: hub@ };
    let mut out: VecDeque<BlockHash> = VecDeque::new();
    if lo > hi || cap == 0 {
        return out;
    }
    let reach: u32 = larger(st.max_ordered_height, lo);
    let top: u32 = if hi <= reach {
        hi
    } else {
        reach
    };
    let mut walked: usize = 0;
    let mut prefix: u32 = lo;
    let mut tracking = true;
    let mut next: u64 = lo as u64;
    let ghost all = scan_from(
        Scan { turn: start, out: Seq::empty(), prefix: lo, tracking: true },
        lo as int,
        top as int,
        cap,
        budget as int,
    );
    assert(out@ =~= Seq::<BlockHash>::empty());
    while next <= top as u64 && out.len() < cap && walked < budget
        invariant
            lo <= next <= top + 1,
            walked <= budget,
            scan_from(
                Scan { turn: Turn { st: st@, hub: hub@ }, out: out@, prefix, tracking },
                next as int,
                top as int,
                cap,
                budget - walked,
            ) == all,
        decreases top + 1 - next,
    {
        let ht: u32 = next as u32;
        let ghost was = Scan { turn: Turn { st: st@, hub: hub@ }, out: out@, prefix, tracking };
        walked = walked + 1;
        let need = need_hash_at(st, hub, ht);
        if tracking {
            if need.is_none() && densify_prefix_filled(st, hub, ht) {
                prefix = ht.saturating_add(1);
            } else {
                tracking = false;
            }
        }
        if let Some(h) = need {
            out.push_back(h);
        }
        next = next + 1;
        assert(Scan { turn: Turn { st: st@, hub: hub@ }, out: out@, prefix, tracking }
            =~= scan_step(was, ht));
    }
    st.densify_scan_lo = larger(prefix, st.densify_scan_lo);
    out
}

/// The next hash of `q` that still needs a request: state after the search, what
/// is left of `q`, and the hash.
pub open spec fn next_need(t: Turn, q: Seq<BlockHash>) -> (Turn, Seq<BlockHash>, Option<BlockHash>)
    decreases q.len(),
{
    if q.len() == 0 {
        (t, q, None)
    } else {
        let h = q[0];
        let has = t.hub.blocks.contains(h);
        let after = Turn {
            st: WorkView { body: t.st.body.after_skip_probe(h, has), ..t.st },
            hub: t.hub,
        };
        if t.st.body.skips(h, has) || t.st.inflight.contains_key(h) {
            next_need(after, q.drop_first())
        } else {
            (after, q.drop_first(), Some(h))
        }
    }
}

/// Each search takes something off a non-empty queue.
pub proof fn lemma_next_need_shrinks(t: Turn, q: Seq<BlockHash>)
    ensures
        next_need(t, q).1.len() <= q.len(),
        q.len() > 0 ==> next_need(t, q).1.len() < q.len(),
    decreases q.len(),
{
    if q.len() > 0 {
        let h = q[0];
        let has = t.hub.blocks.contains(h);
        let after = Turn {
            st: WorkView { body: t.st.body.after_skip_probe(h, has), ..t.st },
            hub: t.hub,
        };
        lemma_next_need_shrinks(after, q.drop_first());
    }
}

/// Take hashes off `q` until one still needs a request.
pub fn pop_need(q: &mut VecDeque<BlockHash>, st: &mut IbdWorkState, hub: &ChainHub) -> (r: Option<BlockHash>)
    ensures
        ((Turn { st: final(st)@, hub: hub@ }), final(q)@, r) == next_need(
            (Turn { st: old(st)@, hub: hub@ }),
            old(q)@,
        ),
{
    let ghost all = next_need(Turn { st: st@, hub: hub@ }, q@);
    while q.len() > 0
        invariant
            next_need(Turn { st: st@, hub: hub@ }, q@) == all,
            all == next_need(Turn { st: old(st)@, hub: hub@ }, old(q)@),
        decreases q@.len(),
    {
        let ghost was = q@;
        let h = q[0];
        let _ = q.pop_front();
        assert(q@ =~= was.drop_first());
        let has = hub.has_block(&h);
        let skip = st.body.skip_download(has, &h);
        if !skip && !st.inflight.contains_key(&h) {
            return Some(h);
        }
    }
    None
}

/// Hashes of the contiguous tip hole from `ht` on: the path up to the first
/// height that is unknown, rejected, held by the awaited branch or claim-ready.
pub open spec fn holes_from(t: Turn, ht: int, limit: int, max: int) -> Seq<BlockHash>
    decreases limit - ht + 1,
{
    if ht > limit || max <= 0 || !t.st.height_to_hash.contains_key(ht as u32) {
        Seq::empty()
    } else {
        let h = t.st.height_to_hash[ht as u32];
        if t.st.body.rejected.contains(h) || t.st.reorg.awaits_held(h) || t.hub.claim_ready(
            ht as u32,
            h,
        ) {
            Seq::empty()
        } else {
            seq![h] + holes_from(t, ht + 1, limit, max - 1)
        }
    }
}

/// The contiguous hole above the tip, at most `max` hashes.
pub open spec fn tip_holes(t: Turn, max: usize) -> Seq<BlockHash> {
    let lo = t.hub.path_lo();
    holes_from(t, lo as int, sat_add32(lo, (max * 4) as u32) as int, max as int)
}

/// Contiguous hashes from the height above the tip on that still have to be
/// fetched. Stops at the first claim-ready body: what counts is the fetch gap,
/// not the confirm backlog.
pub fn contiguous_tip_holes(st: &IbdWorkState, hub: &ChainHub, max: usize) -> (r: Vec<BlockHash>)
    requires
        max <= u32::MAX / 4,
    ensures
        r@ == tip_holes((Turn { st: st@, hub: hub@ }), max),
{
    let lo: u32 = hub.path_lo();
    let mut holes: Vec<BlockHash> = Vec::new();
    let limit: u32 = lo.saturating_add((max * 4) as u32);
    let mut next: u64 = lo as u64;
    let ghost t = Turn { st: st@, hub: hub@ };
    let ghost all = tip_holes(t, max);
    assert(holes@ + holes_from(t, lo as int, limit as int, max as int) =~= all);
    while next <= limit as u64 && holes.len() < max
        invariant
            lo <= next <= limit + 1,
            holes@.len() <= max,
            t == (Turn { st: st@, hub: hub@ }),
            holes@ + holes_from(t, next as int, limit as int, max - holes@.len()) == all,
        ensures
            holes@ == all,
        decreases limit + 1 - next,
    {
        let ht: u32 = next as u32;
        let hash = match st.height_to_hash.get(&ht) {
            Some(h) => *h,
            None => {
                assert(holes@ =~= all);
                break;
            },
        };
        if st.body.is_rejected(&hash) || st.reorg.is_awaiting_held_tip(&hash) || hub.claim_ready(
            ht,
            &hash,
        ) {
            assert(holes@ =~= all);
            break;
        }
        let ghost was = holes@;
        holes.push(hash);
        next = next + 1;
        proof {
            let rest = holes_from(t, next as int, limit as int, max - holes@.len());
            assert(was.push(hash) + rest =~= was + (seq![hash] + rest));
        }
    }
    assert(holes@ =~= all);
    holes
}

} // verus!

//! What competing branches still need.
use vstd::prelude::*;
use crate::assign::{offer_round, pull_one, Pull};
use crate::fetch::Turn;
use crate::hash::BlockHash;
use crate::laws::densify::{lemma_issue_tied, slots_tied};
use crate::reorg::{joined, ReorgView};
use crate::state::WorkView;

verus! {

proof fn lemma_joined(acc: Seq<BlockHash>, more: Seq<BlockHash>, skip: Set<BlockHash>)
    ensures
        acc.len() <= joined(acc, more, skip).len(),
        joined(acc, more, skip).take(acc.len() as int) == acc,
        acc.no_duplicates() ==> joined(acc, more, skip).no_duplicates(),
        forall|h: BlockHash| #[trigger]
            joined(acc, more, skip).contains(h) <==> acc.contains(h) || more.contains(h)
                && !skip.contains(h),
    decreases more.len(),
{
    let all = joined(acc, more, skip);
    if more.len() == 0 {
        assert(all.take(acc.len() as int) =~= acc);
    } else {
        let rest = more.drop_first();
        let next = if acc.contains(more[0]) || skip.contains(more[0]) {
            acc
        } else {
            acc.push(more[0])
        };
        lemma_joined(next, rest, skip);
        assert(all.take(acc.len() as int) =~= all.take(next.len() as int).take(acc.len() as int));
        assert(next.take(acc.len() as int) =~= acc);
        assert forall|h: BlockHash| #[trigger]
            all.contains(h) <==> acc.contains(h) || more.contains(h) && !skip.contains(h) by {
            if more.contains(h) {
                let k = choose|k: int| 0 <= k < more.len() && more[k] == h;
                if k > 0 {
                    assert(rest[k - 1] == h);
                }
            }
            if rest.contains(h) {
                let k = choose|k: int| 0 <= k < rest.len() && rest[k] == h;
                assert(more[k + 1] == h);
            }
            if next.contains(h) && !acc.contains(h) {
                let k = choose|k: int| 0 <= k < next.len() && next[k] == h;
                assert(k == acc.len());
                assert(more[0] == h);
            }
            if acc.contains(h) {
                let k = choose|k: int| 0 <= k < acc.len() && acc[k] == h;
                assert(next[k] == h);
            }
            if more[0] == h && !skip.contains(h) && !acc.contains(h) {
                assert(next[acc.len() as int] == h);
            }
            assert(more.contains(more[0]));
        }
    }
}

/// What branches need is what the awaited branch and exploration list and is not held yet,
/// each hash once, the awaited branch first.
pub proof fn law_branches_need_what_is_not_held(r: ReorgView, h: BlockHash)
    ensures
        r.need().no_duplicates(),
        r.need().contains(h) <==> !r.held.contains_key(h) && (r.explore_need.contains(h)
            || r.awaiting is Some && (r.awaiting->0).1.contains(h)),
        r.awaiting_need().contains(h) <==> !r.held.contains_key(h) && r.awaiting is Some
            && (r.awaiting->0).1.contains(h),
        r.awaiting_need().len() <= r.need().len(),
        r.need().take(r.awaiting_need().len() as int) == r.awaiting_need(),
{
    let first = r.awaiting_need();
    if r.awaiting is Some {
        lemma_joined(Seq::empty(), (r.awaiting->0).1, r.held.dom());
    }
    lemma_joined(first, r.explore_need, r.held.dom());
    assert(first.no_duplicates());
    assert(r.need().contains(h) <==> first.contains(h) || r.explore_need.contains(h)
        && !r.held.dom().contains(h));
}

/// Exploring a branch adds its bodies and its tip behind what is listed, once each, and
/// touches nothing that is held, awaited or invalid.
pub proof fn law_exploring_adds_a_branch(
    r: ReorgView,
    need: Seq<BlockHash>,
    tip: Option<BlockHash>,
    h: BlockHash,
)
    requires
        r.explore_need.no_duplicates(),
        r.explore_tips.no_duplicates(),
    ensures
        ({
            let w = r.with_explore(need, tip);
            &&& w.explore_need.no_duplicates() && w.explore_tips.no_duplicates()
            &&& w.explore_need.contains(h) <==> r.explore_need.contains(h) || need.contains(h)
            &&& w.explore_tips.contains(h) <==> r.explore_tips.contains(h) || tip == Some(h)
            &&& w.explore_need.take(r.explore_need.len() as int) == r.explore_need
            &&& w.explore_tips.take(r.explore_tips.len() as int) == r.explore_tips
            &&& w.held == r.held && w.awaiting == r.awaiting && w.invalid == r.invalid
        }),
{
    lemma_joined(r.explore_need, need, Set::empty());
    match tip {
        Some(t) => {
            lemma_joined(r.explore_tips, seq![t], Set::empty());
            assert(seq![t][0] == t);
            assert(seq![t].contains(h) <==> t == h);
        },
        None => {
            assert(r.explore_tips.take(r.explore_tips.len() as int) =~= r.explore_tips);
        },
    }
}

/// Dropping exploration leaves only what the awaited branch needs.
pub proof fn law_dropping_exploration_keeps_the_awaited(r: ReorgView)
    ensures
        r.without_explore().need() == r.awaiting_need(),
        r.without_explore().explore_tips.len() == 0,
        r.without_explore().held == r.held && r.without_explore().invalid == r.invalid,
{
}

proof fn lemma_offer(
    p: Pull,
    h: BlockHash,
    alive: Seq<usize>,
    tries: nat,
    per_peer: usize,
    now_ms: u64,
    j: int,
)
    requires
        alive.len() > 0,
        p.rot + tries <= usize::MAX,
        slots_tied(p.turn.st),
        !p.turn.st.inflight.contains_key(h),
        0 <= j < tries,
        p.turn.st.has_slot(alive[(p.rot + j) % alive.len() as int], per_peer),
    ensures
        offer_round(p, h, alive, tries, per_peer, now_ms).turn.st.inflight.contains_key(h),
    decreases tries,
{
    let pid = alive[p.rot as int % alive.len() as int];
    let on = Pull { rot: crate::assign::next_rot(p.rot), ..p };
    let v = p.turn.st;
    if !v.has_slot(pid, per_peer) {
        assert(j > 0);
        lemma_offer(on, h, alive, (tries - 1) as nat, per_peer, now_ms, j - 1);
    } else {
        lemma_issue_tied(v, pid, h, now_ms);
    }
}

/// A body that a branch needs is requested as soon as any alive peer has a free slot, unless
/// it is requested, confirmed or queued already, or was refused.
pub proof fn law_needed_branch_body_is_requested(
    p: Pull,
    h: BlockHash,
    alive: Seq<usize>,
    per_peer: usize,
    now_ms: u64,
    at: int,
)
    requires
        p.rot + alive.len() <= usize::MAX,
        slots_tied(p.turn.st),
        !p.turn.hub.blocks.contains(h),
        forall|ht: u32| #[trigger]
            p.turn.hub.queue.contains_key(ht) ==> p.turn.hub.queue[ht].hash != h,
        !p.turn.st.body.rejected.contains(h),
        0 <= at < alive.len(),
        p.turn.st.has_slot(alive[at], per_peer),
    ensures
        pull_one(p, h, alive, per_peer, now_ms).turn.st.inflight.contains_key(h),
{
    let t = p.turn;
    if !t.st.inflight.contains_key(h) {
        assert(!crate::chain::queue_has_hash(t.hub.queue, h));
        let body = crate::fetch::demoted(t.st.body, t.hub, h, t.st.height_of(h));
        assert(!body.skips(h, false));
        let after = Turn {
            st: WorkView { body: body.after_skip_probe(h, false), ..t.st },
            hub: t.hub,
        };
        let q = Pull { turn: after, ..p };
        let n = alive.len() as int;
        let r = p.rot as int % n;
        let j = if at >= r {
            at - r
        } else {
            at - r + n
        };
        let d = p.rot as int / n;
        vstd::arithmetic::div_mod::lemma_fundamental_div_mod(p.rot as int, n);
        if at >= r {
            vstd::arithmetic::div_mod::lemma_fundamental_div_mod_converse(p.rot + j, n, d, at);
        } else {
            assert(n * (d + 1) == n * d + n) by (nonlinear_arith);
            vstd::arithmetic::div_mod::lemma_fundamental_div_mod_converse(p.rot + j, n, d + 1, at);
        }
        assert(slots_tied(after.st));
        lemma_offer(q, h, alive, alive.len(), per_peer, now_ms, j);
    }
}

} // verus!

//! How the confirm engine starts, cuts and ends its runs.
use vstd::prelude::*;
use crate::chain::HubView;
use crate::confirm_class::ConfirmRejectClass;
use crate::confirm_engine::{
    already_committed, claim_from, load_settled, lookup_sized, reached, reject_view, script_settled,
    told, triaged, write_settled, write_start, Claim, EventView, LookupFaultAction,
    LookupFaultPolicy, Settled, UringRecover, WriteStart, WriteStep, WriteStoreFault, WriteTriage,
};
use crate::confirm_feed::{bare_rows, FeedView};
use crate::confirm_wave::{
    cuts_from, inputs_in, is_part, packed_sum, ready_in, run_bytes, LoadItem, QueueMeta, TxId, WireTx,
};
use crate::error::ConsensusError;
use crate::hash::BlockHash;
use crate::load_ahead::{creates_in, known_in, top_height, top_row, ArchivedBlock, LoadAheadState};

verus! {

/// A failing wave of several blocks is never told as invalid: it is told as one to try
/// again, and the next wave takes a single block. A lone block is told as it was judged.
pub proof fn law_failing_wave_is_tried_block_by_block(
    f: FeedView,
    height: u32,
    hash: BlockHash,
    class: ConfirmRejectClass,
    err: Seq<char>,
    n: usize,
)
    ensures
        reject_view(height, hash, class, err, n) matches EventView::Reject {
            height: h,
            hash: g,
            class: c,
            err: e,
            batch_len: b,
        } && h == height && g == hash && e == err && b == n && (n > 1 ==> !(c is ConsensusInvalid))
            && (n <= 1 || !(class is ConsensusInvalid) ==> c == class) && (n > 1 && class
            is ConsensusInvalid ==> c is Cascade),
        n > 1 && (class is ConsensusInvalid || class is Cascade) ==> f.after_reject(class, n).single,
        n <= 1 || !(class is ConsensusInvalid || class is Cascade) ==> f.after_reject(class, n)
            == f,
        f.after_reject(class, n).ready == f.ready && f.after_reject(class, n).inflight
            == f.inflight,
{
}

proof fn lemma_requeued(f: FeedView, rows: Seq<(u32, BlockHash, Option<Seq<u8>>)>, i: int, at: u32)
    requires
        0 <= i,
    ensures
        ({
            let r = f.requeued_from(rows, i);
            &&& f.ready.contains_key(at) ==> r.ready.contains_key(at) && r.ready[at].hash
                == f.ready[at].hash
            &&& !f.inflight.contains(at) ==> !r.inflight.contains(at)
            &&& (exists|k: int| i <= k < rows.len() && (#[trigger] rows[k]).0 == at)
                ==> r.ready.contains_key(at) && !r.inflight.contains(at)
            &&& (forall|k: int| i <= k < rows.len() ==> (#[trigger] rows[k]).0 != at)
                ==> r.ready.contains_key(at) == f.ready.contains_key(at) && r.inflight.contains(at)
                == f.inflight.contains(at)
            &&& r.claimed_epoch == f.claimed_epoch && r.epoch == f.epoch && r.single == f.single
        }),
    decreases rows.len() - i,
{
    if i < rows.len() {
        let next = f.put_back(rows[i]);
        lemma_requeued(next, rows, i + 1, at);
        if exists|k: int| i <= k < rows.len() && (#[trigger] rows[k]).0 == at {
            let k = choose|k: int| i <= k < rows.len() && (#[trigger] rows[k]).0 == at;
            if k > i {
                assert(exists|m: int| i + 1 <= m < rows.len() && (#[trigger] rows[m]).0 == at);
            } else {
                assert(next.ready.contains_key(at));
            }
        }
    }
}

/// A write that is put back is ready again at every height, and no longer in flight; one
/// that is given up is neither in flight nor claimed; one that ends the process leaves the
/// feed alone. Heights outside the write are not touched.
pub proof fn law_failed_write_frees_its_heights(
    f: FeedView,
    rows: Seq<(u32, BlockHash)>,
    class: ConfirmRejectClass,
    i: int,
    other: u32,
)
    requires
        0 <= i < rows.len(),
        forall|k: int| 0 <= k < rows.len() ==> (#[trigger] rows[k]).0 != other,
    ensures
        ({
            let back = f.after_write_fault(rows, WriteStoreFault::Requeue);
            &&& back.ready.contains_key(rows[i].0) && !back.inflight.contains(rows[i].0)
            &&& back.ready.contains_key(other) == f.ready.contains_key(other)
            &&& back.inflight.contains(other) == f.inflight.contains(other)
        }),
        ({
            let gone = f.after_write_fault(rows, WriteStoreFault::Reject(class));
            &&& !gone.inflight.contains(rows[i].0)
            &&& !gone.claimed_epoch.contains_key(rows[i].0)
            &&& gone.ready == f.ready
            &&& gone.inflight.contains(other) == f.inflight.contains(other)
        }),
        f.after_write_fault(rows, WriteStoreFault::Abort) == f,
{
    let bare = bare_rows(rows);
    assert(bare[i].0 == rows[i].0);
    lemma_requeued(f, bare, 0, rows[i].0);
    assert forall|k: int| 0 <= k < bare.len() implies (#[trigger] bare[k]).0 != other by {
        assert(rows[k].0 != other);
    }
    lemma_requeued(f, bare, 0, other);
    let hs = crate::confirm_feed::heights_in(rows);
    assert(hs[i] == rows[i].0);
    assert(hs.to_set().contains(rows[i].0));
    assert(!hs.contains(other)) by {
        if hs.contains(other) {
            let k = choose|k: int| 0 <= k < hs.len() && hs[k] == other;
            assert(rows[k].0 == other);
        }
    }
}

proof fn lemma_kept(rows: Seq<(u32, BlockHash)>, f: spec_fn((u32, BlockHash)) -> bool, at: u32)
    ensures
        (exists|k: int| 0 <= k < rows.filter(f).len() && (#[trigger] rows.filter(f)[k]).0 == at)
            <==> (exists|k: int| 0 <= k < rows.len() && (#[trigger] rows[k]).0 == at && f(rows[k])),
    decreases rows.len(),
{
    reveal(Seq::filter);
    if rows.len() > 0 {
        let t = rows.drop_last();
        let last = rows.len() - 1;
        let all = rows.filter(f);
        let rest = t.filter(f);
        lemma_kept(t, f, at);
        if exists|k: int| 0 <= k < all.len() && (#[trigger] all[k]).0 == at {
            let k = choose|k: int| 0 <= k < all.len() && (#[trigger] all[k]).0 == at;
            if k < rest.len() {
                assert(rest[k] == all[k]);
                let j = choose|j: int| 0 <= j < t.len() && (#[trigger] t[j]).0 == at && f(t[j]);
                assert(rows[j] == t[j]);
            } else {
                assert(rows[last].0 == at && f(rows[last]));
            }
        }
        if exists|k: int| 0 <= k < rows.len() && (#[trigger] rows[k]).0 == at && f(rows[k]) {
            let k = choose|k: int|
                0 <= k < rows.len() && (#[trigger] rows[k]).0 == at && f(rows[k]);
            if k < last {
                assert(t[k] == rows[k]);
                let j = choose|j: int| 0 <= j < rest.len() && (#[trigger] rest[j]).0 == at;
                assert(all[j] == rest[j]);
            } else {
                assert(all[rest.len() as int].0 == at);
            }
        }
    }
}

/// When the first block of a run fails to load, it alone is given up: every block behind it
/// that is not confirmed is ready again and no longer in flight.
pub proof fn law_failed_load_gives_up_its_first_block(
    f: FeedView,
    rows: Seq<(u32, BlockHash)>,
    blocks: Set<BlockHash>,
    i: int,
)
    requires
        0 < i < rows.len(),
        forall|a: int, b: int|
            0 <= a < b < rows.len() ==> (#[trigger] rows[a]).0 != (#[trigger] rows[b]).0,
    ensures
        ({
            let w = f.after_load_reject(rows, blocks);
            &&& !w.inflight.contains(rows[0].0)
            &&& !w.claimed_epoch.contains_key(rows[0].0)
            &&& w.ready.contains_key(rows[0].0) == f.ready.contains_key(rows[0].0)
            &&& !blocks.contains(rows[i].1) ==> w.ready.contains_key(rows[i].0)
                && !w.inflight.contains(rows[i].0)
            &&& blocks.contains(rows[i].1) ==> w.ready.contains_key(rows[i].0)
                == f.ready.contains_key(rows[i].0) && w.inflight.contains(rows[i].0)
                == f.inflight.contains(rows[i].0)
        }),
{
    let p = crate::confirm_engine::row_not_in(blocks);
    let tail = rows.skip(1);
    let kept = tail.filter(p);
    let bare = bare_rows(kept);
    lemma_kept(tail, p, rows[i].0);
    lemma_kept(tail, p, rows[0].0);
    lemma_requeued(f, bare, 0, rows[i].0);
    lemma_requeued(f, bare, 0, rows[0].0);
    assert(rows[0].0 != rows[i].0);
    assert forall|k: int| 0 <= k < bare.len() implies (#[trigger] bare[k]).0 == kept[k].0 by {}
    assert forall|k: int| 0 <= k < bare.len() implies (#[trigger] bare[k]).0 != rows[0].0 by {
        if kept[k].0 == rows[0].0 {
            assert(exists|m: int| 0 <= m < kept.len() && (#[trigger] kept[m]).0 == rows[0].0);
            let j = choose|j: int|
                0 <= j < tail.len() && (#[trigger] tail[j]).0 == rows[0].0 && p(tail[j]);
            assert(tail[j] == rows[j + 1]);
        }
    }
    if !blocks.contains(rows[i].1) {
        assert(tail[i - 1] == rows[i]);
        assert(p(tail[i - 1]));
        let m = choose|m: int| 0 <= m < kept.len() && (#[trigger] kept[m]).0 == rows[i].0;
        assert(bare[m].0 == rows[i].0);
    } else {
        assert forall|k: int| 0 <= k < bare.len() implies (#[trigger] bare[k]).0 != rows[i].0 by {
            if kept[k].0 == rows[i].0 {
                assert(exists|m: int| 0 <= m < kept.len() && (#[trigger] kept[m]).0 == rows[i].0);
                let j = choose|j: int|
                    0 <= j < tail.len() && (#[trigger] tail[j]).0 == rows[i].0 && p(tail[j]);
                assert(tail[j] == rows[j + 1]);
                if j + 1 != i {
                    if j + 1 < i {
                        assert(rows[j + 1].0 != rows[i].0);
                    } else {
                        assert(rows[i].0 != rows[j + 1].0);
                    }
                }
            }
        }
    }
    assert(seq![rows[0].0][0] == rows[0].0);
    assert(seq![rows[0].0].to_set().contains(rows[0].0));
    assert(!seq![rows[0].0].to_set().contains(rows[i].0));
}

/// A written batch tells one acceptance per block, in order, as far as they are taken; its
/// counted blocks are those told and the one whose telling failed.
pub proof fn law_written_blocks_are_told_in_order(rows: Seq<(u32, BlockHash)>, sent: nat, i: int)
    ensures
        ({
            let t = told(WriteStep::Written { rows, sent });
            &&& t.len() == (if sent < rows.len() {
                sent
            } else {
                rows.len()
            })
            &&& 0 <= i < t.len() ==> t[i] == (EventView::Accepted { hash: rows[i].1 })
            &&& reached(rows, sent).len() == (if sent < rows.len() {
                sent + 1
            } else {
                rows.len()
            })
            &&& 0 <= i < reached(rows, sent).len() ==> reached(rows, sent)[i] == rows[i]
        }),
{
}

/// A failed stage is put back exactly when the io session recovered, ends the process when
/// it is beyond recovery, and is told otherwise: the first block of the run, with the run's
/// length. What is put back is ready again at every height and no longer in flight.
pub proof fn law_recovered_run_goes_back(
    f: FeedView,
    rows: Seq<(u32, BlockHash)>,
    dropped: Seq<Vec<(u32, BlockHash)>>,
    blocks: Set<BlockHash>,
    class: ConfirmRejectClass,
    text: Seq<char>,
    recover: Option<UringRecover>,
    out: FeedView,
    s: Settled,
    i: int,
)
    requires
        0 <= i < rows.len() <= usize::MAX,
        script_settled(f, rows, dropped, class, text, recover, out, s) || load_settled(
            f,
            blocks,
            rows,
            class,
            text,
            recover,
            out,
            s,
        ),
    ensures
        recover == Some(UringRecover::Recovered) ==> s is Requeued && out.ready.contains_key(
            rows[i].0,
        ) && !out.inflight.contains(rows[i].0),
        recover == Some(UringRecover::Exhausted) ==> s is Abort && out == f,
        recover is None ==> (s matches Settled::Rejected(e) && (e@ matches EventView::Reject {
            height,
            hash,
            class: c,
            err,
            batch_len,
        } && height == rows[0].0 && hash == rows[0].1 && err == text && batch_len == rows.len() && (
        rows.len() == 1 ==> c == class))),
{
    let bare = bare_rows(rows);
    assert(bare[i].0 == rows[i].0);
    lemma_requeued(f, bare, 0, rows[i].0);
}

/// A failed write is put back when the io session recovered, ends the process when it is
/// beyond recovery, and is given up and told by its first block otherwise.
pub proof fn law_failed_write_ends_by_its_session(
    f: FeedView,
    rows: Seq<(u32, BlockHash)>,
    err: ConsensusError,
    text: Seq<char>,
    recover: Option<UringRecover>,
    out: FeedView,
    s: Settled,
    i: int,
    other: u32,
)
    requires
        0 <= i < rows.len() <= usize::MAX,
        forall|k: int| 0 <= k < rows.len() ==> (#[trigger] rows[k]).0 != other,
        write_settled(f, rows, err, text, recover, out, s),
    ensures
        recover == Some(UringRecover::Recovered) ==> s is Requeued && out.ready.contains_key(
            rows[i].0,
        ) && !out.inflight.contains(rows[i].0),
        recover == Some(UringRecover::Exhausted) ==> s is Abort && out == f,
        recover is None ==> !out.inflight.contains(rows[i].0) && !out.claimed_epoch.contains_key(
            rows[i].0,
        ) && out.inflight.contains(other) == f.inflight.contains(other) && (
        s matches Settled::Rejected(e) && (e@ matches EventView::Reject {
            height,
            hash,
            class: _,
            err: told_err,
            batch_len,
        } && height == rows[0].0 && hash == rows[0].1 && told_err == text && batch_len
            == rows.len())),
{
    law_failed_write_frees_its_heights(
        f,
        rows,
        crate::confirm_class::class_of_consensus(err),
        i,
        other,
    );
}

/// A failed write is finished in place once when only the io session failed after all its
/// blocks were confirmed; asked to stop it is left; out of date it is dropped; and with its
/// first block confirmed its confirmed blocks are told as accepted.
pub proof fn law_failed_write_is_sorted_out(
    hub: HubView,
    feed: FeedView,
    rows: Seq<(u32, BlockHash)>,
    err: ConsensusError,
    msg: Seq<char>,
    tried: bool,
    t: WriteTriage,
)
    requires
        triaged(hub, feed, rows, err, msg, tried, t),
        rows.len() > 0,
        hub.tip is Some && (hub.tip->0).height < u32::MAX,
    ensures
        feed.stop || err is Cancelled ==> t is Exit,
        !feed.stop && !(err is Cancelled) ==> {
            let all = forall|k: int|
                0 <= k < rows.len() ==> hub.blocks.contains((#[trigger] rows[k]).1);
            let stale = rows[0].0 != (hub.tip->0).height + 1 || feed.claimed_epoch.contains_key(
                rows[0].0,
            ) && feed.claimed_epoch[rows[0].0] != feed.epoch;
            let here = !tried && all && err is Store && err->Store_0.session_fault;
            &&& here ==> t is Finish
            &&& !here && stale ==> t is Dropped
            &&& !here && !stale && hub.blocks.contains(rows[0].1) ==> t is Committed
            &&& !here && !stale && !hub.blocks.contains(rows[0].1) ==> t is Settle
        },
{
    law_confirmed_rows_count_as_done(hub, rows, msg);
}

/// A batch is committed exactly when nobody asked to stop, its first height is right above
/// the tip, and the feed was not cleared since its claim.
pub proof fn law_only_current_batches_are_committed(
    hub: HubView,
    feed: FeedView,
    cancelled: bool,
    rows: Seq<(u32, BlockHash)>,
)
    requires
        rows.len() > 0,
        hub.tip is Some && (hub.tip->0).height < u32::MAX,
    ensures
        write_start(hub, feed, cancelled, rows) == WriteStart::Commit <==> !feed.stop && !cancelled
            && rows[0].0 == (hub.tip->0).height + 1 && !(feed.claimed_epoch.contains_key(rows[0].0)
            && feed.claimed_epoch[rows[0].0] != feed.epoch),
        feed.stop || cancelled ==> write_start(hub, feed, cancelled, rows) == WriteStart::Exit,
{
}

/// A failed write counts as done exactly when its first block is confirmed, whatever the
/// failure says.
pub proof fn law_confirmed_rows_count_as_done(
    hub: HubView,
    rows: Seq<(u32, BlockHash)>,
    msg: Seq<char>,
)
    requires
        rows.len() > 0,
    ensures
        hub.blocks.contains(rows[0].1) ==> already_committed(hub, rows, msg),
        !hub.blocks.contains(rows[0].1) ==> !already_committed(hub, rows, msg),
{
}

/// The next lookup fills what the load queue of fourteen batches leaves: up to 144 blocks
/// and 8000 inputs for each free batch, one block each after a failed wave, and never more
/// than the caps of one wave.
pub proof fn law_lookup_fills_the_load_queue(
    hub: HubView,
    feed: FeedView,
    depth: usize,
    cap_blocks: usize,
    cap_inputs: u32,
)
    ensures
        ({
            let p = lookup_sized(hub, feed, depth, cap_blocks, cap_inputs);
            let free: int = if depth < 14 {
                14 - depth
            } else {
                0
            };
            &&& p.path_lo == hub.path_lo()
            &&& p.remaining == free
            &&& p.run_max == (if feed.single {
                1int
            } else {
                144
            })
            &&& feed.single ==> p.max_blocks <= free
            &&& p.max_blocks <= cap_blocks && p.max_blocks <= free * 144
            &&& !feed.single && free * 144 <= cap_blocks ==> p.max_blocks == free * 144
            &&& feed.single && free <= cap_blocks ==> p.max_blocks == free
            &&& p.max_inputs <= cap_inputs && p.max_inputs <= free * 8000
            &&& free * 8000 <= cap_inputs ==> p.max_inputs == free * 8000
            &&& depth >= 14 ==> p.max_blocks == 0 && p.max_inputs == 0
        }),
{
    let remaining = crate::confirm_queue::sat_sub_us(
        crate::confirm_queue::LOAD_QUEUE_CAP_DEFAULT,
        depth,
    );
    assert(remaining * 1 == remaining);
    assert(remaining * 144 == 144 * remaining);
    assert(remaining * 8000 == 8000 * remaining);
}

/// Seven failed lookups in a row are warned of, the eighth is told as an engine fault; too
/// much io at once counts for nothing, a recovered session starts the count over, and one
/// beyond recovery ends the process.
pub proof fn law_eighth_failed_lookup_is_told(p: LookupFaultPolicy, e: ConsensusError)
    ensures
        e.backpressure() ==> forall|r: Option<UringRecover>|
            #![trigger p.after(e, r)]
            p.after(e, r) == p && p.action_on(e, r) == LookupFaultAction::Ignore,
        !e.backpressure() && p.consecutive < 7 ==> p.action_on(e, None) == LookupFaultAction::Warn
            && p.after(e, None).consecutive == p.consecutive + 1,
        !e.backpressure() && p.consecutive >= 7 ==> p.action_on(e, None)
            == LookupFaultAction::RejectEngineFault,
        !e.backpressure() ==> p.action_on(e, Some(UringRecover::Recovered))
            == LookupFaultAction::RecoverContinue && p.after(
            e,
            Some(UringRecover::Recovered),
        ).consecutive == 0,
        !e.backpressure() ==> p.action_on(e, Some(UringRecover::Exhausted))
            == LookupFaultAction::Abort,
{
}

/// Claiming a run takes every block that is not confirmed and whose height is free, in
/// order, with the epoch of the run; other heights are left as they were.
pub proof fn law_free_heights_are_claimed(
    c: Claim,
    items: Seq<LoadItem>,
    i: int,
    blocks: Set<BlockHash>,
    epoch: u64,
    at: u32,
)
    requires
        0 <= i,
    ensures
        ({
            let r = claim_from(c, items, i, blocks, epoch);
            &&& (exists|k: int|
                i <= k < items.len() && (#[trigger] items[k]).0 == at && !blocks.contains(
                    items[k].1,
                )) ==> r.feed.inflight.contains(at) && (!c.feed.inflight.contains(at)
                ==> r.feed.claimed_epoch.contains_key(at) && r.feed.claimed_epoch[at] == epoch)
            &&& (forall|k: int| i <= k < items.len() ==> (#[trigger] items[k]).0 != at)
                ==> r.feed.inflight.contains(at) == c.feed.inflight.contains(at)
                && r.feed.ready.contains_key(at) == c.feed.ready.contains_key(at)
            &&& c.feed.inflight.contains(at) ==> r.feed.inflight.contains(at)
                && r.feed.claimed_epoch.contains_key(at) == c.feed.claimed_epoch.contains_key(at)
                && r.feed.claimed_epoch[at] == c.feed.claimed_epoch[at]
        }),
    decreases items.len() - i,
{
    if i < items.len() {
        let (h, hash, _) = items[i];
        let next = if blocks.contains(hash) {
            Claim { feed: FeedView { ready: c.feed.ready.remove(h), ..c.feed }, ..c }
        } else if c.feed.inflight.contains(h) {
            c
        } else {
            Claim { feed: c.feed.claimed(h, epoch), run: c.run.push(items[i]) }
        };
        law_free_heights_are_claimed(next, items, i + 1, blocks, epoch, at);
        if exists|k: int|
            i <= k < items.len() && (#[trigger] items[k]).0 == at && !blocks.contains(items[k].1) {
            let k = choose|k: int|
                i <= k < items.len() && (#[trigger] items[k]).0 == at && !blocks.contains(
                    items[k].1,
                );
            if k > i {
                assert(exists|m: int|
                    i + 1 <= m < items.len() && (#[trigger] items[m]).0 == at && !blocks.contains(
                        items[m].1,
                    ));
            } else {
                assert(next.feed.inflight.contains(at));
            }
        }
        if forall|k: int| i <= k < items.len() ==> (#[trigger] items[k]).0 != at {
            assert(items[i].0 != at);
        }
    }
}

/// The inputs of `n` blocks from `i` on.
pub open spec fn inputs_of(counts: Seq<u32>, i: int, n: int) -> int
    decreases n,
{
    if n <= 0 {
        0
    } else {
        inputs_of(counts, i, n - 1) + counts[i + n - 1]
    }
}

proof fn lemma_packed(counts: Seq<u32>, i: int, n: int)
    ensures
        inputs_of(counts, i, n) >= 0,
        packed_sum(counts, i, n) == (if inputs_of(counts, i, n) < u32::MAX {
            inputs_of(counts, i, n)
        } else {
            u32::MAX as int
        }),
    decreases n,
{
    if n > 0 {
        lemma_packed(counts, i, n - 1);
    }
}

/// A batch ends no sooner than it must: at the end of the wave, at the block cap, past the
/// input cap, or before a block of the other kind; and before its last block it is past
/// none of them.
pub proof fn law_batch_is_as_long_as_it_may(
    counts: Seq<u32>,
    kinds: Seq<bool>,
    soft: u32,
    hard: usize,
    i: int,
    n: int,
    m: int,
)
    requires
        is_part(counts, kinds, soft, hard, i, n),
        soft < u32::MAX,
        0 < m < n,
    ensures
        i + n == counts.len() || n >= hard || inputs_of(counts, i, n) > soft || kinds.len() > 0
            && kinds[i + n] != kinds[i],
        i + m < counts.len() && m < hard && inputs_of(counts, i, m) <= soft && (kinds.len() > 0
            ==> kinds[i + m] == kinds[i]),
{
    lemma_packed(counts, i, n);
    lemma_packed(counts, i, m);
    assert(!crate::confirm_wave::part_ends(counts, kinds, soft, hard, i, m));
}

/// The batches of a wave follow one another from its start without a gap, each of them has
/// blocks, and there are no more than asked.
pub proof fn law_batches_follow_one_another(
    parts: Seq<usize>,
    k: int,
    i: int,
    total: int,
    left: int,
    j: int,
)
    requires
        0 <= k,
        0 <= i <= total,
        0 <= left,
        0 <= j < cuts_from(parts, k, i, total, left).len(),
    ensures
        ({
            let c = cuts_from(parts, k, i, total, left);
            &&& c.len() <= left
            &&& c[0].0 == i
            &&& c[j].0 < c[j].1 <= total
            &&& j > 0 ==> c[j].0 == c[j - 1].1
            &&& k + j < parts.len() && (c[j].1 - c[j].0 == parts[k + j] || c[j].1 == total
                && c[j].1 - c[j].0 <= parts[k + j])
        }),
    decreases parts.len() - k,
{
    let c = cuts_from(parts, k, i, total, left);
    let end = c[0].1;
    let rest = cuts_from(parts, k + 1, end, total, left - 1);
    assert(c =~= seq![c[0]] + rest);
    if rest.len() > 0 {
        if j > 0 {
            law_batches_follow_one_another(parts, k + 1, end, total, left - 1, j - 1);
            assert(c[j] == rest[j - 1]);
            if j > 1 {
                assert(c[j - 1] == rest[j - 2]);
            } else {
                assert(rest[0].0 == end);
            }
        } else {
            law_batches_follow_one_another(parts, k + 1, end, total, left - 1, 0);
        }
    }
}

/// A queued height counts as ready exactly when all its parents are found, it is not below
/// the path's start, and it is not claimed; each such height counts once.
pub proof fn law_ready_heights_are_counted(
    rows: Seq<QueueMeta>,
    m: QueueMeta,
    path_lo: u32,
    inflight: Set<u32>,
)
    ensures
        ready_in(rows.push(m), path_lo, inflight) == ready_in(rows, path_lo, inflight) + (
        if m.resolve_complete && m.height >= path_lo && !inflight.contains(m.height) {
            1int
        } else {
            0
        }),
        ready_in(Seq::empty(), path_lo, inflight) == 0,
        ready_in(rows, path_lo, inflight) <= rows.len(),
    decreases rows.len(),
{
    assert(rows.push(m).drop_last() =~= rows);
    if rows.len() > 0 {
        law_ready_heights_are_counted(rows.drop_last(), rows.last(), path_lo, inflight);
    }
}

/// Payload bytes over items.
pub open spec fn all_bytes(items: Seq<LoadItem>) -> int
    decreases items.len(),
{
    if items.len() == 0 {
        0
    } else {
        all_bytes(items.drop_last()) + items.last().2.block.payload@.len()
    }
}

/// The wire bytes of a run are those of all its blocks, as far as the count goes.
pub proof fn law_run_bytes_add_up(items: Seq<LoadItem>)
    ensures
        all_bytes(items) >= 0,
        run_bytes(items) == (if all_bytes(items) < usize::MAX {
            all_bytes(items)
        } else {
            usize::MAX as int
        }),
    decreases items.len(),
{
    if items.len() > 0 {
        law_run_bytes_add_up(items.drop_last());
    }
}

/// Inputs over transactions.
pub open spec fn all_inputs(txs: Seq<WireTx>) -> int
    decreases txs.len(),
{
    if txs.len() == 0 {
        0
    } else {
        all_inputs(txs.drop_last()) + txs.last().inputs@.len()
    }
}

/// A block is metered by all its inputs, as far as the count goes.
pub proof fn law_block_is_metered_by_its_inputs(txs: Seq<WireTx>)
    requires
        forall|i: int| 0 <= i < txs.len() ==> (#[trigger] txs[i]).inputs@.len() <= u32::MAX,
    ensures
        all_inputs(txs) >= 0,
        inputs_in(txs) == (if all_inputs(txs) < u32::MAX {
            all_inputs(txs)
        } else {
            u32::MAX as int
        }),
    decreases txs.len(),
{
    if txs.len() > 0 {
        let t = txs.drop_last();
        assert forall|i: int| 0 <= i < t.len() implies (#[trigger] t[i]).inputs@.len()
            <= u32::MAX by {
            assert(t[i] == txs[i]);
        }
        law_block_is_metered_by_its_inputs(t);
        assert(txs[txs.len() - 1].inputs@.len() <= u32::MAX);
    }
}

proof fn lemma_known_in(s: Seq<(Option<u64>, Option<TxId>)>, t: TxId, id: u64)
    ensures
        known_in(s).contains((t, id)) <==> t != BlockHash::spec_zero() && s.contains(
            (Some(id), Some(t)),
        ),
    decreases s.len(),
{
    if s.len() > 0 {
        let r = s.drop_last();
        let x = (Some(id), Some(t));
        lemma_known_in(r, t, id);
        let all = known_in(s);
        let before = known_in(r);
        if all.contains((t, id)) {
            let k = choose|k: int| 0 <= k < all.len() && all[k] == (t, id);
            if k < before.len() {
                assert(before[k] == (t, id));
                assert(before.contains((t, id)));
                let m = choose|m: int| 0 <= m < r.len() && r[m] == x;
                assert(s[m] == x);
            } else {
                assert(s[s.len() - 1] == x);
            }
        }
        if t != BlockHash::spec_zero() && s.contains(x) {
            let m = choose|m: int| 0 <= m < s.len() && s[m] == x;
            if m < r.len() {
                assert(r[m] == x);
                assert(before.contains((t, id)));
                let k = choose|k: int| 0 <= k < before.len() && before[k] == (t, id);
                assert(all[k] == (t, id));
            } else {
                assert(all[before.len() as int] == (t, id));
            }
        }
    }
}

/// What archived blocks create is what any of them lists with both a row and an id that is
/// not blank.
pub proof fn law_creates_are_what_blocks_list(blocks: Seq<ArchivedBlock>, t: TxId, id: u64)
    ensures
        creates_in(blocks).contains((t, id)) <==> t != BlockHash::spec_zero() && exists|b: int|
            0 <= b < blocks.len() && (#[trigger] blocks[b]).creates@.contains((Some(id), Some(t))),
    decreases blocks.len(),
{
    if blocks.len() > 0 {
        let r = blocks.drop_last();
        let last = blocks.last();
        law_creates_are_what_blocks_list(r, t, id);
        lemma_known_in(last.creates@, t, id);
        let a = creates_in(r);
        let b = known_in(last.creates@);
        let all = a + b;
        assert(all.contains((t, id)) <==> a.contains((t, id)) || b.contains((t, id))) by {
            if all.contains((t, id)) {
                let k = choose|k: int| 0 <= k < all.len() && all[k] == (t, id);
                if k < a.len() {
                    assert(a[k] == (t, id));
                } else {
                    assert(b[k - a.len()] == (t, id));
                }
            }
            if a.contains((t, id)) {
                let k = choose|k: int| 0 <= k < a.len() && a[k] == (t, id);
                assert(all[k] == (t, id));
            }
            if b.contains((t, id)) {
                let k = choose|k: int| 0 <= k < b.len() && b[k] == (t, id);
                assert(all[a.len() + k] == (t, id));
            }
        }
        let want = (Some(id), Some(t));
        if a.contains((t, id)) {
            let k = choose|k: int|
                0 <= k < r.len() && (#[trigger] r[k]).creates@.contains(want);
            assert(blocks[k] == r[k]);
        }
        if b.contains((t, id)) {
            assert(blocks[blocks.len() - 1].creates@.contains(want));
        }
        if exists|k: int| 0 <= k < blocks.len() && (#[trigger] blocks[k]).creates@.contains(want) {
            let k = choose|k: int|
                0 <= k < blocks.len() && (#[trigger] blocks[k]).creates@.contains(want);
            if k < r.len() {
                assert(r[k] == blocks[k]);
            }
        }
    }
}

proof fn lemma_top_row(s: Seq<(TxId, u64)>, i: int)
    requires
        0 <= i < s.len(),
    ensures
        top_row(s) >= s[i].1,
        exists|k: int| 0 <= k < s.len() && (#[trigger] s[k]).1 == top_row(s),
    decreases s.len(),
{
    let r = s.drop_last();
    if r.len() > 0 {
        let at = if i < r.len() {
            i
        } else {
            0
        };
        lemma_top_row(r, at);
        assert(r[at] == s[at]);
        let k = choose|k: int| 0 <= k < r.len() && (#[trigger] r[k]).1 == top_row(r);
        assert(s[k] == r[k]);
    } else {
        assert(top_row(r) == 0);
    }
    assert(s[s.len() - 1] == s.last());
}

/// After archived blocks, rows go on above every row that they list, and right above one of
/// them; the last block is remembered. Blocks without known creates change nothing.
pub proof fn law_rows_go_on_above_the_archived(
    a: LoadAheadState,
    blocks: Seq<ArchivedBlock>,
    i: int,
)
    requires
        0 <= i < creates_in(blocks).len(),
        creates_in(blocks)[i].1 < u64::MAX,
    ensures
        a.archived(blocks).next_tx_start > creates_in(blocks)[i].1,
        a.archived(blocks).last_loaded == Some((blocks.last().height, blocks.last().hash)),
        exists|k: int|
            0 <= k < creates_in(blocks).len() && a.archived(blocks).next_tx_start
                == crate::time::sat_add((#[trigger] creates_in(blocks)[k]).1, 1),
{
    lemma_top_row(creates_in(blocks), i);
}

/// The height that archived creates are noted at is the greatest of the blocks.
pub proof fn law_creates_are_noted_at_the_greatest_height(blocks: Seq<ArchivedBlock>, i: int)
    requires
        0 <= i < blocks.len(),
    ensures
        top_height(blocks) is Some,
        top_height(blocks)->0 >= blocks[i].height,
        exists|k: int| 0 <= k < blocks.len() && (#[trigger] blocks[k]).height == top_height(blocks)->0,
    decreases blocks.len(),
{
    let r = blocks.drop_last();
    if r.len() > 0 {
        let at = if i < r.len() {
            i
        } else {
            0
        };
        law_creates_are_noted_at_the_greatest_height(r, at);
        assert(r[at] == blocks[at]);
        let k = choose|k: int| 0 <= k < r.len() && (#[trigger] r[k]).height == top_height(r)->0;
        assert(blocks[k] == r[k]);
    }
    assert(blocks[blocks.len() - 1] == blocks.last());
}

/// Rows never start at or below the stored ones after a sync, and never go back; a last
/// block at or below the tip is forgotten, one above it is kept.
pub proof fn law_sync_moves_rows_up_only(a: LoadAheadState, body_count: u64, tip: u32)
    requires
        body_count < u64::MAX,
    ensures
        a.synced(body_count, tip).next_tx_start > body_count,
        a.synced(body_count, tip).next_tx_start >= a.next_tx_start,
        a.next_tx_start > body_count ==> a.synced(body_count, tip).next_tx_start
            == a.next_tx_start,
        a.next_tx_start <= body_count ==> a.synced(body_count, tip).next_tx_start == body_count + 1,
        a.last_loaded is Some ==> (a.synced(body_count, tip).last_loaded == a.last_loaded <==> (
        a.last_loaded->0).0 > tip),
        LoadAheadState::fresh(body_count).next_tx_start == body_count + 1,
        LoadAheadState::fresh(body_count).last_loaded is None,
{
}

/// A run right behind the last one loaded builds on it, unless it starts right above the
/// tip; after a stamp rows go on behind the last planned one.
pub proof fn law_runs_chain_on_the_last_loaded(
    a: LoadAheadState,
    planned: Seq<Option<u64>>,
    height: u32,
    hash: BlockHash,
    from: u32,
    above_tip: u32,
)
    requires
        planned.len() > 0,
        planned.last() is Some && planned.last()->0 < u64::MAX,
    ensures
        ({
            let s = a.stamped(planned, height, hash);
            &&& s.next_tx_start == planned.last()->0 + 1
            &&& from == height + 1 && from != above_tip ==> s.parent_for(from, above_tip) == Some(
                hash,
            )
            &&& from != height + 1 || from == above_tip ==> s.parent_for(from, above_tip) is None
        }),
{
}

} // verus!

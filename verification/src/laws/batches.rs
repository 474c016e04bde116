//! What whole batches come to: of headers, of load items, of peers, of reports.
use vstd::prelude::*;
use crate::assign::{assign_order, is_fetched_hi, tip_assigned, turn_begun, AssignDepth};
use crate::body_events::shutdowns;
use crate::chain::HubView;
use crate::config::IbdConfig;
use crate::confirm_engine::{is_newest, item_inputs, item_rows, wired_rows};
use crate::confirm_events::{explored_from, invalid_dealt_with};
use crate::confirm_wave::{are_batches, inputs_in, is_batch, BatchParentIds, LoadBatch, LoadItem};
use crate::dial::{disconnect_from, PeerBooks};
use crate::fetch::Turn;
use crate::hash::BlockHash;
use crate::header_events::{batch_from, batch_step, batch_taken, headers_taken, Batch, HeaderRow, HeadersStep};
use crate::laws::branches::law_exploring_adds_a_branch;
use crate::peer_io::{body_side, inv_blocks, reported, DecodedMsg, PeerEvent};
use crate::peers::{live_ids, CmdView, PeerAddr, SlotView};
use crate::reorg::ReorgView;
use crate::state::WorkView;

verus! {

proof fn lemma_batch_goes_on(
    b: Batch,
    hub: HubView,
    max_ordered: usize,
    rows: Seq<HeaderRow>,
    r: HeaderRow,
    i: int,
)
    requires
        0 <= i <= rows.len(),
    ensures
        batch_from(b, hub, max_ordered, rows.push(r), i) == batch_step(
            batch_from(b, hub, max_ordered, rows, i),
            hub,
            max_ordered,
            r,
        ),
    decreases rows.len() - i,
{
    if i < rows.len() {
        assert(rows.push(r)[i] == rows[i]);
        lemma_batch_goes_on(
            batch_step(b, hub, max_ordered, rows[i]),
            hub,
            max_ordered,
            rows,
            r,
            i + 1,
        );
    } else {
        assert(rows.push(r)[i] == r);
        let c = batch_step(b, hub, max_ordered, r);
        assert(batch_from(c, hub, max_ordered, rows.push(r), i + 1) == c);
    }
}

/// Headers are taken in one after the other, each on what those before it left.
pub proof fn law_headers_are_taken_in_order(
    v: WorkView,
    hub: HubView,
    max_ordered: usize,
    rows: Seq<HeaderRow>,
    r: HeaderRow,
)
    ensures
        batch_taken(v, hub, max_ordered, rows.push(r)) == batch_step(
            batch_taken(v, hub, max_ordered, rows),
            hub,
            max_ordered,
            r,
        ),
        batch_taken(v, hub, max_ordered, Seq::empty()).st == v,
        batch_taken(v, hub, max_ordered, Seq::empty()).added == 0,
{
    lemma_batch_goes_on(Batch { st: v, prev: None, added: 0 }, hub, max_ordered, rows, r, 0);
}

/// The count of a batch is by how much the ordered path grew. What was on the path stays in
/// front.
pub proof fn law_batch_counts_what_it_orders(
    v: WorkView,
    hub: HubView,
    max_ordered: usize,
    rows: Seq<HeaderRow>,
)
    ensures
        ({
            let b = batch_taken(v, hub, max_ordered, rows);
            &&& b.st.ordered.len() == v.ordered.len() + b.added
            &&& b.added <= rows.len()
            &&& b.st.ordered.take(v.ordered.len() as int) == v.ordered
            &&& b.added > 0 ==> b.st.ordered.len() <= max_ordered
        }),
    decreases rows.len(),
{
    if rows.len() == 0 {
        assert(v.ordered.take(v.ordered.len() as int) =~= v.ordered);
        law_headers_are_taken_in_order(v, hub, max_ordered, rows, arbitrary());
        assert(rows =~= Seq::empty());
    } else {
        let t = rows.drop_last();
        law_batch_counts_what_it_orders(v, hub, max_ordered, t);
        law_headers_are_taken_in_order(v, hub, max_ordered, t, rows.last());
        assert(t.push(rows.last()) =~= rows);
        let b = batch_taken(v, hub, max_ordered, t);
        let n = batch_taken(v, hub, max_ordered, rows);
        if n.added > b.added {
            assert(n.st.ordered.take(v.ordered.len() as int) =~= b.st.ordered.take(
                v.ordered.len() as int,
            ));
        }
    }
}

/// Branches are weighed exactly when the reply made the ordered path longer. A reply that
/// did not is never answered by that, and only an empty one leads to a new seed.
pub proof fn law_longer_path_is_weighed(
    v: WorkView,
    hub: HubView,
    cfg: IbdConfig,
    peer: usize,
    rows: Seq<HeaderRow>,
    out: WorkView,
    step: HeadersStep,
)
    requires
        headers_taken(v, hub, cfg, peer, rows, out, step),
    ensures
        ({
            let grown = batch_taken(v, hub, cfg.max_ordered_headers, rows).st.ordered.len()
                > v.ordered.len();
            &&& step == HeadersStep::Weigh <==> grown
            &&& step == HeadersStep::Weigh ==> out.ordered.len() > v.ordered.len()
            &&& step == HeadersStep::Reseed ==> rows.len() == 0
            &&& rows.len() > 0 && !grown ==> step == HeadersStep::Done
        }),
{
    law_batch_counts_what_it_orders(v, hub, cfg.max_ordered_headers, rows);
}

/// The batches of a wave hold its items in order, carry its epoch, and only the last of them
/// drops claims below it.
pub proof fn law_batches_hold_their_cut(
    out: Seq<LoadBatch>,
    items: Seq<LoadItem>,
    cuts: Seq<(int, int)>,
    wave: BatchParentIds,
    drop_below: Option<u32>,
    epoch: u64,
    j: int,
    k: int,
)
    requires
        are_batches(out, items, cuts, wave, drop_below, epoch),
        0 <= j < out.len(),
        0 <= cuts[j].0 <= cuts[j].1 <= items.len(),
        0 <= k < cuts[j].1 - cuts[j].0,
    ensures
        out.len() == cuts.len(),
        out[j].items@.len() == cuts[j].1 - cuts[j].0,
        out[j].items@[k] == items[cuts[j].0 + k],
        out[j].epoch == epoch,
        j + 1 < out.len() ==> out[j].drop_inflight_below is None,
        j + 1 == out.len() ==> out[j].drop_inflight_below == drop_below,
        out[j].parent_ids is Some,
        (out[j].parent_ids->0).ids == wave.ids,
{
    assert(is_batch(
        out[j],
        items,
        cuts[j],
        wave,
        if j == out.len() - 1 {
            drop_below
        } else {
            None
        },
        epoch,
    ));
}

/// Rows of a run keep its order, its heights, its hashes and its bytes.
pub proof fn law_rows_follow_their_run(items: Seq<LoadItem>, x: LoadItem)
    ensures
        item_rows(items.push(x)) == item_rows(items).push((x.0, x.1)),
        wired_rows(items.push(x)) == wired_rows(items).push(
            (x.0, x.1, Some(x.2.block.payload@)),
        ),
        item_inputs(items.push(x)) == item_inputs(items).push(inputs_in(x.2.block.txs@)),
{
    assert(item_rows(items.push(x)) =~= item_rows(items).push((x.0, x.1)));
    assert(wired_rows(items.push(x)) =~= wired_rows(items).push(
        (x.0, x.1, Some(x.2.block.payload@)),
    ));
    assert(item_inputs(items.push(x)) =~= item_inputs(items).push(inputs_in(x.2.block.txs@)));
}

/// The newest row is one of the rows, none is higher, and a row as high that comes later
/// takes its place.
pub proof fn law_newest_row_is_the_highest(
    rows: Seq<(u32, BlockHash)>,
    r: (u32, BlockHash),
    x: (u32, BlockHash),
)
    requires
        is_newest(rows, r),
    ensures
        rows.contains(r),
        forall|j: int| 0 <= j < rows.len() ==> (#[trigger] rows[j]).0 <= r.0,
        is_newest(rows.push(x), if x.0 >= r.0 {
            x
        } else {
            r
        }),
{
    let k = choose|k: int|
        0 <= k < rows.len() && #[trigger] rows[k] == r && (forall|j: int|
            0 <= j < rows.len() ==> (#[trigger] rows[j]).0 <= r.0) && (forall|j: int|
            k < j < rows.len() ==> (#[trigger] rows[j]).0 < r.0);
    let p = rows.push(x);
    if x.0 >= r.0 {
        assert(p[rows.len() as int] == x);
    } else {
        assert(p[k] == r);
    }
}

/// Two heights cannot both be the newest of what is fetched, what is queued is never above
/// it, and where anything is queued there is one.
pub proof fn law_fetched_top_is_the_highest(
    hub: HubView,
    a: Option<u32>,
    b: Option<u32>,
    h: u32,
)
    requires
        is_fetched_hi(hub, a),
        is_fetched_hi(hub, b),
    ensures
        a == b,
        hub.queue.contains_key(h) || hub.taken_hi == Some(h) ==> a is Some && h <= a->0,
{
    if a is None {
        assert(forall|k: u32| hub.queue.contains_key(k) ==> hub.queue.dom().contains(k));
    }
    if b is None {
        assert(forall|k: u32| hub.queue.contains_key(k) ==> hub.queue.dom().contains(k));
    }
}

/// Every request that is out once the tip is served is looked at when all work is assigned.
pub proof fn law_every_request_is_looked_at(
    t: Turn,
    heavier: Option<ReorgView>,
    order: Seq<BlockHash>,
    cfg: IbdConfig,
    now_ms: u64,
    h: BlockHash,
)
    requires
        assign_order(t, heavier, order, cfg, AssignDepth::Full, now_ms),
    ensures
        order.no_duplicates(),
        order.contains(h) <==> tip_assigned(
            turn_begun(t, heavier),
            live_ids(t.st.slots),
            cfg,
            now_ms,
        ).turn.st.inflight.contains_key(h),
{
    let m = tip_assigned(turn_begun(t, heavier), live_ids(t.st.slots), cfg, now_ms).turn.st.inflight;
    assert(order.to_set().contains(h) <==> m.dom().contains(h));
}

/// Stopping all peers tells each of them once, in the order of their slots.
pub proof fn law_every_peer_is_told_to_stop(s: Seq<SlotView>, x: SlotView)
    ensures
        shutdowns(s.push(x)) == shutdowns(s).push((x.id, CmdView::Shutdown)),
        shutdowns(s).len() == s.len(),
{
    assert(shutdowns(s.push(x)) =~= shutdowns(s).push((x.id, CmdView::Shutdown)));
}

/// Every address of a row of stalled peers cools down for ten minutes; no other address is
/// touched.
pub proof fn law_stalled_row_cools_down(
    b: PeerBooks,
    row: Seq<(usize, PeerAddr)>,
    i: int,
    now_ms: u64,
    addr: PeerAddr,
)
    requires
        0 <= i <= row.len(),
        now_ms <= u64::MAX - 600_000,
    ensures
        ({
            let e = disconnect_from(b, row, i, now_ms).cooldown;
            if exists|k: int| i <= k < row.len() && (#[trigger] row[k]).1 == addr {
                e.contains_key(addr) && e[addr] == now_ms + 600_000
            } else {
                e.contains_key(addr) == b.cooldown.contains_key(addr) && e[addr]
                    == b.cooldown[addr]
            }
        }),
    decreases row.len() - i,
{
    if i < row.len() {
        law_stalled_row_cools_down(
            crate::dial::disconnected(b, row[i].0, row[i].1, now_ms),
            row,
            i + 1,
            now_ms,
            addr,
        );
        if exists|k: int| i <= k < row.len() && (#[trigger] row[k]).1 == addr {
            let k = choose|k: int| i <= k < row.len() && (#[trigger] row[k]).1 == addr;
            if k == i {
                assert(row[i].1 == addr);
            }
        } else {
            assert(row[i].1 != addr);
        }
    }
}

/// Exploring competing tips lists each of them behind those listed, and nothing else
/// changes.
pub proof fn law_competing_tips_are_explored(
    v: WorkView,
    tips: Seq<BlockHash>,
    i: int,
    h: BlockHash,
)
    requires
        0 <= i <= tips.len(),
        v.reorg.explore_need.no_duplicates(),
        v.reorg.explore_tips.no_duplicates(),
    ensures
        ({
            let w = explored_from(v, tips, i);
            &&& w.reorg.explore_tips.contains(h) <==> v.reorg.explore_tips.contains(h) || exists|
                k: int,
            |
                i <= k < tips.len() && #[trigger] tips[k] == h
            &&& w.reorg.explore_need.contains(h) == v.reorg.explore_need.contains(h)
            &&& w.reorg.invalid == v.reorg.invalid
            &&& w.reorg.held == v.reorg.held
            &&& w.ordered == v.ordered
            &&& w.body == v.body
        }),
    decreases tips.len() - i,
{
    if i < tips.len() {
        let r = v.reorg.with_explore(Seq::empty(), Some(tips[i]));
        law_exploring_adds_a_branch(v.reorg, Seq::empty(), Some(tips[i]), h);
        law_competing_tips_are_explored(WorkView { reorg: r, ..v }, tips, i + 1, h);
        assert(!Seq::<BlockHash>::empty().contains(h));
        if exists|k: int| i <= k < tips.len() && #[trigger] tips[k] == h {
            let k = choose|k: int| i <= k < tips.len() && #[trigger] tips[k] == h;
            if k > i {
                assert(i + 1 <= k);
            }
        }
        if tips[i] == h {
            assert(exists|k: int| i <= k < tips.len() && #[trigger] tips[k] == h);
        }
    }
}

/// Once a blacklisted block is rewound, confirm is not stuck on it.
pub proof fn law_rewound_block_holds_nothing_up(
    v: WorkView,
    hub: HubView,
    max_ordered: nat,
    now_ms: u64,
    out: WorkView,
)
    requires
        invalid_dealt_with(v, hub, max_ordered, true, now_ms, out),
    ensures
        out.confirm_stuck_since is None,
{
}

/// A report is about the peer it came from and tells what came: all headers, or the blocks
/// that were not found, or addresses; there is none about nothing.
pub proof fn law_reports_tell_what_came(id: usize, msg: DecodedMsg, r: Option<PeerEvent>)
    requires
        reported(id, msg, r),
    ensures
        match r {
            None => true,
            Some(PeerEvent::Headers { peer, headers }) => peer == id && msg
                == DecodedMsg::Headers(headers),
            Some(PeerEvent::NotFound { peer, hashes }) => peer == id && (msg matches DecodedMsg::NotFound(
                inv,
            ) && hashes@ == inv_blocks(inv@)) && hashes@.len() > 0,
            Some(PeerEvent::Addrs { peer, addrs }) => peer == id && addrs@.len() > 0 && (
            msg is Addr || msg is AddrV2),
            Some(_) => false,
        },
        msg is Headers ==> r is Some,
        msg matches DecodedMsg::NotFound(inv) ==> (r is None <==> inv_blocks(inv@).len() == 0),
{
}

/// Headers and addresses go to the side that is drained apart from bodies.
pub proof fn law_bodies_wait_apart(ev: PeerEvent)
    ensures
        ev is Headers || ev is Addrs ==> !body_side(ev),
        ev is NotFound || ev is BlockFramed ==> body_side(ev),
{
}

} // verus!

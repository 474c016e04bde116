//! What the four confirm threads decide: lookup, load, scripts, write.
//!
//! Threads, channels and the store stand outside. Each step takes what they
//! answered and gives the next state of the feed, the events, and what to do next.
use vstd::prelude::*;
use crate::chain::{ChainHub, HubView};
use crate::confirm_class::{class_of_consensus, class_of_net, ConfirmRejectClass};
use crate::confirm_feed::{
    bare_rows, heights_in, heights_of, lookup_ready_hash, plan_stale, row_views, wire_view,
    write_batch_is_stale_plan, ConfirmFeed, FeedRow, FeedView,
};
use crate::confirm_queue::{
    load_queue_cap, operator_text, sat_sub_us, stamp_reject_operator_msg, ConfirmQueueDepths,
    StampMisses, LOAD_QUEUE_CAP_DEFAULT,
};
use crate::confirm_wave::{
    are_batches, block_input_count, confirm_batch_max_inputs, cuts_from, inputs_in, is_batch,
    is_split, load_batches_from_wave, split_wave_into_load_batches_kind, BatchParentIds, LoadBatch,
    LoadItem, CONFIRM_BATCH_INPUTS_DEFAULT, CONFIRM_RUN_MAX_BLOCKS,
};
use crate::error::{ConsensusError, NetError};
use crate::hash::BlockHash;
use crate::load_ahead::LoadAheadState;
use crate::text::{contains_text, has_text};
use crate::time::wrap_add;

verus! {

/// How recovering the io session went.
#[derive(Clone, Copy, Debug, PartialEq, Eq, Structural)]
pub enum UringRecover {
    Recovered,
    /// No attempt is left.
    Exhausted,
}

/// What a failed write leads to.
#[derive(Clone, Copy, Debug, PartialEq, Eq, Structural)]
pub enum WriteStoreFault {
    Requeue,
    Abort,
    Reject(ConfirmRejectClass),
}

/// What the engine tells the download loop.
pub enum ConfirmEvent {
    /// The tip has moved on to `hash`.
    Accepted { hash: BlockHash },
    /// A block was not confirmed.
    Reject {
        height: u32,
        hash: BlockHash,
        class: ConfirmRejectClass,
        err: String,
        /// Heights in the failing wave. With more than one, the hash is the first of
        /// the wave, not necessarily the one at fault.
        batch_len: usize,
    },
}

/// [`ConfirmEvent`] as values.
#[verifier::ext_equal]
pub enum EventView {
    Accepted { hash: BlockHash },
    Reject {
        height: u32,
        hash: BlockHash,
        class: ConfirmRejectClass,
        err: Seq<char>,
        batch_len: usize,
    },
}

impl View for ConfirmEvent {
    type V = EventView;

    open spec fn view(&self) -> EventView {
        match self {
            ConfirmEvent::Accepted { hash } => EventView::Accepted { hash: *hash },
            ConfirmEvent::Reject { height, hash, class, err, batch_len } => EventView::Reject {
                height: *height,
                hash: *hash,
                class: *class,
                err: err@,
                batch_len: *batch_len,
            },
        }
    }
}

/// The values of events.
pub open spec fn event_views(s: Seq<ConfirmEvent>) -> Seq<EventView> {
    Seq::new(s.len(), |i: int| s[i]@)
}

/// What the engine counts.
#[derive(Clone, Copy, Debug, PartialEq, Eq, Structural)]
pub struct EngineCounters {
    pub confirm_blocks: u64,
    pub confirm_reject_stops: u64,
    pub accepted: u32,
}

impl EngineCounters {
    /// `n` blocks more; counts round.
    pub open spec fn with_accepted(self, n: nat) -> EngineCounters {
        EngineCounters {
            confirm_blocks: ((self.confirm_blocks + n) % 0x1_0000_0000_0000_0000) as u64,
            accepted: ((self.accepted + n) % 0x1_0000_0000) as u32,
            ..self
        }
    }

    /// One reject more; counts round.
    pub open spec fn with_reject(self) -> EngineCounters {
        EngineCounters { confirm_reject_stops: wrap_add(self.confirm_reject_stops, 1), ..self }
    }

    fn count_accepted(&mut self, n: usize)
        ensures
            *final(self) == old(self).with_accepted(n as nat),
    {
        let blocks: u128 = (self.confirm_blocks as u128 + n as u128) % 0x1_0000_0000_0000_0000;
        let accepted: u128 = (self.accepted as u128 + n as u128) % 0x1_0000_0000;
        self.confirm_blocks = blocks as u64;
        self.accepted = accepted as u32;
    }

    fn count_reject(&mut self)
        ensures
            *final(self) == old(self).with_reject(),
    {
        self.confirm_reject_stops = self.confirm_reject_stops.wrapping_add(1);
    }
}

/// What one step of the writer comes to for the counts and the events.
#[verifier::ext_equal]
pub enum WriteStep {
    /// A batch was written, and the first `sent` of its acceptances went out.
    Written { rows: Seq<(u32, BlockHash)>, sent: nat },
    /// A write failed whose rows are confirmed already.
    Committed { rows: Seq<(u32, BlockHash)> },
    /// A reject was told.
    Rejected { event: EventView },
    /// Nothing was counted or told.
    Idle,
}

impl EngineCounters {
    /// The counts after one step.
    pub open spec fn after_step(self, step: WriteStep) -> EngineCounters {
        match step {
            WriteStep::Written { rows, sent } => self.with_accepted(reached(rows, sent).len()),
            WriteStep::Committed { rows } => self.with_accepted(rows.len()),
            WriteStep::Rejected { .. } => self.with_reject(),
            WriteStep::Idle => self,
        }
    }

    /// The counts after steps, one after the other.
    pub open spec fn after_steps(self, steps: Seq<WriteStep>) -> EngineCounters
        decreases steps.len(),
    {
        if steps.len() == 0 {
            self
        } else {
            self.after_steps(steps.drop_last()).after_step(steps.last())
        }
    }
}

/// What one step tells the download loop.
pub open spec fn told(step: WriteStep) -> Seq<EventView> {
    match step {
        WriteStep::Written { rows, sent } => if sent < rows.len() {
            acceptances(rows).take(sent as int)
        } else {
            acceptances(rows)
        },
        WriteStep::Committed { rows } => acceptances(rows),
        WriteStep::Rejected { event } => seq![event],
        WriteStep::Idle => Seq::empty(),
    }
}

/// What steps tell the download loop, one after the other.
pub open spec fn all_told(steps: Seq<WriteStep>) -> Seq<EventView>
    decreases steps.len(),
{
    if steps.len() == 0 {
        Seq::empty()
    } else {
        all_told(steps.drop_last()) + told(steps.last())
    }
}

/// How many of `events` are acceptances.
pub open spec fn accepted_in(events: Seq<EventView>) -> nat
    decreases events.len(),
{
    if events.len() == 0 {
        0
    } else {
        accepted_in(events.drop_last()) + (if events.last() is Accepted {
            1nat
        } else {
            0nat
        })
    }
}

proof fn lemma_accepted_in_both(a: Seq<EventView>, b: Seq<EventView>)
    ensures
        accepted_in(a + b) == accepted_in(a) + accepted_in(b),
    decreases b.len(),
{
    if b.len() == 0 {
        assert(a + b =~= a);
    } else {
        assert((a + b).drop_last() =~= a + b.drop_last());
        lemma_accepted_in_both(a, b.drop_last());
    }
}

proof fn lemma_accepted_in_acceptances(rows: Seq<(u32, BlockHash)>)
    ensures
        accepted_in(acceptances(rows)) == rows.len(),
    decreases rows.len(),
{
    if rows.len() > 0 {
        assert(acceptances(rows).drop_last() =~= acceptances(rows.drop_last()));
        lemma_accepted_in_acceptances(rows.drop_last());
    }
}

impl WriteStep {
    /// A told reject is a reject.
    pub open spec fn valid(self) -> bool {
        self matches WriteStep::Rejected { event } ==> event is Reject
    }

    /// Does the download loop take every acceptance of the step?
    pub open spec fn all_taken(self) -> bool {
        self matches WriteStep::Written { rows, sent } ==> sent >= rows.len()
    }
}

proof fn lemma_step_counts(c: EngineCounters, step: WriteStep)
    requires
        step.valid(),
        step.all_taken(),
    ensures
        c.after_step(step).confirm_blocks == (c.confirm_blocks + accepted_in(told(step)))
            % 0x1_0000_0000_0000_0000,
        c.after_step(step).accepted == (c.accepted + accepted_in(told(step))) % 0x1_0000_0000,
{
    match step {
        WriteStep::Written { rows, .. } => {
            lemma_accepted_in_acceptances(rows);
        },
        WriteStep::Committed { rows } => {
            lemma_accepted_in_acceptances(rows);
        },
        WriteStep::Rejected { event } => {
            let one = seq![event];
            assert(one.drop_last() =~= Seq::empty());
            assert(one.last() == event);
            assert(accepted_in(one.drop_last()) == 0);
            assert(accepted_in(one) == 0);
        },
        WriteStep::Idle => {
            assert(accepted_in(Seq::empty()) == 0);
        },
    }
}

/// However the writer goes on, the count of confirmed blocks, the count of accepted
/// ones and the acceptances told grow alike, as long as the download loop takes what
/// it is told. Both counts go round at their width.
pub proof fn law_acceptances_count_alike(c: EngineCounters, steps: Seq<WriteStep>)
    requires
        forall|i: int| 0 <= i < steps.len() ==> (#[trigger] steps[i]).valid(),
        forall|i: int| 0 <= i < steps.len() ==> (#[trigger] steps[i]).all_taken(),
    ensures
        c.after_steps(steps).confirm_blocks == (c.confirm_blocks + accepted_in(all_told(steps)))
            % 0x1_0000_0000_0000_0000,
        c.after_steps(steps).accepted == (c.accepted + accepted_in(all_told(steps)))
            % 0x1_0000_0000,
    decreases steps.len(),
{
    if steps.len() > 0 {
        let before = steps.drop_last();
        let step = steps.last();
        assert(step == steps[steps.len() - 1]);
        assert forall|i: int| 0 <= i < before.len() implies (#[trigger] before[i]).valid()
            && before[i].all_taken() by {
            assert(before[i] == steps[i]);
        }
        law_acceptances_count_alike(c, before);
        lemma_accepted_in_both(all_told(before), told(step));
        lemma_step_counts(c.after_steps(before), step);
        let old_n = accepted_in(all_told(before)) as int;
        let new_n = accepted_in(told(step)) as int;
        vstd::arithmetic::div_mod::lemma_add_mod_noop_right(
            new_n,
            c.confirm_blocks + old_n,
            0x1_0000_0000_0000_0000,
        );
        vstd::arithmetic::div_mod::lemma_add_mod_noop_right(
            new_n,
            c.accepted + old_n,
            0x1_0000_0000,
        );
    }
}

/// What a failed write leads to. `recover` is how recovering the io session went,
/// where the failure asked for it.
pub fn classify_write_store_fault(e: &ConsensusError, recover: Option<UringRecover>) -> (f: WriteStoreFault)
    ensures
        f == fault_of(*e, recover),
{
    match recover {
        Some(UringRecover::Recovered) => WriteStoreFault::Requeue,
        Some(UringRecover::Exhausted) => WriteStoreFault::Abort,
        None => WriteStoreFault::Reject(ConfirmRejectClass::from_consensus(e)),
    }
}

/// What a failed write leads to.
pub open spec fn fault_of(e: ConsensusError, recover: Option<UringRecover>) -> WriteStoreFault {
    match recover {
        Some(UringRecover::Recovered) => WriteStoreFault::Requeue,
        Some(UringRecover::Exhausted) => WriteStoreFault::Abort,
        None => WriteStoreFault::Reject(class_of_consensus(e)),
    }
}

impl FeedView {
    /// The feed after a failed write of `rows`.
    pub open spec fn after_write_fault(self, rows: Seq<(u32, BlockHash)>, action: WriteStoreFault) -> FeedView {
        match action {
            WriteStoreFault::Requeue => self.requeued(bare_rows(rows)),
            WriteStoreFault::Abort => self,
            WriteStoreFault::Reject(_) => self.finished(heights_in(rows)),
        }
    }

    /// The feed after a reject of `batch_len` heights was told.
    pub open spec fn after_reject(self, class: ConfirmRejectClass, batch_len: usize) -> FeedView {
        if class.isolated(batch_len) == ConfirmRejectClass::Cascade && batch_len > 1 {
            FeedView { single: true, ..self }
        } else {
            self
        }
    }
}

/// Put a failed write's heights back, or give them up. Either way load starts over
/// from the stored rows.
pub fn apply_write_store_fault(
    feed: &mut ConfirmFeed,
    rows: &Vec<(u32, BlockHash)>,
    action: WriteStoreFault,
    load_ahead_reset: &mut bool,
)
    ensures
        final(feed)@ == old(feed)@.after_write_fault(rows@, action),
        *final(load_ahead_reset) == (*old(load_ahead_reset) || action != WriteStoreFault::Abort),
{
    match action {
        WriteStoreFault::Requeue => {
            *load_ahead_reset = true;
            feed.requeue_hashes(rows);
        },
        WriteStoreFault::Abort => {},
        WriteStoreFault::Reject(_) => {
            *load_ahead_reset = true;
            let hs = heights_of(rows);
            feed.finish(&hs);
        },
    }
}

/// Put heights back where the io session was at fault and has been recovered; true
/// when they were.
pub fn requeue_on_uring_recover(
    feed: &mut ConfirmFeed,
    session_fault: bool,
    recover: UringRecover,
    rows: &Vec<(u32, BlockHash)>,
) -> (b: bool)
    ensures
        b == (session_fault && recover == UringRecover::Recovered),
        final(feed)@ == (if b {
            old(feed)@.requeued(bare_rows(rows@))
        } else {
            old(feed)@
        }),
{
    if session_fault && recover == UringRecover::Recovered {
        feed.requeue_hashes(rows);
        true
    } else {
        false
    }
}

/// The reject that is told of a failing wave.
pub open spec fn reject_view(
    height: u32,
    hash: BlockHash,
    class: ConfirmRejectClass,
    err: Seq<char>,
    batch_len: usize,
) -> EventView {
    EventView::Reject { height, hash, class: class.isolated(batch_len), err, batch_len }
}

/// The reject to tell of a failing wave. Where a wave of several blocks failed, the
/// next one takes a single block.
pub fn emit_confirm_reject(
    feed: &mut ConfirmFeed,
    height: u32,
    hash: BlockHash,
    class: ConfirmRejectClass,
    err: String,
    batch_len: usize,
) -> (e: ConfirmEvent)
    ensures
        e@ == reject_view(height, hash, class, err@, batch_len),
        final(feed)@ == old(feed)@.after_reject(class, batch_len),
{
    let class = class.isolate_if_batched(batch_len);
    if class == ConfirmRejectClass::Cascade && batch_len > 1 {
        feed.request_single_block();
    }
    ConfirmEvent::Reject { height, hash, class, err, batch_len }
}

/// Is `r` the first of `rows`, or height zero with the blank hash where there is
/// none?
pub open spec fn first_row(rows: Seq<(u32, BlockHash)>) -> (u32, BlockHash) {
    if rows.len() > 0 {
        rows[0]
    } else {
        (0, BlockHash::spec_zero())
    }
}

fn first_of(rows: &Vec<(u32, BlockHash)>) -> (r: (u32, BlockHash))
    ensures
        r == first_row(rows@),
{
    if rows.len() > 0 {
        rows[0]
    } else {
        (0, BlockHash::zero())
    }
}

/// Is the thread to give up: the engine was asked to stop, or the failure is that
/// it was?
pub fn gives_up(feed: &ConfirmFeed, e: &ConsensusError) -> (b: bool)
    ensures
        b == (feed@.stop || *e is Cancelled),
{
    match e {
        ConsensusError::Cancelled => true,
        _ => feed.stopped(),
    }
}

/// What the writer does with a batch.
#[derive(Clone, Copy, Debug, PartialEq, Eq, Structural)]
pub enum WriteStart {
    /// Leave the thread.
    Exit,
    /// The batch is out of date and was given up.
    Dropped,
    Commit,
}

/// What the writer does with a batch of these rows.
pub open spec fn write_start(hub: HubView, feed: FeedView, cancelled: bool, rows: Seq<(u32, BlockHash)>) -> WriteStart {
    if feed.stop || cancelled {
        WriteStart::Exit
    } else if plan_stale(hub, feed, first_row(rows).0) {
        WriteStart::Dropped
    } else {
        WriteStart::Commit
    }
}

/// Is a batch to be committed? One that is out of date is given up.
pub fn write_begin(
    feed: &mut ConfirmFeed,
    hub: &ChainHub,
    cancelled: bool,
    rows: &Vec<(u32, BlockHash)>,
) -> (s: WriteStart)
    ensures
        s == write_start(hub@, old(feed)@, cancelled, rows@),
        final(feed)@ == (if s == WriteStart::Dropped {
            old(feed)@.finished(heights_in(rows@))
        } else {
            old(feed)@
        }),
{
    if feed.stopped() || cancelled {
        return WriteStart::Exit;
    }
    let first = first_of(rows);
    if write_batch_is_stale_plan(hub, feed, first.0) {
        let hs = heights_of(rows);
        feed.finish(&hs);
        return WriteStart::Dropped;
    }
    WriteStart::Commit
}

/// One acceptance per row, in order.
pub open spec fn acceptances(rows: Seq<(u32, BlockHash)>) -> Seq<EventView> {
    Seq::new(rows.len(), |i: int| EventView::Accepted { hash: rows[i].1 })
}

/// The rows whose block is in `blocks`.
pub open spec fn row_in(blocks: Set<BlockHash>) -> spec_fn((u32, BlockHash)) -> bool {
    |r: (u32, BlockHash)| blocks.contains(r.1)
}

/// What to tell of written rows: each block is accepted, in order.
pub fn accept_rows(rows: &Vec<(u32, BlockHash)>) -> (events: Vec<ConfirmEvent>)
    ensures
        event_views(events@) == acceptances(rows@),
{
    let mut events: Vec<ConfirmEvent> = Vec::new();
    let mut i: usize = 0;
    while i < rows.len()
        invariant
            i <= rows@.len(),
            event_views(events@) == acceptances(rows@).take(i as int),
        decreases rows@.len() - i,
    {
        let ghost before = events@;
        events.push(ConfirmEvent::Accepted { hash: rows[i].1 });
        assert(event_views(events@) =~= event_views(before).push(
            EventView::Accepted { hash: rows@[i as int].1 },
        ));
        i = i + 1;
        assert(event_views(events@) =~= acceptances(rows@).take(i as int));
    }
    assert(acceptances(rows@).take(i as int) =~= acceptances(rows@));
    events
}

/// The rows that the writer reaches when `sent` acceptances go out: those, and the
/// one whose acceptance nobody takes any more.
pub open spec fn reached(rows: Seq<(u32, BlockHash)>, sent: nat) -> Seq<(u32, BlockHash)> {
    if sent < rows.len() {
        rows.take(sent as int + 1)
    } else {
        rows
    }
}

/// A batch is written, and the first `sent` of its acceptances went out. The bodies of
/// the rows reached leave the queue and their blocks are counted; the rows behind
/// them are left as they are. All heights are done with. True when the writer goes
/// on: every acceptance went out.
pub fn write_done(
    feed: &mut ConfirmFeed,
    hub: &mut ChainHub,
    rows: &Vec<(u32, BlockHash)>,
    sent: usize,
    counters: &mut EngineCounters,
) -> (on: bool)
    ensures
        on == (sent >= rows@.len()),
        final(feed)@ == old(feed)@.finished(heights_in(rows@)),
        final(hub)@ == (HubView {
            queue: old(hub)@.queue.remove_keys(
                heights_in(reached(rows@, sent as nat)).to_set(),
            ),
            ..old(hub)@
        }),
        *final(counters) == old(counters).after_step(
            (WriteStep::Written { rows: rows@, sent: sent as nat }),
        ),
{
    let hs = heights_of(rows);
    let n: usize = if sent < rows.len() {
        sent + 1
    } else {
        rows.len()
    };
    let ghost before = hub@;
    let mut i: usize = 0;
    assert(hs@.take(0).to_set() =~= Set::<u32>::empty());
    assert(before.queue.remove_keys(hs@.take(0).to_set()) =~= before.queue);
    while i < n
        invariant
            i <= n <= hs@.len(),
            hub@ == (HubView {
                queue: before.queue.remove_keys(hs@.take(i as int).to_set()),
                ..before
            }),
        decreases n - i,
    {
        let h: u32 = hs[i];
        hub.queue.dequeue_height(h);
        proof {
            assert(hs@.take(i + 1) =~= hs@.take(i as int).push(h));
            hs@.take(i as int).lemma_push_to_set_commute(h);
            assert(before.queue.remove_keys(hs@.take(i as int).to_set()).remove(h)
                =~= before.queue.remove_keys(hs@.take(i + 1).to_set()));
        }
        i = i + 1;
    }
    assert(hs@.take(n as int) =~= heights_in(reached(rows@, sent as nat)));
    feed.finish(&hs);
    counters.count_accepted(n);
    sent >= rows.len()
}

/// How far a failed write is settled without asking the store.
pub enum WriteTriage {
    /// Leave the thread.
    Exit,
    /// The batch is out of date and was given up.
    Dropped,
    /// The io session failed after all its rows were connected: recover the session,
    /// finish them in place, and go on with [`write_done`]. Where that fails, ask again.
    Finish,
    /// Its blocks are confirmed already.
    Committed(Vec<ConfirmEvent>),
    /// See whether the io session has to be recovered, and settle.
    Settle,
}

/// Did the io session fail only after every row of a write was connected?
pub open spec fn failed_after_connect(hub: HubView, rows: Seq<(u32, BlockHash)>, err: ConsensusError) -> bool {
    err.session_faulted() && rows.len() > 0 && forall|i: int|
        0 <= i < rows.len() ==> hub.blocks.contains((#[trigger] rows[i]).1)
}

/// Are the blocks of a failed write there already? The first one is, or all are and
/// the failure is that they spend what is spent.
pub open spec fn already_committed(hub: HubView, rows: Seq<(u32, BlockHash)>, msg: Seq<char>) -> bool {
    ||| hub.blocks.contains(first_row(rows).1)
    ||| has_text(msg, "prevout already spent"@) && forall|i: int|
        0 <= i < rows.len() ==> hub.blocks.contains((#[trigger] rows[i]).1)
}

fn confirmed_rows(hub: &ChainHub, rows: &Vec<(u32, BlockHash)>) -> (r: Vec<(u32, BlockHash)>)
    ensures
        r@ == rows@.filter(row_in(hub@.blocks)),
{
    let mut r: Vec<(u32, BlockHash)> = Vec::new();
    let mut i: usize = 0;
    let ghost p = row_in(hub@.blocks);
    assert(rows@.take(0).filter(p) =~= Seq::<(u32, BlockHash)>::empty());
    while i < rows.len()
        invariant
            i <= rows@.len(),
            p == row_in(hub@.blocks),
            r@ == rows@.take(i as int).filter(p),
        decreases rows@.len() - i,
    {
        let x: (u32, BlockHash) = rows[i];
        proof {
            assert(rows@.take(i + 1) =~= rows@.take(i as int).push(x));
            rows@.take(i as int).lemma_filter_push(x, p);
        }
        if hub.has_block(&x.1) {
            r.push(x);
        }
        i = i + 1;
    }
    assert(rows@.take(i as int) =~= rows@);
    r
}

fn all_confirmed(hub: &ChainHub, rows: &Vec<(u32, BlockHash)>) -> (b: bool)
    ensures
        b == (forall|i: int| 0 <= i < rows@.len() ==> hub@.blocks.contains((#[trigger] rows@[i]).1)),
{
    let mut i: usize = 0;
    while i < rows.len()
        invariant
            i <= rows@.len(),
            forall|j: int| 0 <= j < i ==> hub@.blocks.contains((#[trigger] rows@[j]).1),
        decreases rows@.len() - i,
    {
        if !hub.has_block(&rows[i].1) {
            assert(!hub@.blocks.contains(rows@[i as int].1));
            return false;
        }
        i = i + 1;
    }
    true
}

/// Is `t` how a failed write is settled without asking the store?
pub open spec fn triaged(
    hub: HubView,
    feed: FeedView,
    rows: Seq<(u32, BlockHash)>,
    err: ConsensusError,
    msg: Seq<char>,
    tried: bool,
    t: WriteTriage,
) -> bool {
    &&& (t is Exit) == (feed.stop || err is Cancelled)
    &&& (t is Finish) == (t !is Exit && !tried && failed_after_connect(hub, rows, err))
    &&& (t is Dropped) == (t !is Exit && t !is Finish && plan_stale(hub, feed, first_row(rows).0))
    &&& (t is Committed) == (t !is Exit && t !is Finish && t !is Dropped && already_committed(
        hub,
        rows,
        msg,
    ))
    &&& t matches WriteTriage::Committed(ev) ==> event_views(ev@) == acceptances(
        rows.filter(row_in(hub.blocks)),
    )
}

/// How a failed write is settled without asking the store. One that only the io session
/// cut short is finished in place, unless that was `tried` already: its first height is no
/// longer above the tip, so it would count as out of date. A batch whose blocks are
/// confirmed already is told as accepted, as far as they are.
pub fn write_triage(
    feed: &mut ConfirmFeed,
    hub: &ChainHub,
    rows: &Vec<(u32, BlockHash)>,
    err: &ConsensusError,
    msg: &str,
    tried: bool,
    counters: &mut EngineCounters,
) -> (t: WriteTriage)
    ensures
        triaged(hub@, old(feed)@, rows@, *err, msg@, tried, t),
        final(feed)@ == (if t is Dropped || t is Committed {
            old(feed)@.finished(heights_in(rows@))
        } else {
            old(feed)@
        }),
        *final(counters) == old(counters).after_step(
            if t is Committed {
                (WriteStep::Committed { rows: rows@.filter(row_in(hub@.blocks)) })
            } else {
                WriteStep::Idle
            },
        ),
{
    if gives_up(feed, err) {
        return WriteTriage::Exit;
    }
    if !tried && err.is_session_fault() && rows.len() > 0 && all_confirmed(hub, rows) {
        return WriteTriage::Finish;
    }
    let (height, hash) = first_of(rows);
    if write_batch_is_stale_plan(hub, feed, height) {
        let hs = heights_of(rows);
        feed.finish(&hs);
        return WriteTriage::Dropped;
    }
    if hub.has_block(&hash) || (contains_text(msg, "prevout already spent") && all_confirmed(
        hub,
        rows,
    )) {
        let there = confirmed_rows(hub, rows);
        let events = accept_rows(&there);
        counters.count_accepted(there.len());
        let hs = heights_of(rows);
        feed.finish(&hs);
        return WriteTriage::Committed(events);
    }
    WriteTriage::Settle
}

/// How a failure ends once the io session was looked at.
pub enum Settled {
    /// The heights are back in the feed.
    Requeued,
    /// The io session is beyond recovery: end the process.
    Abort,
    /// Tell the reject.
    Rejected(ConfirmEvent),
}

/// What a settled failure comes to for the counts and the events.
pub open spec fn settled_step(s: Settled) -> WriteStep {
    match s {
        Settled::Rejected(e) => WriteStep::Rejected { event: e@ },
        _ => WriteStep::Idle,
    }
}

/// May a failure of these rows that is of this class and text end as `s`?
pub open spec fn settles_as(
    rows: Seq<(u32, BlockHash)>,
    class: ConfirmRejectClass,
    text: Seq<char>,
    recover: Option<UringRecover>,
    s: Settled,
) -> bool {
    &&& (s is Requeued) == (recover == Some(UringRecover::Recovered))
    &&& (s is Abort) == (recover == Some(UringRecover::Exhausted))
    &&& s matches Settled::Rejected(e) ==> e@ == reject_view(
        first_row(rows).0,
        first_row(rows).1,
        class,
        text,
        rows.len() as usize,
    )
}

/// May a failed write end as `s`, and the feed in `out`?
pub open spec fn write_settled(
    f: FeedView,
    rows: Seq<(u32, BlockHash)>,
    err: ConsensusError,
    text: Seq<char>,
    recover: Option<UringRecover>,
    out: FeedView,
    s: Settled,
) -> bool {
    &&& settles_as(rows, class_of_consensus(err), text, recover, s)
    &&& out == (if s is Rejected {
        f.after_write_fault(rows, fault_of(err, recover)).after_reject(
            class_of_consensus(err),
            rows.len() as usize,
        )
    } else {
        f.after_write_fault(rows, fault_of(err, recover))
    })
}

/// May a failed script wave end as `s`, and the feed in `out`?
pub open spec fn script_settled(
    f: FeedView,
    rows: Seq<(u32, BlockHash)>,
    dropped: Seq<Vec<(u32, BlockHash)>>,
    class: ConfirmRejectClass,
    text: Seq<char>,
    recover: Option<UringRecover>,
    out: FeedView,
    s: Settled,
) -> bool {
    &&& settles_as(rows, class, text, recover, s)
    &&& out == (match recover {
        Some(UringRecover::Recovered) => f.requeued(bare_rows(rows)),
        Some(UringRecover::Exhausted) => f,
        None => f.finished(heights_in(rows)).finished_all(dropped, 0).after_reject(
            class,
            rows.len() as usize,
        ),
    })
}

/// May a failed stamp or load of a run end as `s`, and the feed in `out`?
pub open spec fn load_settled(
    f: FeedView,
    blocks: Set<BlockHash>,
    rows: Seq<(u32, BlockHash)>,
    class: ConfirmRejectClass,
    text: Seq<char>,
    recover: Option<UringRecover>,
    out: FeedView,
    s: Settled,
) -> bool {
    &&& settles_as(rows, class, text, recover, s)
    &&& out == (match recover {
        Some(UringRecover::Recovered) => f.requeued(bare_rows(rows)),
        Some(UringRecover::Exhausted) => f,
        None => f.after_load_reject(rows, blocks).after_reject(class, rows.len() as usize),
    })
}

/// How a failed write ends.
pub fn write_settle(
    feed: &mut ConfirmFeed,
    rows: &Vec<(u32, BlockHash)>,
    err: &ConsensusError,
    msg: String,
    recover: Option<UringRecover>,
    load_ahead_reset: &mut bool,
    counters: &mut EngineCounters,
) -> (s: Settled)
    ensures
        write_settled(old(feed)@, rows@, *err, msg@, recover, final(feed)@, s),
        *final(load_ahead_reset) == (*old(load_ahead_reset) || s !is Abort),
        *final(counters) == old(counters).after_step(settled_step(s)),
{
    let action = classify_write_store_fault(err, recover);
    apply_write_store_fault(feed, rows, action, load_ahead_reset);
    match action {
        WriteStoreFault::Requeue => Settled::Requeued,
        WriteStoreFault::Abort => Settled::Abort,
        WriteStoreFault::Reject(class) => {
            counters.count_reject();
            let (height, hash) = first_of(rows);
            Settled::Rejected(emit_confirm_reject(feed, height, hash, class, msg, rows.len()))
        },
    }
}

impl FeedView {
    /// The feed once every list of heights from `i` on is done with.
    pub open spec fn finished_all(self, lists: Seq<Vec<(u32, BlockHash)>>, i: int) -> FeedView
        decreases lists.len() - i,
    {
        if i < 0 || i >= lists.len() {
            self
        } else {
            self.finished(heights_in(lists[i]@)).finished_all(lists, i + 1)
        }
    }
}

/// How a failed script wave ends. `dropped` are the waves behind it that were given
/// up with it.
pub fn script_settle(
    feed: &mut ConfirmFeed,
    rows: &Vec<(u32, BlockHash)>,
    dropped: &Vec<Vec<(u32, BlockHash)>>,
    err: &ConsensusError,
    msg: String,
    recover: Option<UringRecover>,
    counters: &mut EngineCounters,
) -> (s: Settled)
    ensures
        script_settled(
            old(feed)@,
            rows@,
            dropped@,
            class_of_consensus(*err),
            msg@,
            recover,
            final(feed)@,
            s,
        ),
        *final(counters) == old(counters).after_step(settled_step(s)),
{
    match recover {
        Some(UringRecover::Recovered) => {
            feed.requeue_hashes(rows);
            return Settled::Requeued;
        },
        Some(UringRecover::Exhausted) => {
            return Settled::Abort;
        },
        None => {},
    }
    let (height, hash) = first_of(rows);
    let hs = heights_of(rows);
    feed.finish(&hs);
    let ghost all = feed@.finished_all(dropped@, 0);
    let mut i: usize = 0;
    while i < dropped.len()
        invariant
            i <= dropped@.len(),
            feed@.finished_all(dropped@, i as int) == all,
        decreases dropped@.len() - i,
    {
        let hs = heights_of(&dropped[i]);
        feed.finish(&hs);
        i = i + 1;
    }
    counters.count_reject();
    let class = ConfirmRejectClass::from_consensus(err);
    Settled::Rejected(emit_confirm_reject(feed, height, hash, class, msg, rows.len()))
}

/// What claiming a load batch comes to.
#[verifier::ext_equal]
pub struct Claim {
    pub feed: FeedView,
    pub run: Seq<LoadItem>,
}

/// Claim the items from `i` on. Confirmed ones leave the ready map; claimed ones are
/// passed over.
pub open spec fn claim_from(c: Claim, items: Seq<LoadItem>, i: int, blocks: Set<BlockHash>, epoch: u64) -> Claim
    decreases items.len() - i,
{
    if i < 0 || i >= items.len() {
        c
    } else {
        let (h, hash, _) = items[i];
        let next = if blocks.contains(hash) {
            Claim { feed: FeedView { ready: c.feed.ready.remove(h), ..c.feed }, ..c }
        } else if c.feed.inflight.contains(h) {
            c
        } else {
            Claim { feed: c.feed.claimed(h, epoch), run: c.run.push(items[i]) }
        };
        claim_from(next, items, i + 1, blocks, epoch)
    }
}

/// The heights of items.
pub open spec fn item_heights(items: Seq<LoadItem>) -> Seq<u32> {
    Seq::new(items.len(), |i: int| items[i].0)
}

/// The heights and hashes of items.
pub open spec fn item_rows(items: Seq<LoadItem>) -> Seq<(u32, BlockHash)> {
    Seq::new(items.len(), |i: int| (items[i].0, items[i].1))
}

/// The heights and hashes of a run.
pub fn rows_of(items: &Vec<LoadItem>) -> (r: Vec<(u32, BlockHash)>)
    ensures
        r@ == item_rows(items@),
{
    let mut r: Vec<(u32, BlockHash)> = Vec::new();
    let mut i: usize = 0;
    while i < items.len()
        invariant
            i <= items@.len(),
            r@ == item_rows(items@).take(i as int),
        decreases items@.len() - i,
    {
        r.push((items[i].0, items[i].1));
        i = i + 1;
        assert(r@ =~= item_rows(items@).take(i as int));
    }
    assert(r@ =~= item_rows(items@));
    r
}

/// Claim a load batch. One that was made before the feed was cleared is given up:
/// `None`. Blocks that are confirmed, and heights that are claimed already, are left
/// out of the run.
pub fn claim_load_batch(feed: &mut ConfirmFeed, hub: &ChainHub, items: Vec<LoadItem>, epoch: u64) -> (run: Option<Vec<LoadItem>>)
    ensures
        (run is None) == (epoch != old(feed)@.epoch),
        match run {
            None => final(feed)@ == old(feed)@.finished(item_heights(items@)),
            Some(r) => ({
                let c = claim_from(
                    Claim { feed: old(feed)@, run: Seq::empty() },
                    items@,
                    0,
                    hub@.blocks,
                    epoch,
                );
                final(feed)@ == c.feed && r@ == c.run
            }),
        },
{
    if epoch != feed.epoch() {
        let rows = rows_of(&items);
        let hs = heights_of(&rows);
        assert(hs@ =~= item_heights(items@));
        feed.finish(&hs);
        return None;
    }
    let mut items = items;
    let ghost whole = items@;
    let ghost all = claim_from(
        Claim { feed: feed@, run: Seq::empty() },
        whole,
        0,
        hub@.blocks,
        epoch,
    );
    let mut run: Vec<LoadItem> = Vec::new();
    let mut left: Vec<LoadItem> = Vec::new();
    // Turned round, so that each item can be taken off the end.
    while items.len() > 0
        invariant
            items@ + left@.reverse() == whole,
        decreases items@.len(),
    {
        let ghost before = items@;
        let ghost had = left@;
        if let Some(x) = items.pop() {
            left.push(x);
            assert(left@.reverse() =~= seq![x] + had.reverse());
            assert(before =~= items@.push(x));
            assert(items@ + left@.reverse() =~= before + had.reverse());
        }
    }
    assert(left@.reverse() =~= whole);
    let mut i: usize = 0;
    let n: usize = left.len();
    while left.len() > 0
        invariant
            i + left@.len() == n,
            n == whole.len(),
            left@.reverse() == whole.skip(i as int),
            claim_from(
                Claim { feed: feed@, run: run@ },
                whole,
                i as int,
                hub@.blocks,
                epoch,
            ) == all,
        decreases left@.len(),
    {
        let ghost rest = left@;
        if let Some(x) = left.pop() {
            assert(rest.reverse()[0] == x);
            assert(whole.skip(i as int)[0] == whole[i as int]);
            assert(left@.reverse() =~= rest.reverse().skip(1));
            assert(whole.skip(i as int).skip(1) =~= whole.skip(i + 1));
            let h: u32 = x.0;
            if hub.has_block(&x.1) {
                feed.drop_ready(h);
            } else if !feed.in_flight(h) {
                feed.claim(h, epoch);
                run.push(x);
            }
            i = i + 1;
        }
    }
    Some(run)
}

/// The rows of a run with their wire.
pub open spec fn wired_rows(items: Seq<LoadItem>) -> Seq<(u32, BlockHash, Option<Seq<u8>>)> {
    Seq::new(items.len(), |i: int| (items[i].0, items[i].1, Some(items[i].2.block.payload@)))
}

/// Put a claimed run back with its wire: the engine stops before it was stamped.
pub fn requeue_run(feed: &mut ConfirmFeed, run: &Vec<LoadItem>)
    ensures
        final(feed)@ == old(feed)@.requeued(wired_rows(run@)),
{
    let mut batch: Vec<FeedRow> = Vec::new();
    let mut i: usize = 0;
    while i < run.len()
        invariant
            i <= run@.len(),
            row_views(batch@) == wired_rows(run@).take(i as int),
        decreases run@.len() - i,
    {
        let ghost before = batch@;
        let wire = run[i].2.block.payload.clone();
        assert(wire@ =~= run@[i as int].2.block.payload@);
        let row: FeedRow = (run[i].0, run[i].1, Some(wire));
        batch.push(row);
        assert(row_views(batch@) =~= row_views(before).push((row.0, row.1, wire_view(row.2))));
        i = i + 1;
        assert(row_views(batch@) =~= wired_rows(run@).take(i as int));
    }
    assert(row_views(batch@) =~= wired_rows(run@));
    feed.requeue_wire(&batch);
}

/// The rows behind the first one whose block is not in `blocks`.
pub open spec fn row_not_in(blocks: Set<BlockHash>) -> spec_fn((u32, BlockHash)) -> bool {
    |r: (u32, BlockHash)| !blocks.contains(r.1)
}

impl FeedView {
    /// The feed after the first block of a run failed to load: the others go back, as
    /// far as they are not confirmed, and the first one is given up.
    pub open spec fn after_load_reject(self, rows: Seq<(u32, BlockHash)>, blocks: Set<BlockHash>) -> FeedView {
        self.requeued(bare_rows(rows.skip(1).filter(row_not_in(blocks)))).finished(
            seq![rows[0].0],
        )
    }
}

fn give_up_first(feed: &mut ConfirmFeed, hub: &ChainHub, rows: &Vec<(u32, BlockHash)>)
    requires
        rows@.len() > 0,
    ensures
        final(feed)@ == old(feed)@.after_load_reject(rows@, hub@.blocks),
{
    let mut tail: Vec<(u32, BlockHash)> = Vec::new();
    let mut i: usize = 1;
    let ghost p = row_not_in(hub@.blocks);
    assert(rows@.skip(1).take(0).filter(p) =~= Seq::<(u32, BlockHash)>::empty());
    while i < rows.len()
        invariant
            1 <= i <= rows@.len(),
            p == row_not_in(hub@.blocks),
            tail@ == rows@.skip(1).take(i - 1).filter(p),
        decreases rows@.len() - i,
    {
        let x: (u32, BlockHash) = rows[i];
        proof {
            assert(rows@.skip(1).take(i as int) =~= rows@.skip(1).take(i - 1).push(x));
            rows@.skip(1).take(i - 1).lemma_filter_push(x, p);
        }
        if !hub.has_block(&x.1) {
            tail.push(x);
        }
        i = i + 1;
    }
    assert(rows@.skip(1).take(i - 1) =~= rows@.skip(1));
    feed.requeue_hashes(&tail);
    let mut first: Vec<u32> = Vec::new();
    first.push(rows[0].0);
    assert(first@ =~= seq![rows@[0].0]);
    feed.finish(&first);
}

/// How a failed stamp of a claimed run ends. The load thread starts over from the stored
/// rows after a reject only: a recovered session just puts the run back.
pub fn stamp_settle(
    feed: &mut ConfirmFeed,
    hub: &ChainHub,
    ahead: &mut LoadAheadState,
    body_count: u64,
    rows: &Vec<(u32, BlockHash)>,
    err: &ConsensusError,
    msg: &str,
    misses: &StampMisses,
    recover: Option<UringRecover>,
    counters: &mut EngineCounters,
) -> (s: Settled)
    requires
        rows@.len() > 0,
    ensures
        load_settled(
            old(feed)@,
            hub@.blocks,
            rows@,
            class_of_consensus(*err),
            operator_text(msg@, *misses),
            recover,
            final(feed)@,
            s,
        ),
        *final(ahead) == (if s is Rejected {
            LoadAheadState::fresh(body_count)
        } else {
            *old(ahead)
        }),
        *final(counters) == old(counters).after_step(settled_step(s)),
{
    match recover {
        Some(UringRecover::Recovered) => {
            feed.requeue_hashes(rows);
            return Settled::Requeued;
        },
        Some(UringRecover::Exhausted) => {
            return Settled::Abort;
        },
        None => {},
    }
    give_up_first(feed, hub, rows);
    ahead.clear_all(body_count);
    counters.count_reject();
    let shown = stamp_reject_operator_msg(msg, misses);
    let class = ConfirmRejectClass::from_consensus(err);
    Settled::Rejected(emit_confirm_reject(feed, rows[0].0, rows[0].1, class, shown, rows.len()))
}

/// How a failed load of a stamped run ends. `session_fault` says whether the store
/// takes `msg` for an unusable io session.
pub fn load_settle(
    feed: &mut ConfirmFeed,
    hub: &ChainHub,
    ahead: &mut LoadAheadState,
    body_count: u64,
    rows: &Vec<(u32, BlockHash)>,
    err: &NetError,
    msg: String,
    session_fault: bool,
    recover: Option<UringRecover>,
    counters: &mut EngineCounters,
) -> (s: Settled)
    requires
        rows@.len() > 0,
    ensures
        load_settled(
            old(feed)@,
            hub@.blocks,
            rows@,
            class_of_net(*err, msg@, session_fault),
            msg@,
            recover,
            final(feed)@,
            s,
        ),
        *final(ahead) == (if s is Requeued {
            LoadAheadState::fresh(body_count)
        } else {
            *old(ahead)
        }),
        *final(counters) == old(counters).after_step(settled_step(s)),
{
    match recover {
        Some(UringRecover::Recovered) => {
            feed.requeue_hashes(rows);
            ahead.on_uring_recover(body_count);
            return Settled::Requeued;
        },
        Some(UringRecover::Exhausted) => {
            return Settled::Abort;
        },
        None => {},
    }
    give_up_first(feed, hub, rows);
    counters.count_reject();
    let class = ConfirmRejectClass::from_net(err, msg.as_str(), session_fault);
    Settled::Rejected(emit_confirm_reject(feed, rows[0].0, rows[0].1, class, msg, rows.len()))
}

/// Is `r` the highest row, the last of several equally high ones?
pub open spec fn is_newest(rows: Seq<(u32, BlockHash)>, r: (u32, BlockHash)) -> bool {
    exists|k: int|
        0 <= k < rows.len() && #[trigger] rows[k] == r && (forall|j: int|
            0 <= j < rows.len() ==> (#[trigger] rows[j]).0 <= r.0) && (forall|j: int|
            k < j < rows.len() ==> (#[trigger] rows[j]).0 < r.0)
}

/// The highest row: what a stamped run is remembered by.
pub fn newest_row(rows: &Vec<(u32, BlockHash)>) -> (r: Option<(u32, BlockHash)>)
    ensures
        match r {
            Some(x) => is_newest(rows@, x),
            None => rows@.len() == 0,
        },
{
    if rows.len() == 0 {
        return None;
    }
    let mut at: usize = 0;
    let mut i: usize = 1;
    while i < rows.len()
        invariant
            at < i <= rows@.len(),
            forall|j: int| 0 <= j < i ==> (#[trigger] rows@[j]).0 <= rows@[at as int].0,
            forall|j: int| at < j < i ==> (#[trigger] rows@[j]).0 < rows@[at as int].0,
        decreases rows@.len() - i,
    {
        if rows[i].0 >= rows[at].0 {
            at = i;
        }
        i = i + 1;
    }
    assert(is_newest(rows@, rows@[at as int]));
    Some(rows[at])
}

/// How large the next lookup wave may be.
#[derive(Clone, Copy, Debug, PartialEq, Eq, Structural)]
pub struct LookupPlan {
    pub path_lo: u32,
    /// Room in the load queue. With none, lookup waits.
    pub remaining: usize,
    /// Most blocks per batch.
    pub run_max: usize,
    pub max_blocks: usize,
    pub max_inputs: u32,
}

/// How large the next lookup wave may be, with the given caps on one wave.
pub open spec fn lookup_sized(
    hub: HubView,
    feed: FeedView,
    load_depth: usize,
    cap_blocks: usize,
    cap_inputs: u32,
) -> LookupPlan {
    let remaining = sat_sub_us(LOAD_QUEUE_CAP_DEFAULT, load_depth);
    let run_max: usize = if feed.single {
        1
    } else {
        CONFIRM_RUN_MAX_BLOCKS
    };
    LookupPlan {
        path_lo: hub.path_lo(),
        remaining,
        run_max,
        max_blocks: if remaining * run_max < cap_blocks {
            (remaining * run_max) as usize
        } else {
            cap_blocks
        },
        max_inputs: if remaining * CONFIRM_BATCH_INPUTS_DEFAULT < cap_inputs {
            (remaining * CONFIRM_BATCH_INPUTS_DEFAULT) as u32
        } else {
            cap_inputs
        },
    }
}

/// How large the next lookup wave may be, with the given caps on one wave.
pub fn lookup_plan(
    feed: &ConfirmFeed,
    hub: &ChainHub,
    depths: &ConfirmQueueDepths,
    cap_blocks: usize,
    cap_inputs: u32,
) -> (p: LookupPlan)
    ensures
        p == lookup_sized(hub@, feed@, depths.load.depth, cap_blocks, cap_inputs),
{
    let remaining: usize = load_queue_cap().saturating_sub(depths.load_depth());
    let run_max: usize = if feed.single_block() {
        1
    } else {
        CONFIRM_RUN_MAX_BLOCKS
    };
    assert(remaining * run_max <= 14 * 144) by (nonlinear_arith)
        requires
            remaining <= 14,
            run_max <= 144,
    ;
    let blocks: usize = remaining * run_max;
    let inputs: u32 = remaining as u32 * confirm_batch_max_inputs();
    LookupPlan {
        path_lo: hub.path_lo(),
        remaining,
        run_max,
        max_blocks: if blocks < cap_blocks {
            blocks
        } else {
            cap_blocks
        },
        max_inputs: if inputs < cap_inputs {
            inputs
        } else {
            cap_inputs
        },
    }
}

/// The input counts of items.
pub open spec fn item_inputs(items: Seq<LoadItem>) -> Seq<u32> {
    Seq::new(items.len(), |i: int| inputs_in(items[i].2.block.txs@))
}

/// The load batches of a resolved wave: cut by inputs, blocks and kind, at most
/// `remaining` of them, stamped with the feed's epoch. `has_body` tells per item
/// whether its body is archived.
pub fn wave_batches(
    feed: &ConfirmFeed,
    plan: &LookupPlan,
    items: &Vec<LoadItem>,
    has_body: &Vec<bool>,
    wave_ids: &BatchParentIds,
    drain_fence_hi: Option<u32>,
) -> (out: Vec<LoadBatch>)
    requires
        has_body@.len() == items@.len(),
    ensures
        exists|parts: Seq<usize>|
            #![trigger cuts_from(parts, 0, 0, items@.len() as int, plan.remaining as int)]
            is_split(
                item_inputs(items@),
                has_body@,
                CONFIRM_BATCH_INPUTS_DEFAULT,
                plan.run_max,
                parts,
            ) && are_batches(
                out@,
                items@,
                cuts_from(parts, 0, 0, items@.len() as int, plan.remaining as int),
                *wave_ids,
                drain_fence_hi,
                feed@.epoch,
            ),
{
    let mut counts: Vec<u32> = Vec::new();
    let mut i: usize = 0;
    while i < items.len()
        invariant
            i <= items@.len(),
            counts@ == item_inputs(items@).take(i as int),
        decreases items@.len() - i,
    {
        counts.push(block_input_count(&items[i].2.block));
        i = i + 1;
        assert(counts@ =~= item_inputs(items@).take(i as int));
    }
    assert(counts@ =~= item_inputs(items@));
    let parts = split_wave_into_load_batches_kind(
        counts.as_slice(),
        has_body.as_slice(),
        confirm_batch_max_inputs(),
        plan.run_max,
    );
    let mut out = load_batches_from_wave(items, &parts, plan.remaining, wave_ids, drain_fence_hi);
    let epoch: u64 = feed.epoch();
    let ghost cuts = cuts_from(parts@, 0, 0, items@.len() as int, plan.remaining as int);
    let ghost made = out@;
    let n: usize = out.len();
    let mut k: usize = 0;
    while k < n
        invariant
            k <= n,
            n == out@.len(),
            n == made.len(),
            forall|j: int|
                0 <= j < k ==> #[trigger] out@[j] == (LoadBatch { epoch, ..made[j] }),
            forall|j: int| k <= j < n ==> #[trigger] out@[j] == made[j],
        decreases n - k,
    {
        out[k].epoch = epoch;
        k = k + 1;
    }
    proof {
        assert forall|j: int| 0 <= j < out@.len() implies is_batch(
            #[trigger] out@[j],
            items@,
            cuts[j],
            *wave_ids,
            if j == out@.len() - 1 {
                drain_fence_hi
            } else {
                None
            },
            epoch,
        ) by {
            assert(is_batch(
                made[j],
                items@,
                cuts[j],
                *wave_ids,
                if j == made.len() - 1 {
                    drain_fence_hi
                } else {
                    None
                },
                0,
            ));
        }
        assert(are_batches(out@, items@, cuts, *wave_ids, drain_fence_hi, epoch));
    }
    out
}

/// Lookup faults in a row after which the engine reports a fault.
pub const LOOKUP_FAULT_HALT_AFTER: u32 = 8;

/// Counts lookup faults in a row.
#[derive(Clone, Copy, Debug, PartialEq, Eq, Structural)]
pub struct LookupFaultPolicy {
    pub consecutive: u32,
}

/// What a lookup fault leads to.
#[derive(Clone, Copy, Debug, PartialEq, Eq, Structural)]
pub enum LookupFaultAction {
    Ignore,
    RecoverContinue,
    Abort,
    Warn,
    RejectEngineFault,
}

impl Default for LookupFaultPolicy {
    fn default() -> (p: Self)
        ensures
            p.consecutive == 0,
    {
        LookupFaultPolicy { consecutive: 0 }
    }
}

impl ConsensusError {
    /// Is this only too much io at once?
    pub open spec fn backpressure(self) -> bool {
        match self {
            ConsensusError::Store(e) => e.backpressure,
            _ => false,
        }
    }
}

impl LookupFaultPolicy {
    /// What a fault leads to.
    pub open spec fn action_on(self, e: ConsensusError, recover: Option<UringRecover>) -> LookupFaultAction {
        if e.backpressure() {
            LookupFaultAction::Ignore
        } else {
            match recover {
                Some(UringRecover::Recovered) => LookupFaultAction::RecoverContinue,
                Some(UringRecover::Exhausted) => LookupFaultAction::Abort,
                None => if self.consecutive + 1 >= LOOKUP_FAULT_HALT_AFTER {
                    LookupFaultAction::RejectEngineFault
                } else {
                    LookupFaultAction::Warn
                },
            }
        }
    }

    /// The count after a fault.
    pub open spec fn after(self, e: ConsensusError, recover: Option<UringRecover>) -> LookupFaultPolicy {
        if e.backpressure() {
            self
        } else {
            match recover {
                Some(UringRecover::Recovered) => LookupFaultPolicy { consecutive: 0 },
                Some(UringRecover::Exhausted) => self,
                None => LookupFaultPolicy {
                    consecutive: if self.consecutive == u32::MAX {
                        u32::MAX
                    } else {
                        (self.consecutive + 1) as u32
                    },
                },
            }
        }
    }

    /// A wave was resolved: the row of faults ends.
    pub fn on_success(&mut self)
        ensures
            final(self).consecutive == 0,
    {
        self.consecutive = 0;
    }

    /// What a fault that needs no recovery leads to.
    pub fn on_err(&mut self, e: &ConsensusError) -> (a: LookupFaultAction)
        ensures
            a == old(self).action_on(*e, None),
            *final(self) == old(self).after(*e, None),
    {
        self.on_err_recover(e, None)
    }

    /// What a fault leads to, given how recovering the io session went.
    pub fn on_err_recover(&mut self, e: &ConsensusError, recover: Option<UringRecover>) -> (a: LookupFaultAction)
        ensures
            a == old(self).action_on(*e, recover),
            *final(self) == old(self).after(*e, recover),
    {
        let busy = match e {
            ConsensusError::Store(s) => s.backpressure,
            _ => false,
        };
        if busy {
            return LookupFaultAction::Ignore;
        }
        match recover {
            Some(UringRecover::Recovered) => {
                self.consecutive = 0;
                LookupFaultAction::RecoverContinue
            },
            Some(UringRecover::Exhausted) => LookupFaultAction::Abort,
            None => {
                self.consecutive = self.consecutive.saturating_add(1);
                if self.consecutive >= LOOKUP_FAULT_HALT_AFTER {
                    LookupFaultAction::RejectEngineFault
                } else {
                    LookupFaultAction::Warn
                }
            },
        }
    }
}

/// Faults without a resolved wave between them are reported as an engine fault from
/// the halting count on, and only warned of before.
pub proof fn law_lookup_faults_halt_in_a_row(p: LookupFaultPolicy, e: ConsensusError)
    requires
        !e.backpressure(),
    ensures
        p.consecutive + 1 < LOOKUP_FAULT_HALT_AFTER ==> p.action_on(e, None)
            == LookupFaultAction::Warn && p.after(e, None).consecutive == p.consecutive + 1,
        p.consecutive + 1 >= LOOKUP_FAULT_HALT_AFTER ==> p.action_on(e, None)
            == LookupFaultAction::RejectEngineFault && p.after(e, None).action_on(e, None)
            == LookupFaultAction::RejectEngineFault,
{
}

/// How a failed lookup wave ends: what to do, and the reject to tell where a height
/// of it is ready. `wave_h` are the heights of the wave.
pub fn lookup_settle(
    feed: &mut ConfirmFeed,
    policy: &mut LookupFaultPolicy,
    err: &ConsensusError,
    msg: String,
    recover: Option<UringRecover>,
    wave_h: &Vec<u32>,
    path_lo: u32,
    wave_faults: &mut u64,
) -> (r: (LookupFaultAction, Option<ConfirmEvent>))
    ensures
        r.0 == old(policy).action_on(*err, recover),
        *final(policy) == old(policy).after(*err, recover),
        final(feed)@ == old(feed)@,
        *final(wave_faults) == (if r.0 == LookupFaultAction::Warn || r.0
            == LookupFaultAction::RejectEngineFault {
            wrap_add(*old(wave_faults), 1)
        } else {
            *old(wave_faults)
        }),
        ({
            let height = if wave_h@.len() > 0 {
                wave_h@[0]
            } else {
                path_lo
            };
            match r.1 {
                Some(e) => r.0 == LookupFaultAction::RejectEngineFault
                    && old(feed)@.ready.contains_key(height) && e@ == reject_view(
                    height,
                    old(feed)@.ready[height].hash,
                    ConfirmRejectClass::EngineFault,
                    msg@,
                    1,
                ),
                None => r.0 != LookupFaultAction::RejectEngineFault
                    || !old(feed)@.ready.contains_key(height),
            }
        }),
{
    let action = policy.on_err_recover(err, recover);
    if action == LookupFaultAction::Warn || action == LookupFaultAction::RejectEngineFault {
        *wave_faults = wave_faults.wrapping_add(1);
    }
    if action != LookupFaultAction::RejectEngineFault {
        return (action, None);
    }
    let height: u32 = if wave_h.len() > 0 {
        wave_h[0]
    } else {
        path_lo
    };
    match lookup_ready_hash(feed, height) {
        Some(hash) => {
            let e = emit_confirm_reject(
                feed,
                height,
                hash,
                ConfirmRejectClass::EngineFault,
                msg,
                1,
            );
            (action, Some(e))
        },
        None => (action, None),
    }
}

/// Nothing is claimed twice: a claimed height of a run was not in flight before, and
/// no height comes twice in it.
pub proof fn law_claims_are_fresh(c: Claim, items: Seq<LoadItem>, i: int, blocks: Set<BlockHash>, epoch: u64)
    requires
        forall|k: int| 0 <= k < c.run.len() ==> c.feed.inflight.contains((#[trigger] c.run[k]).0),
        item_heights(c.run).no_duplicates(),
        0 <= i,
    ensures
        item_heights(claim_from(c, items, i, blocks, epoch).run).no_duplicates(),
        forall|k: int|
            c.run.len() <= k < claim_from(c, items, i, blocks, epoch).run.len()
                ==> !c.feed.inflight.contains(
                (#[trigger] claim_from(c, items, i, blocks, epoch).run[k]).0,
            ) && !blocks.contains(claim_from(c, items, i, blocks, epoch).run[k].1),
        claim_from(c, items, i, blocks, epoch).run.len() >= c.run.len(),
        claim_from(c, items, i, blocks, epoch).run.take(c.run.len() as int) == c.run,
    decreases items.len() - i,
{
    if i >= items.len() {
        assert(c.run.take(c.run.len() as int) =~= c.run);
    } else {
        let (h, hash, _) = items[i];
        if blocks.contains(hash) {
            let next = Claim { feed: FeedView { ready: c.feed.ready.remove(h), ..c.feed }, ..c };
            law_claims_are_fresh(next, items, i + 1, blocks, epoch);
        } else if c.feed.inflight.contains(h) {
            law_claims_are_fresh(c, items, i + 1, blocks, epoch);
        } else {
            let next = Claim { feed: c.feed.claimed(h, epoch), run: c.run.push(items[i]) };
            assert(item_heights(next.run) =~= item_heights(c.run).push(h));
            assert(!item_heights(c.run).contains(h)) by {
                if item_heights(c.run).contains(h) {
                    let k = choose|k: int| 0 <= k < c.run.len() && item_heights(c.run)[k] == h;
                    assert(c.feed.inflight.contains(c.run[k].0));
                }
            }
            assert forall|k: int| 0 <= k < next.run.len() implies next.feed.inflight.contains(
                (#[trigger] next.run[k]).0,
            ) by {
                if k < c.run.len() {
                    assert(next.run[k] == c.run[k]);
                }
            }
            law_claims_are_fresh(next, items, i + 1, blocks, epoch);
            let end = claim_from(next, items, i + 1, blocks, epoch);
            assert(end.run.take(c.run.len() as int) =~= next.run.take(c.run.len() as int));
            assert(next.run.take(c.run.len() as int) =~= c.run);
            assert(end.run[c.run.len() as int] == end.run.take(next.run.len() as int)[c.run.len() as int]);
        }
    }
}

} // verus!

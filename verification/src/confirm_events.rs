//! What the confirm engine's verdicts do to the work state.
//!
//! Only a broken consensus rule blacklists a hash. A wire mismatch is fetched again,
//! a stale plan is tried again, and a fault of the engine is tried once more; the
//! last two end the run when they repeat.
use vstd::prelude::*;
use crate::assign_plan::{remove_from_ordered, trimmed};
use crate::chain::{larger, max32, sat_add32, sat_sub32, ChainHub, HubView};
use crate::confirm_class::{bad_prev_text, is_bad_prev_err, ConfirmRejectClass};
use crate::confirm_engine::ConfirmEvent;
use crate::confirm_feed::{ConfirmFeed, FeedView};
use crate::hash::BlockHash;
use crate::inflight::{clear_hash_inflight, just};
use crate::path::{plant_valid_tip_child, tip_child_planted};
use crate::reorg::ReorgView;
use crate::state::{IbdWorkState, WorkView};
use crate::text::{
    append_dec, append_hex_reversed, contains_text, dec, has_text, hex_reversed,
};

verus! {

/// Cascades in a row at one tip that end the run.
pub const CASCADE_HALT_AFTER: u8 = 3;

/// How far what is ready is ahead of the tip.
pub open spec fn confirm_lag(tip: Option<u32>, max_ready: u32) -> u32 {
    sat_sub32(
        max_ready,
        match tip {
            Some(t) => t,
            None => 0,
        },
    )
}

/// Note how far what is ready is ahead of the tip.
pub fn update_confirm_lag(lag: &mut u32, tip: Option<u32>, max_ready: u32)
    ensures
        *final(lag) == confirm_lag(tip, max_ready),
{
    let t: u32 = match tip {
        Some(t) => t,
        None => 0,
    };
    *lag = max_ready.saturating_sub(t);
}

impl WorkView {
    /// The ordered path without `h`.
    pub open spec fn without_ordered(self, h: BlockHash) -> WorkView {
        WorkView {
            ordered_set: self.ordered_set.remove(h),
            ordered: trimmed(self.ordered, self.ordered_set.remove(h)),
            ..self
        }
    }

    /// The path slot at `height` without `h`.
    pub open spec fn without_slot(self, h: BlockHash, height: u32) -> WorkView {
        if self.on_path(h, height) {
            WorkView { height_to_hash: self.height_to_hash.remove(height), ..self }
        } else {
            self
        }
    }

    /// Confirm is stuck, since `now_ms` unless it was before.
    pub open spec fn stuck(self, now_ms: u64) -> WorkView {
        WorkView {
            confirm_stuck_since: match self.confirm_stuck_since {
                Some(t) => Some(t),
                None => Some(now_ms),
            },
            ..self
        }
    }

    /// `hash` is confirmed.
    pub open spec fn accepted(self, hub: HubView, hash: BlockHash) -> WorkView {
        let w = self.without_ordered(hash);
        WorkView {
            confirm_stuck_since: None,
            body: w.body.with_archived(hash),
            max_ready_height: max32(w.max_ready_height, hub.tip_or_zero()),
            ..w
        }
    }
}

/// A block is confirmed: it leaves the ordered path, and confirm is not stuck. Gives
/// the height that the writer takes next.
pub fn on_accepted(st: &mut IbdWorkState, hub: &ChainHub, hash: BlockHash) -> (write_next: u32)
    ensures
        final(st)@ == old(st)@.accepted(hub@, hash),
        write_next == sat_add32(hub@.tip_or_zero(), 1),
{
    st.confirm_stuck_since = None;
    remove_from_ordered(&mut st.ordered, &mut st.ordered_set, hash);
    st.body.mark_archived(hash);
    let tip: u32 = hub.tip_or_zero();
    st.max_ready_height = larger(st.max_ready_height, tip);
    tip.saturating_add(1)
}

/// The confirm events are handled: where a rewind asked for it, the feed is cleared.
pub fn finish_confirm_events(st: &mut IbdWorkState, feed: &mut ConfirmFeed)
    ensures
        final(st)@ == (WorkView { confirm_quiesce: false, ..old(st)@ }),
        final(feed)@ == (if old(st)@.confirm_quiesce {
            old(feed)@.cleared()
        } else {
            old(feed)@
        }),
{
    if st.confirm_quiesce {
        feed.clear();
        st.confirm_quiesce = false;
    }
}

/// The class by which a reject is treated: an unresolved row is a fault of the
/// engine whatever it was taken for; a broken rule counts only on the block's own
/// parent; and a wave of several blocks is taken apart first.
pub open spec fn settled_class(
    hub: HubView,
    hash: BlockHash,
    class: ConfirmRejectClass,
    err: Seq<char>,
    batch_len: usize,
) -> ConfirmRejectClass {
    let c = if has_text(err, "parent create_fk unresolved"@) || has_text(
        err,
        "spend annotate missing pin denserels"@,
    ) {
        ConfirmRejectClass::EngineFault
    } else {
        class.trusted(hub, hash)
    };
    c.isolated(batch_len)
}

fn settle_class(
    hub: &ChainHub,
    hash: &BlockHash,
    class: ConfirmRejectClass,
    err: &str,
    batch_len: usize,
) -> (c: ConfirmRejectClass)
    ensures
        c == settled_class(hub@, *hash, class, err@, batch_len),
{
    let c = if contains_text(err, "parent create_fk unresolved") || contains_text(
        err,
        "spend annotate missing pin denserels",
    ) {
        ConfirmRejectClass::EngineFault
    } else {
        class.trust_consensus(hub, hash)
    };
    c.isolate_if_batched(batch_len)
}

/// What a reject leads to.
#[derive(Clone, Copy, Debug, PartialEq, Eq, Structural)]
pub enum RejectStep {
    Done,
    /// Drop the archived body of the hash: its content does not match its header.
    ClearArchived,
    /// The parent is not the tip: see whether to rewind, and go on with
    /// [`bad_prev_answered`].
    AskRewind,
    /// The hash is blacklisted: explore the competing tips with
    /// [`explore_competing`], see whether to rewind, plant the stored path where that
    /// did not happen, and go on with [`invalid_settled`].
    Invalidated,
}

/// Does an error text say that the body does not match its header?
pub open spec fn body_mismatch(err: Seq<char>) -> bool {
    ||| has_text(err, "merkle root mismatch"@)
    ||| has_text(err, "bad-txnmrklroot"@)
    ||| has_text(err, "witness commitment"@)
}

/// The step that follows once the body was taken out.
pub open spec fn archive_step(err: Seq<char>) -> RejectStep {
    if body_mismatch(err) {
        RejectStep::ClearArchived
    } else {
        RejectStep::Done
    }
}

fn step_for_archive(err: &str) -> (s: RejectStep)
    ensures
        s == archive_step(err@),
{
    if contains_text(err, "merkle root mismatch") || contains_text(err, "bad-txnmrklroot")
        || contains_text(err, "witness commitment") {
        RejectStep::ClearArchived
    } else {
        RejectStep::Done
    }
}

/// The state once a body is to be fetched again.
pub open spec fn refetched(v: WorkView, hash: BlockHash) -> WorkView {
    let w = v.without_requests(just(hash));
    WorkView { body: w.body.with_missing(hash).without_known(hash), ..w }
}

/// The state once a block turned out to have another parent than the tip.
pub open spec fn bad_prev_noted(v: WorkView, hash: BlockHash) -> WorkView {
    WorkView {
        headers_done: false,
        reorg: v.reorg.with_explore(Seq::empty(), Some(hash)),
        ..v
    }
}

/// The chain with lookup put back to the tip.
pub open spec fn lookup_at_tip(hub: HubView) -> HubView {
    HubView {
        taken_hi: match hub.tip {
            Some(t) => Some(t.height),
            None => None,
        },
        ..hub
    }
}

/// The chain without the queued body at `height`.
pub open spec fn dequeued(hub: HubView, height: u32) -> HubView {
    HubView { queue: hub.queue.remove(height), ..hub }
}

fn dequeue(hub: &mut ChainHub, height: u32)
    ensures
        final(hub)@ == dequeued(old(hub)@, height),
{
    hub.queue.dequeue_height(height);
}

/// A body did not match its header, or its parent is not the tip. The first is
/// fetched again; for the second lookup starts again from the tip and the branch is
/// explored.
pub fn apply_soft_wire_reject(st: &mut IbdWorkState, hub: &mut ChainHub, height: u32, hash: BlockHash, err: &str) -> (step: RejectStep)
    ensures
        bad_prev_text(err@) ==> step == RejectStep::AskRewind && final(st)@ == bad_prev_noted(
            old(st)@,
            hash,
        ) && final(hub)@ == lookup_at_tip(old(hub)@),
        !bad_prev_text(err@) ==> step == archive_step(err@) && final(st)@ == refetched(
            old(st)@,
            hash,
        ) && final(hub)@ == dequeued(old(hub)@, height),
{
    if is_bad_prev_err(err) {
        hub.taken_hi = hub.tip_height();
        st.headers_done = false;
        let none: Vec<BlockHash> = Vec::new();
        assert(none@ =~= Seq::<BlockHash>::empty());
        st.reorg.register_explore(&none, Some(hash));
        return RejectStep::AskRewind;
    }
    clear_hash_inflight(&mut st.slots, &mut st.inflight, hash);
    dequeue(hub, height);
    st.body.mark_missing(hash);
    st.body.demote_known(hash);
    step_for_archive(err)
}

/// The state once a block with another parent is off the path.
pub open spec fn evicted(v: WorkView, hash: BlockHash, height: u32) -> WorkView {
    let w = if v.on_path(hash, height) {
        v.without_slot(hash, height).without_ordered(hash)
    } else {
        v
    };
    w.without_requests(just(hash))
}

/// The rewind for a block with another parent is answered. Without one the block
/// leaves the path, its request and its queued body; the same hash is not fetched
/// again.
pub fn bad_prev_answered(
    st: &mut IbdWorkState,
    hub: &mut ChainHub,
    height: u32,
    hash: BlockHash,
    err: &str,
    rewound: bool,
) -> (step: RejectStep)
    ensures
        rewound ==> step == RejectStep::Done && final(st)@ == old(st)@ && final(hub)@ == old(hub)@,
        !rewound ==> step == archive_step(err@) && final(st)@ == evicted(old(st)@, hash, height)
            && final(hub)@ == dequeued(old(hub)@, height),
{
    if rewound {
        return RejectStep::Done;
    }
    if st.is_on_path(&hash, height) {
        st.height_to_hash.remove(&height);
        remove_from_ordered(&mut st.ordered, &mut st.ordered_set, hash);
    }
    clear_hash_inflight(&mut st.slots, &mut st.inflight, hash);
    dequeue(hub, height);
    step_for_archive(err)
}

/// How often in a row `hash` cascaded at `tip`, this time counted.
pub open spec fn cascade_count(last: Option<(BlockHash, BlockHash, u8)>, hash: BlockHash, tip: BlockHash) -> u8 {
    match last {
        Some((h, t, c)) => if h == hash && t == tip {
            if c == u8::MAX {
                u8::MAX
            } else {
                (c + 1) as u8
            }
        } else {
            1
        },
        None => 1,
    }
}

/// The hash of the tip, or the blank one without a tip.
pub open spec fn tip_or_blank(hub: HubView) -> BlockHash {
    match hub.tip_hash() {
        Some(t) => t,
        None => BlockHash::spec_zero(),
    }
}

/// Why a run ends by cascades.
pub open spec fn cascade_halt_text(n: u8, height: u32, hash: BlockHash, err: Seq<char>) -> Seq<char> {
    "cascade repeated "@ + dec(n as nat) + "× @"@ + dec(height as nat) + " "@ + hex_reversed(
        hash.bytes(),
    ) + " (tip unchanged): "@ + err
}

/// Why a run ends by an engine fault.
pub open spec fn engine_halt_text(height: u32, hash: BlockHash, err: Seq<char>) -> Seq<char> {
    "engine fault repeated @"@ + dec(height as nat) + " "@ + hex_reversed(hash.bytes()) + ": "@
        + err
}

fn append_place(out: &mut String, height: u32, hash: &BlockHash)
    ensures
        final(out)@ == old(out)@ + dec(height as nat) + " "@ + hex_reversed(hash.bytes()),
{
    append_dec(out, height as u128);
    out.append(" ");
    let raw = hash.to_byte_array();
    append_hex_reversed(out, &raw);
}

fn cascade_halt_msg(n: u8, height: u32, hash: &BlockHash, err: &str) -> (s: String)
    ensures
        s@ == cascade_halt_text(n, height, *hash, err@),
{
    let mut s: String = String::new();
    s.append("cascade repeated ");
    append_dec(&mut s, n as u128);
    s.append("× @");
    append_place(&mut s, height, hash);
    s.append(" (tip unchanged): ");
    s.append(err);
    assert(s@ =~= cascade_halt_text(n, height, *hash, err@));
    s
}

fn engine_halt_msg(height: u32, hash: &BlockHash, err: &str) -> (s: String)
    ensures
        s@ == engine_halt_text(height, *hash, err@),
{
    let mut s: String = String::new();
    s.append("engine fault repeated @");
    append_place(&mut s, height, hash);
    s.append(": ");
    s.append(err);
    assert(s@ =~= engine_halt_text(height, *hash, err@));
    s
}

/// The state after a cascade.
pub open spec fn cascaded(
    v: WorkView,
    hub: HubView,
    height: u32,
    hash: BlockHash,
    err: Seq<char>,
    now_ms: u64,
) -> WorkView {
    let n = cascade_count(v.cascade_at, hash, tip_or_blank(hub));
    let w = WorkView {
        cascade_at: Some((hash, tip_or_blank(hub), n)),
        ..v.without_requests(just(hash))
    };
    if n >= CASCADE_HALT_AFTER {
        WorkView { halt: Some(cascade_halt_text(n, height, hash, err)), ..w }
    } else {
        w.stuck(now_ms)
    }
}

/// A plan was stale. The queued wire is still good and stays; the third time in a row
/// at one tip ends the run.
pub fn apply_cascade_reject(
    st: &mut IbdWorkState,
    hub: &ChainHub,
    height: u32,
    hash: BlockHash,
    err: &str,
    now_ms: u64,
)
    ensures
        final(st)@ == cascaded(old(st)@, hub@, height, hash, err@, now_ms),
{
    clear_hash_inflight(&mut st.slots, &mut st.inflight, hash);
    let tip = match hub.tip_hash() {
        Some(t) => t,
        None => BlockHash::zero(),
    };
    let n: u8 = match st.cascade_at {
        Some((h, t, c)) => if h == hash && t == tip {
            c.saturating_add(1)
        } else {
            1
        },
        None => 1,
    };
    st.cascade_at = Some((hash, tip, n));
    if n >= CASCADE_HALT_AFTER {
        let msg = cascade_halt_msg(n, height, &hash, err);
        st.halt = Some(msg);
        return;
    }
    note_confirm_stuck(st, now_ms);
}

fn note_confirm_stuck(st: &mut IbdWorkState, now_ms: u64)
    ensures
        final(st)@ == old(st)@.stuck(now_ms),
{
    if st.confirm_stuck_since.is_none() {
        st.confirm_stuck_since = Some(now_ms);
    }
}

/// The state after a fault of the engine.
pub open spec fn faulted(v: WorkView, height: u32, hash: BlockHash, err: Seq<char>, now_ms: u64) -> WorkView {
    let w = v.without_requests(just(hash));
    if v.engine_fault_seen.contains(hash) {
        WorkView { halt: Some(engine_halt_text(height, hash, err)), ..w }
    } else {
        WorkView { engine_fault_seen: w.engine_fault_seen.insert(hash), ..w }.stuck(now_ms)
    }
}

/// A fault of the engine, no block rule. It is tried once more; the second one at the
/// same hash ends the run.
pub fn apply_engine_fault_reject(
    st: &mut IbdWorkState,
    hub: &mut ChainHub,
    height: u32,
    hash: BlockHash,
    err: &str,
    now_ms: u64,
)
    ensures
        final(st)@ == faulted(old(st)@, height, hash, err@, now_ms),
        final(hub)@ == dequeued(old(hub)@, height),
{
    dequeue(hub, height);
    clear_hash_inflight(&mut st.slots, &mut st.inflight, hash);
    if st.engine_fault_seen.contains(&hash) {
        let msg = engine_halt_msg(height, &hash, err);
        st.halt = Some(msg);
        return;
    }
    st.engine_fault_seen.insert(hash);
    note_confirm_stuck(st, now_ms);
}

/// The state once `hash` is blacklisted.
pub open spec fn blacklisted(v: WorkView, height: u32, hash: BlockHash) -> WorkView {
    let w = WorkView {
        body: v.body.with_rejected(hash),
        reorg: ReorgView { invalid: v.reorg.invalid.insert(hash), ..v.reorg },
        ..v
    };
    w.without_slot(hash, height).without_ordered(hash).without_requests(just(hash))
}

/// A block broke a consensus rule: it is blacklisted and leaves the path, its request
/// and the queue.
pub fn apply_consensus_invalid_reject(st: &mut IbdWorkState, hub: &mut ChainHub, height: u32, hash: BlockHash)
    ensures
        final(st)@ == blacklisted(old(st)@, height, hash),
        final(hub)@ == dequeued(old(hub)@, height),
{
    dequeue(hub, height);
    st.body.mark_rejected(hash);
    st.reorg.invalid.insert(hash);
    if st.is_on_path(&hash, height) {
        st.height_to_hash.remove(&height);
    }
    remove_from_ordered(&mut st.ordered, &mut st.ordered_set, hash);
    clear_hash_inflight(&mut st.slots, &mut st.inflight, hash);
}

/// The state with the tips from `i` on explored.
pub open spec fn explored_from(v: WorkView, tips: Seq<BlockHash>, i: int) -> WorkView
    decreases tips.len() - i,
{
    if i < 0 || i >= tips.len() {
        v
    } else {
        explored_from(
            WorkView { reorg: v.reorg.with_explore(Seq::empty(), Some(tips[i])), ..v },
            tips,
            i + 1,
        )
    }
}

/// Explore the tips that compete with a blacklisted block.
pub fn explore_competing(st: &mut IbdWorkState, tips: &Vec<BlockHash>)
    ensures
        final(st)@ == explored_from(old(st)@, tips@, 0),
{
    let ghost all = explored_from(st@, tips@, 0);
    let none: Vec<BlockHash> = Vec::new();
    assert(none@ =~= Seq::<BlockHash>::empty());
    let mut i: usize = 0;
    while i < tips.len()
        invariant
            i <= tips@.len(),
            none@ == Seq::<BlockHash>::empty(),
            explored_from(st@, tips@, i as int) == all,
        decreases tips@.len() - i,
    {
        st.reorg.register_explore(&none, Some(tips[i]));
        i = i + 1;
    }
}

/// Is the slot above the tip held by a sound header?
pub open spec fn next_sound(v: WorkView, hub: HubView) -> bool {
    v.height_to_hash.contains_key(hub.path_lo()) && v.sound(v.height_to_hash[hub.path_lo()])
}

/// The state once it is seen whether confirm can go on.
pub open spec fn unstuck(v: WorkView, hub: HubView, rewound: bool, now_ms: u64) -> WorkView {
    if rewound || next_sound(v, hub) {
        WorkView { confirm_stuck_since: None, ..v }
    } else {
        v.stuck(now_ms)
    }
}

/// May `out` be the state once a blacklisted block is dealt with? A valid child of
/// the tip is planted first.
pub open spec fn invalid_dealt_with(
    v: WorkView,
    hub: HubView,
    max_ordered: nat,
    rewound: bool,
    now_ms: u64,
    out: WorkView,
) -> bool {
    exists|w: WorkView| #[trigger]
        tip_child_planted(v, hub, max_ordered, w) && out == unstuck(w, hub, rewound, now_ms)
}

/// The rewind for a blacklisted block is answered and the stored path planted: a
/// valid child of the tip is planted, and confirm is stuck unless it can go on.
pub fn invalid_settled(
    st: &mut IbdWorkState,
    hub: &ChainHub,
    max_ordered: usize,
    rewound: bool,
    now_ms: u64,
)
    ensures
        invalid_dealt_with(
            old(st)@,
            hub@,
            max_ordered as nat,
            rewound,
            now_ms,
            final(st)@,
        ),
{
    plant_valid_tip_child(st, hub, max_ordered);
    let ghost w = st@;
    let next_ok = match st.height_to_hash.get(&hub.path_lo()) {
        Some(nh) => !st.reorg.invalid.contains(nh) && !st.body.is_rejected(nh),
        None => false,
    };
    if rewound || next_ok {
        st.confirm_stuck_since = None;
    } else {
        note_confirm_stuck(st, now_ms);
    }
    assert(tip_child_planted(old(st)@, hub@, max_ordered as nat, w) && st@ == unstuck(
        w,
        hub@,
        rewound,
        now_ms,
    ));
}

/// What a reject does, by the class it is treated as.
pub open spec fn rejected_by(
    v: WorkView,
    hub: HubView,
    height: u32,
    hash: BlockHash,
    class: ConfirmRejectClass,
    err: Seq<char>,
    now_ms: u64,
) -> (WorkView, HubView, RejectStep) {
    match class {
        ConfirmRejectClass::Cancelled => (v, hub, RejectStep::Done),
        ConfirmRejectClass::SoftWire => if bad_prev_text(err) {
            (bad_prev_noted(v, hash), lookup_at_tip(hub), RejectStep::AskRewind)
        } else {
            (refetched(v, hash), dequeued(hub, height), archive_step(err))
        },
        ConfirmRejectClass::Cascade => (
            cascaded(v, hub, height, hash, err, now_ms),
            hub,
            RejectStep::Done,
        ),
        ConfirmRejectClass::EngineFault => (
            faulted(v, height, hash, err, now_ms),
            dequeued(hub, height),
            RejectStep::Done,
        ),
        ConfirmRejectClass::ConsensusInvalid => (
            blacklisted(v, height, hash),
            dequeued(hub, height),
            RejectStep::Invalidated,
        ),
    }
}

/// A block was not confirmed. The blank hash stands for no block and is ignored.
pub fn apply_confirm_reject(
    st: &mut IbdWorkState,
    hub: &mut ChainHub,
    feed: &mut ConfirmFeed,
    height: u32,
    hash: BlockHash,
    class: ConfirmRejectClass,
    err: &str,
    batch_len: usize,
    now_ms: u64,
) -> (step: RejectStep)
    ensures
        hash == BlockHash::spec_zero() ==> step == RejectStep::Done && final(st)@ == old(st)@
            && final(hub)@ == old(hub)@ && final(feed)@ == old(feed)@,
        hash != BlockHash::spec_zero() ==> {
            let c = settled_class(old(hub)@, hash, class, err@, batch_len);
            &&& (final(st)@, final(hub)@, step) == rejected_by(
                old(st)@,
                old(hub)@,
                height,
                hash,
                c,
                err@,
                now_ms,
            )
            &&& final(feed)@ == (if c == ConfirmRejectClass::Cascade && batch_len > 1 {
                FeedView { single: true, ..old(feed)@ }
            } else {
                old(feed)@
            })
        },
{
    if hash.is_zero() {
        return RejectStep::Done;
    }
    let class = settle_class(hub, &hash, class, err, batch_len);
    if class == ConfirmRejectClass::Cascade && batch_len > 1 {
        feed.request_single_block();
    }
    match class {
        ConfirmRejectClass::Cancelled => RejectStep::Done,
        ConfirmRejectClass::SoftWire => apply_soft_wire_reject(st, hub, height, hash, err),
        ConfirmRejectClass::Cascade => {
            apply_cascade_reject(st, hub, height, hash, err, now_ms);
            RejectStep::Done
        },
        ConfirmRejectClass::EngineFault => {
            apply_engine_fault_reject(st, hub, height, hash, err, now_ms);
            RejectStep::Done
        },
        ConfirmRejectClass::ConsensusInvalid => {
            apply_consensus_invalid_reject(st, hub, height, hash);
            RejectStep::Invalidated
        },
    }
}

/// What a confirm event leads to.
#[derive(Clone, Copy, Debug, PartialEq, Eq, Structural)]
pub enum ConfirmStep {
    /// The tip moved on; the writer takes this height next.
    Accepted { write_next: u32 },
    Rejected(RejectStep),
}

/// Take in one confirm event.
pub fn apply_confirm_event(
    st: &mut IbdWorkState,
    hub: &mut ChainHub,
    feed: &mut ConfirmFeed,
    ev: &ConfirmEvent,
    now_ms: u64,
) -> (r: ConfirmStep)
    ensures
        match *ev {
            ConfirmEvent::Accepted { hash } => r == (ConfirmStep::Accepted {
                write_next: sat_add32(old(hub)@.tip_or_zero(), 1),
            }) && final(st)@ == old(st)@.accepted(old(hub)@, hash) && final(hub)@ == old(hub)@
                && final(feed)@ == old(feed)@,
            ConfirmEvent::Reject { height, hash, class, err, batch_len } => if hash
                == BlockHash::spec_zero() {
                r == ConfirmStep::Rejected(RejectStep::Done) && final(st)@ == old(st)@
                    && final(hub)@ == old(hub)@ && final(feed)@ == old(feed)@
            } else {
                let c = settled_class(old(hub)@, hash, class, err@, batch_len);
                let want = rejected_by(old(st)@, old(hub)@, height, hash, c, err@, now_ms);
                &&& r == ConfirmStep::Rejected(want.2)
                &&& final(st)@ == want.0
                &&& final(hub)@ == want.1
                &&& final(feed)@ == (if c == ConfirmRejectClass::Cascade && batch_len > 1 {
                    FeedView { single: true, ..old(feed)@ }
                } else {
                    old(feed)@
                })
            },
        },
{
    match ev {
        ConfirmEvent::Accepted { hash } => {
            let write_next: u32 = on_accepted(st, hub, *hash);
            ConfirmStep::Accepted { write_next }
        },
        ConfirmEvent::Reject { height, hash, class, err, batch_len } => ConfirmStep::Rejected(
            apply_confirm_reject(
                st,
                hub,
                feed,
                *height,
                *hash,
                *class,
                err.as_str(),
                *batch_len,
                now_ms,
            ),
        ),
    }
}

/// Only a broken consensus rule puts a hash on the blacklist; every other class
/// leaves the rejected and the invalid hashes as they are.
pub proof fn law_only_consensus_invalid_blacklists(
    v: WorkView,
    hub: HubView,
    height: u32,
    hash: BlockHash,
    class: ConfirmRejectClass,
    err: Seq<char>,
    now_ms: u64,
)
    requires
        v.body.disjoint(),
    ensures
        class != ConfirmRejectClass::ConsensusInvalid ==> rejected_by(
            v,
            hub,
            height,
            hash,
            class,
            err,
            now_ms,
        ).0.body.rejected == v.body.rejected && rejected_by(
            v,
            hub,
            height,
            hash,
            class,
            err,
            now_ms,
        ).0.reorg.invalid == v.reorg.invalid,
        class == ConfirmRejectClass::ConsensusInvalid ==> !rejected_by(
            v,
            hub,
            height,
            hash,
            class,
            err,
            now_ms,
        ).0.sound(hash),
{
}

/// The third cascade in a row of one hash at one tip ends the run, and not before.
pub proof fn law_third_cascade_halts(
    v: WorkView,
    hub: HubView,
    height: u32,
    hash: BlockHash,
    err: Seq<char>,
    now_ms: u64,
)
    requires
        v.halt is None,
        match v.cascade_at {
            Some((h, t, _)) => h != hash || t != tip_or_blank(hub),
            None => true,
        },
    ensures
        ({
            let a = cascaded(v, hub, height, hash, err, now_ms);
            let b = cascaded(a, hub, height, hash, err, now_ms);
            let c = cascaded(b, hub, height, hash, err, now_ms);
            a.halt is None && b.halt is None && c.halt is Some
        }),
{
}

/// The first engine fault at a hash is tried again; the second ends the run.
pub proof fn law_second_engine_fault_halts(
    v: WorkView,
    height: u32,
    hash: BlockHash,
    err: Seq<char>,
    now_ms: u64,
)
    requires
        v.halt is None,
        !v.engine_fault_seen.contains(hash),
    ensures
        faulted(v, height, hash, err, now_ms).halt is None,
        faulted(faulted(v, height, hash, err, now_ms), height, hash, err, now_ms).halt is Some,
{
}

} // verus!

//! What becomes of a block that confirm refused, from the error to the work state.
use vstd::prelude::*;
use crate::chain::HubView;
use crate::confirm_class::{class_of_consensus, class_of_net, class_of_text, lower_text, ConfirmRejectClass};
use crate::confirm_events::{
    cascade_count, cascaded, evicted, rejected_by, settled_class, unstuck, RejectStep,
};
use crate::error::{ConsensusError, NetError, StoreFault};
use crate::hash::BlockHash;
use crate::state::WorkView;
use crate::text::has_text;

verus! {

/// What a failed wave of `batch_len` blocks comes to, told by its first block: the state, the
/// chain, and what to do next.
pub open spec fn failed(
    v: WorkView,
    hub: HubView,
    height: u32,
    hash: BlockHash,
    e: ConsensusError,
    msg: Seq<char>,
    batch_len: usize,
    now_ms: u64,
) -> (WorkView, HubView, RejectStep) {
    let told = class_of_consensus(e).isolated(batch_len);
    rejected_by(
        v,
        hub,
        height,
        hash,
        settled_class(hub, hash, told, msg, batch_len),
        msg,
        now_ms,
    )
}

/// Does the error name a broken consensus rule?
pub open spec fn breaks_a_rule(e: ConsensusError) -> bool {
    ||| e is BadTx
    ||| e is Script
    ||| e is PrevoutSpent
    ||| e is InvalidPow
    ||| e is BadVersion
    ||| e is MissingPrevout
    ||| e is BadBlock && e->BadBlock_0@ != "merkle root mismatch"@
    ||| e is BadHeader && e->BadHeader_0@ != "missing retarget first header"@
}

/// Does the message name a fault of the engine, whatever the error?
pub open spec fn names_engine_fault(msg: Seq<char>) -> bool {
    ||| has_text(msg, "parent create_fk unresolved"@)
    ||| has_text(msg, "spend annotate missing pin denserels"@)
}

/// Was the block tried on its own parent, or is nothing known of its parent?
pub open spec fn on_its_parent(hub: HubView, hash: BlockHash) -> bool {
    if hub.parents.contains_key(hash) {
        hub.tip is Some && hub.tip->0.hash == hub.parents[hash]
    } else {
        !hub.unreadable.contains(hash)
    }
}

/// Is `hash` neither requested, nor ordered, nor at `height` of the path?
pub open spec fn is_off(v: WorkView, height: u32, hash: BlockHash) -> bool {
    &&& !v.inflight.contains_key(hash)
    &&& forall|i: int| 0 <= i < v.slots.len() ==> !(#[trigger] v.slots[i]).in_flight.contains(hash)
    &&& !v.ordered_set.contains(hash)
    &&& !(v.height_to_hash.contains_key(height) && v.height_to_hash[height] == hash)
}

/// Does nothing change for `g`: marks, path, order and requests?
pub open spec fn same_for(v: WorkView, w: WorkView, g: BlockHash) -> bool {
    &&& w.body.known.contains(g) == v.body.known.contains(g)
    &&& w.body.pending.contains_key(g) == v.body.pending.contains_key(g)
    &&& w.body.missing.contains(g) == v.body.missing.contains(g)
    &&& w.body.rejected.contains(g) == v.body.rejected.contains(g)
    &&& w.reorg.invalid.contains(g) == v.reorg.invalid.contains(g)
    &&& w.ordered_set.contains(g) == v.ordered_set.contains(g)
    &&& w.inflight.contains_key(g) == v.inflight.contains_key(g)
    &&& v.inflight.contains_key(g) ==> w.inflight[g] == v.inflight[g]
    &&& w.hash_height == v.hash_height
    &&& forall|ht: u32|
        (#[trigger] v.height_to_hash.contains_key(ht) && v.height_to_hash[ht] == g) == (
        w.height_to_hash.contains_key(ht) && w.height_to_hash[ht] == g)
}

/// A lone block that broke a consensus rule on its own parent is rejected for good: it is
/// blacklisted, leaves the path, the order, every request and the queue, and other branches
/// are looked for. No other hash is touched.
pub proof fn law_broken_rule_blacklists(
    v: WorkView,
    hub: HubView,
    height: u32,
    hash: BlockHash,
    e: ConsensusError,
    msg: Seq<char>,
    batch_len: usize,
    now_ms: u64,
    g: BlockHash,
)
    requires
        breaks_a_rule(e),
        batch_len <= 1,
        on_its_parent(hub, hash),
        !names_engine_fault(msg),
        g != hash,
    ensures
        ({
            let r = failed(v, hub, height, hash, e, msg, batch_len, now_ms);
            &&& r.0.body.rejected.contains(hash)
            &&& r.0.reorg.invalid.contains(hash)
            &&& !r.0.body.known.contains(hash) && !r.0.body.missing.contains(hash)
            &&& !r.0.body.pending.contains_key(hash)
            &&& is_off(r.0, height, hash)
            &&& same_for(v, r.0, g)
            &&& !r.1.queue.contains_key(height)
            &&& r.1.queue == hub.queue.remove(height)
            &&& r.2 == RejectStep::Invalidated
            &&& r.0.halt == v.halt
        }),
{
    let r = failed(v, hub, height, hash, e, msg, batch_len, now_ms);
    assert forall|i: int| 0 <= i < r.0.slots.len() implies !(#[trigger] r.0.slots[i]).in_flight.contains(
        hash,
    ) by {}
}

/// A broken rule blacklists nothing where several blocks failed together, or where the block
/// was tried on another parent: the path, the marks and the queue stay, and the hash is
/// tried again.
pub proof fn law_doubtful_verdict_blacklists_nothing(
    v: WorkView,
    hub: HubView,
    height: u32,
    hash: BlockHash,
    e: ConsensusError,
    msg: Seq<char>,
    batch_len: usize,
    now_ms: u64,
)
    requires
        breaks_a_rule(e),
        batch_len > 1 || !on_its_parent(hub, hash),
        !names_engine_fault(msg),
    ensures
        ({
            let r = failed(v, hub, height, hash, e, msg, batch_len, now_ms);
            &&& r.0.body == v.body
            &&& r.0.reorg == v.reorg
            &&& r.0.ordered == v.ordered && r.0.ordered_set == v.ordered_set
            &&& r.0.height_to_hash == v.height_to_hash
            &&& !r.0.inflight.contains_key(hash)
            &&& r.1 == hub
            &&& r.2 == RejectStep::Done
        }),
{
}

/// A body that does not match its header is fetched again, and nothing is blacklisted: the
/// hash keeps its place on the path, and its body is missing, unrequested and out of the
/// queue.
pub proof fn law_mismatched_body_is_fetched_again(
    v: WorkView,
    hub: HubView,
    height: u32,
    hash: BlockHash,
    e: ConsensusError,
    msg: Seq<char>,
    batch_len: usize,
    now_ms: u64,
    g: BlockHash,
)
    requires
        e is BadBlock && e->BadBlock_0@ == "merkle root mismatch"@ || e is BadHeader
            && e->BadHeader_0@ == "missing retarget first header"@,
        !names_engine_fault(msg),
        !has_text(msg, "unexpected previous header"@),
        !v.body.rejected.contains(hash),
        g != hash,
    ensures
        ({
            let r = failed(v, hub, height, hash, e, msg, batch_len, now_ms);
            &&& r.0.body.missing.contains(hash)
            &&& !r.0.body.known.contains(hash) && !r.0.body.pending.contains_key(hash)
            &&& !r.0.body.rejected.contains(hash)
            &&& r.0.reorg == v.reorg
            &&& r.0.ordered == v.ordered && r.0.ordered_set == v.ordered_set
            &&& r.0.height_to_hash == v.height_to_hash
            &&& !r.0.inflight.contains_key(hash)
            &&& same_for(v, r.0, g)
            &&& r.1.queue == hub.queue.remove(height)
            &&& r.0.halt == v.halt
            &&& r.2 == (if has_text(msg, "merkle root mismatch"@) || has_text(
                msg,
                "bad-txnmrklroot"@,
            ) || has_text(msg, "witness commitment"@) {
                RejectStep::ClearArchived
            } else {
                RejectStep::Done
            })
        }),
{
}

/// A block whose parent is not the tip leaves the queue and the path alone: its branch is
/// explored, headers open again, lookup goes back to the tip, and the caller sees whether to
/// rewind.
pub proof fn law_wrong_parent_asks_for_a_rewind(
    v: WorkView,
    hub: HubView,
    height: u32,
    hash: BlockHash,
    e: ConsensusError,
    msg: Seq<char>,
    batch_len: usize,
    now_ms: u64,
)
    requires
        e is BadPrev,
        has_text(msg, "unexpected previous header"@),
        !names_engine_fault(msg),
    ensures
        ({
            let r = failed(v, hub, height, hash, e, msg, batch_len, now_ms);
            &&& r.2 == RejectStep::AskRewind
            &&& r.0.reorg.explore_tips.contains(hash)
            &&& !r.0.headers_done
            &&& r.0.body == v.body
            &&& r.0.height_to_hash == v.height_to_hash
            &&& r.0.ordered == v.ordered
            &&& r.0.inflight == v.inflight
            &&& r.1.queue == hub.queue
            &&& match hub.tip {
                Some(t) => r.1.taken_hi == Some(t.height),
                None => r.1.taken_hi is None,
            }
        }),
{
    let tips = v.reorg.explore_tips;
    let one = seq![hash];
    assert(one.drop_first() =~= Seq::<BlockHash>::empty());
    reveal_with_fuel(crate::reorg::joined, 3);
    assert(tips.push(hash)[tips.len() as int] == hash);
}

/// A store failure that is no verdict on the block ends in one more try, never in a
/// blacklisting: the queued body goes, the request is free, and confirm counts as stuck.
pub proof fn law_store_fault_is_tried_once_more(
    v: WorkView,
    hub: HubView,
    height: u32,
    hash: BlockHash,
    e: ConsensusError,
    msg: Seq<char>,
    batch_len: usize,
    now_ms: u64,
)
    requires
        e is Store,
        e->Store_0.fault is Io || e->Store_0.fault is BudgetFull || e->Store_0.fault is Other
            || e->Store_0.fault is Corrupt && e->Store_0.session_fault,
        !v.engine_fault_seen.contains(hash),
    ensures
        ({
            let r = failed(v, hub, height, hash, e, msg, batch_len, now_ms);
            &&& r.0.body == v.body
            &&& r.0.reorg == v.reorg
            &&& r.0.height_to_hash == v.height_to_hash
            &&& r.0.ordered == v.ordered
            &&& !r.0.inflight.contains_key(hash)
            &&& r.0.engine_fault_seen.contains(hash)
            &&& r.0.confirm_stuck_since is Some
            &&& r.0.halt == v.halt
            &&& r.1.queue == hub.queue.remove(height)
            &&& r.2 == RejectStep::Done
        }),
{
}

/// Giving up on request is no verdict at all: nothing changes.
pub proof fn law_cancelled_changes_nothing(
    v: WorkView,
    hub: HubView,
    height: u32,
    hash: BlockHash,
    e: ConsensusError,
    msg: Seq<char>,
    batch_len: usize,
    now_ms: u64,
)
    requires
        e is Cancelled || e is Store && e->Store_0.fault is Cancelled,
        !names_engine_fault(msg),
    ensures
        failed(v, hub, height, hash, e, msg, batch_len, now_ms) == (v, hub, RejectStep::Done),
{
}

/// Does `text` hold one of `needles`?
pub open spec fn holds_any(text: Seq<char>, needles: Seq<Seq<char>>) -> bool {
    exists|i: int| 0 <= i < needles.len() && has_text(text, #[trigger] needles[i])
}

/// Texts that say that confirm was given up.
pub open spec fn cancel_words() -> Seq<Seq<char>> {
    seq!["confirm cancelled"@, "cancelled:"@]
}

/// Texts that say that a body or its context does not match.
pub open spec fn mismatch_words() -> Seq<Seq<char>> {
    seq![
        "merkle root mismatch"@,
        "bad-txnmrklroot"@,
        "witness commitment"@,
        "missing retarget first header"@,
    ]
}

/// Texts that say that a plan was stale.
pub open spec fn stale_words() -> Seq<Seq<char>> {
    seq!["fk mismatch"@, "plan not committed in order"@, "connect height not tip+1"@]
}

/// Texts that say that the store or the pipeline failed.
pub open spec fn fault_words() -> Seq<Seq<char>> {
    seq![
        "parent create_fk unresolved"@,
        "spend annotate missing pin denserels"@,
        "corrupt record"@,
        "io error"@,
    ]
}

/// Texts that say that a consensus rule was broken.
pub open spec fn rule_words() -> Seq<Seq<char>> {
    seq![
        "script verification"@,
        "prevout already spent"@,
        "pow invalid"@,
        "bad-version"@,
        "bad transaction"@,
        "bad block"@,
        "bad header"@,
        "missing prevout"@,
    ]
}

/// A text is read by what it names, in any case of its letters: giving up before a
/// mismatch, a mismatch before a stale plan, that before a fault of the store, and a broken
/// rule last. A text that names nothing known is taken for a stale plan, so that no block is
/// blacklisted for it.
pub proof fn law_text_is_read_by_what_it_names(err: Seq<char>, session_fault: bool)
    ensures
        ({
            let s = lower_text(err);
            let c = class_of_text(err, session_fault);
            let given_up = holds_any(s, cancel_words());
            let soft = holds_any(s, mismatch_words()) || has_text(err, "unexpected previous header"@);
            let stale = holds_any(s, stale_words());
            let fault = session_fault || holds_any(s, fault_words());
            let rule = holds_any(s, rule_words());
            &&& given_up ==> c is Cancelled
            &&& !given_up && soft ==> c is SoftWire
            &&& !given_up && !soft && stale ==> c is Cascade
            &&& !given_up && !soft && !stale && fault ==> c is EngineFault
            &&& !given_up && !soft && !stale && !fault && rule ==> c is ConsensusInvalid
            &&& !given_up && !soft && !stale && !fault && !rule ==> c is Cascade
        }),
{
    let s = lower_text(err);
    assert forall|w: Seq<Seq<char>>, k: int|
        0 <= k < w.len() && has_text(s, #[trigger] w[k]) implies holds_any(s, w) by {}
    let a = cancel_words();
    let b = mismatch_words();
    let c = stale_words();
    let d = fault_words();
    let e = rule_words();
    assert(has_text(s, a[0]) == has_text(s, "confirm cancelled"@));
    assert(has_text(s, a[1]) == has_text(s, "cancelled:"@));
    assert(b[0] == "merkle root mismatch"@ && b[1] == "bad-txnmrklroot"@ && b[2]
        == "witness commitment"@ && b[3] == "missing retarget first header"@);
    assert(c[0] == "fk mismatch"@ && c[1] == "plan not committed in order"@ && c[2]
        == "connect height not tip+1"@);
    assert(d[0] == "parent create_fk unresolved"@ && d[1] == "spend annotate missing pin denserels"@
        && d[2] == "corrupt record"@ && d[3] == "io error"@);
    assert(e[0] == "script verification"@ && e[1] == "prevout already spent"@ && e[2]
        == "pow invalid"@ && e[3] == "bad-version"@ && e[4] == "bad transaction"@ && e[5]
        == "bad block"@ && e[6] == "bad header"@ && e[7] == "missing prevout"@);
}

/// A failed load is read by its kind where that says enough, else by its text.
pub proof fn law_load_failure_is_read_by_its_kind(e: NetError, text: Seq<char>, session_fault: bool)
    ensures
        e is Cancelled ==> class_of_net(e, text, session_fault) is Cancelled,
        e is Mutated || e is BadPrev ==> class_of_net(e, text, session_fault) is SoftWire,
        e matches NetError::ConnectFailed(m) ==> class_of_net(e, text, session_fault)
            == class_of_text(m@, session_fault),
        e matches NetError::Consensus(m) ==> class_of_net(e, text, session_fault) == class_of_text(
            m@,
            session_fault,
        ),
        e is Timeout || e is Disconnected || e is Io || e is Protocol || e is Bip324 || e is V1Peer
            || e is InvalidV2Type ==> class_of_net(e, text, session_fault) == class_of_text(
            text,
            session_fault,
        ),
{
}

/// Letters are told apart by nothing but their case: a lower-case text has no capital letter,
/// keeps its length, and leaves every other character as it was.
pub proof fn law_lower_case_keeps_the_text(s: Seq<char>, i: int)
    requires
        0 <= i < s.len(),
    ensures
        lower_text(s).len() == s.len(),
        'A' <= s[i] <= 'Z' ==> lower_text(s)[i] as int == s[i] as int + ('a' as int - 'A' as int),
        !('A' <= s[i] <= 'Z') ==> lower_text(s)[i] == s[i],
{
}

/// A stale plan is retried twice at the same tip: the first two times in a row confirm counts
/// as stuck, the third ends the run. Another hash or another tip starts the count over. The
/// queued wire is not asked for again, and nothing is blacklisted.
pub proof fn law_stale_plan_is_retried_twice(
    v: WorkView,
    hub: HubView,
    height: u32,
    hash: BlockHash,
    err: Seq<char>,
    now_ms: u64,
    other: BlockHash,
)
    requires
        hub.tip is Some,
        v.halt is None,
        other != hash,
    ensures
        ({
            let tip = (hub.tip->0).hash;
            let w = cascaded(v, hub, height, hash, err, now_ms);
            let before: int = if v.cascade_at is Some && (v.cascade_at->0).0 == hash && (
            v.cascade_at->0).1 == tip {
                (v.cascade_at->0).2 as int
            } else {
                0
            };
            &&& before < 2 ==> w.halt is None && w.confirm_stuck_since is Some
            &&& before >= 2 ==> w.halt is Some
            &&& w.cascade_at is Some && (w.cascade_at->0).0 == hash && (w.cascade_at->0).1 == tip
            &&& before < 255 ==> (w.cascade_at->0).2 == before + 1
            &&& w.body == v.body && w.reorg == v.reorg && w.height_to_hash == v.height_to_hash
            &&& !w.inflight.contains_key(hash)
            &&& w.inflight.contains_key(other) == v.inflight.contains_key(other)
            &&& cascade_count(w.cascade_at, other, tip) == 1
        }),
{
}

/// A confirmed block leaves the ordered path and is archived, confirm is no longer stuck, and
/// the ready height reaches the tip. Other blocks stay as they were.
pub proof fn law_confirmed_block_leaves_the_path(
    v: WorkView,
    hub: HubView,
    hash: BlockHash,
    g: BlockHash,
)
    requires
        hub.tip is Some,
        !v.body.rejected.contains(hash),
        g != hash,
    ensures
        ({
            let w = v.accepted(hub, hash);
            &&& !w.ordered_set.contains(hash)
            &&& w.ordered_set.contains(g) == v.ordered_set.contains(g)
            &&& w.body.known.contains(hash) && !w.body.pending.contains_key(hash)
                && !w.body.missing.contains(hash)
            &&& w.body.known.contains(g) == v.body.known.contains(g)
            &&& w.body.pending.contains_key(g) == v.body.pending.contains_key(g)
            &&& w.confirm_stuck_since is None
            &&& w.max_ready_height >= (hub.tip->0).height && w.max_ready_height
                >= v.max_ready_height
            &&& w.inflight == v.inflight && w.height_to_hash == v.height_to_hash
        }),
{
}

/// A block with another parent than the tip leaves its slot, the order and its request; a
/// hash that is not on the path at that height keeps its order.
pub proof fn law_block_off_the_tip_is_taken_out(
    v: WorkView,
    hash: BlockHash,
    height: u32,
    other: u32,
)
    requires
        other != height,
    ensures
        ({
            let w = evicted(v, hash, height);
            &&& !(w.height_to_hash.contains_key(height) && w.height_to_hash[height] == hash)
            &&& !w.inflight.contains_key(hash)
            &&& v.height_to_hash.contains_key(height) && v.height_to_hash[height] == hash
                ==> !w.ordered_set.contains(hash)
            &&& !(v.height_to_hash.contains_key(height) && v.height_to_hash[height] == hash)
                ==> w.ordered == v.ordered && w.height_to_hash == v.height_to_hash
            &&& w.height_to_hash.contains_key(other) == v.height_to_hash.contains_key(other)
            &&& w.body == v.body && w.reorg == v.reorg
        }),
{
}

/// Confirm counts as stuck until the tip is rewound or a sound header stands right above it;
/// the first moment of being stuck is kept.
pub proof fn law_confirm_is_stuck_without_a_sound_next(
    v: WorkView,
    hub: HubView,
    rewound: bool,
    now_ms: u64,
)
    requires
        hub.tip is Some && (hub.tip->0).height < u32::MAX,
    ensures
        ({
            let up = ((hub.tip->0).height + 1) as u32;
            let next = v.height_to_hash.contains_key(up) && !v.reorg.invalid.contains(
                v.height_to_hash[up],
            ) && !v.body.rejected.contains(v.height_to_hash[up]);
            let w = unstuck(v, hub, rewound, now_ms);
            &&& rewound || next ==> w.confirm_stuck_since is None
            &&& !rewound && !next && v.confirm_stuck_since is None ==> w.confirm_stuck_since
                == Some(now_ms)
            &&& !rewound && !next && v.confirm_stuck_since is Some ==> w.confirm_stuck_since
                == v.confirm_stuck_since
        }),
{
}

} // verus!

//! Peer dial decisions, header requests, stall disconnects and cooldowns.
use vstd::prelude::*;
use crate::chain::{ChainHub, HubView};
use crate::error::NetError;
use crate::hash::BlockHash;
use crate::keyed::{KeyMap, KeySet};
use crate::peer_io::MAX_LOCATOR_SZ;
use crate::peers::{
    alive_ids, any_slot, find_slot, live_ids, live_slot, slot_views, CmdView, PeerAddr, PeerCmd,
    PeerSlot, SlotView,
};
use crate::relslow::{
    hysteresis, min_samples_for, picked, relative_slow_min_samples, relative_slow_with_hysteresis,
    the_pick, RelativeSlowSample, RELATIVE_SLOW_GLOBAL_WARMUP_MS,
};
use crate::reorg::lists;
use crate::state::{cmd_views, other_than, req_views, InflightReq, ReqView};
use crate::text::{contains_text, has_text};
use crate::time::{sat_add, sat_sub};
use std::collections::VecDeque;

verus! {

/// How long an address is not dialed again after a stall, in milliseconds.
pub const STALL_ADDR_COOLDOWN_MS: u64 = 600_000;

/// Shortest stall that counts, in milliseconds.
pub const STALL_FLOOR_MS: u64 = 30_000;

/// The sample of a mature slot: alive, active for long enough, with a rate.
pub open spec fn mature_sample(s: SlotView, active_floor_ms: u64) -> Seq<RelativeSlowSample> {
    match s.rate.ewma_bps {
        Some(bps) => if s.alive && s.rate.active_ms >= active_floor_ms {
            seq![
                RelativeSlowSample {
                    peer_id: s.id,
                    bps,
                    has_inflight: s.in_flight != Set::<BlockHash>::empty(),
                },
            ]
        } else {
            Seq::empty()
        },
        None => Seq::empty(),
    }
}

/// The samples of the mature slots, in slot order.
pub open spec fn mature_samples(s: Seq<SlotView>, active_floor_ms: u64) -> Seq<RelativeSlowSample>
    decreases s.len(),
{
    if s.len() == 0 {
        Seq::empty()
    } else {
        mature_samples(s.drop_last(), active_floor_ms) + mature_sample(s.last(), active_floor_ms)
    }
}

/// Samples of live slots that have been active for at least `active_floor_ms`.
pub fn mature_relative_slow_samples(slots: &Vec<PeerSlot>, active_floor_ms: u64) -> (r: Vec<
    RelativeSlowSample,
>)
    ensures
        r@ == mature_samples(slot_views(slots@), active_floor_ms),
{
    let ghost v = slot_views(slots@);
    let mut out: Vec<RelativeSlowSample> = Vec::new();
    let mut i: usize = 0;
    while i < slots.len()
        invariant
            i <= slots@.len(),
            v == slot_views(slots@),
            out@ == mature_samples(v.take(i as int), active_floor_ms),
        decreases slots@.len() - i,
    {
        let ghost was = out@;
        assert(v.take(i + 1).drop_last() =~= v.take(i as int));
        if slots[i].alive && slots[i].rate.active_ms >= active_floor_ms {
            if let Some(bps) = slots[i].rate.bps() {
                out.push(
                    RelativeSlowSample {
                        peer_id: slots[i].id,
                        bps,
                        has_inflight: !slots[i].in_flight.is_empty(),
                    },
                );
            }
        }
        assert(out@ =~= was + mature_sample(v[i as int], active_floor_ms));
        i = i + 1;
    }
    assert(v.take(i as int) =~= v);
    out
}

/// Earliest first-data time among alive slots, zero for none.
pub open spec fn first_block_ms(s: Seq<SlotView>) -> u64
    decreases s.len(),
{
    if s.len() == 0 {
        0
    } else {
        let rest = first_block_ms(s.drop_last());
        let own = s.last().first_data_ms;
        if s.last().alive && own != 0 && (rest == 0 || own < rest) {
            own
        } else {
            rest
        }
    }
}

/// Earliest first-data time among alive peers, zero for no download yet.
pub fn global_first_block_ms(slots: &Vec<PeerSlot>) -> (ms: u64)
    ensures
        ms == first_block_ms(slot_views(slots@)),
{
    let ghost v = slot_views(slots@);
    let mut min_first: u64 = 0;
    let mut i: usize = 0;
    while i < slots.len()
        invariant
            i <= slots@.len(),
            v == slot_views(slots@),
            min_first == first_block_ms(v.take(i as int)),
        decreases slots@.len() - i,
    {
        assert(v.take(i + 1).drop_last() =~= v.take(i as int));
        let first: u64 = slots[i].first_data_ms;
        if slots[i].alive && first != 0 && (min_first == 0 || first < min_first) {
            min_first = first;
        }
        i = i + 1;
    }
    assert(v.take(i as int) =~= v);
    min_first
}

/// Have block bytes come in for long enough for the relative rule?
pub open spec fn warmed_up(s: Seq<SlotView>, now_ms: u64) -> bool {
    first_block_ms(s) != 0 && sat_sub(now_ms, first_block_ms(s)) >= RELATIVE_SLOW_GLOBAL_WARMUP_MS
}

/// Have block bytes come in for long enough for the relative rule?
pub fn relative_slow_global_warmup_ok(slots: &Vec<PeerSlot>, now_ms: u64) -> (b: bool)
    ensures
        b == warmed_up(slot_views(slots@), now_ms),
{
    let first: u64 = global_first_block_ms(slots);
    if first == 0 {
        return false;
    }
    now_ms.saturating_sub(first) >= RELATIVE_SLOW_GLOBAL_WARMUP_MS
}

/// Why a dial failed, for the address book.
#[derive(Debug, Clone, Copy, PartialEq, Eq, Structural)]
pub enum DialFailKind {
    /// Connection, timeout or socket failure.
    Network,
    /// The encrypted transport is missing.
    Incompatible,
}

/// Why a dial failed: a peer without the encrypted transport, one whose handshake
/// failed on it, or one that broke the protocol around version negotiation is
/// incompatible; anything else is the network.
pub open spec fn fail_kind(e: NetError) -> DialFailKind {
    match e {
        NetError::V1Peer => DialFailKind::Incompatible,
        NetError::Bip324(_) => DialFailKind::Incompatible,
        NetError::Protocol(s) => if has_text(s@, "v2"@) || has_text(s@, "verack"@) || has_text(
            s@,
            "version"@,
        ) {
            DialFailKind::Incompatible
        } else {
            DialFailKind::Network
        },
        _ => DialFailKind::Network,
    }
}

/// Classify a dial failure.
pub fn classify_dial_err(e: &NetError) -> (k: DialFailKind)
    ensures
        k == fail_kind(*e),
{
    match e {
        NetError::V1Peer => DialFailKind::Incompatible,
        NetError::Bip324(_) => DialFailKind::Incompatible,
        NetError::Protocol(s) => {
            let t = s.as_str();
            if contains_text(t, "v2") || contains_text(t, "verack") || contains_text(t, "version") {
                DialFailKind::Incompatible
            } else {
                DialFailKind::Network
            }
        },
        _ => DialFailKind::Network,
    }
}

/// What is to be noted in the address book.
#[derive(Debug, Clone, Copy, PartialEq, Eq, Structural)]
pub enum BookNote {
    Connected { addr: PeerAddr },
    ConnectFailed { addr: PeerAddr, incompatible: bool },
}

/// Result of a dial batch: live slots and failures.
pub struct DialBatchResult {
    pub slots: Vec<PeerSlot>,
    pub failed: Vec<(PeerAddr, DialFailKind)>,
}

/// What a dial batch tells the address book: each success, then each failure.
pub fn apply_dial_result(result: &DialBatchResult) -> (notes: Vec<BookNote>)
    ensures
        notes@.len() == result.slots@.len() + result.failed@.len(),
        forall|i: int|
            0 <= i < result.slots@.len() ==> #[trigger] notes@[i] == (BookNote::Connected {
                addr: result.slots@[i].addr,
            }),
        forall|i: int|
            0 <= i < result.failed@.len() ==> #[trigger] notes@[result.slots@.len() + i] == (
            BookNote::ConnectFailed {
                addr: result.failed@[i].0,
                incompatible: result.failed@[i].1 == DialFailKind::Incompatible,
            }),
{
    let mut notes: Vec<BookNote> = Vec::new();
    let mut i: usize = 0;
    while i < result.slots.len()
        invariant
            i <= result.slots@.len(),
            notes@.len() == i,
            forall|j: int|
                0 <= j < i ==> #[trigger] notes@[j] == (BookNote::Connected {
                    addr: result.slots@[j].addr,
                }),
        decreases result.slots@.len() - i,
    {
        notes.push(BookNote::Connected { addr: result.slots[i].addr });
        i = i + 1;
    }
    let mut k: usize = 0;
    let ghost n = result.slots@.len() as int;
    while k < result.failed.len()
        invariant
            k <= result.failed@.len(),
            n == result.slots@.len(),
            notes@.len() == n + k,
            forall|j: int|
                0 <= j < n ==> #[trigger] notes@[j] == (BookNote::Connected {
                    addr: result.slots@[j].addr,
                }),
            forall|j: int|
                0 <= j < k ==> #[trigger] notes@[n + j] == (BookNote::ConnectFailed {
                    addr: result.failed@[j].0,
                    incompatible: result.failed@[j].1 == DialFailKind::Incompatible,
                }),
        decreases result.failed@.len() - k,
    {
        let (addr, kind) = result.failed[k];
        notes.push(
            BookNote::ConnectFailed { addr, incompatible: kind == DialFailKind::Incompatible },
        );
        k = k + 1;
    }
    notes
}

/// Dialing candidates taken so far, and all addresses not to be dialed (again).
#[verifier::ext_equal]
pub struct DialPick {
    pub picked: Seq<PeerAddr>,
    pub already: Set<PeerAddr>,
}

/// The candidates from `i` on that are dialed: each not dialed yet, until there
/// are `count`.
pub open spec fn dial_from(p: DialPick, c: Seq<PeerAddr>, i: int, count: usize) -> DialPick
    decreases c.len() - i,
{
    if i >= c.len() || p.picked.len() >= count {
        p
    } else if p.already.contains(c[i]) {
        dial_from(p, c, i + 1, count)
    } else {
        dial_from(
            DialPick { picked: p.picked.push(c[i]), already: p.already.insert(c[i]) },
            c,
            i + 1,
            count,
        )
    }
}

/// Which of the ranked candidates to dial: up to `count`, none that is in
/// `already`, none twice. `already` takes them in.
pub fn pick_dial_targets(candidates: &Vec<PeerAddr>, already: &mut KeySet<PeerAddr>, count: usize) -> (r:
    Vec<PeerAddr>)
    ensures
        (DialPick { picked: r@, already: final(already)@ }) == dial_from(
            (DialPick { picked: Seq::empty(), already: old(already)@ }),
            candidates@,
            0,
            count,
        ),
{
    let mut out: Vec<PeerAddr> = Vec::new();
    let ghost all = dial_from(
        DialPick { picked: Seq::empty(), already: already@ },
        candidates@,
        0,
        count,
    );
    assert(out@ =~= Seq::<PeerAddr>::empty());
    let mut i: usize = 0;
    while i < candidates.len() && out.len() < count
        invariant
            i <= candidates@.len(),
            dial_from(
                DialPick { picked: out@, already: already@ },
                candidates@,
                i as int,
                count,
            ) == all,
        decreases candidates@.len() - i,
    {
        let a = candidates[i];
        if !already.contains(&a) {
            already.insert(a);
            out.push(a);
        }
        i = i + 1;
    }
    out
}

/// How one dial ended.
pub enum DialOutcome {
    Connected(PeerSlot),
    Failed { addr: PeerAddr, err: NetError },
    TimedOut { addr: PeerAddr },
    /// Given up, or its task broke: nothing is noted.
    Lost,
}

/// `s` with `x` behind the last slot whose id is not above its own.
pub open spec fn slotted_by_id(s: Seq<SlotView>, x: SlotView) -> Seq<SlotView>
    decreases s.len(),
{
    if s.len() == 0 || s.last().id <= x.id {
        s.push(x)
    } else {
        slotted_by_id(s.drop_last(), x).push(s.last())
    }
}

/// The slots of the dials that connected, by id; those of the same id in the order of the
/// dials.
pub open spec fn dialed_slots(s: Seq<DialOutcome>) -> Seq<SlotView>
    decreases s.len(),
{
    if s.len() == 0 {
        Seq::empty()
    } else {
        match s.last() {
            DialOutcome::Connected(slot) => slotted_by_id(dialed_slots(s.drop_last()), slot@),
            _ => dialed_slots(s.drop_last()),
        }
    }
}

/// The dials that failed, and why, in order. A timeout is a failure of the network.
pub open spec fn dial_failures(s: Seq<DialOutcome>) -> Seq<(PeerAddr, DialFailKind)>
    decreases s.len(),
{
    if s.len() == 0 {
        Seq::empty()
    } else {
        let rest = dial_failures(s.drop_last());
        match s.last() {
            DialOutcome::Failed { addr, err } => rest.push((addr, fail_kind(err))),
            DialOutcome::TimedOut { addr } => rest.push((addr, DialFailKind::Network)),
            _ => rest,
        }
    }
}

fn insert_by_id(slots: &mut Vec<PeerSlot>, x: PeerSlot)
    ensures
        slot_views(final(slots)@) == slotted_by_id(slot_views(old(slots)@), x@),
{
    let ghost v = slot_views(slots@);
    let mut pos: usize = slots.len();
    let ghost all = slotted_by_id(v, x@);
    assert(v.take(v.len() as int) =~= v);
    assert(v.skip(v.len() as int) =~= Seq::<SlotView>::empty());
    assert(all =~= slotted_by_id(v.take(pos as int), x@) + v.skip(pos as int));
    while pos > 0 && slots[pos - 1].id > x.id
        invariant
            pos <= slots@.len(),
            v == slot_views(slots@),
            all == slotted_by_id(v.take(pos as int), x@) + v.skip(pos as int),
        decreases pos,
    {
        let ghost cut = v.take(pos as int);
        assert(cut.drop_last() =~= v.take(pos - 1));
        assert(cut.last() == slots@[pos - 1]@);
        assert(slotted_by_id(cut.drop_last(), x@).push(cut.last()) + v.skip(pos as int)
            =~= slotted_by_id(v.take(pos - 1), x@) + v.skip(pos - 1));
        pos = pos - 1;
    }
    let ghost cut = v.take(pos as int);
    assert(cut.len() > 0 ==> cut.last() == slots@[pos - 1]@);
    assert(all == cut.push(x@) + v.skip(pos as int));
    slots.insert(pos, x);
    assert(slot_views(slots@) =~= all);
}

/// What a batch of dials comes to.
pub fn settle_dials(outcomes: VecDeque<DialOutcome>) -> (r: DialBatchResult)
    ensures
        slot_views(r.slots@) == dialed_slots(outcomes@),
        r.failed@ == dial_failures(outcomes@),
{
    let ghost all = outcomes@;
    let mut rest = outcomes;
    assert(all.skip(0) =~= all);
    let mut slots: Vec<PeerSlot> = Vec::new();
    let mut failed: Vec<(PeerAddr, DialFailKind)> = Vec::new();
    assert(slot_views(slots@) =~= dialed_slots(all.take(0)));
    assert(failed@ =~= dial_failures(all.take(0)));
    let ghost mut n: int = 0;
    while rest.len() > 0
        invariant
            0 <= n <= all.len(),
            rest@.len() == all.len() - n,
            rest@ == all.skip(n),
            slot_views(slots@) == dialed_slots(all.take(n)),
            failed@ == dial_failures(all.take(n)),
        decreases rest@.len(),
    {
        let ghost first = rest@[0];
        assert(first == all[n]);
        assert(all.take(n + 1).drop_last() =~= all.take(n));
        assert(all.take(n + 1).last() == first);
        match rest.pop_front() {
            Some(DialOutcome::Connected(slot)) => {
                insert_by_id(&mut slots, slot);
            },
            Some(DialOutcome::Failed { addr, err }) => {
                failed.push((addr, classify_dial_err(&err)));
            },
            Some(DialOutcome::TimedOut { addr }) => {
                failed.push((addr, DialFailKind::Network));
            },
            _ => {},
        }
        proof {
            n = n + 1;
            assert(rest@ =~= all.skip(n));
        }
    }
    assert(all.take(n) =~= all);
    DialBatchResult { slots, failed }
}

proof fn lemma_slotted_ascends(s: Seq<SlotView>, x: SlotView)
    requires
        forall|i: int, j: int|
            0 <= i < j < s.len() ==> (#[trigger] s[i]).id <= (#[trigger] s[j]).id,
    ensures
        ({
            let r = slotted_by_id(s, x);
            &&& r.len() == s.len() + 1
            &&& forall|i: int, j: int|
                0 <= i < j < r.len() ==> (#[trigger] r[i]).id <= (#[trigger] r[j]).id
            &&& forall|i: int|
                0 <= i < r.len() ==> (#[trigger] r[i]) == x || s.contains(r[i])
        }),
    decreases s.len(),
{
    if s.len() == 0 || s.last().id <= x.id {
        assert forall|i: int| 0 <= i < s.len() implies s.contains(#[trigger] s[i]) by {}
    } else {
        lemma_slotted_ascends(s.drop_last(), x);
        let t = slotted_by_id(s.drop_last(), x);
        let r = t.push(s.last());
        assert forall|i: int| 0 <= i < r.len() implies (#[trigger] r[i]) == x || s.contains(
            r[i],
        ) by {
            if i < t.len() {
                assert(t[i] == x || s.drop_last().contains(t[i]));
                if t[i] != x {
                    let k = choose|k: int|
                        0 <= k < s.drop_last().len() && s.drop_last()[k] == t[i];
                    assert(s[k] == t[i]);
                }
            } else {
                assert(s[s.len() - 1] == s.last());
            }
        }
        assert forall|i: int, j: int| 0 <= i < j < r.len() implies (#[trigger] r[i]).id <= (
        #[trigger] r[j]).id by {
            if j == t.len() {
                assert(t[i] == x || s.drop_last().contains(t[i]));
                if t[i] != x {
                    let k = choose|k: int|
                        0 <= k < s.drop_last().len() && s.drop_last()[k] == t[i];
                    assert(s[k].id <= s[s.len() - 1].id);
                }
            }
        }
    }
}

/// The slots of a batch of dials come out by ascending id.
pub proof fn law_dialed_slots_ascend(s: Seq<DialOutcome>)
    ensures
        forall|i: int, j: int|
            0 <= i < j < dialed_slots(s).len() ==> (#[trigger] dialed_slots(s)[i]).id <= (
            #[trigger] dialed_slots(s)[j]).id,
    decreases s.len(),
{
    if s.len() > 0 {
        law_dialed_slots_ascend(s.drop_last());
        if let DialOutcome::Connected(slot) = s.last() {
            lemma_slotted_ascends(dialed_slots(s.drop_last()), slot@);
        }
    }
}

/// `acc` followed by what `s` lists from `i` on, each hash once, until there are
/// `cap`.
pub open spec fn gathered(acc: Seq<BlockHash>, s: Seq<BlockHash>, i: int, cap: int) -> Seq<BlockHash>
    decreases s.len() - i,
{
    if i >= s.len() {
        acc
    } else {
        let next = if acc.contains(s[i]) {
            acc
        } else {
            acc.push(s[i])
        };
        if next.len() >= cap {
            next
        } else {
            gathered(next, s, i + 1, cap)
        }
    }
}

/// Header locator: up to eight hashes of the work path, the confirmed tip, then
/// the store's locator up to the wire limit; the zero hash where all are empty.
pub open spec fn locator_of(tips: Seq<BlockHash>, tip: Option<BlockHash>, rest: Seq<BlockHash>) -> Seq<
    BlockHash,
> {
    let a = gathered(Seq::empty(), tips, 0, 8);
    let b = match tip {
        Some(t) => if a.contains(t) {
            a
        } else {
            a.push(t)
        },
        None => a,
    };
    let c = gathered(b, rest, 0, MAX_LOCATOR_SZ as int);
    if c.len() == 0 {
        seq![BlockHash::spec_zero()]
    } else {
        c
    }
}

fn gather(acc: &mut Vec<BlockHash>, s: &Vec<BlockHash>, cap: usize)
    ensures
        final(acc)@ == gathered(old(acc)@, s@, 0, cap as int),
{
    let ghost all = gathered(acc@, s@, 0, cap as int);
    let mut i: usize = 0;
    let mut going = true;
    while going && i < s.len()
        invariant
            i <= s@.len(),
            going ==> gathered(acc@, s@, i as int, cap as int) == all,
            !going ==> acc@ == all,
        decreases s@.len() - i,
    {
        if !lists(acc, &s[i]) {
            acc.push(s[i]);
        }
        if acc.len() >= cap {
            going = false;
        }
        i = i + 1;
    }
}

/// Locator for header requests: the work-path tips stand ahead of the confirmed
/// tip, so that a path far ahead of it is not served the same window again.
pub fn ibd_header_locator(hub: &ChainHub, work_tips: &Vec<BlockHash>) -> (r: Result<
    Vec<BlockHash>,
    NetError,
>)
    ensures
        match hub@.locator {
            Ok(rest) => r is Ok && r->Ok_0@ == locator_of(work_tips@, hub@.tip_hash(), rest),
            Err(e) => r is Err && (match r->Err_0 {
                NetError::Consensus(s) => s@ == e,
                _ => false,
            }),
        },
{
    let mut locator: Vec<BlockHash> = Vec::new();
    assert(locator@ =~= Seq::<BlockHash>::empty());
    gather(&mut locator, work_tips, 8);
    if let Some(t) = hub.tip_hash() {
        if !lists(&locator, &t) {
            locator.push(t);
        }
    }
    match &hub.locator {
        Ok(rest) => {
            gather(&mut locator, rest, MAX_LOCATOR_SZ);
            if locator.len() == 0 {
                locator.push(BlockHash::zero());
                assert(locator@ =~= seq![BlockHash::spec_zero()]);
            }
            Ok(locator)
        },
        Err(e) => Err(NetError::Consensus(e.clone())),
    }
}

/// The outbox once headers are asked of `peer`, and whether they were. Nothing is
/// sent to a peer that is not alive, nor without a locator.
pub open spec fn headers_asked(
    out: Seq<(usize, CmdView)>,
    slots: Seq<SlotView>,
    peer: usize,
    hub: HubView,
    tips: Seq<BlockHash>,
) -> Seq<(usize, CmdView)> {
    match hub.locator {
        Ok(rest) => if live_slot(slots, peer) is Some {
            out.push(
                (peer, CmdView::GetHeaders { locator: locator_of(tips, hub.tip_hash(), rest) }),
            )
        } else {
            out
        },
        Err(_) => out,
    }
}

/// Ask `peer` for headers; `Ok(true)` when the request went out, `Ok(false)` when
/// the peer is not alive, the store's error without a locator.
pub fn request_headers_from(
    slots: &Vec<PeerSlot>,
    peer: usize,
    hub: &ChainHub,
    work_tips: &Vec<BlockHash>,
    outbox: &mut Vec<(usize, PeerCmd)>,
) -> (r: Result<bool, NetError>)
    ensures
        cmd_views(final(outbox)@) == headers_asked(
            cmd_views(old(outbox)@),
            slot_views(slots@),
            peer,
            hub@,
            work_tips@,
        ),
        live_slot(slot_views(slots@), peer) is None ==> r == Ok::<bool, NetError>(false),
        live_slot(slot_views(slots@), peer) is Some ==> (match hub@.locator {
            Ok(_) => r == Ok::<bool, NetError>(true),
            Err(e) => r is Err && (match r->Err_0 {
                NetError::Consensus(s) => s@ == e,
                _ => false,
            }),
        }),
{
    if find_slot(slots, peer, true).is_none() {
        return Ok(false);
    }
    let ghost was = cmd_views(outbox@);
    match ibd_header_locator(hub, work_tips) {
        Ok(locator) => {
            let ghost l = locator@;
            outbox.push((peer, PeerCmd::GetHeaders { locator }));
            assert(cmd_views(outbox@) =~= was.push((peer, CmdView::GetHeaders { locator: l })));
            Ok(true)
        },
        Err(e) => Err(e),
    }
}

/// The peer whose turn it is: round robin over the alive ones.
pub open spec fn turn_of(slots: Seq<SlotView>, seq_no: u32) -> Option<usize> {
    let alive = live_ids(slots);
    if alive.len() == 0 {
        None
    } else {
        Some(alive[seq_no as int % alive.len() as int])
    }
}

/// The round-robin counter one request on; it stops at the largest value.
pub open spec fn next_turn(slots: Seq<SlotView>, seq_no: u32) -> u32 {
    if live_ids(slots).len() == 0 || seq_no == u32::MAX {
        seq_no
    } else {
        (seq_no + 1) as u32
    }
}

/// The outbox once headers are asked of the peer whose turn it is.
pub open spec fn headers_polled(
    out: Seq<(usize, CmdView)>,
    slots: Seq<SlotView>,
    hub: HubView,
    seq_no: u32,
    tips: Seq<BlockHash>,
) -> Seq<(usize, CmdView)> {
    match turn_of(slots, seq_no) {
        Some(peer) => headers_asked(out, slots, peer, hub, tips),
        None => out,
    }
}

/// Ask the next peer in turn for headers. `Ok(false)` without an alive peer.
pub fn request_headers(
    slots: &Vec<PeerSlot>,
    hub: &ChainHub,
    seq_no: &mut u32,
    work_tips: &Vec<BlockHash>,
    outbox: &mut Vec<(usize, PeerCmd)>,
) -> (r: Result<bool, NetError>)
    ensures
        *final(seq_no) == next_turn(slot_views(slots@), *old(seq_no)),
        cmd_views(final(outbox)@) == headers_polled(
            cmd_views(old(outbox)@),
            slot_views(slots@),
            hub@,
            *old(seq_no),
            work_tips@,
        ),
        live_ids(slot_views(slots@)).len() == 0 ==> r == Ok::<bool, NetError>(false),
        live_ids(slot_views(slots@)).len() > 0 ==> (match hub@.locator {
            Ok(_) => r == Ok::<bool, NetError>(true),
            Err(e) => r is Err && (match r->Err_0 {
                NetError::Consensus(s) => s@ == e,
                _ => false,
            }),
        }),
{
    let alive = alive_ids(slots);
    if alive.len() == 0 {
        return Ok(false);
    }
    let at: usize = (*seq_no as usize) % alive.len();
    let peer: usize = alive[at];
    proof {
        lemma_live_id_has_slot(slot_views(slots@), at as int);
    }
    *seq_no = seq_no.saturating_add(1);
    request_headers_from(slots, peer, hub, work_tips, outbox)
}

/// Every listed live id has an alive slot.
pub proof fn lemma_live_id_has_slot(s: Seq<SlotView>, k: int)
    requires
        0 <= k < live_ids(s).len(),
    ensures
        live_slot(s, live_ids(s)[k]) is Some,
{
    let id = live_ids(s)[k];
    lemma_live_id_from(s, k);
    let i = choose|i: int| 0 <= i < s.len() && #[trigger] s[i].id == id && s[i].alive;
    crate::peers::lemma_slot_from(s, id, true, 0);
    if live_slot(s, id) is None {
        assert(s[i].id != id || !s[i].alive);
    }
}

proof fn lemma_live_id_from(s: Seq<SlotView>, k: int)
    requires
        0 <= k < live_ids(s).len(),
    ensures
        exists|i: int| 0 <= i < s.len() && #[trigger] s[i].id == live_ids(s)[k] && s[i].alive,
    decreases s.len(),
{
    if k < live_ids(s.drop_last()).len() {
        lemma_live_id_from(s.drop_last(), k);
        let i = choose|i: int|
            0 <= i < s.len() - 1 && #[trigger] s.drop_last()[i].id == live_ids(s.drop_last())[k]
                && s.drop_last()[i].alive;
        assert(s[i].id == live_ids(s)[k]);
    } else {
        assert(s[s.len() - 1].id == live_ids(s)[k]);
    }
}

/// The request map once `peer` gives up the hashes of `set`.
pub open spec fn given_up(m: Map<BlockHash, ReqView>, set: Set<BlockHash>, peer: usize) -> Map<
    BlockHash,
    ReqView,
> {
    Map::new(
        |h: BlockHash|
            m.contains_key(h) && !(set.contains(h) && m[h].without_peer(peer).peers.len() == 0),
        |h: BlockHash|
            if set.contains(h) {
                m[h].without_peer(peer)
            } else {
                m[h]
            },
    )
}

/// A slot that is dead and has nothing requested.
pub open spec fn slot_retired(s: SlotView) -> SlotView {
    SlotView { alive: false, in_flight: Set::empty(), ..s }
}

/// Slots once `peer` is retired.
pub open spec fn peer_retired(s: Seq<SlotView>, peer: usize) -> Seq<SlotView> {
    match any_slot(s, peer) {
        Some(i) => s.update(i, slot_retired(s[i])),
        None => s,
    }
}

/// Requests once `peer` is retired.
pub open spec fn work_released(
    s: Seq<SlotView>,
    m: Map<BlockHash, ReqView>,
    peer: usize,
) -> Map<BlockHash, ReqView> {
    match any_slot(s, peer) {
        Some(i) => given_up(m, s[i].in_flight, peer),
        None => m,
    }
}

proof fn lemma_given_up_one(m: Map<BlockHash, ReqView>, set: Set<BlockHash>, peer: usize, h: BlockHash)
    requires
        !set.contains(h),
    ensures
        given_up(m, set.insert(h), peer) == (if !m.contains_key(h) {
            given_up(m, set, peer)
        } else if m[h].without_peer(peer).peers.len() == 0 {
            given_up(m, set, peer).remove(h)
        } else {
            given_up(m, set, peer).insert(h, m[h].without_peer(peer))
        }),
{
    assert(given_up(m, set.insert(h), peer) =~= (if !m.contains_key(h) {
        given_up(m, set, peer)
    } else if m[h].without_peer(peer).peers.len() == 0 {
        given_up(m, set, peer).remove(h)
    } else {
        given_up(m, set, peer).insert(h, m[h].without_peer(peer))
    }));
}

proof fn lemma_filter_all<A>(s: Seq<A>, p: spec_fn(A) -> bool)
    requires
        forall|i: int| 0 <= i < s.len() ==> p(#[trigger] s[i]),
    ensures
        s.filter(p) == s,
    decreases s.len(),
{
    reveal(Seq::filter);
    if s.len() > 0 {
        lemma_filter_all(s.drop_last(), p);
        assert(s.drop_last().push(s.last()) =~= s);
    }
}

proof fn lemma_given_up_again(m: Map<BlockHash, ReqView>, set: Set<BlockHash>, peer: usize, h: BlockHash)
    requires
        set.contains(h),
    ensures
        set.insert(h) == set,
        given_up(m, set, peer).contains_key(h) ==> given_up(m, set, peer)[h].without_peer(peer)
            == given_up(m, set, peer)[h] && given_up(m, set, peer)[h].peers.len() > 0,
{
    assert(set.insert(h) =~= set);
    let g = given_up(m, set, peer);
    if g.contains_key(h) {
        let p = other_than(peer);
        let once = m[h].peers.filter(p);
        assert forall|i: int| 0 <= i < once.len() implies p(#[trigger] once[i]) by {
            m[h].peers.lemma_filter_pred(p, i);
        }
        lemma_filter_all(once, p);
    }
}

/// Free the requests of `items` from `peer`; a request that nobody else has goes.
pub(crate) fn give_up_requests(
    inflight: &mut KeyMap<BlockHash, InflightReq>,
    items: &Vec<BlockHash>,
    peer: usize,
)
    ensures
        req_views(final(inflight)@) == given_up(req_views(old(inflight)@), items@.to_set(), peer),
{
    let ghost m = req_views(inflight@);
    let mut i: usize = 0;
    assert(items@.take(0).to_set() =~= Set::<BlockHash>::empty());
    assert(given_up(m, Set::empty(), peer) =~= m);
    while i < items.len()
        invariant
            i <= items@.len(),
            req_views(inflight@) == given_up(m, items@.take(i as int).to_set(), peer),
        decreases items@.len() - i,
    {
        let h = items[i];
        let ghost done = items@.take(i as int).to_set();
        let ghost before = inflight@;
        proof {
            assert(items@.take(i + 1) =~= items@.take(i as int).push(h));
            items@.take(i as int).lemma_push_to_set_commute(h);
            if done.contains(h) {
                lemma_given_up_again(m, done, peer, h);
            } else {
                lemma_given_up_one(m, done, peer, h);
                assert(req_views(before).contains_key(h) == m.contains_key(h));
                assert(m.contains_key(h) ==> req_views(before)[h] == m[h]);
            }
            assert(req_views(before).contains_key(h) == before.contains_key(h));
            assert(before.contains_key(h) ==> before[h]@ == req_views(before)[h]);
        }
        match inflight.remove(&h) {
            Some(mut req) => {
                let empty = req.remove_peer(peer);
                if !empty {
                    inflight.insert(h, req);
                    assert(req_views(inflight@) =~= req_views(before).insert(h, req@));
                    assert(done.contains(h) ==> req_views(before).insert(h, req@)
                        =~= req_views(before));
                } else {
                    assert(req_views(inflight@) =~= req_views(before).remove(h));
                }
            },
            None => {
                assert(before.remove(h) =~= before);
            },
        }
        i = i + 1;
    }
    assert(items@.take(i as int) =~= items@);
}

/// Retire `peer`: its slot is dead and empty, and its requests are free for others.
pub fn release_peer_block_work(
    slots: &mut Vec<PeerSlot>,
    inflight: &mut KeyMap<BlockHash, InflightReq>,
    peer: usize,
)
    ensures
        slot_views(final(slots)@) == peer_retired(slot_views(old(slots)@), peer),
        req_views(final(inflight)@) == work_released(
            slot_views(old(slots)@),
            req_views(old(inflight)@),
            peer,
        ),
{
    let ghost v = slot_views(slots@);
    let at = match find_slot(slots, peer, false) {
        Some(i) => i,
        None => {
            return;
        },
    };
    slots[at].alive = false;
    let items = slots[at].in_flight.members();
    slots[at].in_flight.clear();
    assert(slot_views(slots@) =~= v.update(at as int, slot_retired(v[at as int])));
    give_up_requests(inflight, &items, peer);
}

/// Is `a` not to be dialed: held by a slot, or still cooling down?
pub open spec fn blocked(slots: Seq<SlotView>, cooldown: Map<PeerAddr, u64>, now_ms: u64, a: PeerAddr) -> bool {
    ||| exists|i: int| 0 <= i < slots.len() && #[trigger] slots[i].addr == a
    ||| cooldown.contains_key(a) && cooldown[a] > now_ms
}

/// Addresses not to be dialed: those of all slots, and those still cooling down.
pub fn dial_blocked_addrs(slots: &Vec<PeerSlot>, cooldown: &KeyMap<PeerAddr, u64>, now_ms: u64) -> (r:
    KeySet<PeerAddr>)
    ensures
        forall|a: PeerAddr| #[trigger]
            r@.contains(a) <==> blocked(slot_views(slots@), cooldown@, now_ms, a),
{
    let ghost v = slot_views(slots@);
    let mut out: KeySet<PeerAddr> = KeySet::new();
    let mut i: usize = 0;
    while i < slots.len()
        invariant
            i <= slots@.len(),
            v == slot_views(slots@),
            forall|a: PeerAddr| #[trigger]
                out@.contains(a) <==> exists|j: int| 0 <= j < i && #[trigger] v[j].addr == a,
        decreases slots@.len() - i,
    {
        let ghost was = out@;
        out.insert(slots[i].addr);
        assert forall|a: PeerAddr| #[trigger] out@.contains(a) implies exists|j: int|
            0 <= j < i + 1 && #[trigger] v[j].addr == a by {
            if a == v[i as int].addr {
            } else {
                assert(was.contains(a));
            }
        }
        i = i + 1;
    }
    let keys = cooldown.keys();
    let ghost held = out@;
    let mut k: usize = 0;
    while k < keys.len()
        invariant
            k <= keys@.len(),
            keys@.to_set() == cooldown@.dom(),
            held.subset_of(out@),
            forall|a: PeerAddr| #[trigger]
                out@.contains(a) ==> held.contains(a) || cooldown@.contains_key(a) && cooldown@[a]
                    > now_ms,
            forall|j: int|
                0 <= j < k && cooldown@[#[trigger] keys@[j]] > now_ms ==> out@.contains(keys@[j]),
        decreases keys@.len() - k,
    {
        let a = keys[k];
        assert(keys@.to_set().contains(keys@[k as int]));
        if let Some(until) = cooldown.get(&a) {
            if *until > now_ms {
                out.insert(a);
            }
        }
        k = k + 1;
    }
    proof {
        assert forall|a: PeerAddr| #[trigger] out@.contains(a) <==> blocked(
            v,
            cooldown@,
            now_ms,
            a,
        ) by {
            if cooldown@.contains_key(a) && cooldown@[a] > now_ms {
                assert(keys@.to_set().contains(a));
                let j = choose|j: int| 0 <= j < keys@.len() && keys@[j] == a;
                assert(out@.contains(keys@[j]));
            }
            if exists|i: int| 0 <= i < v.len() && #[trigger] v[i].addr == a {
                assert(held.contains(a));
            }
        }
    }
    out
}

/// Cooldowns that are not over.
pub open spec fn still_cooling(m: Map<PeerAddr, u64>, now_ms: u64) -> Map<PeerAddr, u64> {
    Map::new(|a: PeerAddr| m.contains_key(a) && m[a] > now_ms, |a: PeerAddr| m[a])
}

/// Drop cooldowns that are over.
pub fn expire_addr_cooldown(cooldown: &mut KeyMap<PeerAddr, u64>, now_ms: u64)
    ensures
        final(cooldown)@ == still_cooling(old(cooldown)@, now_ms),
{
    let keys = cooldown.keys();
    let ghost before = cooldown@;
    let mut i: usize = 0;
    while i < keys.len()
        invariant
            i <= keys@.len(),
            keys@.to_set() == before.dom(),
            cooldown@.dom().subset_of(before.dom()),
            forall|a: PeerAddr| #[trigger] cooldown@.contains_key(a) ==> cooldown@[a] == before[a],
            forall|a: PeerAddr| #[trigger]
                before.contains_key(a) && before[a] > now_ms ==> cooldown@.contains_key(a),
            forall|j: int|
                0 <= j < i && before[#[trigger] keys@[j]] <= now_ms ==> !cooldown@.contains_key(
                    keys@[j],
                ),
        decreases keys@.len() - i,
    {
        let a = keys[i];
        assert(keys@.to_set().contains(keys@[i as int]));
        let over = match cooldown.get(&a) {
            Some(until) => *until <= now_ms,
            None => false,
        };
        if over {
            cooldown.remove(&a);
        }
        i = i + 1;
    }
    assert(cooldown@ =~= still_cooling(before, now_ms)) by {
        assert forall|a: PeerAddr| #[trigger] cooldown@.contains_key(a) implies before[a] > now_ms by {
            assert(keys@.to_set().contains(a));
            let j = choose|j: int| 0 <= j < keys@.len() && keys@[j] == a;
            assert(!(before[keys@[j]] <= now_ms));
        }
    }
}

/// Peer books that a disconnect touches.
#[verifier::ext_equal]
pub struct PeerBooks {
    pub slots: Seq<SlotView>,
    pub inflight: Map<BlockHash, ReqView>,
    pub cooldown: Map<PeerAddr, u64>,
}

/// One peer disconnected: its address cools down, its work is released.
pub open spec fn disconnected(b: PeerBooks, id: usize, addr: PeerAddr, now_ms: u64) -> PeerBooks {
    PeerBooks {
        slots: peer_retired(b.slots, id),
        inflight: work_released(b.slots, b.inflight, id),
        cooldown: b.cooldown.insert(addr, sat_add(now_ms, STALL_ADDR_COOLDOWN_MS)),
    }
}

/// The stall time that counts: at least the floor.
pub open spec fn stall_floor(stall_ms: u64) -> u64 {
    if stall_ms >= STALL_FLOOR_MS {
        stall_ms
    } else {
        STALL_FLOOR_MS
    }
}

/// Is this slot stalled: alive, with work out, and no block progress for too long?
pub open spec fn is_stalled(s: SlotView, now_ms: u64, stall_ms: u64) -> bool {
    s.alive && s.in_flight != Set::<BlockHash>::empty() && s.rate.stuck(
        now_ms,
        stall_floor(stall_ms),
        true,
    )
}

/// Ids and addresses of the stalled slots, in slot order.
pub open spec fn stalled_row(s: Seq<SlotView>, now_ms: u64, stall_ms: u64) -> Seq<(usize, PeerAddr)>
    decreases s.len(),
{
    if s.len() == 0 {
        Seq::empty()
    } else if is_stalled(s.last(), now_ms, stall_ms) {
        stalled_row(s.drop_last(), now_ms, stall_ms).push((s.last().id, s.last().addr))
    } else {
        stalled_row(s.drop_last(), now_ms, stall_ms)
    }
}

/// The peers of `row` from `i` on disconnected, in order.
pub open spec fn disconnect_from(b: PeerBooks, row: Seq<(usize, PeerAddr)>, i: int, now_ms: u64) -> PeerBooks
    decreases row.len() - i,
{
    if i >= row.len() {
        b
    } else {
        disconnect_from(disconnected(b, row[i].0, row[i].1, now_ms), row, i + 1, now_ms)
    }
}

fn disconnect_peer(
    slots: &mut Vec<PeerSlot>,
    inflight: &mut KeyMap<BlockHash, InflightReq>,
    cooldown: &mut KeyMap<PeerAddr, u64>,
    id: usize,
    addr: PeerAddr,
    now_ms: u64,
)
    ensures
        (PeerBooks {
            slots: slot_views(final(slots)@),
            inflight: req_views(final(inflight)@),
            cooldown: final(cooldown)@,
        }) == disconnected(
            (PeerBooks {
                slots: slot_views(old(slots)@),
                inflight: req_views(old(inflight)@),
                cooldown: old(cooldown)@,
            }),
            id,
            addr,
            now_ms,
        ),
{
    cooldown.insert(addr, now_ms.saturating_add(STALL_ADDR_COOLDOWN_MS));
    release_peer_block_work(slots, inflight, id);
}

/// One stall rule: a peer with requests out and no block progress for `stall_ms`
/// (at least the floor) is disconnected, its work is freed, and its address cools
/// down. Hands back whom to shut down. Headers and pings are no progress; fresh
/// work restarts the clock.
pub fn disconnect_stalled_block_peers_at(
    slots: &mut Vec<PeerSlot>,
    inflight: &mut KeyMap<BlockHash, InflightReq>,
    cooldown: &mut KeyMap<PeerAddr, u64>,
    stall_ms: u64,
    now_ms: u64,
) -> (gone: Vec<(usize, PeerAddr)>)
    ensures
        gone@ == stalled_row(slot_views(old(slots)@), now_ms, stall_ms),
        (PeerBooks {
            slots: slot_views(final(slots)@),
            inflight: req_views(final(inflight)@),
            cooldown: final(cooldown)@,
        }) == disconnect_from(
            (PeerBooks {
                slots: slot_views(old(slots)@),
                inflight: req_views(old(inflight)@),
                cooldown: old(cooldown)@,
            }),
            gone@,
            0,
            now_ms,
        ),
{
    let stall: u64 = if stall_ms >= STALL_FLOOR_MS {
        stall_ms
    } else {
        STALL_FLOOR_MS
    };
    let ghost v = slot_views(slots@);
    let ghost books = PeerBooks {
        slots: v,
        inflight: req_views(inflight@),
        cooldown: cooldown@,
    };
    let mut gone: Vec<(usize, PeerAddr)> = Vec::new();
    let mut i: usize = 0;
    while i < slots.len()
        invariant
            i <= slots@.len(),
            stall == stall_floor(stall_ms),
            v == slot_views(slots@),
            gone@ == stalled_row(v.take(i as int), now_ms, stall_ms),
        decreases slots@.len() - i,
    {
        assert(v.take(i + 1).drop_last() =~= v.take(i as int));
        if slots[i].alive && !slots[i].in_flight.is_empty() && slots[i].rate.stalled(
            now_ms,
            stall,
            true,
        ) {
            gone.push((slots[i].id, slots[i].addr));
        }
        i = i + 1;
    }
    assert(v.take(i as int) =~= v);
    let ghost all = disconnect_from(books, gone@, 0, now_ms);
    let mut k: usize = 0;
    while k < gone.len()
        invariant
            k <= gone@.len(),
            disconnect_from(
                PeerBooks {
                    slots: slot_views(slots@),
                    inflight: req_views(inflight@),
                    cooldown: cooldown@,
                },
                gone@,
                k as int,
                now_ms,
            ) == all,
        decreases gone@.len() - k,
    {
        let (id, addr) = gone[k];
        disconnect_peer(slots, inflight, cooldown, id, addr, now_ms);
        k = k + 1;
    }
    gone
}

/// Is any relative-slow verdict possible now: warmed up, and enough samples?
pub open spec fn relative_open(s: Seq<SlotView>, active_floor_ms: u64, now_ms: u64) -> bool {
    warmed_up(s, now_ms) && mature_samples(s, active_floor_ms).len() >= min_samples_for(
        live_ids(s).len() as usize,
    )
}

/// `(whom to disconnect, next suspect)` of one relative-slow tick.
pub open spec fn relative_verdict(
    s: Seq<SlotView>,
    active_floor_ms: u64,
    now_ms: u64,
    suspect: Option<usize>,
) -> (Option<usize>, Option<usize>) {
    if !relative_open(s, active_floor_ms, now_ms) {
        (None, None)
    } else {
        let v = hysteresis(
            the_pick(
                mature_samples(s, active_floor_ms),
                min_samples_for(live_ids(s).len() as usize),
            ),
            suspect,
        );
        if v.0 is Some && live_slot(s, v.0->0) is None {
            (None, None)
        } else {
            v
        }
    }
}

/// Disconnect at most one clear half-median outlier: after the warm-up, outside a
/// tight pack, on the second tick in a row. Keeps the suspect for the next tick
/// and hands back whom to shut down.
pub fn disconnect_relative_slow_block_peers(
    slots: &mut Vec<PeerSlot>,
    inflight: &mut KeyMap<BlockHash, InflightReq>,
    cooldown: &mut KeyMap<PeerAddr, u64>,
    active_floor_ms: u64,
    now_ms: u64,
    suspect: &mut Option<usize>,
) -> (gone: Option<usize>)
    ensures
        (gone, *final(suspect)) == relative_verdict(
            slot_views(old(slots)@),
            active_floor_ms,
            now_ms,
            *old(suspect),
        ),
        relative_open(slot_views(old(slots)@), active_floor_ms, now_ms) ==> ({
            let samples = mature_samples(slot_views(old(slots)@), active_floor_ms);
            let wanted = min_samples_for(live_ids(slot_views(old(slots)@)).len() as usize);
            picked(samples, wanted, the_pick(samples, wanted)) && (gone is Some ==> picked(
                samples,
                wanted,
                gone,
            ))
        }),
        ({
            let before = PeerBooks {
                slots: slot_views(old(slots)@),
                inflight: req_views(old(inflight)@),
                cooldown: old(cooldown)@,
            };
            let after = PeerBooks {
                slots: slot_views(final(slots)@),
                inflight: req_views(final(inflight)@),
                cooldown: final(cooldown)@,
            };
            match gone {
                Some(id) => after == disconnected(
                    before,
                    id,
                    before.slots[live_slot(before.slots, id)->0].addr,
                    now_ms,
                ),
                None => after == before,
            }
        }),
{
    if !relative_slow_global_warmup_ok(slots, now_ms) {
        *suspect = None;
        return None;
    }
    let alive = alive_ids(slots);
    let min_samples: usize = relative_slow_min_samples(alive.len());
    let samples = mature_relative_slow_samples(slots, active_floor_ms);
    if samples.len() < min_samples {
        *suspect = None;
        return None;
    }
    let (kick, next) = relative_slow_with_hysteresis(samples.as_slice(), min_samples, *suspect);
    *suspect = next;
    let id: usize = match kick {
        Some(id) => id,
        None => {
            return None;
        },
    };
    let at = match find_slot(slots, id, true) {
        Some(i) => i,
        None => {
            *suspect = None;
            return None;
        },
    };
    let addr = slots[at].addr;
    disconnect_peer(slots, inflight, cooldown, id, addr, now_ms);
    *suspect = None;
    Some(id)
}

proof fn lemma_dial_from(
    p: DialPick,
    c: Seq<PeerAddr>,
    i: int,
    count: usize,
    before: Set<PeerAddr>,
)
    requires
        0 <= i,
        p.picked.no_duplicates(),
        p.picked.len() <= count,
        forall|a: PeerAddr| #[trigger]
            p.already.contains(a) <==> before.contains(a) || p.picked.contains(a),
        forall|k: int|
            0 <= k < p.picked.len() ==> !before.contains(#[trigger] p.picked[k]) && c.contains(
                p.picked[k],
            ),
    ensures
        ({
            let q = dial_from(p, c, i, count);
            &&& q.picked.no_duplicates()
            &&& q.picked.len() <= count
            &&& forall|k: int|
                0 <= k < q.picked.len() ==> !before.contains(#[trigger] q.picked[k])
                    && c.contains(q.picked[k])
            &&& forall|a: PeerAddr| #[trigger]
                q.already.contains(a) <==> before.contains(a) || q.picked.contains(a)
        }),
    decreases c.len() - i,
{
    if i >= c.len() || p.picked.len() >= count {
    } else if p.already.contains(c[i]) {
        lemma_dial_from(p, c, i + 1, count, before);
    } else {
        let next = DialPick { picked: p.picked.push(c[i]), already: p.already.insert(c[i]) };
        assert(c.contains(c[i]));
        assert forall|a: PeerAddr| #[trigger] next.already.contains(a) <==> before.contains(a)
            || next.picked.contains(a) by {
            if p.picked.contains(a) {
                let k = choose|k: int| 0 <= k < p.picked.len() && p.picked[k] == a;
                assert(next.picked[k] == a);
            }
            assert(next.picked[p.picked.len() as int] == c[i]);
            if next.picked.contains(a) && a != c[i] {
                let k = choose|k: int| 0 <= k < next.picked.len() && next.picked[k] == a;
                assert(p.picked[k] == a);
            }
        }
        assert(!p.picked.contains(c[i])) by {
            if p.picked.contains(c[i]) {
                assert(p.already.contains(c[i]));
            }
        }
        lemma_dial_from(next, c, i + 1, count, before);
    }
}

/// Addresses picked for dialing are distinct, were not dialed or blocked before, come from
/// the candidates, are no more than asked for, and count as dialed from now on.
pub proof fn law_picked_once_and_not_blocked(
    before: Set<PeerAddr>,
    candidates: Seq<PeerAddr>,
    count: usize,
)
    ensures
        ({
            let q = dial_from(
                DialPick { picked: Seq::empty(), already: before },
                candidates,
                0,
                count,
            );
            &&& q.picked.no_duplicates()
            &&& q.picked.len() <= count
            &&& forall|k: int|
                0 <= k < q.picked.len() ==> !before.contains(#[trigger] q.picked[k])
                    && candidates.contains(q.picked[k])
            &&& forall|a: PeerAddr| #[trigger]
                q.already.contains(a) <==> before.contains(a) || q.picked.contains(a)
        }),
{
    let p = DialPick { picked: Seq::empty(), already: before };
    lemma_dial_from(p, candidates, 0, count, before);
}

proof fn lemma_gathered(acc: Seq<BlockHash>, s: Seq<BlockHash>, i: int, cap: int)
    requires
        0 <= i,
        acc.no_duplicates(),
    ensures
        gathered(acc, s, i, cap).no_duplicates(),
        gathered(acc, s, i, cap).len() >= acc.len(),
        gathered(acc, s, i, cap).take(acc.len() as int) == acc,
        acc.len() < cap ==> gathered(acc, s, i, cap).len() <= cap,
    decreases s.len() - i,
{
    assert(acc.take(acc.len() as int) =~= acc);
    if i < s.len() {
        let next = if acc.contains(s[i]) {
            acc
        } else {
            acc.push(s[i])
        };
        assert(next.take(acc.len() as int) =~= acc);
        if next.len() < cap {
            lemma_gathered(next, s, i + 1, cap);
            let g = gathered(next, s, i + 1, cap);
            assert(g.take(acc.len() as int) =~= g.take(next.len() as int).take(acc.len() as int));
        }
    }
}

/// A header locator is never empty, names no hash twice, fits the wire limit, and where
/// there is a work path it starts with the path's newest tip.
pub proof fn law_locator_is_well_formed(
    tips: Seq<BlockHash>,
    tip: Option<BlockHash>,
    rest: Seq<BlockHash>,
)
    ensures
        ({
            let l = locator_of(tips, tip, rest);
            &&& 0 < l.len() <= MAX_LOCATOR_SZ
            &&& l.no_duplicates()
            &&& tips.len() > 0 ==> l[0] == tips[0]
            &&& tip is Some ==> l.contains(tip->0)
        }),
{
    let none = Seq::<BlockHash>::empty();
    lemma_gathered(none, tips, 0, 8);
    let a = gathered(none, tips, 0, 8);
    let b = match tip {
        Some(t) => if a.contains(t) {
            a
        } else {
            a.push(t)
        },
        None => a,
    };
    assert(b.no_duplicates());
    assert(b.len() <= 9);
    lemma_gathered(b, rest, 0, MAX_LOCATOR_SZ as int);
    let c = gathered(b, rest, 0, MAX_LOCATOR_SZ as int);
    if tips.len() > 0 {
        let one = none.push(tips[0]);
        lemma_gathered(one, tips, 1, 8);
        assert(a == gathered(one, tips, 1, 8));
        assert(a[0] == a.take(1)[0]);
        assert(b[0] == a[0]);
        assert(c[0] == c.take(b.len() as int)[0]);
    }
    if let Some(t) = tip {
        assert(b.contains(t)) by {
            if !a.contains(t) {
                assert(b[a.len() as int] == t);
            }
        }
        let k = choose|k: int| 0 <= k < b.len() && b[k] == t;
        assert(c[k] == c.take(b.len() as int)[k]);
        assert(c[k] == t);
    }
}

} // verus!

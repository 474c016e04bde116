//! How rounds over requests, paths and peers go on, and where they stop.
use vstd::prelude::*;
use crate::assign::{
    booked, pull_from, pull_one, steal_from, steal_one, LoopStats, Pull, Steal,
};
use crate::chain::{offered, ChainTip, HubView, QueuedView};
use crate::confirm_engine::{first_row, EngineCounters};
use crate::confirm_feed::FeedView;
use crate::confirm_queue::operator_text;
use crate::confirm_queue::StampMisses;
use crate::confirm_wave::{is_split, part_ends, start_of};
use crate::dial::{mature_samples, relative_open, slot_retired, warmed_up};
use crate::fetch::Turn;
use crate::hash::{le_word, word_byte, BlockHash};
use crate::path::{
    assumed_parent, chain_planted, is_child, note_from, note_step, noted, seed_forks, tip_child_planted,
    tip_child_unsound, Noted, PathEntry,
};
use crate::peers::{live_ids, SlotView};
use crate::perf_log::{hundredths_text, us_per_block};
use crate::perf_sample::IbdPerfSample;
use crate::race::{bps_of, covered, owner_samples};
use crate::relslow::min_samples_for;
use crate::state::WorkView;
use crate::text::dec;
use crate::wire::{dial_gain_v2, dialable, le_half, le_signed, socket_of_host, useful_services, WireAddrV2};

verus! {

/// Hung requests are moved one after the other, each on what those before it left.
pub proof fn law_every_hung_request_has_its_turn(
    s: Steal,
    row: Seq<BlockHash>,
    h: BlockHash,
    i: int,
    alive: Seq<usize>,
    caps: Map<usize, usize>,
    now_ms: u64,
)
    requires
        0 <= i <= row.len(),
    ensures
        steal_from(s, row.push(h), i, alive, caps, now_ms) == steal_one(
            steal_from(s, row, i, alive, caps, now_ms),
            h,
            alive,
            caps,
            now_ms,
        ),
        steal_from(s, row, row.len() as int, alive, caps, now_ms) == s,
    decreases row.len() - i,
{
    if i < row.len() {
        assert(row.push(h)[i] == row[i]);
        law_every_hung_request_has_its_turn(
            steal_one(s, row[i], alive, caps, now_ms),
            row,
            h,
            i + 1,
            alive,
            caps,
            now_ms,
        );
    } else {
        assert(row.push(h)[i] == h);
        let c = steal_one(s, h, alive, caps, now_ms);
        assert(steal_from(c, row.push(h), i + 1, alive, caps, now_ms) == c);
    }
}

/// A pull without room asks for nothing more; with room the next needed body has its turn.
pub proof fn law_pull_stops_without_room(
    p: Pull,
    h: BlockHash,
    need: Seq<BlockHash>,
    alive: Seq<usize>,
    per_peer: usize,
    now_ms: u64,
)
    ensures
        p.room == 0 ==> pull_from(p, need, 0, alive, per_peer, now_ms) == p,
        p.room > 0 ==> pull_from(p, seq![h], 0, alive, per_peer, now_ms) == pull_one(
            p,
            h,
            alive,
            per_peer,
            now_ms,
        ),
{
    if p.room > 0 {
        let c = pull_one(p, h, alive, per_peer, now_ms);
        assert(seq![h][0] == h);
        assert(pull_from(c, seq![h], 1, alive, per_peer, now_ms) == c);
    }
}

/// A retired peer is not alive and owes nothing, and its slot is otherwise the same.
pub proof fn law_retired_peer_is_gone(s: SlotView)
    ensures
        !slot_retired(s).alive,
        forall|h: BlockHash| !(#[trigger] slot_retired(s).in_flight.contains(h)),
        slot_retired(s).id == s.id,
        slot_retired(s).addr == s.addr,
        slot_retired(s).rate == s.rate,
{
}

/// A seed forks only over a tip, along a path, where the path leaves the known one.
pub proof fn law_seed_forks_only_over_a_tip(v: WorkView, path: Seq<PathEntry>, hub: HubView)
    ensures
        hub.tip is None ==> !seed_forks(v, path, hub),
        path.len() == 0 ==> !seed_forks(v, path, hub),
        hub.tip is Some && path.len() > 0 ==> (seed_forks(v, path, hub) <==> noted(
            v,
            path,
            hub.tip->0,
        ).fork),
{
}

/// A body that is requested from nobody has no owner to drop.
pub proof fn law_unrequested_body_drops_nobody(v: WorkView, h: BlockHash, now_ms: u64)
    requires
        !v.inflight.contains_key(h),
    ensures
        v.evicts(h, now_ms) is None,
{
}

/// Noting a path takes its headers one after the other and stops at the first invalid one.
pub proof fn law_path_is_noted_up_to_the_first_invalid(
    n: Noted,
    path: Seq<PathEntry>,
    e: PathEntry,
    i: int,
    tip: ChainTip,
)
    requires
        0 <= i <= path.len(),
        forall|k: int|
            i <= k < path.len() ==> !n.st.reorg.invalid.contains((#[trigger] path[k]).hash),
    ensures
        note_from(n, path, i, tip).st.reorg.invalid == n.st.reorg.invalid,
        note_from(n, path.push(e), i, tip) == (if n.st.reorg.invalid.contains(e.hash) {
            note_from(n, path, i, tip)
        } else {
            note_step(note_from(n, path, i, tip), e, tip)
        }),
    decreases path.len() - i,
{
    if i < path.len() {
        let m = note_step(n, path[i], tip);
        assert(m.st.reorg.invalid == n.st.reorg.invalid);
        assert(path.push(e)[i] == path[i]);
        law_path_is_noted_up_to_the_first_invalid(m, path, e, i + 1, tip);
    } else {
        assert(path.push(e)[i] == e);
        let c = note_step(n, e, tip);
        assert(note_from(c, path.push(e), i + 1, tip) == c);
    }
}

/// Planting stops at once at a header that is not sound.
pub proof fn law_unsound_chain_is_not_planted(
    v: WorkView,
    hub: HubView,
    cur: BlockHash,
    height: u32,
    prev: BlockHash,
    fuel: nat,
    out: WorkView,
)
    requires
        chain_planted(v, hub, cur, height, prev, fuel, out),
        v.reorg.invalid.contains(cur) || v.body.rejected.contains(cur) || fuel == 0,
    ensures
        out == v,
{
}

/// Planting a child of the tip changes nothing without a tip, where a sound header stands
/// right above it, or where no header can.
pub proof fn law_tip_child_is_planted_only_where_it_lacks(
    v: WorkView,
    hub: HubView,
    max: nat,
    out: WorkView,
)
    requires
        tip_child_planted(v, hub, max, out),
        hub.tip matches Some(t) ==> t.height < u32::MAX,
    ensures
        hub.tip is None ==> out == v,
        hub.tip matches Some(t) ==> ({
            let up = (t.height + 1) as u32;
            let h = v.height_to_hash[up];
            &&& v.height_to_hash.contains_key(up) && !v.reorg.invalid.contains(h)
                && !v.body.rejected.contains(h) ==> out == v
            &&& (forall|c: BlockHash| !(#[trigger] is_child(v, hub, c, up, t.hash))) ==> out == v
        }),
{
}

/// The header right above the tip is unsound where there is one that is invalid or refused.
pub proof fn law_unsound_child_is_invalid_or_refused(v: WorkView, tip: ChainTip)
    requires
        tip.height < u32::MAX,
    ensures
        ({
            let up = (tip.height + 1) as u32;
            let h = v.height_to_hash[up];
            tip_child_unsound(v, tip) <==> v.height_to_hash.contains_key(up) && (
            v.reorg.invalid.contains(h) || v.body.rejected.contains(h))
        }),
{
}

/// Without a peer, or without a hole, nothing is raced and nothing is stuck.
pub proof fn law_nothing_to_race_is_no_trouble(
    t: Turn,
    holes: Seq<BlockHash>,
    alive: Seq<usize>,
    per_peer: usize,
    now_ms: u64,
)
    requires
        holes.len() == 0 || alive.len() == 0,
    ensures
        covered(t, holes, alive, per_peer, now_ms).turn == t,
        covered(t, holes, alive, per_peer, now_ms).issued == 0,
        !covered(t, holes, alive, per_peer, now_ms).stuck,
{
}

/// The first body offered for a height keeps it, and an offer touches no other height.
pub proof fn law_first_offer_keeps_the_height(
    q: Map<u32, QueuedView>,
    height: u32,
    a: QueuedView,
    b: QueuedView,
    other: u32,
)
    requires
        other != height,
        !q.contains_key(height),
    ensures
        ({
            let once = offered(q, height, a);
            &&& once.contains_key(height) && once[height] == a
            &&& offered(once, height, b) == once
            &&& once.contains_key(other) == q.contains_key(other)
            &&& q.contains_key(other) ==> once[other] == q[other]
        }),
{
}

/// A blank feed holds and claims nothing, runs, and takes waves of any size.
pub proof fn law_blank_feed_runs(height: u32)
    ensures
        !FeedView::blank().ready.contains_key(height),
        !FeedView::blank().inflight.contains(height),
        !FeedView::blank().claimed_epoch.contains_key(height),
        !FeedView::blank().stop,
        !FeedView::blank().single,
        FeedView::blank().epoch == 0,
{
}

/// Accepted blocks add up, and touch no count of rejects.
pub proof fn law_accepted_blocks_add_up(c: EngineCounters, n: nat)
    requires
        c.confirm_blocks + n <= u64::MAX,
        c.accepted + n <= u32::MAX,
    ensures
        c.with_accepted(n).confirm_blocks == c.confirm_blocks + n,
        c.with_accepted(n).accepted == c.accepted + n,
        c.with_accepted(n).confirm_reject_stops == c.confirm_reject_stops,
{
}

/// Time and requests of the assign step add up.
pub proof fn law_assign_work_adds_up(s: LoopStats, ns: u64, issued: u64)
    requires
        s.assign_ns + ns <= u64::MAX,
        s.assign_issued + issued <= u64::MAX,
    ensures
        booked(s, ns, issued).assign_ns == s.assign_ns + ns,
        booked(s, ns, issued).assign_issued == s.assign_issued + issued,
{
}

/// The sum of the parts.
pub open spec fn parts_sum(parts: Seq<usize>) -> int
    decreases parts.len(),
{
    if parts.len() == 0 {
        0
    } else {
        parts_sum(parts.drop_last()) + parts.last()
    }
}

proof fn lemma_start_sums(parts: Seq<usize>, j: int)
    requires
        0 <= j <= parts.len(),
    ensures
        start_of(parts, j) == parts_sum(parts.take(j)),
    decreases j,
{
    if j > 0 {
        lemma_start_sums(parts, j - 1);
        assert(parts.take(j).drop_last() =~= parts.take(j - 1));
    }
}

/// The parts of a split hold every block once: they add up to all of them.
pub proof fn law_split_leaves_no_block_out(
    counts: Seq<u32>,
    kinds: Seq<bool>,
    soft: u32,
    hard: usize,
    parts: Seq<usize>,
)
    requires
        is_split(counts, kinds, soft, hard, parts),
    ensures
        parts_sum(parts) == counts.len(),
{
    lemma_start_sums(parts, parts.len() as int);
    assert(parts.take(parts.len() as int) =~= parts);
}

/// Peers are judged against each other exactly when the session is warm and as many mature
/// rates are known as are asked for, not one more.
pub proof fn law_enough_rates_open_the_judging(s: Seq<SlotView>, floor_ms: u64, now_ms: u64)
    requires
        warmed_up(s, now_ms),
    ensures
        mature_samples(s, floor_ms).len() == min_samples_for(live_ids(s).len() as usize)
            ==> relative_open(s, floor_ms, now_ms),
        mature_samples(s, floor_ms).len() < min_samples_for(live_ids(s).len() as usize)
            ==> !relative_open(s, floor_ms, now_ms),
{
}

/// An address entry adds to the dial pool exactly when its host has an address, its services
/// are of use, and the address can be dialed.
pub proof fn law_entry_is_gained_when_useful_and_dialable(e: WireAddrV2)
    ensures
        dial_gain_v2(e).len() == (if socket_of_host(e.host, e.port) is Some && useful_services(
            e.services,
        ) && dialable(socket_of_host(e.host, e.port)->0) {
            1nat
        } else {
            0
        }),
        dial_gain_v2(e).len() == 1 ==> Some(dial_gain_v2(e)[0]) == socket_of_host(e.host, e.port),
{
}

/// Four bytes as a signed number: the same bytes but for whole turns, within the range.
pub proof fn law_signed_bytes_are_in_range(b: Seq<u8>)
    requires
        b.len() == 4,
    ensures
        i32::MIN <= le_signed(b) <= i32::MAX,
        (le_half(b) - le_signed(b)) % 0x1_0000_0000 == 0,
        le_signed(b) < 0 <==> b[3] >= 0x80,
{
}

/// Only a missing output is shown at length; every other error is shown as it is.
pub proof fn law_other_errors_are_shown_as_they_are(err: Seq<char>, m: StampMisses)
    requires
        err != "missing prevout"@,
    ensures
        operator_text(err, m) == err,
{
}

/// Hundredths are shown as units, a point, and two digits.
pub proof fn law_hundredths_are_two_digits(units: u64, tenth: u64, hundredth: u64, n: u64)
    requires
        tenth < 10,
        hundredth < 10,
        n == 100 * units + 10 * tenth + hundredth,
    ensures
        hundredths_text(n) == dec(units as nat) + "."@ + dec(tenth as nat) + dec(
            hundredth as nat,
        ),
{
    assert(n / 100 == units);
    assert(n / 10 % 10 == tenth);
    assert(n % 10 == hundredth);
}

/// Microseconds a block, times the blocks, are the time taken but for less than one
/// microsecond a block.
pub proof fn law_microseconds_a_block(s: IbdPerfSample, ns: u64)
    requires
        s.phase_blks >= 1,
    ensures
        us_per_block(s, ns) * (s.phase_blks * 1000) <= ns < (us_per_block(s, ns) + 1) * (
        s.phase_blks * 1000),
{
    let b = s.phase_blks as int;
    let d = b * 1000;
    let n = ns as int;
    assert(d > 0);
    vstd::arithmetic::div_mod::lemma_div_denominator(n, b, 1000);
    assert(n / b / 1000 == n / d);
    vstd::arithmetic::div_mod::lemma_fundamental_div_mod(n, d);
    let q = n / d;
    assert(q * d == d * q) by (nonlinear_arith);
    assert((q + 1) * d == d * q + d) by (nonlinear_arith);
    assert(us_per_block(s, ns) == q);
}

proof fn lemma_low_byte(x: int, low: u8, high: int)
    requires
        x == low + 0x100 * high,
    ensures
        x % 0x100 == low,
        x / 0x100 == high,
{
}

proof fn lemma_divided_twice(x: int, c: int)
    requires
        x >= 0,
        c > 0,
    ensures
        x / (c * 0x100) == x / c / 0x100,
{
    vstd::arithmetic::div_mod::lemma_div_denominator(x, c, 0x100);
}

proof fn lemma_byte_back(w: u64, b: Seq<u8>, k: int)
    requires
        b.len() == 8,
        w == le_word(b),
        0 <= k < 8,
    ensures
        word_byte(w, k) == b[k],
{
    let x = w as int;
    let h7 = b[7] as int;
    let h6 = b[6] + 0x100 * h7;
    let h5 = b[5] + 0x100 * h6;
    let h4 = b[4] + 0x100 * h5;
    let h3 = b[3] + 0x100 * h4;
    let h2 = b[2] + 0x100 * h3;
    let h1 = b[1] + 0x100 * h2;
    assert(x == b[0] + 0x100 * h1);
    lemma_low_byte(x, b[0], h1);
    lemma_low_byte(h1, b[1], h2);
    lemma_low_byte(h2, b[2], h3);
    lemma_low_byte(h3, b[3], h4);
    lemma_low_byte(h4, b[4], h5);
    lemma_low_byte(h5, b[5], h6);
    lemma_low_byte(h6, b[6], h7);
    lemma_low_byte(h7, b[7], 0);
    lemma_divided_twice(x, 0x100);
    lemma_divided_twice(x, 0x1_0000);
    lemma_divided_twice(x, 0x100_0000);
    lemma_divided_twice(x, 0x1_0000_0000);
    lemma_divided_twice(x, 0x100_0000_0000);
    lemma_divided_twice(x, 0x1_0000_0000_0000);
}

/// The hash that bytes spell gives the same bytes back.
pub proof fn law_hash_gives_its_bytes_back(h: BlockHash, b: Seq<u8>)
    requires
        b.len() == 32,
        h.spells(b),
    ensures
        h.bytes() == b,
{
    assert forall|i: int| 0 <= i < 32 implies h.bytes()[i] == b[i] by {
        let j = i / 8;
        let part = b.subrange(8 * j, 8 * j + 8);
        assert(h.word(j) == le_word(part)) by {
            if j == 0 {
            } else if j == 1 {
            } else if j == 2 {
            } else {
                assert(j == 3);
            }
        }
        lemma_byte_back(h.word(j), part, i % 8);
        assert(part[i % 8] == b[i]);
    }
    assert(h.bytes() =~= b);
}

/// The parent of a header is taken to be what the path holds right below it, else the tip
/// where that is right below it.
pub proof fn law_parent_stands_right_below(v: WorkView, below: u32, tip: ChainTip)
    requires
        below < u32::MAX,
    ensures
        ({
            let up = (below + 1) as u32;
            &&& v.height_to_hash.contains_key(below) ==> assumed_parent(v, up, Some(tip))
                == v.height_to_hash[below] && assumed_parent(v, up, None)
                == v.height_to_hash[below]
            &&& !v.height_to_hash.contains_key(below) && tip.height == below ==> assumed_parent(
                v,
                up,
                Some(tip),
            ) == tip.hash
            &&& !v.height_to_hash.contains_key(below) && tip.height != below && tip.height
                < u32::MAX ==> assumed_parent(v, up, Some(tip)) == assumed_parent(v, up, None)
        }),
{
}

/// The first row of rows is the one that came first, whatever follows it.
pub proof fn law_first_row_came_first(rows: Seq<(u32, BlockHash)>, x: (u32, BlockHash))
    ensures
        first_row(seq![x] + rows) == x,
        rows.len() > 0 ==> first_row(rows.push(x)) == first_row(rows),
{
}

/// Every owner is judged by its own rate, as one that has work out.
pub proof fn law_owners_are_judged_at_work(owners: Seq<usize>, slots: Seq<SlotView>, i: int)
    requires
        0 <= i < owners.len(),
    ensures
        owner_samples(owners, slots).len() == owners.len(),
        owner_samples(owners, slots)[i].peer_id == owners[i],
        owner_samples(owners, slots)[i].has_inflight,
        owner_samples(owners, slots)[i].bps == bps_of(
            slots,
            owners[i],
        ),
{
}

/// A batch ends where the blocks end, and where the kind of block changes.
pub proof fn law_batch_ends_with_the_blocks(
    counts: Seq<u32>,
    kinds: Seq<bool>,
    soft: u32,
    hard: usize,
    i: int,
    n: int,
)
    ensures
        i + n >= counts.len() ==> part_ends(counts, kinds, soft, hard, i, n),
        i + n < counts.len() && kinds.len() > 0 && kinds[i + n] != kinds[i] ==> part_ends(
            counts,
            kinds,
            soft,
            hard,
            i,
            n,
        ),
{
}

} // verus!

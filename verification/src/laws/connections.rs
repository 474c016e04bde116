//! Which peers are dialed, judged and let go.
use vstd::prelude::*;
use crate::dial::{
    blocked, dial_failures, dial_from, disconnected, fail_kind, first_block_ms, mature_samples,
    relative_verdict, stalled_row, still_cooling, warmed_up, DialFailKind, DialOutcome, DialPick,
    PeerBooks,
};
use crate::error::NetError;
use crate::hash::BlockHash;
use crate::peers::{PeerAddr, SlotView};
use crate::text::has_text;

verus! {

/// A disconnected peer's address is not dialed for ten minutes, and may be from then on
/// unless a slot holds it; other addresses are as they were.
pub proof fn law_lost_address_cools_down_ten_minutes(
    b: PeerBooks,
    id: usize,
    addr: PeerAddr,
    at_ms: u64,
    now_ms: u64,
    slots: Seq<SlotView>,
    other: PeerAddr,
)
    requires
        at_ms <= u64::MAX - 600_000,
        forall|i: int| 0 <= i < slots.len() ==> (#[trigger] slots[i]).addr != addr,
        other != addr,
    ensures
        blocked(slots, disconnected(b, id, addr, at_ms).cooldown, now_ms, addr) <==> now_ms < at_ms
            + 600_000,
        blocked(slots, disconnected(b, id, addr, at_ms).cooldown, now_ms, other) == blocked(
            slots,
            b.cooldown,
            now_ms,
            other,
        ),
{
}

/// An address that a slot holds is never dialed, and forgetting cooldowns that are over
/// changes nothing for any address, now or later.
pub proof fn law_expiry_blocks_alike(
    slots: Seq<SlotView>,
    cooldown: Map<PeerAddr, u64>,
    now_ms: u64,
    later_ms: u64,
    a: PeerAddr,
    i: int,
)
    requires
        now_ms <= later_ms,
    ensures
        0 <= i < slots.len() && slots[i].addr == a ==> blocked(slots, cooldown, now_ms, a),
        blocked(slots, still_cooling(cooldown, now_ms), later_ms, a) == blocked(
            slots,
            cooldown,
            later_ms,
            a,
        ),
        still_cooling(cooldown, now_ms).contains_key(a) ==> still_cooling(cooldown, now_ms)[a]
            > now_ms,
{
}

/// Is the slot stalled: alive, work out, and neither bytes nor fresh work for the stall time
/// or for half a minute, whichever is longer?
pub open spec fn silent(s: SlotView, now_ms: u64, stall_ms: u64) -> bool {
    &&& s.alive
    &&& exists|h: BlockHash| #[trigger] s.in_flight.contains(h)
    &&& now_ms - s.rate.progress_ms >= stall_ms && now_ms - s.rate.progress_ms >= 30_000
    &&& now_ms - s.rate.work_started_ms >= stall_ms && now_ms - s.rate.work_started_ms >= 30_000
}

proof fn lemma_silent(s: SlotView, now_ms: u64, stall_ms: u64)
    ensures
        crate::dial::is_stalled(s, now_ms, stall_ms) == silent(s, now_ms, stall_ms),
{
    if s.in_flight != Set::<BlockHash>::empty() {
        assert(exists|h: BlockHash| #[trigger] s.in_flight.contains(h)) by {
            if forall|h: BlockHash| !(#[trigger] s.in_flight.contains(h)) {
                assert(s.in_flight =~= Set::<BlockHash>::empty());
            }
        }
    }
}

/// The stalled peers are exactly the silent ones.
pub proof fn law_stalled_peers_are_the_silent_ones(
    s: Seq<SlotView>,
    now_ms: u64,
    stall_ms: u64,
    id: usize,
    addr: PeerAddr,
)
    ensures
        stalled_row(s, now_ms, stall_ms).contains((id, addr)) <==> exists|i: int|
            0 <= i < s.len() && (#[trigger] s[i]).id == id && s[i].addr == addr && silent(
                s[i],
                now_ms,
                stall_ms,
            ),
    decreases s.len(),
{
    let all = stalled_row(s, now_ms, stall_ms);
    if s.len() > 0 {
        let t = s.drop_last();
        let rest = stalled_row(t, now_ms, stall_ms);
        let last = s.len() - 1;
        law_stalled_peers_are_the_silent_ones(t, now_ms, stall_ms, id, addr);
        lemma_silent(s[last], now_ms, stall_ms);
        if all.contains((id, addr)) {
            let k = choose|k: int| 0 <= k < all.len() && all[k] == (id, addr);
            if k < rest.len() {
                assert(rest[k] == (id, addr));
                assert(rest.contains((id, addr)));
                let i = choose|i: int|
                    0 <= i < t.len() && (#[trigger] t[i]).id == id && t[i].addr == addr && silent(
                        t[i],
                        now_ms,
                        stall_ms,
                    );
                assert(s[i] == t[i]);
            } else {
                assert(s[last].id == id);
            }
        }
        if exists|i: int|
            0 <= i < s.len() && (#[trigger] s[i]).id == id && s[i].addr == addr && silent(
                s[i],
                now_ms,
                stall_ms,
            ) {
            let i = choose|i: int|
                0 <= i < s.len() && (#[trigger] s[i]).id == id && s[i].addr == addr && silent(
                    s[i],
                    now_ms,
                    stall_ms,
                );
            if i < last {
                assert(t[i] == s[i]);
                assert(rest.contains((id, addr)));
                let k = choose|k: int| 0 <= k < rest.len() && rest[k] == (id, addr);
                assert(all[k] == (id, addr));
            } else {
                assert(all[rest.len() as int] == (id, addr));
            }
        }
    }
}

/// The first block time is that of the earliest alive peer with data, zero without one.
pub proof fn law_first_block_is_the_earliest(s: Seq<SlotView>, i: int)
    requires
        0 <= i < s.len(),
        s[i].alive && s[i].first_data_ms > 0,
    ensures
        0 < first_block_ms(s) <= s[i].first_data_ms,
        exists|k: int|
            0 <= k < s.len() && (#[trigger] s[k]).alive && s[k].first_data_ms == first_block_ms(s),
    decreases s.len(),
{
    let t = s.drop_last();
    let last = s.len() - 1;
    if i < last {
        assert(t[i] == s[i]);
        law_first_block_is_the_earliest(t, i);
        let k = choose|k: int|
            0 <= k < t.len() && (#[trigger] t[k]).alive && t[k].first_data_ms == first_block_ms(t);
        assert(s[k] == t[k]);
    }
    assert(s[last] == s.last());
    if first_block_ms(t) != 0 && i == last {
        lemma_first_is_somebody(t);
        let k = choose|k: int|
            0 <= k < t.len() && (#[trigger] t[k]).alive && t[k].first_data_ms == first_block_ms(t);
        assert(s[k] == t[k]);
    }
}

proof fn lemma_first_is_somebody(s: Seq<SlotView>)
    requires
        first_block_ms(s) != 0,
    ensures
        exists|k: int|
            0 <= k < s.len() && (#[trigger] s[k]).alive && s[k].first_data_ms == first_block_ms(s),
    decreases s.len(),
{
    let t = s.drop_last();
    if first_block_ms(t) != 0 {
        lemma_first_is_somebody(t);
        let k = choose|k: int|
            0 <= k < t.len() && (#[trigger] t[k]).alive && t[k].first_data_ms == first_block_ms(t);
        assert(s[k] == t[k]);
    }
    assert(s[s.len() - 1] == s.last());
}

/// Nobody is let go for slowness before data has come in for a minute, nor on a first
/// suspicion: whoever is let go was the suspect of the tick before.
pub proof fn law_slowness_needs_a_minute_and_two_ticks(
    s: Seq<SlotView>,
    floor_ms: u64,
    now_ms: u64,
    suspect: Option<usize>,
)
    ensures
        warmed_up(s, now_ms) <==> first_block_ms(s) > 0 && now_ms - first_block_ms(s) >= 60_000,
        !warmed_up(s, now_ms) ==> relative_verdict(s, floor_ms, now_ms, suspect) == (
            None::<usize>,
            None::<usize>,
        ),
        relative_verdict(s, floor_ms, now_ms, suspect).0 is Some ==> relative_verdict(
            s,
            floor_ms,
            now_ms,
            suspect,
        ).0 == suspect && relative_verdict(s, floor_ms, now_ms, suspect).1 is None,
{
}

/// Only peers that are alive, have a rate and were active for long enough are judged, each
/// by its own rate and whether it has work out.
pub proof fn law_judged_peers_are_mature(s: Seq<SlotView>, floor_ms: u64, k: int) -> (i: int)
    requires
        0 <= k < mature_samples(s, floor_ms).len(),
    ensures
        0 <= i < s.len(),
        s[i].alive && s[i].rate.active_ms >= floor_ms,
        s[i].id == mature_samples(s, floor_ms)[k].peer_id,
        s[i].rate.ewma_bps == Some(mature_samples(s, floor_ms)[k].bps),
        mature_samples(s, floor_ms)[k].has_inflight <==> exists|h: BlockHash| #[trigger]
            s[i].in_flight.contains(h),
    decreases s.len(),
{
    let t = s.drop_last();
    let rest = mature_samples(t, floor_ms);
    if k < rest.len() {
        assert(mature_samples(s, floor_ms)[k] == rest[k]);
        let i = law_judged_peers_are_mature(t, floor_ms, k);
        assert(s[i] == t[i]);
        i
    } else {
        let i = s.len() - 1;
        let set = s[i].in_flight;
        if forall|h: BlockHash| !(#[trigger] set.contains(h)) {
            assert(set =~= Set::<BlockHash>::empty());
        }
        i
    }
}

/// Every mature peer is judged.
pub proof fn law_mature_peers_are_judged(s: Seq<SlotView>, floor_ms: u64, i: int) -> (k: int)
    requires
        0 <= i < s.len(),
        s[i].alive && s[i].rate.active_ms >= floor_ms && s[i].rate.ewma_bps is Some,
    ensures
        0 <= k < mature_samples(s, floor_ms).len(),
        mature_samples(s, floor_ms)[k].peer_id == s[i].id,
        mature_samples(s, floor_ms)[k].bps == s[i].rate.ewma_bps->0,
    decreases s.len(),
{
    let t = s.drop_last();
    let rest = mature_samples(t, floor_ms);
    if i < s.len() - 1 {
        assert(t[i] == s[i]);
        let k = law_mature_peers_are_judged(t, floor_ms, i);
        assert(mature_samples(s, floor_ms)[k] == rest[k]);
        k
    } else {
        assert(s[i] == s.last());
        rest.len() as int
    }
}

/// A peer that lacks the encrypted transport, or fails on it or on the version exchange, is
/// incompatible; every other failure is the network's.
pub proof fn law_dial_failures_are_told_apart(e: NetError)
    ensures
        e is V1Peer || e is Bip324 ==> fail_kind(e) == DialFailKind::Incompatible,
        e matches NetError::Protocol(s) ==> (fail_kind(e) == DialFailKind::Incompatible
            <==> has_text(s@, "v2"@) || has_text(s@, "verack"@) || has_text(s@, "version"@)),
        !(e is V1Peer || e is Bip324 || e is Protocol) ==> fail_kind(e) == DialFailKind::Network,
{
}

/// Every failed or timed-out dial is noted, in order, and nothing else is.
pub proof fn law_every_failed_dial_is_noted(s: Seq<DialOutcome>, x: DialOutcome)
    ensures
        x matches DialOutcome::Failed { addr, err } ==> dial_failures(s.push(x)) == dial_failures(
            s,
        ).push((addr, fail_kind(err))),
        x matches DialOutcome::TimedOut { addr } ==> dial_failures(s.push(x)) == dial_failures(
            s,
        ).push((addr, DialFailKind::Network)),
        x is Connected || x is Lost ==> dial_failures(s.push(x)) == dial_failures(s),
{
    assert(s.push(x).drop_last() =~= s);
}

/// Dialing takes the ranked candidates in turn: as many as asked, or every candidate that is
/// not excluded; the picked ones are excluded from then on, and nothing leaves the excluded.
pub proof fn law_dialing_fills_up(p: DialPick, c: Seq<PeerAddr>, i: int, count: usize)
    requires
        0 <= i,
        p.picked.len() <= count,
    ensures
        ({
            let r = dial_from(p, c, i, count);
            &&& p.picked.len() <= r.picked.len() <= count
            &&& r.picked.take(p.picked.len() as int) == p.picked
            &&& p.already.subset_of(r.already)
            &&& r.picked.len() < count ==> forall|k: int|
                i <= k < c.len() ==> r.already.contains(#[trigger] c[k])
            &&& forall|k: int|
                p.picked.len() <= k < r.picked.len() ==> r.already.contains(#[trigger] r.picked[k])
        }),
    decreases c.len() - i,
{
    let r = dial_from(p, c, i, count);
    if i >= c.len() || p.picked.len() >= count {
        assert(r.picked.take(p.picked.len() as int) =~= p.picked);
    } else if p.already.contains(c[i]) {
        law_dialing_fills_up(p, c, i + 1, count);
    } else {
        let next = DialPick { picked: p.picked.push(c[i]), already: p.already.insert(c[i]) };
        law_dialing_fills_up(next, c, i + 1, count);
        assert(r.picked.take(p.picked.len() as int) =~= r.picked.take(
            next.picked.len() as int,
        ).take(p.picked.len() as int));
        assert(next.picked.take(p.picked.len() as int) =~= p.picked);
        assert(r.picked[p.picked.len() as int] == r.picked.take(
            next.picked.len() as int,
        )[p.picked.len() as int]);
    }
}

} // verus!

//! How peers are compared by their rates, and what follows for their share of the work.
use vstd::prelude::*;
use crate::assign::{caps_of, known_rates, pack_of};
use crate::assign_plan::densify_slots;
use crate::order::{ascending, lemma_ascending};
use crate::peers::{live_slot, SlotView};
use crate::race::{drops_owner, idle_owner, owner_samples, ranked, ranks};
use crate::rate::PeerRate;
use crate::relslow::{median, min_samples_for, picked, rates, RelativeSlowSample};

verus! {

/// The rate of an alive peer, zero without a sample.
pub open spec fn rate_at(slots: Seq<SlotView>, p: usize) -> int {
    match live_slot(slots, p) {
        Some(i) => match slots[i].rate.ewma_bps {
            Some(b) => b as int,
            None => 0,
        },
        None => 0,
    }
}

/// Did an alive peer receive block bytes within the last thirty seconds?
pub open spec fn receives(slots: Seq<SlotView>, p: usize, now_ms: u64) -> bool {
    match live_slot(slots, p) {
        Some(i) => slots[i].rate.progress_ms != 0 && now_ms - slots[i].rate.progress_ms <= 30_000,
        None => false,
    }
}

/// The median splits a sorted row: up to the middle nothing is above it, from the middle on
/// nothing is below it, and between two middles it is their mean rounded down.
pub proof fn law_median_is_the_middle(s: Seq<u64>, i: int)
    requires
        forall|a: int, b: int| 0 <= a < b < s.len() ==> s[a] <= s[b],
        forall|a: int| 0 <= a < s.len() ==> #[trigger] s[a] <= u64::MAX / 2,
        0 <= i < s.len(),
    ensures
        2 * i < s.len() ==> s[i] <= median(s),
        2 * i >= s.len() ==> s[i] >= median(s),
        2 * i + 1 == s.len() ==> s[i] == median(s),
        2 * i + 2 == s.len() ==> 2 * median(s) <= s[i] + s[i + 1] < 2 * median(s) + 2,
{
    let n = s.len() as int;
    if n % 2 == 1 {
        assert(s[n / 2] == median(s));
        if i < n / 2 {
            assert(s[i] <= s[n / 2]);
        }
        if i > n / 2 {
            assert(s[n / 2] <= s[i]);
        }
    } else {
        let lo = s[n / 2 - 1];
        let hi = s[n / 2];
        assert(lo <= hi);
        if i < n / 2 - 1 {
            assert(s[i] <= lo);
        }
        if i > n / 2 {
            assert(hi <= s[i]);
        }
    }
}

proof fn lemma_rates_in_order(samples: Seq<RelativeSlowSample>, i: int)
    requires
        0 <= i < samples.len(),
    ensures
        ascending(rates(samples)).len() == samples.len(),
        ascending(rates(samples))[0] <= samples[i].bps <= ascending(rates(samples)).last(),
{
    let r = rates(samples);
    let t = ascending(r);
    lemma_ascending(r);
    r.to_multiset_ensures();
    t.to_multiset_ensures();
    assert(r.contains(r[i]));
    assert(r.to_multiset().count(r[i]) > 0);
    assert(t.to_multiset().count(r[i]) > 0);
    assert(t.contains(r[i]));
    assert(r[i] == samples[i].bps);
    let k = choose|k: int| 0 <= k < t.len() && t[k] == r[i];
    if k > 0 {
        assert(t[0] <= t[k]);
    }
    if k < t.len() - 1 {
        assert(t[k] <= t[t.len() - 1]);
    }
}

/// Whoever is picked for slowness has work out, is at half the pack's median or below, and
/// is the slowest of the pack among those with work out. The pack is wide enough to judge,
/// and spread by more than a factor of two.
pub proof fn law_slow_pick_is_the_slowest(
    samples: Seq<RelativeSlowSample>,
    min_samples: usize,
    id: usize,
) -> (i: int)
    requires
        picked(samples, min_samples, Some(id)),
        forall|j: int| 0 <= j < samples.len() ==> (#[trigger] samples[j]).bps <= u64::MAX / 2,
    ensures
        0 <= i < samples.len() && samples[i].peer_id == id && samples[i].has_inflight,
        2 * samples[i].bps <= median(ascending(rates(samples))),
        forall|j: int|
            0 <= j < samples.len() && (#[trigger] samples[j]).has_inflight ==> samples[i].bps
                <= samples[j].bps,
        forall|j: int|
            0 <= j < samples.len() && (#[trigger] samples[j]).has_inflight && samples[j].bps
                == samples[i].bps ==> id <= samples[j].peer_id,
        samples.len() >= min_samples,
{
    let med = median(ascending(rates(samples)));
    let i = choose|i: int|
        #[trigger] crate::relslow::is_worst(samples, med, i) && samples[i].peer_id == id;
    assert forall|j: int| 0 <= j < samples.len() && (#[trigger] samples[j]).has_inflight implies (
    samples[i].bps <= samples[j].bps && (samples[j].bps == samples[i].bps ==> id
        <= samples[j].peer_id)) by {
        assert(samples[i].bps <= u64::MAX / 2);
        if crate::relslow::half_median(samples[j], med) {
            assert(crate::relslow::worse_or_same(samples[i], samples[j]));
        }
    }
    i
}

/// In a large enough pack that is spread by more than a factor of two, a peer with work out
/// at half the median or below means that somebody is picked.
pub proof fn law_outlier_gets_picked(
    samples: Seq<RelativeSlowSample>,
    min_samples: usize,
    r: Option<usize>,
    i: int,
    lo: int,
    hi: int,
)
    requires
        picked(samples, min_samples, r),
        samples.len() >= min_samples,
        0 <= i < samples.len() && 0 <= lo < samples.len() && 0 <= hi < samples.len(),
        samples[hi].bps > 2 * samples[lo].bps,
        samples[i].has_inflight,
        2 * samples[i].bps <= median(ascending(rates(samples))),
        median(ascending(rates(samples))) > 0,
    ensures
        r is Some,
{
    lemma_rates_in_order(samples, lo);
    lemma_rates_in_order(samples, hi);
    assert(crate::relslow::half_median(samples[i], median(ascending(rates(samples)))));
}

/// A pack within a factor of two of its slowest is left alone, and so is one that is too
/// small.
pub proof fn law_close_pack_is_left_alone(
    samples: Seq<RelativeSlowSample>,
    min_samples: usize,
    r: Option<usize>,
)
    requires
        picked(samples, min_samples, r),
        samples.len() < min_samples || samples.len() > 0 && forall|a: int, b: int|
            0 <= a < samples.len() && 0 <= b < samples.len() ==> (#[trigger] samples[a]).bps <= 2
                * (#[trigger] samples[b]).bps,
    ensures
        r is None,
{
    if samples.len() >= min_samples && samples.len() > 0 {
        let s = ascending(rates(samples));
        lemma_ascending(rates(samples));
        rates(samples).to_multiset_ensures();
        s.to_multiset_ensures();
        assert(s.contains(s[0]) && s.contains(s.last()));
        assert(s.to_multiset().count(s[0]) > 0 && s.to_multiset().count(s.last()) > 0);
        assert(rates(samples).to_multiset().count(s[0]) > 0);
        assert(rates(samples).to_multiset().count(s.last()) > 0);
        assert(rates(samples).contains(s[0]) && rates(samples).contains(s.last()));
        let a = choose|a: int| 0 <= a < samples.len() && rates(samples)[a] == s.last();
        let b = choose|b: int| 0 <= b < samples.len() && rates(samples)[b] == s[0];
        assert(samples[a].bps <= 2 * samples[b].bps);
    }
}

/// The wanted number of samples is eight from sixteen alive peers on, never more than are
/// alive, at least half of them, at least six where six are alive, and grows with them.
pub proof fn law_sample_floor_grows_with_the_pack(alive: usize, more: usize)
    requires
        0 < alive <= more,
    ensures
        min_samples_for(alive) <= alive,
        alive < 16 ==> 2 * min_samples_for(alive) >= alive,
        alive >= 6 ==> min_samples_for(alive) >= 6,
        alive < 6 ==> min_samples_for(alive) == alive,
        alive >= 16 ==> min_samples_for(alive) == 8,
        min_samples_for(alive) <= min_samples_for(more) <= 8,
        min_samples_for(0) == 8,
{
}

/// A peer's share of densify: two while a hole is open at the tip; otherwise half of what it
/// may hold, or all of it at twice the median of a pack that is not tight. A faster peer
/// never gets less.
pub proof fn law_densify_share(
    per_peer: usize,
    bps: u64,
    faster: u64,
    med: u64,
    tight: bool,
)
    requires
        per_peer >= 2,
        bps <= faster,
        med <= u64::MAX / 2,
    ensures
        densify_slots(per_peer, true, Some(bps), Some(med), tight) == 2,
        densify_slots(per_peer, false, Some(bps), Some(med), true) == per_peer / 2,
        densify_slots(per_peer, false, None, Some(med), tight) == per_peer / 2,
        densify_slots(per_peer, false, Some(bps), None, tight) == per_peer / 2,
        med > 0 && bps >= 2 * med ==> densify_slots(per_peer, false, Some(bps), Some(med), false)
            == per_peer,
        med == 0 || bps < 2 * med ==> densify_slots(per_peer, false, Some(bps), Some(med), false)
            == per_peer / 2,
        densify_slots(per_peer, false, Some(bps), Some(med), tight) <= densify_slots(
            per_peer,
            false,
            Some(faster),
            Some(med),
            tight,
        ),
        densify_slots(1, false, Some(bps), Some(med), true) == 1,
{
}

/// Every alive peer has a densify cap, and while a hole is open at the tip it is two.
pub proof fn law_caps_cover_the_alive(
    slots: Seq<SlotView>,
    alive: Seq<usize>,
    per_peer: usize,
    p: usize,
)
    ensures
        caps_of(slots, alive, per_peer, false).contains_key(p) == alive.contains(p),
        caps_of(slots, alive, per_peer, true).contains_key(p) == alive.contains(p),
        alive.contains(p) ==> caps_of(slots, alive, per_peer, true)[p] == 2,
        alive.contains(p) && per_peer >= 2 ==> per_peer / 2 <= caps_of(
            slots,
            alive,
            per_peer,
            false,
        )[p] <= per_peer,
{
}

proof fn lemma_known_rates(slots: Seq<SlotView>, ids: Seq<usize>, b: u64)
    ensures
        known_rates(slots, ids).contains(b) <==> exists|i: int|
            0 <= i < ids.len() && sampled(slots, #[trigger] ids[i]) == Some(b),
    decreases ids.len(),
{
    let all = known_rates(slots, ids);
    if ids.len() > 0 {
        let t = ids.drop_last();
        let rest = known_rates(slots, t);
        let last = ids.len() - 1;
        lemma_known_rates(slots, t, b);
        if all.contains(b) {
            let k = choose|k: int| 0 <= k < all.len() && all[k] == b;
            if k < rest.len() {
                assert(rest[k] == b);
                assert(rest.contains(b));
                let i = choose|i: int| 0 <= i < t.len() && sampled(slots, #[trigger] t[i]) == Some(b);
                assert(ids[i] == t[i]);
            } else {
                assert(sampled(slots, ids[last]) == Some(b));
            }
        }
        if exists|i: int| 0 <= i < ids.len() && sampled(slots, #[trigger] ids[i]) == Some(b) {
            let i = choose|i: int|
                0 <= i < ids.len() && sampled(slots, #[trigger] ids[i]) == Some(b);
            if i < last {
                assert(t[i] == ids[i]);
                assert(rest.contains(b));
                let k = choose|k: int| 0 <= k < rest.len() && rest[k] == b;
                assert(all[k] == b);
            } else {
                assert(all[rest.len() as int] == b);
            }
        }
    }
}

/// The sampled rate of an alive peer.
pub open spec fn sampled(slots: Seq<SlotView>, p: usize) -> Option<u64> {
    match live_slot(slots, p) {
        Some(i) => slots[i].rate.ewma_bps,
        None => None,
    }
}

/// A pack has a median exactly when one of its peers has a rate, and then the median lies
/// between the rates of its slowest and fastest. It is tight where no rate is over twice
/// another.
pub proof fn law_pack_is_judged_by_its_rates(
    slots: Seq<SlotView>,
    ids: Seq<usize>,
    a: int,
    lo: u64,
    hi: u64,
)
    requires
        0 <= a < ids.len(),
        sampled(slots, ids[a]) is Some,
        hi <= u64::MAX / 2,
        forall|i: int|
            0 <= i < ids.len() && sampled(slots, #[trigger] ids[i]) is Some ==> lo <= sampled(
                slots,
                ids[i],
            )->0 <= hi,
    ensures
        pack_of(slots, ids).0 is Some,
        lo <= pack_of(slots, ids).0->0 <= hi,
        hi <= 2 * lo ==> pack_of(slots, ids).1,
{
    let k = known_rates(slots, ids);
    let s = ascending(k);
    lemma_known_rates(slots, ids, sampled(slots, ids[a])->0);
    assert(k.contains(sampled(slots, ids[a])->0));
    assert(k.len() > 0);
    lemma_ascending(k);
    k.to_multiset_ensures();
    s.to_multiset_ensures();
    assert forall|i: int| 0 <= i < s.len() implies lo <= #[trigger] s[i] <= hi by {
        assert(s.contains(s[i]));
        assert(s.to_multiset().count(s[i]) > 0);
        assert(k.to_multiset().count(s[i]) > 0);
        assert(k.contains(s[i]));
        lemma_known_rates(slots, ids, s[i]);
        let j = choose|j: int| 0 <= j < ids.len() && sampled(slots, #[trigger] ids[j]) == Some(s[i]);
        assert(lo <= sampled(slots, ids[j])->0 <= hi);
    }
    let n = s.len() as int;
    assert(lo <= s[0] <= hi);
    assert(lo <= s[n / 2] <= hi);
    if n % 2 == 0 {
        assert(lo <= s[n / 2 - 1] <= hi);
    }
    assert(lo <= s[n - 1] <= hi);
}

/// Without a rate in the pack there is no median, and the pack counts as tight.
pub proof fn law_unmeasured_pack_is_tight(slots: Seq<SlotView>, ids: Seq<usize>)
    requires
        forall|i: int| 0 <= i < ids.len() ==> sampled(slots, #[trigger] ids[i]) is None,
    ensures
        pack_of(slots, ids) == (None::<u64>, true),
{
    let k = known_rates(slots, ids);
    if k.len() > 0 {
        lemma_known_rates(slots, ids, k[0]);
        assert(k.contains(k[0]));
    }
}

/// Ranked peers are the alive ones, each as often as listed. An avoided peer comes after
/// every other, and of two alike in that the faster comes first.
pub proof fn law_rank_is_by_speed(
    slots: Seq<SlotView>,
    alive: Seq<usize>,
    avoid: Set<usize>,
    i: int,
    j: int,
)
    requires
        0 <= i < j < ranked(slots, alive, avoid).len(),
    ensures
        ({
            let r = ranked(slots, alive, avoid);
            &&& r.to_multiset() == alive.to_multiset()
            &&& avoid.contains(r[i]) ==> avoid.contains(r[j])
            &&& avoid.contains(r[i]) == avoid.contains(r[j]) ==> rate_at(slots, r[i]) >= rate_at(
                slots,
                r[j],
            )
            &&& avoid.contains(r[i]) == avoid.contains(r[j]) && rate_at(slots, r[i]) == rate_at(
                slots,
                r[j],
            ) ==> r[i] <= r[j]
        }),
{
    let leq = ranks(slots, avoid);
    assert(vstd::relations::total_ordering(leq));
    alive.lemma_sort_by_ensures(leq);
    let r = ranked(slots, alive, avoid);
    assert(leq(r[i], r[j]));
}

/// What a filter keeps, and how much of it.
pub proof fn lemma_filter_all(s: Seq<usize>, p: spec_fn(usize) -> bool)
    ensures
        s.filter(p).len() <= s.len(),
        s.filter(p).len() == s.len() <==> forall|i: int| 0 <= i < s.len() ==> p(#[trigger] s[i]),
        s.filter(p).len() == 0 <==> forall|i: int| 0 <= i < s.len() ==> !p(#[trigger] s[i]),
        forall|x: usize| #[trigger] s.filter(p).contains(x) <==> s.contains(x) && p(x),
    decreases s.len(),
{
    reveal(Seq::filter);
    s.filter_lemma(p);
    if s.len() > 0 {
        let t = s.drop_last();
        lemma_filter_all(t, p);
        assert(s.filter(p) == (if p(s.last()) {
            t.filter(p).push(s.last())
        } else {
            t.filter(p)
        }));
        if s.filter(p).len() == s.len() {
            assert forall|i: int| 0 <= i < s.len() implies p(#[trigger] s[i]) by {
                if i < t.len() {
                    assert(t[i] == s[i]);
                }
            }
        }
        if forall|i: int| 0 <= i < s.len() ==> p(#[trigger] s[i]) {
            assert forall|i: int| 0 <= i < t.len() implies p(#[trigger] t[i]) by {
                assert(p(s[i]));
            }
            assert(p(s[s.len() - 1]));
        }
        if s.filter(p).len() == 0 {
            assert forall|i: int| 0 <= i < s.len() implies !p(#[trigger] s[i]) by {
                if i < t.len() {
                    assert(t[i] == s[i]);
                }
            }
        }
        if forall|i: int| 0 <= i < s.len() ==> !p(#[trigger] s[i]) {
            assert forall|i: int| 0 <= i < t.len() implies !p(#[trigger] t[i]) by {
                assert(!p(s[i]));
            }
            assert(!p(s[s.len() - 1]));
        }
    }
    assert forall|x: usize| #[trigger] s.filter(p).contains(x) <==> s.contains(x) && p(x) by {
        if s.contains(x) && p(x) {
            let k = choose|k: int| 0 <= k < s.len() && s[k] == x;
            assert(s.filter(p).contains(s[k]));
        }
        if s.filter(p).contains(x) {
            let k = choose|k: int| 0 <= k < s.filter(p).len() && s.filter(p)[k] == x;
            let t = s.drop_last();
            if k < t.filter(p).len() {
                assert(t.filter(p)[k] == x);
                assert(t.filter(p).contains(x));
                assert(t.contains(x));
                let m = choose|m: int| 0 <= m < t.len() && t[m] == x;
                assert(s[m] == x);
            } else {
                assert(s[s.len() - 1] == x);
            }
        }
    }
}

/// A lone owner of a tip hash is dropped exactly when it received nothing for thirty seconds
/// and the request is that old.
pub proof fn law_lone_owner_is_dropped_when_silent(
    owners: Seq<usize>,
    slots: Seq<SlotView>,
    started_ms: u64,
    now_ms: u64,
    r: Option<usize>,
)
    requires
        owners.len() == 1,
        drops_owner(owners, slots, started_ms, now_ms, r),
    ensures
        !receives(slots, owners[0], now_ms) && now_ms - started_ms >= 30_000 ==> r == Some(
            owners[0],
        ),
        receives(slots, owners[0], now_ms) || now_ms - started_ms < 30_000 ==> r is None,
{
    lemma_filter_all(owners, idle_owner(slots, now_ms));
    assert(idle_owner(slots, now_ms)(owners[0]) == !receives(slots, owners[0], now_ms));
}

/// Of several owners of a tip hash, one that receives is never dropped for one that does
/// not: while some receive, the lowest of the silent ones goes; while none does, nobody
/// goes; while all do, only the slowest of them may.
pub proof fn law_receiving_owner_outlasts_a_silent_one(
    owners: Seq<usize>,
    slots: Seq<SlotView>,
    started_ms: u64,
    now_ms: u64,
    r: Option<usize>,
    a: int,
    b: int,
)
    requires
        owners.len() >= 2,
        owners.len() <= usize::MAX,
        drops_owner(owners, slots, started_ms, now_ms, r),
        0 <= a < owners.len(),
        0 <= b < owners.len(),
        forall|k: int| 0 <= k < owners.len() ==> rate_at(slots, #[trigger] owners[k]) <= u64::MAX
            / 2,
    ensures
        r is Some ==> owners.contains(r->0),
        receives(slots, owners[a], now_ms) && !receives(slots, owners[b], now_ms) ==> r is Some
            && !receives(slots, r->0, now_ms) && r->0 <= owners[b],
        (forall|k: int| 0 <= k < owners.len() ==> !receives(slots, #[trigger] owners[k], now_ms))
            ==> r is None,
        (forall|k: int| 0 <= k < owners.len() ==> receives(slots, #[trigger] owners[k], now_ms))
            && r is Some ==> rate_at(slots, r->0) <= rate_at(slots, owners[a]),
{
    let p = idle_owner(slots, now_ms);
    let idle = owners.filter(p);
    lemma_filter_all(owners, p);
    assert forall|k: int| 0 <= k < owners.len() implies p(#[trigger] owners[k]) == !receives(
        slots,
        owners[k],
        now_ms,
    ) by {}
    if receives(slots, owners[a], now_ms) && !receives(slots, owners[b], now_ms) {
        assert(!p(owners[a]) && p(owners[b]));
        assert(idle.contains(owners[b]));
        let k = choose|k: int| 0 <= k < idle.len() && idle[k] == owners[b];
        assert(r->0 <= idle[k]);
        assert(idle.contains(r->0));
        assert(p(r->0));
    }
    if forall|k: int| 0 <= k < owners.len() ==> !receives(slots, #[trigger] owners[k], now_ms) {
        assert(idle.len() == owners.len());
    }
    let samples = owner_samples(owners, slots);
    if idle.len() == 0 && r is Some {
        let i = law_slow_pick_is_the_slowest(samples, owners.len() as usize, r->0);
        assert(samples[i].peer_id == owners[i]);
        assert(samples[a].has_inflight);
        assert(rate_at(slots, owners[i]) == samples[i].bps && rate_at(slots, owners[a])
            == samples[a].bps);
    }
    if forall|k: int| 0 <= k < owners.len() ==> receives(slots, #[trigger] owners[k], now_ms) {
        assert(idle.len() == 0);
    }
    if idle.len() > 0 && idle.len() < owners.len() {
        assert(idle.contains(r->0));
    }
}

/// Bytes count as recent up to the limit, and never before the first byte; a peer is stuck
/// only with work out, and only once both its last bytes and its last fresh work are as old
/// as the limit.
pub proof fn law_recency_and_stalls(r: PeerRate, now_ms: u64, limit_ms: u64)
    requires
        now_ms >= r.progress_ms,
        now_ms >= r.work_started_ms,
    ensures
        r.recent(now_ms, limit_ms) <==> r.progress_ms > 0 && now_ms - r.progress_ms <= limit_ms,
        !r.stuck(now_ms, limit_ms, false),
        r.stuck(now_ms, limit_ms, true) <==> now_ms - r.progress_ms >= limit_ms && now_ms
            - r.work_started_ms >= limit_ms,
{
}

} // verus!

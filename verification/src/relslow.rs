//! Which download peer is clearly slower than the pack.
use vstd::prelude::*;
use crate::order::{ascending, lemma_ascending, sorted};
use crate::time::{sat_add, sat_mul, saturating_mul_u64};

verus! {

/// A pack whose fastest is within this factor of its slowest is tight.
pub const RELATIVE_SLOW_CLUSTER_SPREAD: u64 = 2;

/// An outlier is at or below the median over this.
pub const RELATIVE_SLOW_OUTLIER_RATIO: u64 = 2;

/// Mature peers wanted before the relative rule runs.
pub const RELATIVE_SLOW_MIN_SAMPLES: usize = 8;

/// Floor of the above with fewer than sixteen peers alive.
pub const RELATIVE_SLOW_MIN_SAMPLES_FLOOR: usize = 6;

/// Age of the download before any relative disconnect, in milliseconds.
pub const RELATIVE_SLOW_GLOBAL_WARMUP_MS: u64 = 60_000;

/// One mature speed sample.
#[derive(Clone, Copy, Debug, PartialEq, Eq, Structural)]
pub struct RelativeSlowSample {
    pub peer_id: usize,
    pub bps: u64,
    pub has_inflight: bool,
}

/// Mature samples wanted with `alive` peers: eight from sixteen on (and with
/// none), else half of them rounded up, at least six, at most all.
pub open spec fn min_samples_for(alive: usize) -> usize {
    if alive == 0 || alive >= 16 {
        8
    } else if alive <= 6 {
        alive
    } else if (alive + 1) / 2 > 6 {
        ((alive + 1) / 2) as usize
    } else {
        6
    }
}

/// Minimum mature samples required given how many peers are alive.
pub fn relative_slow_min_samples(alive: usize) -> (n: usize)
    ensures
        n == min_samples_for(alive),
{
    if alive == 0 {
        return RELATIVE_SLOW_MIN_SAMPLES;
    }
    if alive >= 16 {
        RELATIVE_SLOW_MIN_SAMPLES
    } else {
        let half: usize = alive / 2 + alive % 2;
        let floored: usize = if half > RELATIVE_SLOW_MIN_SAMPLES_FLOOR {
            half
        } else {
            RELATIVE_SLOW_MIN_SAMPLES_FLOOR
        };
        if floored < alive {
            floored
        } else {
            alive
        }
    }
}

/// Middle value of a sorted row; of two middles their mean, rounded down. The
/// sum of two middles stops at the largest value.
pub open spec fn median(sorted: Seq<u64>) -> u64 {
    let n = sorted.len() as int;
    if n == 0 {
        0
    } else if n % 2 == 1 {
        sorted[n / 2]
    } else {
        sat_add(sorted[n / 2 - 1], sorted[n / 2]) / 2
    }
}

/// Median of a sorted slice, zero for an empty one.
pub fn median_u64(sorted: &[u64]) -> (m: u64)
    ensures
        m == median(sorted@),
{
    let n: usize = sorted.len();
    if n == 0 {
        return 0;
    }
    if n % 2 == 1 {
        sorted[n / 2]
    } else {
        let a: u64 = sorted[n / 2 - 1];
        let b: u64 = sorted[n / 2];
        a.saturating_add(b) / 2
    }
}

/// The rates of a row of samples.
pub open spec fn rates(samples: Seq<RelativeSlowSample>) -> Seq<u64> {
    Seq::new(samples.len(), |i: int| samples[i].bps)
}

/// Is a sorted, non-empty row of rates a tight pack? All zero, or the largest
/// within the spread factor of a non-zero smallest.
pub open spec fn tight_pack(sorted: Seq<u64>) -> bool {
    if sorted[0] == 0 {
        sorted.last() == 0
    } else {
        sorted.last() <= sat_mul(sorted[0], RELATIVE_SLOW_CLUSTER_SPREAD)
    }
}

/// Does this sample fall to half the median or below while it has work out?
pub open spec fn half_median(s: RelativeSlowSample, med: u64) -> bool {
    s.has_inflight && sat_mul(s.bps, RELATIVE_SLOW_OUTLIER_RATIO) <= med
}

/// Slower, or as slow with a lower id.
pub open spec fn worse_or_same(a: RelativeSlowSample, b: RelativeSlowSample) -> bool {
    a.bps < b.bps || (a.bps == b.bps && a.peer_id <= b.peer_id)
}

/// Can any sample be picked at all: enough samples, a spread pack, a median?
pub open spec fn pick_open(samples: Seq<RelativeSlowSample>, min_samples: usize) -> bool {
    let b = ascending(rates(samples));
    samples.len() >= min_samples && samples.len() > 0 && !tight_pack(b) && median(b) != 0
}

/// Is the sample at `i` the one to pick: a half-median outlier with work out, and
/// none of those is worse?
pub open spec fn is_worst(samples: Seq<RelativeSlowSample>, med: u64, i: int) -> bool {
    &&& 0 <= i < samples.len()
    &&& half_median(samples[i], med)
    &&& forall|j: int|
        0 <= j < samples.len() && half_median(#[trigger] samples[j], med) ==> worse_or_same(
            samples[i],
            samples[j],
        )
}

/// What the relative-slow pick may answer.
pub open spec fn picked(samples: Seq<RelativeSlowSample>, min_samples: usize, r: Option<usize>) -> bool {
    let med = median(ascending(rates(samples)));
    match r {
        Some(id) => pick_open(samples, min_samples) && exists|i: int|
            #[trigger] is_worst(samples, med, i) && samples[i].peer_id == id,
        None => !pick_open(samples, min_samples) || forall|i: int|
            0 <= i < samples.len() ==> !half_median(#[trigger] samples[i], med),
    }
}

fn sorted_rates(samples: &[RelativeSlowSample]) -> (r: Vec<u64>)
    ensures
        r@ == ascending(rates(samples@)),
{
    let mut bps: Vec<u64> = Vec::new();
    let mut i: usize = 0;
    while i < samples.len()
        invariant
            i <= samples@.len(),
            bps@ == rates(samples@).take(i as int),
        decreases samples@.len() - i,
    {
        bps.push(samples[i].bps);
        assert(rates(samples@).take(i + 1) =~= rates(samples@).take(i as int).push(
            samples@[i as int].bps,
        ));
        i = i + 1;
    }
    assert(rates(samples@).take(i as int) =~= rates(samples@));
    sorted(&bps)
}

/// At most one peer that is a clear half-median outlier with work out: the
/// slowest of them, the lowest id among equals. None when the pack is thin,
/// tight, or has no outlier.
pub fn relative_slow_pick(samples: &[RelativeSlowSample], min_samples: usize) -> (r: Option<usize>)
    requires
        samples@.len() > 0 || min_samples > 0,
    ensures
        picked(samples@, min_samples, r),
{
    if samples.len() < min_samples {
        return None;
    }
    let bps = sorted_rates(samples);
    proof {
        lemma_ascending(rates(samples@));
    }
    let lo: u64 = bps[0];
    let hi: u64 = bps[bps.len() - 1];
    if lo == 0 {
        if hi == 0 {
            return None;
        }
    } else if hi <= saturating_mul_u64(lo, RELATIVE_SLOW_CLUSTER_SPREAD) {
        return None;
    }
    let med: u64 = median_u64(bps.as_slice());
    if med == 0 {
        return None;
    }
    let mut worst: Option<usize> = None;
    let mut i: usize = 0;
    while i < samples.len()
        invariant
            i <= samples@.len(),
            match worst {
                Some(w) => w < i && half_median(samples@[w as int], med) && forall|j: int|
                    0 <= j < i && half_median(#[trigger] samples@[j], med) ==> worse_or_same(
                        samples@[w as int],
                        samples@[j],
                    ),
                None => forall|j: int| 0 <= j < i ==> !half_median(#[trigger] samples@[j], med),
            },
        decreases samples@.len() - i,
    {
        let s = samples[i];
        if s.has_inflight && saturating_mul_u64(s.bps, RELATIVE_SLOW_OUTLIER_RATIO) <= med {
            worst = match worst {
                None => Some(i),
                Some(w) => {
                    let cur = samples[w];
                    if s.bps < cur.bps || (s.bps == cur.bps && s.peer_id < cur.peer_id) {
                        Some(i)
                    } else {
                        Some(w)
                    }
                },
            };
        }
        i = i + 1;
    }
    match worst {
        Some(w) => {
            assert(is_worst(samples@, med, w as int));
            Some(samples[w].peer_id)
        },
        None => None,
    }
}

/// Two-tick hysteresis: the first pick only marks a suspect, the second in a row
/// of the same peer says disconnect. Another pick moves the mark; none clears it.
pub fn relative_slow_with_hysteresis(
    samples: &[RelativeSlowSample],
    min_samples: usize,
    prev_suspect: Option<usize>,
) -> (r: (Option<usize>, Option<usize>))
    requires
        samples@.len() > 0 || min_samples > 0,
    ensures
        picked(samples@, min_samples, the_pick(samples@, min_samples)),
        r == hysteresis(the_pick(samples@, min_samples), prev_suspect),
{
    let pick = relative_slow_pick(samples, min_samples);
    proof {
        law_pick_is_unique(samples@, min_samples, pick, the_pick(samples@, min_samples));
    }
    match pick {
        Some(id) => {
            let again = match prev_suspect {
                Some(p) => p == id,
                None => false,
            };
            if again {
                (Some(id), None)
            } else {
                (None, Some(id))
            }
        },
        None => (None, None),
    }
}

/// `(disconnect, next suspect)` from a pick and the suspect before it.
pub open spec fn hysteresis(pick: Option<usize>, prev: Option<usize>) -> (Option<usize>, Option<usize>) {
    if pick is None {
        (None, None)
    } else if pick == prev {
        (pick, None)
    } else {
        (None, pick)
    }
}

/// The one answer of a pick.
pub open spec fn the_pick(samples: Seq<RelativeSlowSample>, min_samples: usize) -> Option<usize> {
    choose|r: Option<usize>| picked(samples, min_samples, r)
}

/// A pick has one answer only.
pub proof fn law_pick_is_unique(
    samples: Seq<RelativeSlowSample>,
    min_samples: usize,
    a: Option<usize>,
    b: Option<usize>,
)
    requires
        picked(samples, min_samples, a),
        picked(samples, min_samples, b),
    ensures
        a == b,
{
    let med = median(ascending(rates(samples)));
    if a is Some && b is Some {
        let i = choose|i: int| #[trigger] is_worst(samples, med, i) && samples[i].peer_id == a->0;
        let j = choose|j: int| #[trigger] is_worst(samples, med, j) && samples[j].peer_id == b->0;
        assert(worse_or_same(samples[i], samples[j]));
        assert(worse_or_same(samples[j], samples[i]));
    }
    if a is Some {
        let i = choose|i: int| #[trigger] is_worst(samples, med, i) && samples[i].peer_id == a->0;
        assert(half_median(samples[i], med));
    }
    if b is Some {
        let i = choose|i: int| #[trigger] is_worst(samples, med, i) && samples[i].peer_id == b->0;
        assert(half_median(samples[i], med));
    }
}

/// A tight pack loses nobody.
pub proof fn law_tight_pack_is_spared(
    samples: Seq<RelativeSlowSample>,
    min_samples: usize,
    r: Option<usize>,
)
    requires
        picked(samples, min_samples, r),
        samples.len() > 0,
        tight_pack(ascending(rates(samples))),
    ensures
        r is None,
{
}

/// Nobody is disconnected on one tick alone: a disconnect names the peer that the
/// tick before left as suspect, and starts afresh.
pub proof fn law_disconnect_takes_two_ticks(first: Option<usize>, second: Option<usize>, prev: Option<usize>)
    ensures
        ({
            let one = hysteresis(first, prev);
            let two = hysteresis(second, one.1);
            &&& one.0 is Some ==> one.0 == prev && one.1 is None
            &&& two.0 is Some ==> two.0 == first && two.0 == second && one.0 is None
        }),
{
}

} // verus!

//! The multi-peer race for hashes of the tip hole.
use vstd::prelude::*;
use crate::chain::ChainHub;
use crate::config::{IbdConfig, TIP_HOLE_MAX_PEERS};
use crate::fetch::{bq_wire_for_hash, demote_zombie_pending_for_fetch, demoted, need_at, Turn};
use crate::hash::BlockHash;
use crate::inflight::{drop_hash_owner, issue_one, without_owner};
use crate::order::sort_items;
use crate::peers::{find_slot, live_slot, slot_views, PeerSlot, SlotView};
use crate::relslow::{law_pick_is_unique, picked, relative_slow_pick, RelativeSlowSample};
use crate::state::{IbdWorkState, WorkView};
use crate::time::{sat_add, sat_sub};
use std::collections::HashSet;

verus! {

/// Bytes older than this are not recent for the owners of a tip-hole hash.
pub const TIP_HOLE_RX_STALE_MS: u64 = 30_000;

/// Has the alive slot of `pid` received block bytes recently?
pub open spec fn pulls(slots: Seq<SlotView>, pid: usize, now_ms: u64) -> bool {
    match live_slot(slots, pid) {
        Some(i) => slots[i].rate.recent(now_ms, TIP_HOLE_RX_STALE_MS),
        None => false,
    }
}

/// Has the slot received block bytes recently?
pub fn peer_has_recent_rx(slot: &PeerSlot, now_ms: u64) -> (b: bool)
    ensures
        b == slot@.rate.recent(now_ms, TIP_HOLE_RX_STALE_MS),
{
    slot.rate.has_recent_rx(now_ms, TIP_HOLE_RX_STALE_MS)
}

fn owner_pulls(slots: &Vec<PeerSlot>, pid: usize, now_ms: u64) -> (b: bool)
    ensures
        b == pulls(slot_views(slots@), pid, now_ms),
{
    match find_slot(slots, pid, true) {
        Some(i) => peer_has_recent_rx(&slots[i], now_ms),
        None => false,
    }
}

/// Smoothed rate of the alive slot of `pid`.
pub open spec fn rate_of(slots: Seq<SlotView>, pid: usize) -> Option<u64> {
    match live_slot(slots, pid) {
        Some(i) => slots[i].rate.ewma_bps,
        None => None,
    }
}

/// The same, zero where there is none.
pub open spec fn bps_of(slots: Seq<SlotView>, pid: usize) -> u64 {
    match rate_of(slots, pid) {
        Some(b) => b,
        None => 0,
    }
}

/// Smoothed rate of the alive slot of `pid`.
pub fn peer_rate(slots: &Vec<PeerSlot>, pid: usize) -> (r: Option<u64>)
    ensures
        r == rate_of(slot_views(slots@), pid),
{
    match find_slot(slots, pid, true) {
        Some(i) => slots[i].rate.bps(),
        None => None,
    }
}

/// Smoothed rate of the alive slot of `pid`, zero where there is none.
pub fn peer_bps(slots: &Vec<PeerSlot>, pid: usize) -> (r: u64)
    ensures
        r == bps_of(slot_views(slots@), pid),
{
    match peer_rate(slots, pid) {
        Some(b) => b,
        None => 0,
    }
}

/// Owners that have not received block bytes recently.
pub open spec fn idle_owner(slots: Seq<SlotView>, now_ms: u64) -> spec_fn(usize) -> bool {
    |pid: usize| !pulls(slots, pid, now_ms)
}

/// Is `id` the lowest of `s`?
pub open spec fn is_lowest(s: Seq<usize>, id: usize) -> bool {
    s.contains(id) && forall|j: int| 0 <= j < s.len() ==> id <= #[trigger] s[j]
}

/// Speed samples of the owners, who all have work out.
pub open spec fn owner_samples(owners: Seq<usize>, slots: Seq<SlotView>) -> Seq<RelativeSlowSample> {
    Seq::new(
        owners.len(),
        |i: int|
            RelativeSlowSample {
                peer_id: owners[i],
                bps: bps_of(slots, owners[i]),
                has_inflight: true,
            },
    )
}

/// May `r` be the owner to drop from a tip-hole hash requested at `started_ms`?
///
/// - A lone owner goes once it has received nothing recently and the request is
///   old enough.
/// - Of several, while none receives, nobody goes.
/// - Where some receive and some do not, the lowest of the latter goes.
/// - Where all receive, the relative-slow outlier among them goes, if any.
pub open spec fn drops_owner(
    owners: Seq<usize>,
    slots: Seq<SlotView>,
    started_ms: u64,
    now_ms: u64,
    r: Option<usize>,
) -> bool {
    let idle = owners.filter(idle_owner(slots, now_ms));
    if owners.len() == 0 {
        r is None
    } else if owners.len() == 1 {
        r == (if idle.len() == 1 && sat_sub(now_ms, started_ms) >= TIP_HOLE_RX_STALE_MS {
            Some(owners[0])
        } else {
            None
        })
    } else if idle.len() == owners.len() {
        r is None
    } else if idle.len() > 0 {
        r is Some && is_lowest(idle, r->0)
    } else {
        picked(owner_samples(owners, slots), owners.len() as usize, r)
    }
}

/// The owner to drop from a tip-hole hash.
pub open spec fn owner_to_drop(
    owners: Seq<usize>,
    slots: Seq<SlotView>,
    started_ms: u64,
    now_ms: u64,
) -> Option<usize> {
    choose|r: Option<usize>| drops_owner(owners, slots, started_ms, now_ms, r)
}

/// The rule names one owner at most: there is no second answer.
pub proof fn law_owner_drop_is_unique(
    owners: Seq<usize>,
    slots: Seq<SlotView>,
    started_ms: u64,
    now_ms: u64,
    r: Option<usize>,
)
    requires
        drops_owner(owners, slots, started_ms, now_ms, r),
    ensures
        r == owner_to_drop(owners, slots, started_ms, now_ms),
{
    let q = owner_to_drop(owners, slots, started_ms, now_ms);
    assert(drops_owner(owners, slots, started_ms, now_ms, q));
    let idle = owners.filter(idle_owner(slots, now_ms));
    if owners.len() > 1 && idle.len() < owners.len() {
        if idle.len() > 0 {
            let i = choose|i: int| 0 <= i < idle.len() && idle[i] == r->0;
            let j = choose|j: int| 0 <= j < idle.len() && idle[j] == q->0;
            assert(r->0 <= idle[j]);
            assert(q->0 <= idle[i]);
        } else {
            law_pick_is_unique(owner_samples(owners, slots), owners.len() as usize, r, q);
        }
    }
}

proof fn lemma_filter_len<A>(s: Seq<A>, p: spec_fn(A) -> bool)
    ensures
        s.filter(p).len() <= s.len(),
        s.filter(p).len() == s.len() ==> forall|i: int| 0 <= i < s.len() ==> p(#[trigger] s[i]),
        s.filter(p).len() == 0 ==> forall|i: int| 0 <= i < s.len() ==> !p(#[trigger] s[i]),
    decreases s.len(),
{
    reveal(Seq::filter);
    if s.len() > 0 {
        lemma_filter_len(s.drop_last(), p);
        assert forall|i: int| 0 <= i < s.len() - 1 implies s[i] == s.drop_last()[i] by {}
    }
}

/// Which owner of a tip-hole hash to drop from this hash (not to disconnect).
pub fn tip_hole_owner_to_drop(
    owners: &[usize],
    slots: &Vec<PeerSlot>,
    started_ms: u64,
    now_ms: u64,
) -> (r: Option<usize>)
    ensures
        r == owner_to_drop(owners@, slot_views(slots@), started_ms, now_ms),
        drops_owner(owners@, slot_views(slots@), started_ms, now_ms, r),
{
    let ghost v = slot_views(slots@);
    let ghost p = idle_owner(v, now_ms);
    let mut idle: Vec<usize> = Vec::new();
    let mut i: usize = 0;
    while i < owners.len()
        invariant
            i <= owners@.len(),
            v == slot_views(slots@),
            p == idle_owner(v, now_ms),
            idle@ == owners@.take(i as int).filter(p),
        decreases owners@.len() - i,
    {
        let id: usize = owners[i];
        proof {
            assert(owners@.take(i + 1) =~= owners@.take(i as int).push(id));
            owners@.take(i as int).lemma_filter_push(id, p);
        }
        if !owner_pulls(slots, id, now_ms) {
            idle.push(id);
        }
        i = i + 1;
    }
    assert(owners@.take(i as int) =~= owners@);
    proof {
        lemma_filter_len(owners@, p);
    }
    let r = owner_by_idle(owners, &idle, slots, started_ms, now_ms);
    proof {
        law_owner_drop_is_unique(owners@, v, started_ms, now_ms, r);
    }
    r
}

fn owner_by_idle(
    owners: &[usize],
    idle: &Vec<usize>,
    slots: &Vec<PeerSlot>,
    started_ms: u64,
    now_ms: u64,
) -> (r: Option<usize>)
    requires
        idle@ == owners@.filter(idle_owner(slot_views(slots@), now_ms)),
        idle@.len() <= owners@.len(),
    ensures
        drops_owner(owners@, slot_views(slots@), started_ms, now_ms, r),
{
    if owners.len() == 0 {
        return None;
    }
    if owners.len() == 1 {
        if idle.len() == 1 && now_ms.saturating_sub(started_ms) >= TIP_HOLE_RX_STALE_MS {
            return Some(owners[0]);
        }
        return None;
    }
    if idle.len() == owners.len() {
        return None;
    }
    if idle.len() > 0 {
        let mut low: usize = idle[0];
        let mut i: usize = 1;
        assert(idle@.contains(idle@[0]));
        while i < idle.len()
            invariant
                1 <= i <= idle@.len(),
                idle@.contains(low),
                forall|j: int| 0 <= j < i ==> low <= #[trigger] idle@[j],
            decreases idle@.len() - i,
        {
            if idle[i] < low {
                low = idle[i];
                assert(idle@.contains(idle@[i as int]));
            }
            i = i + 1;
        }
        return Some(low);
    }
    let mut samples: Vec<RelativeSlowSample> = Vec::new();
    let mut i: usize = 0;
    let ghost want = owner_samples(owners@, slot_views(slots@));
    while i < owners.len()
        invariant
            i <= owners@.len(),
            want == owner_samples(owners@, slot_views(slots@)),
            samples@ == want.take(i as int),
        decreases owners@.len() - i,
    {
        let id: usize = owners[i];
        samples.push(
            RelativeSlowSample { peer_id: id, bps: peer_bps(slots, id), has_inflight: true },
        );
        assert(want.take(i + 1) =~= want.take(i as int).push(want[i as int]));
        i = i + 1;
    }
    assert(want.take(i as int) =~= want);
    relative_slow_pick(samples.as_slice(), samples.len())
}

/// Rank of peers for a request: those not avoided first, then the faster, then
/// the lower id.
pub open spec fn ranks(slots: Seq<SlotView>, avoid: Set<usize>) -> spec_fn(usize, usize) -> bool {
    |a: usize, b: usize|
        if avoid.contains(a) != avoid.contains(b) {
            avoid.contains(b)
        } else if bps_of(slots, a) != bps_of(slots, b) {
            bps_of(slots, a) > bps_of(slots, b)
        } else {
            a <= b
        }
}

/// `alive` in rank order.
pub open spec fn ranked(slots: Seq<SlotView>, alive: Seq<usize>, avoid: Set<usize>) -> Seq<usize> {
    alive.sort_by(ranks(slots, avoid))
}

/// Rank alive peer ids for getdata: those not in `avoid` first, then by higher
/// rate, then by lower id. Peers without a rate count as zero.
pub fn rank_peers_by_speed(slots: &Vec<PeerSlot>, alive: &Vec<usize>, avoid: &HashSet<usize>) -> (r: Vec<usize>)
    ensures
        r@ == ranked(slot_views(slots@), alive@, avoid@),
{
    let ghost leq = ranks(slot_views(slots@), avoid@);
    assert(vstd::relations::total_ordering(leq));
    let le = |a: &usize, b: &usize| -> (y: bool)
        ensures
            y == ranks(slot_views(slots@), avoid@)(*a, *b),
    {
        let aa = avoid.contains(a);
        let ab = avoid.contains(b);
        if aa != ab {
            ab
        } else {
            let ba: u64 = peer_bps(slots, *a);
            let bb: u64 = peer_bps(slots, *b);
            if ba != bb {
                ba > bb
            } else {
                *a <= *b
            }
        }
    };
    sort_items(alive, le, Ghost(leq))
}

impl WorkView {
    /// Height of `h`, where known.
    pub open spec fn height_of(self, h: BlockHash) -> Option<u32> {
        if self.hash_height.contains_key(h) {
            Some(self.hash_height[h])
        } else {
            None
        }
    }

    /// How many peers `h` is requested from.
    pub open spec fn owners_of(self, h: BlockHash) -> nat {
        if self.inflight.contains_key(h) {
            self.inflight[h].peers.len()
        } else {
            0
        }
    }

    /// The owner that the race for `h` drops now.
    pub open spec fn evicts(self, h: BlockHash, now_ms: u64) -> Option<usize> {
        if self.inflight.contains_key(h) {
            owner_to_drop(
                self.inflight[h].peers,
                self.slots,
                self.inflight[h].started_ms,
                now_ms,
            )
        } else {
            None
        }
    }

    /// May `pid` join the race for `h`?
    pub open spec fn may_join(self, pid: usize, h: BlockHash, evicted: Option<usize>, per_peer: usize) -> bool {
        &&& evicted != Some(pid)
        &&& live_slot(self.slots, pid) is Some
        &&& !self.slots[live_slot(self.slots, pid)->0].in_flight.contains(h)
        &&& !(self.inflight.contains_key(h) && self.inflight[h].peers.contains(pid))
        &&& self.slots[live_slot(self.slots, pid)->0].in_flight.len() < per_peer
    }
}

/// Is the hole `h` still to be raced for: not held by the awaited branch, and its
/// body not there yet?
pub open spec fn hole_open(t: Turn, h: BlockHash) -> bool {
    !t.st.reorg.awaits_held(h) && (match t.st.height_of(h) {
        Some(ht) => !t.hub.claim_ready(ht, h),
        None => !t.hub.blocks.contains(h),
    })
}

/// The state in which the race for `h` starts: another hash is out of its queue
/// slot, and a zombie pending mark is demoted.
pub open spec fn hole_cleared(t: Turn, h: BlockHash) -> Turn {
    let height = t.st.height_of(h);
    let hub = match height {
        Some(ht) => t.hub.without_wrong_wire(ht, h),
        None => t.hub,
    };
    Turn { st: WorkView { body: demoted(t.st.body, hub, h, height), ..t.st }, hub }
}

/// A race for one hash under way.
#[verifier::ext_equal]
pub struct Race {
    pub st: WorkView,
    pub issued: u64,
    /// Peers still wanted.
    pub need: int,
    pub placed: bool,
}

/// The race after the peers of `row` from `i` on had their turn.
pub open spec fn race_from(
    r: Race,
    h: BlockHash,
    row: Seq<usize>,
    i: int,
    evicted: Option<usize>,
    per_peer: usize,
    now_ms: u64,
) -> Race
    decreases row.len() - i,
{
    if i >= row.len() || r.need <= 0 {
        r
    } else if r.st.may_join(row[i], h, evicted, per_peer) {
        race_from(
            Race {
                st: r.st.with_issued(row[i], seq![h], now_ms),
                issued: sat_add(r.issued, 1),
                need: r.need - 1,
                placed: true,
            },
            h,
            row,
            i + 1,
            evicted,
            per_peer,
            now_ms,
        )
    } else {
        race_from(r, h, row, i + 1, evicted, per_peer, now_ms)
    }
}

/// Covering holes under way.
#[verifier::ext_equal]
pub struct Cover {
    pub turn: Turn,
    pub issued: u64,
    /// Nobody could take a hash that nobody has: no use going on.
    pub stuck: bool,
}

/// One hole covered: at most one owner is dropped, then ranked peers join until
/// the race is full.
pub open spec fn cover_one(c: Cover, h: BlockHash, alive: Seq<usize>, per_peer: usize, now_ms: u64) -> Cover {
    if !hole_open(c.turn, h) {
        c
    } else {
        let t = hole_cleared(c.turn, h);
        let evicted = t.st.evicts(h, now_ms);
        let v = match evicted {
            Some(pid) => without_owner(t.st, h, pid),
            None => t.st,
        };
        let already = v.owners_of(h);
        if already >= TIP_HOLE_MAX_PEERS {
            Cover { turn: Turn { st: v, hub: t.hub }, ..c }
        } else {
            let avoid = match evicted {
                Some(pid) => Set::<usize>::empty().insert(pid),
                None => Set::<usize>::empty(),
            };
            let r = race_from(
                Race {
                    st: v,
                    issued: c.issued,
                    need: TIP_HOLE_MAX_PEERS - already,
                    placed: false,
                },
                h,
                ranked(v.slots, alive, avoid),
                0,
                evicted,
                per_peer,
                now_ms,
            );
            Cover {
                turn: Turn { st: r.st, hub: t.hub },
                issued: r.issued,
                stuck: already == 0 && !r.placed,
            }
        }
    }
}

/// The holes from `i` on covered, in order, until nobody can take one.
pub open spec fn cover_from(
    c: Cover,
    holes: Seq<BlockHash>,
    i: int,
    alive: Seq<usize>,
    per_peer: usize,
    now_ms: u64,
) -> Cover
    decreases holes.len() - i,
{
    if i >= holes.len() || c.stuck {
        c
    } else {
        cover_from(
            cover_one(c, holes[i], alive, per_peer, now_ms),
            holes,
            i + 1,
            alive,
            per_peer,
            now_ms,
        )
    }
}

/// All holes covered.
pub open spec fn covered(t: Turn, holes: Seq<BlockHash>, alive: Seq<usize>, per_peer: usize, now_ms: u64) -> Cover {
    if alive.len() == 0 {
        Cover { turn: t, issued: 0, stuck: false }
    } else {
        cover_from(
            Cover { turn: t, issued: 0, stuck: false },
            holes,
            0,
            alive,
            per_peer,
            now_ms,
        )
    }
}

proof fn lemma_one_goes_out(v: WorkView, pid: usize, h: BlockHash)
    requires
        live_slot(v.slots, pid) is Some,
        !v.slots[live_slot(v.slots, pid)->0].in_flight.contains(h),
    ensures
        v.going_out(pid, seq![h]) == seq![h],
{
    let p = crate::inflight::unasked(v.slots[live_slot(v.slots, pid)->0]);
    Seq::<BlockHash>::empty().lemma_filter_push(h, p);
    assert(seq![h] =~= Seq::<BlockHash>::empty().push(h));
    reveal(Seq::filter);
    assert(Seq::<BlockHash>::empty().filter(p) =~= Seq::<BlockHash>::empty());
}

fn may_join_race(
    st: &IbdWorkState,
    pid: usize,
    h: &BlockHash,
    evicted: Option<usize>,
    per_peer: usize,
) -> (b: bool)
    ensures
        b == st@.may_join(pid, *h, evicted, per_peer),
{
    if let Some(e) = evicted {
        if e == pid {
            return false;
        }
    }
    let idx = match find_slot(&st.slots, pid, true) {
        Some(i) => i,
        None => {
            return false;
        },
    };
    if st.slots[idx].in_flight.contains(h) {
        return false;
    }
    if let Some(req) = st.inflight.get(h) {
        if req.contains_peer(pid) {
            return false;
        }
    }
    st.slots[idx].in_flight.len() < per_peer
}

/// Run the race for one hash over a row of ranked peers.
fn race_row(
    st: &mut IbdWorkState,
    h: BlockHash,
    row: &Vec<usize>,
    evicted: Option<usize>,
    wanted: usize,
    per_peer: usize,
    issued: &mut u64,
    now_ms: u64,
) -> (placed: bool)
    ensures
        ({
            let r = race_from(
                Race { st: old(st)@, issued: *old(issued), need: wanted as int, placed: false },
                h,
                row@,
                0,
                evicted,
                per_peer,
                now_ms,
            );
            final(st)@ == r.st && *final(issued) == r.issued && placed == r.placed
        }),
{
    let ghost all = race_from(
        Race { st: st@, issued: *issued, need: wanted as int, placed: false },
        h,
        row@,
        0,
        evicted,
        per_peer,
        now_ms,
    );
    let mut need: usize = wanted;
    let mut placed = false;
    let mut i: usize = 0;
    while i < row.len() && need > 0
        invariant
            i <= row@.len(),
            race_from(
                Race { st: st@, issued: *issued, need: need as int, placed },
                h,
                row@,
                i as int,
                evicted,
                per_peer,
                now_ms,
            ) == all,
        decreases row@.len() - i,
    {
        let pid: usize = row[i];
        if may_join_race(st, pid, &h, evicted, per_peer) {
            proof {
                lemma_one_goes_out(st@, pid, h);
            }
            let mut room: usize = 1;
            if issue_one(st, pid, h, &mut room, issued, now_ms) {
                placed = true;
                need = need - 1;
            }
        }
        i = i + 1;
    }
    placed
}

/// Cover one hole; true when nobody could take a hash that nobody has.
fn cover_hole(
    st: &mut IbdWorkState,
    hub: &mut ChainHub,
    per_peer: usize,
    alive: &Vec<usize>,
    h: BlockHash,
    issued: &mut u64,
    now_ms: u64,
) -> (stuck: bool)
    ensures
        (Cover {
            turn: (Turn { st: final(st)@, hub: final(hub)@ }),
            issued: *final(issued),
            stuck,
        }) == cover_one(
            (Cover {
                turn: (Turn { st: old(st)@, hub: old(hub)@ }),
                issued: *old(issued),
                stuck: false,
            }),
            h,
            alive@,
            per_peer,
            now_ms,
        ),
{
    if st.reorg.is_awaiting_held_tip(&h) {
        return false;
    }
    let ht = match st.hash_height.get(&h) {
        Some(x) => Some(*x),
        None => None,
    };
    match ht {
        Some(x) => {
            if hub.claim_ready(x, &h) {
                return false;
            }
            let _ = bq_wire_for_hash(hub, x, h);
        },
        None => {
            if hub.has_block(&h) {
                return false;
            }
        },
    }
    demote_zombie_pending_for_fetch(&mut st.body, hub, h, ht);
    assert((Turn { st: st@, hub: hub@ }) =~= hole_cleared(
        Turn { st: old(st)@, hub: old(hub)@ },
        h,
    ));
    let evicted = match st.inflight.get(&h) {
        Some(req) => tip_hole_owner_to_drop(req.peers.as_slice(), &st.slots, req.started_ms, now_ms),
        None => None,
    };
    let mut avoid: HashSet<usize> = HashSet::new();
    if let Some(pid) = evicted {
        drop_hash_owner(st, h, pid);
        avoid.insert(pid);
    }
    let already: usize = match st.inflight.get(&h) {
        Some(req) => req.len(),
        None => 0,
    };
    if already >= TIP_HOLE_MAX_PEERS {
        return false;
    }
    let row = rank_peers_by_speed(&st.slots, alive, &avoid);
    let placed = race_row(
        st,
        h,
        &row,
        evicted,
        TIP_HOLE_MAX_PEERS - already,
        per_peer,
        issued,
        now_ms,
    );
    already == 0 && !placed
}

/// Cover each tip-hole hash with multi-peer getdata, faster peers first; hands
/// back how many requests went out.
///
/// While a hole is open, at most one owner of this very hash is dropped per call.
/// The whole race is never cleared on age.
pub fn cover_tip_holes(
    st: &mut IbdWorkState,
    hub: &mut ChainHub,
    cfg: &IbdConfig,
    alive: &Vec<usize>,
    holes: &Vec<BlockHash>,
    now_ms: u64,
) -> (issued: u64)
    ensures
        ({
            let c = covered(
                (Turn { st: old(st)@, hub: old(hub)@ }),
                holes@,
                alive@,
                cfg.per_peer,
                now_ms,
            );
            &&& (Turn { st: final(st)@, hub: final(hub)@ }) == c.turn
            &&& issued == c.issued
        }),
{
    let mut issued: u64 = 0;
    if alive.len() == 0 {
        return issued;
    }
    let ghost all = covered(
        Turn { st: st@, hub: hub@ },
        holes@,
        alive@,
        cfg.per_peer,
        now_ms,
    );
    let mut stuck = false;
    let mut i: usize = 0;
    while i < holes.len() && !stuck
        invariant
            i <= holes@.len(),
            cover_from(
                Cover { turn: Turn { st: st@, hub: hub@ }, issued, stuck },
                holes@,
                i as int,
                alive@,
                cfg.per_peer,
                now_ms,
            ) == all,
        decreases holes@.len() - i,
    {
        stuck = cover_hole(st, hub, cfg.per_peer, alive, holes[i], &mut issued, now_ms);
        i = i + 1;
    }
    issued
}

/// A body that is there for confirm is not asked for again: densify passes its height over,
/// and it is no hole to race for.
pub proof fn law_claim_ready_body_is_not_fetched(t: Turn, ht: u32, h: BlockHash)
    requires
        t.st.on_path(h, ht),
        t.hub.claim_ready(ht, h),
    ensures
        need_at(t, ht) == (t, None::<BlockHash>),
        t.st.height_of(h) == Some(ht) ==> !hole_open(t, h),
{
}

} // verus!

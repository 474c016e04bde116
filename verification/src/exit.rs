//! Download exit and catch-up decisions.
//!
//! Mid-chain peer death must never be mistaken for having caught up.
use vstd::prelude::*;
use crate::chain::{larger, max32, sat_add32, sat_sub32};
use crate::hash::BlockHash;
use crate::keyed::keys_of;
use crate::state::{IbdWorkState, WorkView};

verus! {

/// Empty redial rounds while fully dark before giving up mid catch-up.
pub const MAX_DARK_EMPTY_REDIALS: u32 = 4;

/// Is `m` the highest of `s`, or zero for an empty set?
pub open spec fn is_top(s: Set<u32>, m: u32) -> bool {
    ||| m == 0 && s == Set::<u32>::empty()
    ||| s.contains(m) && forall|x: u32| #[trigger] s.contains(x) ==> x <= m
}

/// The highest of `s`, zero for an empty set.
pub open spec fn top_of(s: Set<u32>) -> u32 {
    choose|m: u32| is_top(s, m)
}

proof fn lemma_some_top(s: Set<u32>) -> (m: u32)
    requires
        s.finite(),
    ensures
        is_top(s, m),
    decreases s.len(),
{
    if s.len() == 0 {
        assert(s =~= Set::<u32>::empty());
        0
    } else {
        let a = s.choose();
        let rest = s.remove(a);
        let m = lemma_some_top(rest);
        let top = if rest.contains(m) && m > a {
            m
        } else {
            a
        };
        assert forall|x: u32| #[trigger] s.contains(x) implies x <= top by {
            if x != a {
                assert(rest.contains(x));
            }
        }
        top
    }
}

/// Every finite set of heights has a highest, and [`top_of`] is it.
pub proof fn law_finite_set_has_a_top(s: Set<u32>)
    requires
        s.finite(),
    ensures
        is_top(s, top_of(s)),
{
    let m = lemma_some_top(s);
    assert(is_top(s, m));
}

impl WorkView {
    /// Highest connected best-chain height held. Competing headers do not count.
    pub open spec fn high_water(self, tip_h: u32) -> u32 {
        max32(max32(self.max_ready_height, top_of(self.height_to_hash.dom())), tip_h)
    }

    /// How far the connected path lags what peers advertise.
    pub open spec fn header_lag(self, tip_h: u32) -> u32 {
        sat_sub32(self.max_peer_height, self.high_water(tip_h))
    }

    /// Is the header right above the tip on the path?
    pub open spec fn tip_next_known(self, tip_h: u32) -> bool {
        self.height_to_hash.contains_key(sat_add32(tip_h, 1))
    }

    /// Is `h` work of the path: ordered, or an occupant of it?
    pub open spec fn path_work(self, h: BlockHash) -> bool {
        self.ordered_set.contains(h) || self.hash_height.contains_key(h) && self.on_path(
            h,
            self.hash_height[h],
        )
    }

    /// Is any path work requested?
    pub open spec fn path_requested(self) -> bool {
        exists|h: BlockHash| #[trigger] self.inflight.contains_key(h) && self.path_work(h)
    }

    /// Is work still owed to the confirmed best chain? Exploration and orphan
    /// requests do not count.
    pub open spec fn remainder(self, tip_h: u32) -> bool {
        ||| self.ordered.len() > 0
        ||| exists|h: u32| #[trigger] self.height_to_hash.contains_key(h) && h > tip_h
        ||| self.max_ready_height > tip_h
        ||| self.reorg.awaiting is Some
        ||| self.path_requested()
    }

    /// Has the download caught up? Nothing is owed, and the path is at the peers'
    /// height, or one short with headers done. Never at height zero.
    pub open spec fn caught_up(self, tip_h: u32) -> bool {
        &&& tip_h != 0
        &&& !self.remainder(tip_h)
        &&& self.header_lag(tip_h) == 0 || self.header_lag(tip_h) == 1 && self.headers_done
    }
}

fn highest_slot(st: &IbdWorkState) -> (m: u32)
    ensures
        m == top_of(st@.height_to_hash.dom()),
        is_top(st@.height_to_hash.dom(), m),
{
    let keys = keys_of(&st.height_to_hash);
    let ghost s = st@.height_to_hash.dom();
    let mut m: u32 = 0;
    let mut i: usize = 0;
    while i < keys.len()
        invariant
            i <= keys@.len(),
            s == st@.height_to_hash.dom(),
            keys@.to_set() == s,
            i == 0 ==> m == 0,
            i > 0 ==> s.contains(m) && forall|j: int| 0 <= j < i ==> #[trigger] keys@[j] <= m,
        decreases keys@.len() - i,
    {
        assert(keys@.to_set().contains(keys@[i as int]));
        if i == 0 || keys[i] > m {
            m = keys[i];
        }
        i = i + 1;
    }
    proof {
        if keys@.len() == 0 {
            assert(keys@.to_set() =~= Set::<u32>::empty());
        } else {
            assert forall|x: u32| #[trigger] s.contains(x) implies x <= m by {
                assert(keys@.to_set().contains(x));
                let j = choose|j: int| 0 <= j < keys@.len() && keys@[j] == x;
                assert(keys@[j] <= m);
            }
        }
        assert(is_top(s, m));
        let q = top_of(s);
        assert(is_top(s, q));
        if s == Set::<u32>::empty() {
            assert(!s.contains(m) && !s.contains(q));
        } else {
            assert(s.contains(m) && s.contains(q));
        }
    }
    m
}

/// Highest connected best-chain height already occupied.
pub fn path_high_water(st: &IbdWorkState, tip_h: u32) -> (m: u32)
    ensures
        m == st@.high_water(tip_h),
        is_top(st@.height_to_hash.dom(), top_of(st@.height_to_hash.dom())),
{
    larger(larger(st.max_ready_height, highest_slot(st)), tip_h)
}

/// How far the connected work path lags what peers advertise.
pub fn header_lag_behind_peers(st: &IbdWorkState, tip_h: u32) -> (lag: u32)
    ensures
        lag == st@.header_lag(tip_h),
{
    st.max_peer_height.saturating_sub(path_high_water(st, tip_h))
}

/// Is the header right above the tip on the path?
pub fn has_tip_plus_one(st: &IbdWorkState, tip_h: u32) -> (b: bool)
    ensures
        b == st@.tip_next_known(tip_h),
{
    st.height_to_hash.contains_key(&tip_h.saturating_add(1))
}

/// Is any path work requested?
pub fn on_path_inflight(st: &IbdWorkState) -> (b: bool)
    ensures
        b == st@.path_requested(),
{
    let keys = st.inflight.keys();
    assert(st@.inflight.dom() =~= st.inflight@.dom());
    let mut i: usize = 0;
    while i < keys.len()
        invariant
            i <= keys@.len(),
            keys@.to_set() == st@.inflight.dom(),
            forall|j: int| 0 <= j < i ==> !st@.path_work(#[trigger] keys@[j]),
        decreases keys@.len() - i,
    {
        let h = keys[i];
        assert(keys@.to_set().contains(keys@[i as int]));
        let on_path = match st.hash_height.get(&h) {
            Some(ht) => st.is_on_path(&h, *ht),
            None => false,
        };
        if st.ordered_set.contains(&h) || on_path {
            assert(st@.inflight.contains_key(h) && st@.path_work(h));
            return true;
        }
        i = i + 1;
    }
    proof {
        if st@.path_requested() {
            let h = choose|h: BlockHash| #[trigger]
                st@.inflight.contains_key(h) && st@.path_work(h);
            assert(keys@.to_set().contains(h));
            let j = choose|j: int| 0 <= j < keys@.len() && keys@[j] == h;
            assert(!st@.path_work(keys@[j]));
        }
    }
    false
}

fn slot_above(st: &IbdWorkState, tip_h: u32) -> (b: bool)
    ensures
        b == (exists|h: u32| #[trigger] st@.height_to_hash.contains_key(h) && h > tip_h),
{
    let m: u32 = highest_slot(st);
    assert(m > tip_h ==> st@.height_to_hash.contains_key(m));
    proof {
        if exists|h: u32| #[trigger] st@.height_to_hash.contains_key(h) && h > tip_h {
            let h = choose|h: u32| #[trigger] st@.height_to_hash.contains_key(h) && h > tip_h;
            assert(st@.height_to_hash.dom().contains(h));
        }
    }
    m > tip_h
}

/// Is work still owed to the confirmed best chain?
pub fn best_chain_remainder(st: &IbdWorkState, tip_h: u32) -> (b: bool)
    ensures
        b == st@.remainder(tip_h),
{
    st.ordered.len() > 0 || slot_above(st, tip_h) || st.max_ready_height > tip_h
        || st.reorg.awaiting.is_some() || on_path_inflight(st)
}

/// Does a streak of empty replies reach a report: the first, and every 64th?
pub open spec fn logs_at(streak: u32) -> bool {
    streak == 1 || streak > 0 && streak % 64 == 0
}

/// Does a streak of empty replies reach another request: the first, and every
/// eighth?
pub open spec fn rerequests_at(streak: u32) -> bool {
    streak == 1 || streak > 0 && streak % 8 == 0
}

/// Report cadence for empty headers while still lagging. The streak must not be
/// reset by a report.
pub fn should_log_empty_headers_lag(streak: u32) -> (b: bool)
    ensures
        b == logs_at(streak),
{
    streak == 1 || (streak > 0 && streak % 64 == 0)
}

/// Request cadence while lagging after empty replies.
pub fn should_rerequest_headers_on_empty_lag(streak: u32) -> (b: bool)
    ensures
        b == rerequests_at(streak),
{
    streak == 1 || (streak > 0 && streak % 8 == 0)
}

/// Ask on after headers that added nothing? Never with an empty path; else after
/// a full window, with real lag, or for headroom.
pub open spec fn advances_locator(live: usize, lag: u32, full_window: bool, need_headroom: bool) -> bool {
    live != 0 && (full_window || lag > 2 || need_headroom)
}

/// After a non-empty reply that added nothing to `ordered`. Tip chatter on an
/// empty path must not be answered with another request.
pub fn should_advance_locator_after_known_batch(
    live: usize,
    lag: u32,
    full_window: bool,
    need_headroom: bool,
) -> (b: bool)
    ensures
        b == advances_locator(live, lag, full_window, need_headroom),
{
    if live == 0 {
        return false;
    }
    full_window || lag > 2 || need_headroom
}

impl WorkView {
    /// How many peers to ask for headers on an empty path: none at the peers'
    /// height, or within two of it with the next header known; one while path
    /// work is requested; else up to four.
    pub open spec fn header_fan(self, tip_h: u32, alive: usize) -> usize {
        let lag = self.header_lag(tip_h);
        if lag == 0 || lag <= 2 && self.tip_next_known(tip_h) {
            0
        } else if self.path_requested() {
            if alive == 0 {
                0
            } else {
                1
            }
        } else if alive == 0 {
            1
        } else if alive < 4 {
            alive
        } else {
            4
        }
    }

    /// Should the headers-done latch open again? Only on an empty path, when
    /// peers are more than one ahead, or ahead with the next header missing.
    pub open spec fn unlatches(self, tip_h: u32) -> bool {
        let lag = self.header_lag(tip_h);
        &&& self.headers_done
        &&& self.ordered.len() == 0
        &&& lag > 1 || lag > 0 && !self.tip_next_known(tip_h)
    }
}

/// How many peers to ask for headers when the ordered path is empty.
pub fn empty_path_header_fan(st: &IbdWorkState, tip_h: u32, alive: usize) -> (n: usize)
    ensures
        n == st@.header_fan(tip_h, alive),
{
    let lag: u32 = header_lag_behind_peers(st, tip_h);
    if lag == 0 {
        return 0;
    }
    if lag <= 2 && has_tip_plus_one(st, tip_h) {
        return 0;
    }
    if on_path_inflight(st) {
        return if alive < 1 {
            alive
        } else {
            1
        };
    }
    if alive == 0 {
        1
    } else if alive < 4 {
        alive
    } else {
        4
    }
}

/// Clear the headers-done latch so that header requests can resume?
pub fn should_unlatch_headers_done(st: &IbdWorkState, tip_h: u32) -> (b: bool)
    ensures
        b == st@.unlatches(tip_h),
{
    if !st.headers_done || st.ordered.len() > 0 {
        return false;
    }
    let lag: u32 = header_lag_behind_peers(st, tip_h);
    lag > 1 || (lag > 0 && !has_tip_plus_one(st, tip_h))
}

/// Walk the stored headers again while empty replies lag? Only with an empty
/// ordered path, and no more often than a report: the walk is long.
pub fn should_reseed_work_path_on_empty_lag(streak: u32, ordered_empty: bool) -> (b: bool)
    ensures
        b == (ordered_empty && logs_at(streak)),
{
    ordered_empty && should_log_empty_headers_lag(streak)
}

/// Work path idle: no ordered hashes, no path work requested.
pub fn path_drained(st: &IbdWorkState) -> (b: bool)
    ensures
        b == (st@.ordered.len() == 0 && !st@.path_requested()),
{
    st.ordered.len() == 0 && !on_path_inflight(st)
}

/// May the download exit: nothing owed, and at (or one block short of) the peers?
pub fn ibd_caught_up(st: &IbdWorkState, tip_h: u32) -> (b: bool)
    ensures
        b == st@.caught_up(tip_h),
{
    if tip_h == 0 || best_chain_remainder(st, tip_h) {
        return false;
    }
    let lag: u32 = header_lag_behind_peers(st, tip_h);
    if lag == 0 {
        true
    } else if lag == 1 {
        st.headers_done
    } else {
        false
    }
}

/// Outcome when every peer slot is dead.
#[derive(Debug, Clone, Copy, PartialEq, Eq, Structural)]
pub enum AllPeersDead {
    /// Truly caught up: safe to exit as success.
    CatchupComplete,
    /// Still mid-chain, redial under way: keep looping.
    WaitRedial,
    /// Mid-chain without hope of a redial: an error.
    GiveUpMidCatchup,
}

/// Decide what to do when no peer is alive.
pub fn all_peers_dead_action(
    st: &IbdWorkState,
    tip_h: u32,
    redial_in_flight: bool,
    dark_redial_empty: u32,
) -> (r: AllPeersDead)
    ensures
        r == dead_action(st@, tip_h, redial_in_flight, dark_redial_empty),
{
    if ibd_caught_up(st, tip_h) {
        return AllPeersDead::CatchupComplete;
    }
    if !redial_in_flight || dark_redial_empty >= MAX_DARK_EMPTY_REDIALS {
        return AllPeersDead::GiveUpMidCatchup;
    }
    AllPeersDead::WaitRedial
}

/// What to do when no peer is alive.
pub open spec fn dead_action(
    v: WorkView,
    tip_h: u32,
    redial_in_flight: bool,
    dark_redial_empty: u32,
) -> AllPeersDead {
    if v.caught_up(tip_h) {
        AllPeersDead::CatchupComplete
    } else if !redial_in_flight || dark_redial_empty >= MAX_DARK_EMPTY_REDIALS {
        AllPeersDead::GiveUpMidCatchup
    } else {
        AllPeersDead::WaitRedial
    }
}

/// Dead peers end the download as a success only where it has caught up; in
/// particular never at height zero, with work owed, or more than one behind the
/// peers.
pub proof fn law_dead_peers_never_fake_success(
    v: WorkView,
    tip_h: u32,
    redial_in_flight: bool,
    dark_redial_empty: u32,
)
    ensures
        dead_action(v, tip_h, redial_in_flight, dark_redial_empty) == AllPeersDead::CatchupComplete
            <==> v.caught_up(tip_h),
        tip_h == 0 || v.remainder(tip_h) || v.header_lag(tip_h) > 1 ==> !v.caught_up(tip_h),
{
}

/// Requests that are no path work do not keep the download from ending: with or
/// without them it has caught up alike.
pub proof fn law_orphan_requests_do_not_block_exit(v: WorkView, gone: Set<BlockHash>, tip_h: u32)
    requires
        forall|h: BlockHash| #[trigger] gone.contains(h) ==> !v.path_work(h),
    ensures
        v.without_requests(gone).caught_up(tip_h) == v.caught_up(tip_h),
{
    let w = v.without_requests(gone);
    assert(w.path_requested() == v.path_requested()) by {
        if v.path_requested() {
            let h = choose|h: BlockHash| #[trigger] v.inflight.contains_key(h) && v.path_work(h);
            assert(w.inflight.contains_key(h) && w.path_work(h));
        }
        if w.path_requested() {
            let h = choose|h: BlockHash| #[trigger] w.inflight.contains_key(h) && w.path_work(h);
            assert(v.inflight.contains_key(h) && v.path_work(h));
        }
    }
}

/// A hole right above the tip is always asked about: while peers are ahead and the next
/// header is missing, some alive peer is asked, and on an empty path the headers-done
/// latch opens.
pub proof fn law_missing_next_header_is_asked_for(v: WorkView, tip_h: u32, alive: usize)
    requires
        v.header_lag(tip_h) > 0,
        !v.tip_next_known(tip_h),
    ensures
        alive > 0 ==> v.header_fan(tip_h, alive) >= 1,
        v.headers_done && v.ordered.len() == 0 ==> v.unlatches(tip_h),
{
}

/// The cadences nest: wherever a report (and with it a walk of the stored
/// headers) is due, another request is due too. Without a streak neither is.
pub proof fn law_streak_cadences_nest(streak: u32)
    ensures
        logs_at(streak) ==> rerequests_at(streak),
        !rerequests_at(0) && !logs_at(0),
{
}

} // verus!

//! What holds of the requests that are out, whatever happens to them: both sides of the
//! books agree, no race grows too large, no peer is overloaded, and nothing rejected is
//! ever requested.
use vstd::prelude::*;
use crate::assign::{
    assigned, batch_expired, cap_in, caps_of, densified, feed_from, feed_peer, hole_seen, is_hung,
    next_rot, offer_round, pruned, pull_from, pull_one, steal_dest, steal_from, steal_one, stolen,
    tip_assigned, turn_begun, with_path_lo, AssignDepth, Feed, Pull, Steal,
};
use crate::body_events::{body_failed, body_received, not_found_noted, peer_lost};
use crate::chain::HubView;
use crate::config::{IbdConfig, TIP_HOLE_MAX, TIP_HOLE_MAX_PEERS};
use crate::confirm_class::ConfirmRejectClass;
use crate::confirm_events::rejected_by;
use crate::dial::{disconnected, given_up, PeerBooks};
use crate::fetch::{
    band_scan, holes_from, lemma_next_need_shrinks, next_need, scan_from, scan_step, tip_holes,
    Scan, Turn,
};
use crate::hash::BlockHash;
use crate::inflight::{just, unasked, with_requests, without_owner};
use crate::peers::{
    any_slot, lemma_slot_from, live_ids, live_slot, slot_from, PeerAddr, SlotView,
};
use crate::race::{cover_from, cover_one, covered, hole_cleared, race_from, ranked, Cover, Race};
use crate::reorg::ReorgView;
use crate::state::{other_than, WorkView};

verus! {

impl WorkView {
    /// No two slots have the same id.
    pub open spec fn ids_distinct(self) -> bool {
        forall|i: int, j: int|
            0 <= i < j < self.slots.len() ==> #[trigger] self.slots[i].id
                != #[trigger] self.slots[j].id
    }

    /// Has the slot at `k` been asked for `h`?
    pub open spec fn asks(self, k: int, h: BlockHash) -> bool {
        0 <= k < self.slots.len() && self.slots[k].in_flight.contains(h)
    }

    /// Is `h` booked as requested from `p`?
    pub open spec fn owned(self, h: BlockHash, p: usize) -> bool {
        self.inflight.contains_key(h) && self.inflight[h].peers.contains(p)
    }

    /// Whatever a slot was asked for is booked as requested from it.
    pub open spec fn slots_booked(self) -> bool {
        forall|k: int, h: BlockHash| #[trigger]
            self.asks(k, h) ==> self.owned(h, self.slots[k].id)
    }

    /// Whoever a request is booked for has a slot that was asked for it.
    pub open spec fn owners_asked(self) -> bool {
        forall|h: BlockHash, p: usize| #[trigger]
            self.owned(h, p) ==> exists|k: int| #[trigger] self.asks(k, h) && self.slots[k].id == p
    }

    /// Every request has somebody who was asked, nobody twice and not too many, and is
    /// not for a rejected body.
    pub open spec fn races_bounded(self) -> bool {
        forall|h: BlockHash| #[trigger]
            self.inflight.contains_key(h) ==> {
                &&& 1 <= self.inflight[h].peers.len() <= TIP_HOLE_MAX_PEERS
                &&& self.inflight[h].peers.no_duplicates()
                &&& !self.body.rejected.contains(h)
            }
    }

    /// No slot was asked for more than `cap` hashes.
    pub open spec fn slots_within(self, cap: nat) -> bool {
        forall|k: int|
            0 <= k < self.slots.len() ==> (#[trigger] self.slots[k]).in_flight.finite()
                && self.slots[k].in_flight.len() <= cap
    }

    /// Are the requests that are out in order?
    pub open spec fn requests_sound(self, cap: nat) -> bool {
        &&& self.ids_distinct()
        &&& self.slots_booked()
        &&& self.owners_asked()
        &&& self.races_bounded()
        &&& self.slots_within(cap)
    }
}

/// Where ids and requests of the slots and the request map are the same, and nothing
/// requested became rejected, all stays in order.
proof fn lemma_same_requests(v: WorkView, w: WorkView, cap: nat)
    requires
        v.requests_sound(cap),
        w.inflight == v.inflight,
        forall|h: BlockHash| #[trigger]
            w.inflight.contains_key(h) ==> !w.body.rejected.contains(h),
        w.slots.len() == v.slots.len(),
        forall|k: int|
            0 <= k < v.slots.len() ==> (#[trigger] w.slots[k]).id == v.slots[k].id
                && w.slots[k].in_flight == v.slots[k].in_flight,
    ensures
        w.requests_sound(cap),
{
    assert forall|k: int, h: BlockHash| #[trigger] w.asks(k, h) implies w.owned(h, w.slots[k].id) by {
        assert(v.asks(k, h));
    }
    assert forall|h: BlockHash, p: usize| #[trigger] w.owned(h, p) implies exists|k: int| #[trigger]
        w.asks(k, h) && w.slots[k].id == p by {
        assert(v.owned(h, p));
        let k = choose|k: int| #[trigger] v.asks(k, h) && v.slots[k].id == p;
        assert(w.asks(k, h) && w.slots[k].id == p);
    }
}

/// Requests that are dropped everywhere.
proof fn lemma_without_requests(v: WorkView, gone: Set<BlockHash>, cap: nat)
    requires
        v.requests_sound(cap),
    ensures
        v.without_requests(gone).requests_sound(cap),
{
    let w = v.without_requests(gone);
    assert forall|k: int, h: BlockHash| #[trigger] w.asks(k, h) implies w.owned(h, w.slots[k].id) by {
        assert(v.asks(k, h));
    }
    assert forall|h: BlockHash, p: usize| #[trigger] w.owned(h, p) implies exists|k: int| #[trigger]
        w.asks(k, h) && w.slots[k].id == p by {
        assert(v.owned(h, p));
        let k = choose|k: int| #[trigger] v.asks(k, h) && v.slots[k].id == p;
        assert(w.asks(k, h) && w.slots[k].id == p);
    }
    assert forall|h: BlockHash| #[trigger] w.inflight.contains_key(h) implies
        1 <= w.inflight[h].peers.len() <= TIP_HOLE_MAX_PEERS && w.inflight[h].peers.no_duplicates()
        && !w.body.rejected.contains(h) by {
        assert(v.inflight.contains_key(h));
    }
    assert forall|k: int| 0 <= k < w.slots.len() implies (#[trigger] w.slots[k]).in_flight.finite()
        && w.slots[k].in_flight.len() <= cap by {
        assert(v.slots[k].in_flight.finite());
        vstd::set_lib::lemma_len_difference(v.slots[k].in_flight, gone);
    }
}

pub(crate) proof fn lemma_filter_one(h: BlockHash, p: spec_fn(BlockHash) -> bool)
    ensures
        seq![h].filter(p) == (if p(h) {
            seq![h]
        } else {
            Seq::empty()
        }),
{
    let e = Seq::<BlockHash>::empty();
    assert(e.push(h) =~= seq![h]);
    e.lemma_filter_push(h, p);
    e.lemma_filter_len(p);
    assert(e.filter(p) =~= e);
}

/// With distinct ids the slot of a peer is the only one with its id.
proof fn lemma_slot_is_own(v: WorkView, pid: usize, live: bool, k: int)
    requires
        v.ids_distinct(),
        0 <= k < v.slots.len(),
        v.slots[k].id == pid,
        v.slots[k].alive || !live,
    ensures
        slot_from(v.slots, pid, live, 0) == Some(k),
{
    lemma_slot_from(v.slots, pid, live, 0);
    match slot_from(v.slots, pid, live, 0) {
        Some(i) => {
            if i < k {
                assert(v.slots[i].id != v.slots[k].id);
            }
        },
        None => {},
    }
}

/// A hash requested from one more peer that has a slot for it.
proof fn lemma_with_issued(v: WorkView, pid: usize, h: BlockHash, now_ms: u64, room: usize, cap: nat)
    requires
        v.requests_sound(cap),
        !v.body.rejected.contains(h),
        v.owners_of(h) < TIP_HOLE_MAX_PEERS,
        v.has_slot(pid, room),
        room <= cap,
    ensures
        v.with_issued(pid, seq![h], now_ms).requests_sound(cap),
        v.with_issued(pid, seq![h], now_ms).body == v.body,
        v.with_issued(pid, seq![h], now_ms).owners_of(h) <= v.owners_of(h) + 1,
{
    let i = live_slot(v.slots, pid)->0;
    lemma_slot_from(v.slots, pid, true, 0);
    lemma_filter_one(h, unasked(v.slots[i]));
    let w = v.with_issued(pid, seq![h], now_ms);
    if !v.slots[i].in_flight.contains(h) {
        let out = v.going_out(pid, seq![h]);
        assert(out == seq![h]);
        assert(out.drop_last() =~= Seq::<BlockHash>::empty());
        assert(with_requests(v.inflight, out.drop_last(), pid, now_ms) == v.inflight);
        assert(out.last() == h);
        assert(!v.owned(h, pid)) by {
            if v.owned(h, pid) {
                let k = choose|k: int| #[trigger] v.asks(k, h) && v.slots[k].id == pid;
                if k < i {
                    assert(v.slots[k].id != v.slots[i].id);
                } else if i < k {
                    assert(v.slots[i].id != v.slots[k].id);
                }
            }
        }
        let before = v.slots[i].in_flight;
        assert(out.to_set() =~= Set::<BlockHash>::empty().insert(h)) by {
            assert(out.contains(h)) by {
                assert(out[0] == h);
            }
        }
        assert(w.slots[i].in_flight =~= before.insert(h));
        let was = if v.inflight.contains_key(h) {
            v.inflight[h].peers
        } else {
            Seq::<usize>::empty()
        };
        assert(w.inflight[h].peers =~= was.push(pid));
        assert forall|p: usize| #[trigger] was.push(pid).contains(p) == (was.contains(p) || p == pid) by {
            if was.contains(p) {
                let j = choose|j: int| 0 <= j < was.len() && was[j] == p;
                assert(was.push(pid)[j] == p);
            }
            assert(was.push(pid)[was.len() as int] == pid);
        }
        assert forall|k: int, g: BlockHash| #[trigger] w.asks(k, g) implies w.owned(
            g,
            w.slots[k].id,
        ) by {
            if k == i && g == h {
                assert(was.push(pid)[was.len() as int] == pid);
                assert(was.push(pid).contains(pid));
            } else {
                assert(v.asks(k, g));
                assert(v.owned(g, v.slots[k].id));
                if g == h {
                    assert(was.push(pid).contains(v.slots[k].id));
                }
            }
        }
        assert forall|g: BlockHash, p: usize| #[trigger] w.owned(g, p) implies exists|k: int|
            #[trigger] w.asks(k, g) && w.slots[k].id == p by {
            if g == h && p == pid {
                assert(w.asks(i, h) && w.slots[i].id == pid);
            } else {
                assert(v.owned(g, p));
                let k = choose|k: int| #[trigger] v.asks(k, g) && v.slots[k].id == p;
                assert(w.asks(k, g) && w.slots[k].id == p);
            }
        }
        assert forall|g: BlockHash| #[trigger] w.inflight.contains_key(g) implies
            1 <= w.inflight[g].peers.len() <= TIP_HOLE_MAX_PEERS
            && w.inflight[g].peers.no_duplicates() && !w.body.rejected.contains(g) by {
            if g != h {
                assert(v.inflight.contains_key(g));
            }
        }
    }
}

proof fn lemma_filter_others(s: Seq<usize>, pid: usize)
    ensures
        forall|p: usize| #[trigger]
            s.filter(other_than(pid)).contains(p) == (s.contains(p) && p != pid),
        s.no_duplicates() ==> s.filter(other_than(pid)).no_duplicates(),
        s.filter(other_than(pid)).len() <= s.len(),
        s.contains(pid) ==> s.filter(other_than(pid)).len() < s.len(),
    decreases s.len(),
{
    let f = other_than(pid);
    if s.len() == 0 {
        s.lemma_filter_len(f);
    } else {
        let rest = s.drop_last();
        let x = s.last();
        lemma_filter_others(rest, pid);
        assert(rest.push(x) =~= s);
        rest.lemma_filter_push(x, f);
        let t = rest.filter(f);
        assert forall|p: usize| #[trigger] s.contains(p) == (rest.contains(p) || p == x) by {
            if rest.contains(p) {
                let j = choose|j: int| 0 <= j < rest.len() && rest[j] == p;
                assert(s[j] == p);
            }
            assert(s[s.len() - 1] == x);
            if s.contains(p) && p != x {
                let j = choose|j: int| 0 <= j < s.len() && s[j] == p;
                assert(rest[j] == p);
            }
        }
        assert forall|p: usize| #[trigger] t.push(x).contains(p) == (t.contains(p) || p == x) by {
            if t.contains(p) {
                let j = choose|j: int| 0 <= j < t.len() && t[j] == p;
                assert(t.push(x)[j] == p);
            }
            assert(t.push(x)[t.len() as int] == x);
        }
        assert forall|p: usize| #[trigger] s.filter(f).contains(p) == (s.contains(p) && p != pid) by {
            assert(t.contains(p) == (rest.contains(p) && p != pid));
            assert(t.push(x).contains(p) == (t.contains(p) || p == x));
            assert(s.contains(p) == (rest.contains(p) || p == x));
        }
        if s.no_duplicates() {
            assert(rest.no_duplicates());
            assert(!rest.contains(x)) by {
                if rest.contains(x) {
                    let j = choose|j: int| 0 <= j < rest.len() && rest[j] == x;
                    assert(s[j] == s[s.len() - 1]);
                }
            }
            assert(!t.contains(x));
        }
    }
}

/// A request taken away from one peer.
proof fn lemma_without_owner(v: WorkView, h: BlockHash, pid: usize, cap: nat)
    requires
        v.requests_sound(cap),
    ensures
        without_owner(v, h, pid).requests_sound(cap),
        without_owner(v, h, pid).body == v.body,
        v.owned(h, pid) ==> without_owner(v, h, pid).owners_of(h) < v.owners_of(h),
        without_owner(v, h, pid).owners_of(h) <= v.owners_of(h),
{
    let w = without_owner(v, h, pid);
    lemma_slot_from(v.slots, pid, false, 0);
    if v.inflight.contains_key(h) {
        lemma_filter_others(v.inflight[h].peers, pid);
    }
    assert forall|k: int| 0 <= k < v.slots.len() implies (#[trigger] w.slots[k]).id
        == v.slots[k].id && w.slots[k].in_flight == (if v.slots[k].id == pid {
        v.slots[k].in_flight.difference(just(h))
    } else {
        v.slots[k].in_flight
    }) by {
        if v.slots[k].id == pid {
            lemma_slot_is_own(v, pid, false, k);
        }
    }
    assert forall|k: int, g: BlockHash| #[trigger] w.asks(k, g) implies w.owned(g, w.slots[k].id) by {
        assert(v.asks(k, g));
        assert(v.owned(g, v.slots[k].id));
        if g == h {
            let p = v.slots[k].id;
            let left = v.inflight[h].peers.filter(other_than(pid));
            assert(left.contains(p));
        }
    }
    assert forall|g: BlockHash, p: usize| #[trigger] w.owned(g, p) implies exists|k: int| #[trigger]
        w.asks(k, g) && w.slots[k].id == p by {
        assert(v.owned(g, p));
        let k = choose|k: int| #[trigger] v.asks(k, g) && v.slots[k].id == p;
        assert(w.asks(k, g) && w.slots[k].id == p);
    }
    assert forall|g: BlockHash| #[trigger] w.inflight.contains_key(g) implies
        1 <= w.inflight[g].peers.len() <= TIP_HOLE_MAX_PEERS && w.inflight[g].peers.no_duplicates()
        && !w.body.rejected.contains(g) by {
        assert(v.inflight.contains_key(g));
    }
    assert forall|k: int| 0 <= k < w.slots.len() implies (#[trigger] w.slots[k]).in_flight.finite()
        && w.slots[k].in_flight.len() <= cap by {
        assert(v.slots[k].in_flight.finite());
        vstd::set_lib::lemma_len_difference(v.slots[k].in_flight, just(h));
    }
}

/// A race of several peers is never cleared: whoever is dropped from it, all others stay
/// asked.
pub proof fn law_race_outlives_an_eviction(v: WorkView, h: BlockHash, pid: usize)
    requires
        v.inflight.contains_key(h),
        v.inflight[h].peers.len() > 1,
        v.inflight[h].peers.no_duplicates(),
    ensures
        without_owner(v, h, pid).inflight.contains_key(h),
        forall|p: usize| p != pid && v.owned(h, p) ==> #[trigger] without_owner(v, h, pid).owned(
            h,
            p,
        ),
{
    let s = v.inflight[h].peers;
    lemma_filter_others(s, pid);
    let left = s.filter(other_than(pid));
    assert(left.len() > 0) by {
        let k: int = if s[0] == pid {
            1
        } else {
            0
        };
        assert(s[k] != pid);
        assert(s.contains(s[k]));
        assert(left.contains(s[k]));
    }
    assert forall|p: usize| p != pid && v.owned(h, p) implies #[trigger] without_owner(
        v,
        h,
        pid,
    ).owned(h, p) by {
        assert(left.contains(p));
    }
}

/// A peer that gives up some of its requests.
proof fn lemma_given_up(v: WorkView, w: WorkView, i: int, gone: Set<BlockHash>, cap: nat)
    requires
        v.requests_sound(cap),
        0 <= i < v.slots.len(),
        w.slots.len() == v.slots.len(),
        forall|k: int|
            0 <= k < v.slots.len() ==> (#[trigger] w.slots[k]).id == v.slots[k].id
                && w.slots[k].in_flight == (if k == i {
                v.slots[k].in_flight.difference(gone)
            } else {
                v.slots[k].in_flight
            }),
        w.inflight == given_up(v.inflight, gone, v.slots[i].id),
        w.body.rejected == v.body.rejected,
    ensures
        w.requests_sound(cap),
        forall|h: BlockHash| gone.contains(h) ==> !(#[trigger] w.owned(h, v.slots[i].id)),
{
    let pid = v.slots[i].id;
    assert forall|h: BlockHash| #[trigger] v.inflight.contains_key(h) implies {
        let left = v.inflight[h].peers.filter(other_than(pid));
        &&& left.len() <= v.inflight[h].peers.len()
        &&& left.no_duplicates()
        &&& forall|p: usize| #[trigger]
            left.contains(p) == (v.inflight[h].peers.contains(p) && p != pid)
    } by {
        lemma_filter_others(v.inflight[h].peers, pid);
    }
    assert forall|k: int, g: BlockHash| #[trigger] w.asks(k, g) implies w.owned(g, w.slots[k].id) by {
        assert(v.asks(k, g));
        let p = v.slots[k].id;
        assert(v.owned(g, p));
        if gone.contains(g) {
            assert(k != i);
            if k < i {
                assert(v.slots[k].id != v.slots[i].id);
            } else {
                assert(v.slots[i].id != v.slots[k].id);
            }
            assert(v.inflight[g].peers.filter(other_than(pid)).contains(p));
        }
    }
    assert forall|g: BlockHash, p: usize| #[trigger] w.owned(g, p) implies exists|k: int| #[trigger]
        w.asks(k, g) && w.slots[k].id == p by {
        assert(v.owned(g, p));
        let k = choose|k: int| #[trigger] v.asks(k, g) && v.slots[k].id == p;
        assert(w.asks(k, g) && w.slots[k].id == p);
    }
    assert forall|g: BlockHash| #[trigger] w.inflight.contains_key(g) implies
        1 <= w.inflight[g].peers.len() <= TIP_HOLE_MAX_PEERS && w.inflight[g].peers.no_duplicates()
        && !w.body.rejected.contains(g) by {
        assert(v.inflight.contains_key(g));
    }
    assert forall|k: int| 0 <= k < w.slots.len() implies (#[trigger] w.slots[k]).in_flight.finite()
        && w.slots[k].in_flight.len() <= cap by {
        assert(v.slots[k].in_flight.finite());
        vstd::set_lib::lemma_len_difference(v.slots[k].in_flight, gone);
    }
}

/// A peer that is lost gives up all of its requests, and the rest stays in order: it owns
/// nothing, and whoever else was asked for the same hashes still is.
pub proof fn law_lost_peer_owns_nothing(v: WorkView, peer: usize, cap: nat)
    requires
        v.requests_sound(cap),
    ensures
        peer_lost(v, peer).requests_sound(cap),
        forall|h: BlockHash| !(#[trigger] peer_lost(v, peer).owned(h, peer)),
        forall|h: BlockHash, p: usize|
            p != peer && v.owned(h, p) ==> #[trigger] peer_lost(v, peer).owned(h, p),
{
    let w = peer_lost(v, peer);
    lemma_slot_from(v.slots, peer, false, 0);
    match any_slot(v.slots, peer) {
        Some(i) => {
            let gone = v.slots[i].in_flight;
            assert(gone.difference(gone) =~= Set::<BlockHash>::empty());
            lemma_given_up(v, w, i, gone, cap);
            assert forall|h: BlockHash| !(#[trigger] w.owned(h, peer)) by {
                if w.owned(h, peer) {
                    assert(v.owned(h, peer));
                    let k = choose|k: int| #[trigger] v.asks(k, h) && v.slots[k].id == peer;
                    lemma_slot_is_own(v, peer, false, k);
                }
            }
        },
        None => {
            assert forall|h: BlockHash| !(#[trigger] w.owned(h, peer)) by {
                if v.owned(h, peer) {
                    let k = choose|k: int| #[trigger] v.asks(k, h) && v.slots[k].id == peer;
                }
            }
        },
    }
    assert forall|h: BlockHash, p: usize| p != peer && v.owned(h, p) implies #[trigger] w.owned(
        h,
        p,
    ) by {
        if v.inflight.contains_key(h) {
            lemma_filter_others(v.inflight[h].peers, peer);
            assert(v.inflight[h].peers.filter(other_than(peer)).contains(p));
        }
    }
}

/// A peer that says it does not have some hashes owns none of them, and the rest stays in
/// order.
pub proof fn law_not_found_frees_requests(
    v: WorkView,
    peer: usize,
    gone: Set<BlockHash>,
    now_ms: u64,
    cap: nat,
)
    requires
        v.requests_sound(cap),
    ensures
        not_found_noted(v, peer, gone, now_ms).requests_sound(cap),
        forall|h: BlockHash|
            gone.contains(h) ==> !(#[trigger] not_found_noted(v, peer, gone, now_ms).owned(
                h,
                peer,
            )),
{
    let w = not_found_noted(v, peer, gone, now_ms);
    lemma_slot_from(v.slots, peer, false, 0);
    match any_slot(v.slots, peer) {
        Some(i) => {
            let s = crate::peer_io::progress_noted(v.slots, peer, now_ms);
            lemma_slot_from(s, peer, false, 0);
            match any_slot(s, peer) {
                Some(j) => {
                    assert(s[i].id == peer);
                    assert(i == j) by {
                        if i < j {
                            assert(s[i].id != peer);
                        } else if j < i {
                            assert(v.slots[j].id != peer);
                        }
                    }
                    lemma_given_up(v, w, i, gone, cap);
                },
                None => {
                    assert(s[i].id == peer);
                },
            }
        },
        None => {
            lemma_same_requests(v, w, cap);
            assert forall|h: BlockHash| gone.contains(h) implies !(#[trigger] w.owned(h, peer)) by {
                if v.owned(h, peer) {
                    let k = choose|k: int| #[trigger] v.asks(k, h) && v.slots[k].id == peer;
                }
            }
        },
    }
}

/// A disconnected peer owns nothing, its address cools down, and the rest stays in order.
pub proof fn law_disconnect_frees_requests(v: WorkView, id: usize, addr: PeerAddr, now_ms: u64, cap: nat)
    requires
        v.requests_sound(cap),
    ensures
        ({
            let b = disconnected(
                PeerBooks { slots: v.slots, inflight: v.inflight, cooldown: v.addr_cooldown },
                id,
                addr,
                now_ms,
            );
            let w = WorkView {
                slots: b.slots,
                inflight: b.inflight,
                addr_cooldown: b.cooldown,
                ..v
            };
            &&& w.requests_sound(cap)
            &&& forall|h: BlockHash| !(#[trigger] w.owned(h, id))
            &&& w.addr_cooldown.contains_key(addr)
            &&& live_slot(w.slots, id) is None
        }),
{
    law_lost_peer_owns_nothing(v, id, cap);
    let l = peer_lost(v, id);
    let b = disconnected(
        PeerBooks { slots: v.slots, inflight: v.inflight, cooldown: v.addr_cooldown },
        id,
        addr,
        now_ms,
    );
    let w = WorkView { slots: b.slots, inflight: b.inflight, addr_cooldown: b.cooldown, ..v };
    lemma_same_requests(l, w, cap);
    assert forall|h: BlockHash| !(#[trigger] w.owned(h, id)) by {
        assert(!l.owned(h, id));
    }
    lemma_slot_from(w.slots, id, true, 0);
    lemma_slot_from(v.slots, id, false, 0);
    match live_slot(w.slots, id) {
        Some(k) => {
            assert(w.slots[k].id == v.slots[k].id);
            lemma_slot_is_own(v, id, false, k);
        },
        None => {},
    }
}

/// A received body settles its request with everybody; so does one that turns out to be
/// unusable.
pub proof fn law_received_body_is_settled(
    v: WorkView,
    peer: usize,
    hash: BlockHash,
    bytes: u64,
    now_ms: u64,
    cap: nat,
)
    requires
        v.requests_sound(cap),
    ensures
        body_received(v, peer, hash, bytes, now_ms).requests_sound(cap),
        !body_received(v, peer, hash, bytes, now_ms).inflight.contains_key(hash),
        body_failed(v, peer, hash, now_ms).requests_sound(cap),
        !body_failed(v, peer, hash, now_ms).inflight.contains_key(hash),
{
    let a = WorkView { slots: crate::peer_io::rx_noted(v.slots, peer, bytes, now_ms), ..v };
    lemma_slot_from(v.slots, peer, false, 0);
    lemma_same_requests(v, a, cap);
    lemma_without_requests(a, just(hash), cap);
    let b = WorkView { slots: crate::peer_io::progress_noted(v.slots, peer, now_ms), ..v };
    lemma_same_requests(v, b, cap);
    lemma_without_requests(b, just(hash), cap);
    lemma_same_requests(b.without_requests(just(hash)), body_failed(v, peer, hash, now_ms), cap);
}

/// A confirm reject, however it is settled, leaves the requests in order; a blacklisted
/// body is not requested any more.
pub proof fn law_rejects_keep_requests_sound(
    v: WorkView,
    hub: HubView,
    height: u32,
    hash: BlockHash,
    class: ConfirmRejectClass,
    err: Seq<char>,
    now_ms: u64,
    cap: nat,
)
    requires
        v.requests_sound(cap),
    ensures
        rejected_by(v, hub, height, hash, class, err, now_ms).0.requests_sound(cap),
        class == ConfirmRejectClass::ConsensusInvalid ==> !rejected_by(
            v,
            hub,
            height,
            hash,
            class,
            err,
            now_ms,
        ).0.inflight.contains_key(hash),
{
    let w = rejected_by(v, hub, height, hash, class, err, now_ms).0;
    let c = v.without_requests(just(hash));
    lemma_without_requests(v, just(hash), cap);
    match class {
        ConfirmRejectClass::Cancelled => {},
        ConfirmRejectClass::SoftWire => {
            if crate::confirm_class::bad_prev_text(err) {
                lemma_same_requests(v, w, cap);
            } else {
                lemma_same_requests(c, w, cap);
            }
        },
        _ => {
            lemma_same_requests(c, w, cap);
        },
    }
}

/// Looking for the next needed hash changes no request; what it finds is neither rejected
/// nor requested.
proof fn lemma_next_need(t: Turn, q: Seq<BlockHash>, cap: nat)
    requires
        t.st.requests_sound(cap),
    ensures
        ({
            let (n, rest, got) = next_need(t, q);
            &&& n.st.requests_sound(cap)
            &&& n.st.slots == t.st.slots
            &&& n.st.body.rejected == t.st.body.rejected
            &&& got is Some ==> !n.st.inflight.contains_key(got->0)
                && !n.st.body.rejected.contains(got->0)
        }),
    decreases q.len(),
{
    if q.len() > 0 {
        let h = q[0];
        let has = t.hub.blocks.contains(h);
        let after = Turn {
            st: WorkView { body: t.st.body.after_skip_probe(h, has), ..t.st },
            hub: t.hub,
        };
        lemma_same_requests(t.st, after.st, cap);
        lemma_next_need(after, q.drop_first(), cap);
    }
}

/// A height scan changes no request.
proof fn lemma_scan(s: Scan, ht: int, hi: int, max: usize, budget: int, cap: nat)
    requires
        s.turn.st.requests_sound(cap),
    ensures
        scan_from(s, ht, hi, max, budget).turn.st.requests_sound(cap),
        scan_from(s, ht, hi, max, budget).turn.st.slots == s.turn.st.slots,
    decreases hi - ht + 1,
{
    if ht > hi || s.out.len() >= max || budget <= 0 {
    } else {
        let n = scan_step(s, ht as u32);
        lemma_same_requests(s.turn.st, n.turn.st, cap);
        lemma_scan(n, ht + 1, hi, max, budget - 1, cap);
    }
}

/// A race that starts with room for `need` more.
proof fn lemma_race(
    r: Race,
    h: BlockHash,
    row: Seq<usize>,
    i: int,
    evicted: Option<usize>,
    per_peer: usize,
    now_ms: u64,
    cap: nat,
)
    requires
        r.st.requests_sound(cap),
        !r.st.body.rejected.contains(h),
        r.need + r.st.owners_of(h) <= TIP_HOLE_MAX_PEERS,
        per_peer <= cap,
    ensures
        race_from(r, h, row, i, evicted, per_peer, now_ms).st.requests_sound(cap),
        race_from(r, h, row, i, evicted, per_peer, now_ms).st.body == r.st.body,
    decreases row.len() - i,
{
    if i >= row.len() || r.need <= 0 {
    } else if r.st.may_join(row[i], h, evicted, per_peer) {
        lemma_with_issued(r.st, row[i], h, now_ms, per_peer, cap);
        lemma_race(
            Race {
                st: r.st.with_issued(row[i], seq![h], now_ms),
                issued: crate::time::sat_add(r.issued, 1),
                need: r.need - 1,
                placed: true,
            },
            h,
            row,
            i + 1,
            evicted,
            per_peer,
            now_ms,
            cap,
        );
    } else {
        lemma_race(r, h, row, i + 1, evicted, per_peer, now_ms, cap);
    }
}

proof fn lemma_cover_one(c: Cover, h: BlockHash, alive: Seq<usize>, per_peer: usize, now_ms: u64, cap: nat)
    requires
        c.turn.st.requests_sound(cap),
        !c.turn.st.body.rejected.contains(h),
        per_peer <= cap,
    ensures
        cover_one(c, h, alive, per_peer, now_ms).turn.st.requests_sound(cap),
        cover_one(c, h, alive, per_peer, now_ms).turn.st.body.rejected
            == c.turn.st.body.rejected,
{
    if crate::race::hole_open(c.turn, h) {
        let t = hole_cleared(c.turn, h);
        lemma_same_requests(c.turn.st, t.st, cap);
        let evicted = t.st.evicts(h, now_ms);
        let v = match evicted {
            Some(pid) => without_owner(t.st, h, pid),
            None => t.st,
        };
        if let Some(pid) = evicted {
            lemma_without_owner(t.st, h, pid, cap);
        }
        let already = v.owners_of(h);
        if already < TIP_HOLE_MAX_PEERS {
            let avoid = match evicted {
                Some(pid) => Set::<usize>::empty().insert(pid),
                None => Set::<usize>::empty(),
            };
            lemma_race(
                Race {
                    st: v,
                    issued: c.issued,
                    need: TIP_HOLE_MAX_PEERS - already,
                    placed: false,
                },
                h,
                ranked(v.slots, alive, avoid),
                0,
                evicted,
                per_peer,
                now_ms,
                cap,
            );
        }
    }
}

proof fn lemma_cover(
    c: Cover,
    holes: Seq<BlockHash>,
    i: int,
    alive: Seq<usize>,
    per_peer: usize,
    now_ms: u64,
    cap: nat,
)
    requires
        0 <= i,
        c.turn.st.requests_sound(cap),
        forall|j: int|
            0 <= j < holes.len() ==> !c.turn.st.body.rejected.contains(#[trigger] holes[j]),
        per_peer <= cap,
    ensures
        cover_from(c, holes, i, alive, per_peer, now_ms).turn.st.requests_sound(cap),
    decreases holes.len() - i,
{
    if i >= holes.len() || c.stuck {
    } else {
        lemma_cover_one(c, holes[i], alive, per_peer, now_ms, cap);
        lemma_cover(
            cover_one(c, holes[i], alive, per_peer, now_ms),
            holes,
            i + 1,
            alive,
            per_peer,
            now_ms,
            cap,
        );
    }
}

/// Tip holes are never rejected bodies.
proof fn lemma_holes_not_rejected(t: Turn, ht: int, limit: int, max: int)
    ensures
        forall|j: int|
            0 <= j < holes_from(t, ht, limit, max).len() ==> !t.st.body.rejected.contains(
                #[trigger] holes_from(t, ht, limit, max)[j],
            ),
    decreases limit - ht + 1,
{
    let all = holes_from(t, ht, limit, max);
    if ht > limit || max <= 0 || !t.st.height_to_hash.contains_key(ht as u32) {
    } else {
        let h = t.st.height_to_hash[ht as u32];
        lemma_holes_not_rejected(t, ht + 1, limit, max - 1);
        let rest = holes_from(t, ht + 1, limit, max - 1);
        assert forall|j: int| 0 <= j < all.len() implies !t.st.body.rejected.contains(
            #[trigger] all[j],
        ) by {
            if j > 0 {
                assert(all[j] == rest[j - 1]);
            }
        }
    }
}

proof fn lemma_offer(
    p: Pull,
    h: BlockHash,
    alive: Seq<usize>,
    tries: nat,
    per_peer: usize,
    now_ms: u64,
    cap: nat,
)
    requires
        p.turn.st.requests_sound(cap),
        !p.turn.st.inflight.contains_key(h),
        !p.turn.st.body.rejected.contains(h),
        per_peer <= cap,
    ensures
        offer_round(p, h, alive, tries, per_peer, now_ms).turn.st.requests_sound(cap),
    decreases tries,
{
    if tries > 0 {
        let pid = alive[p.rot as int % alive.len() as int];
        let on = Pull { rot: next_rot(p.rot), ..p };
        if !p.turn.st.has_slot(pid, per_peer) {
            lemma_offer(on, h, alive, (tries - 1) as nat, per_peer, now_ms, cap);
        } else {
            let v = p.turn.st;
            lemma_with_issued(v, pid, h, now_ms, per_peer, cap);
            if v.going_out(pid, seq![h]).len() == 0 {
                let asked = Pull {
                    turn: Turn { st: v.with_issued(pid, seq![h], now_ms), hub: p.turn.hub },
                    room: crate::inflight::room_after(
                        p.room,
                        v.newly_asked(pid, seq![h], now_ms),
                    ),
                    issued: crate::time::sat_add(
                        p.issued,
                        v.going_out(pid, seq![h]).len() as u64,
                    ),
                    ..on
                };
                lemma_offer(asked, h, alive, (tries - 1) as nat, per_peer, now_ms, cap);
            }
        }
    }
}

proof fn lemma_pull(
    p: Pull,
    need: Seq<BlockHash>,
    i: int,
    alive: Seq<usize>,
    per_peer: usize,
    now_ms: u64,
    cap: nat,
)
    requires
        p.turn.st.requests_sound(cap),
        per_peer <= cap,
    ensures
        pull_from(p, need, i, alive, per_peer, now_ms).turn.st.requests_sound(cap),
    decreases need.len() - i,
{
    if i >= need.len() || p.room == 0 {
    } else {
        let h = need[i];
        let t = p.turn;
        if t.st.inflight.contains_key(h) || t.hub.blocks.contains(h)
            || crate::chain::queue_has_hash(t.hub.queue, h) {
        } else {
            let body = crate::fetch::demoted(t.st.body, t.hub, h, t.st.height_of(h));
            let after = Turn {
                st: WorkView { body: body.after_skip_probe(h, false), ..t.st },
                hub: t.hub,
            };
            lemma_same_requests(t.st, after.st, cap);
            if !body.skips(h, false) {
                lemma_offer(
                    Pull { turn: after, ..p },
                    h,
                    alive,
                    alive.len(),
                    per_peer,
                    now_ms,
                    cap,
                );
            }
        }
        lemma_pull(
            pull_one(p, h, alive, per_peer, now_ms),
            need,
            i + 1,
            alive,
            per_peer,
            now_ms,
            cap,
        );
    }
}

/// Which slot a peer has depends on ids and aliveness alone.
proof fn lemma_same_slot(a: Seq<SlotView>, b: Seq<SlotView>, pid: usize, live: bool, from: int)
    requires
        a.len() == b.len(),
        forall|k: int|
            0 <= k < a.len() ==> (#[trigger] a[k]).id == b[k].id && a[k].alive == b[k].alive,
    ensures
        slot_from(a, pid, live, from) == slot_from(b, pid, live, from),
    decreases a.len() - from,
{
    if 0 <= from < a.len() {
        assert(a[from].id == b[from].id);
        lemma_same_slot(a, b, pid, live, from + 1);
    }
}

/// A peer found to take a hung request is not its owner and has a slot.
proof fn lemma_steal_dest(v: WorkView, ids: Seq<usize>, owner: usize, caps: Map<usize, usize>)
    ensures
        steal_dest(v, ids, owner, caps) matches Some(pid) ==> pid != owner && ids.contains(pid)
            && v.has_slot(pid, cap_in(caps, pid)),
    decreases ids.len(),
{
    if ids.len() > 0 {
        lemma_steal_dest(v, ids.drop_last(), owner, caps);
        assert(ids[ids.len() - 1] == ids.last());
        match steal_dest(v, ids.drop_last(), owner, caps) {
            Some(p) => {
                let j = choose|j: int| 0 <= j < ids.drop_last().len() && ids.drop_last()[j] == p;
                assert(ids[j] == p);
            },
            None => {},
        }
    }
}

/// No densify cap is above `cap`.
pub open spec fn caps_within(caps: Map<usize, usize>, cap: nat) -> bool {
    forall|pid: usize| (#[trigger] cap_in(caps, pid)) <= cap
}

proof fn lemma_steal_one(
    s: Steal,
    h: BlockHash,
    alive: Seq<usize>,
    caps: Map<usize, usize>,
    now_ms: u64,
    cap: nat,
)
    requires
        s.st.requests_sound(cap),
        caps_within(caps, cap),
    ensures
        steal_one(s, h, alive, caps, now_ms).st.requests_sound(cap),
{
    if !s.st.inflight.contains_key(h) || s.st.inflight[h].peers.len() == 0 {
    } else {
        let owner = s.st.inflight[h].peers[0];
        assert(s.st.owned(h, owner));
        let v = without_owner(s.st, h, owner);
        lemma_without_owner(s.st, h, owner, cap);
        lemma_steal_dest(s.st, alive, owner, caps);
        match steal_dest(s.st, alive, owner, caps) {
            Some(pid) => {
                lemma_slot_from(s.st.slots, owner, false, 0);
                lemma_slot_from(s.st.slots, pid, true, 0);
                assert forall|k: int| 0 <= k < v.slots.len() implies (#[trigger] v.slots[k]).id
                    == s.st.slots[k].id && v.slots[k].alive == s.st.slots[k].alive by {}
                lemma_same_slot(v.slots, s.st.slots, pid, true, 0);
                lemma_with_issued(v, pid, h, now_ms, cap_in(caps, pid), cap);
            },
            None => {
                if let Some(ht) = s.st.height_of(h) {
                    lemma_same_requests(
                        v,
                        WorkView {
                            densify_scan_lo: crate::fetch::min32(v.densify_scan_lo, ht),
                            ..v
                        },
                        cap,
                    );
                }
            },
        }
    }
}

proof fn lemma_steal(
    s: Steal,
    row: Seq<BlockHash>,
    i: int,
    alive: Seq<usize>,
    caps: Map<usize, usize>,
    now_ms: u64,
    cap: nat,
)
    requires
        s.st.requests_sound(cap),
        caps_within(caps, cap),
    ensures
        steal_from(s, row, i, alive, caps, now_ms).st.requests_sound(cap),
    decreases row.len() - i,
{
    if i < row.len() {
        lemma_steal_one(s, row[i], alive, caps, now_ms, cap);
        lemma_steal(
            steal_one(s, row[i], alive, caps, now_ms),
            row,
            i + 1,
            alive,
            caps,
            now_ms,
            cap,
        );
    }
}

proof fn lemma_feed_peer(f: Feed, pid: usize, slots: usize, now_ms: u64, cap: nat)
    requires
        f.turn.st.requests_sound(cap),
        slots <= cap,
    ensures
        feed_peer(f, pid, slots, now_ms).turn.st.requests_sound(cap),
    decreases f.q.len(),
{
    lemma_next_need_shrinks(f.turn, f.q);
    if f.room == 0 || f.q.len() == 0 || !f.turn.st.has_slot(pid, slots) {
    } else {
        lemma_next_need(f.turn, f.q, cap);
        let (t, rest, got) = next_need(f.turn, f.q);
        if let Some(h) = got {
            let v = t.st;
            lemma_with_issued(v, pid, h, now_ms, slots, cap);
            let next = Feed {
                turn: Turn { st: v.with_issued(pid, seq![h], now_ms), hub: t.hub },
                q: rest,
                room: crate::inflight::room_after(f.room, v.newly_asked(pid, seq![h], now_ms)),
                issued: crate::time::sat_add(f.issued, v.going_out(pid, seq![h]).len() as u64),
            };
            if v.going_out(pid, seq![h]).len() > 0 {
                lemma_feed_peer(next, pid, slots, now_ms, cap);
            }
        }
    }
}

proof fn lemma_feed(
    f: Feed,
    row: Seq<usize>,
    i: int,
    caps: Map<usize, usize>,
    now_ms: u64,
    cap: nat,
)
    requires
        f.turn.st.requests_sound(cap),
        caps_within(caps, cap),
    ensures
        feed_from(f, row, i, caps, now_ms).turn.st.requests_sound(cap),
    decreases row.len() - i,
{
    if i >= row.len() || f.room == 0 || f.q.len() == 0 {
    } else {
        assert(cap_in(caps, row[i]) <= cap);
        lemma_feed_peer(f, row[i], cap_in(caps, row[i]), now_ms, cap);
        lemma_feed(
            feed_peer(f, row[i], cap_in(caps, row[i]), now_ms),
            row,
            i + 1,
            caps,
            now_ms,
            cap,
        );
    }
}

proof fn lemma_densified(
    t: Turn,
    order: Seq<BlockHash>,
    alive: Seq<usize>,
    cfg: IbdConfig,
    tip_hole: bool,
    band_hi: u32,
    now_ms: u64,
    cap: nat,
)
    requires
        t.st.requests_sound(cap),
        cfg.per_peer <= cap,
        2 <= cap,
    ensures
        densified(t, order, alive, cfg, tip_hole, band_hi, now_ms).0.st.requests_sound(cap),
{
    let caps = caps_of(t.st.slots, alive, cfg.per_peer, tip_hole);
    assert(caps_within(caps, cap));
    let row = order.filter(is_hung(t, crate::assign::batch_hi(t.hub), now_ms));
    lemma_steal(Steal { st: t.st, issued: 0 }, row, 0, alive, caps, now_ms, cap);
    let s = stolen(t, order, alive, crate::assign::batch_hi(t.hub), caps, now_ms);
    let room = crate::inflight::room_after(cfg.window, s.st.inflight.dom().len());
    let v = with_path_lo(s.st, t.hub.path_lo());
    lemma_same_requests(s.st, v, cap);
    if room == 0 || !crate::assign::anyone_free(v, alive, caps) {
    } else {
        let from = Turn { st: v, hub: t.hub };
        let lo = v.densify_scan_lo;
        let (found, need) = band_scan(from, lo, band_hi, room, cfg.far_scan_budget);
        if !(lo > band_hi || room == 0) {
            let top = crate::fetch::min32(
                band_hi,
                crate::chain::max32(from.st.max_ordered_height, lo),
            );
            let start = Scan { turn: from, out: Seq::empty(), prefix: lo, tracking: true };
            lemma_scan(start, lo as int, top as int, room, cfg.far_scan_budget as int, cap);
            let sc = scan_from(start, lo as int, top as int, room, cfg.far_scan_budget as int);
            lemma_same_requests(sc.turn.st, found.st, cap);
        }
        lemma_feed(
            Feed { turn: found, q: need, room, issued: s.issued },
            ranked(found.st.slots, alive, Set::empty()),
            0,
            caps,
            now_ms,
            cap,
        );
    }
}

/// A whole assign turn leaves the requests in order: both sides of the books agree, no
/// hash is raced for by more than [`TIP_HOLE_MAX_PEERS`], nothing rejected is requested,
/// and no slot is asked for more than its cap, which is `per_peer` but never below the
/// drip of two that densify is left while a tip hole is open.
pub proof fn law_assign_keeps_requests_sound(
    t: Turn,
    heavier: Option<ReorgView>,
    order: Seq<BlockHash>,
    cfg: IbdConfig,
    depth: AssignDepth,
    band_hi: u32,
    now_ms: u64,
    cap: nat,
)
    requires
        t.st.requests_sound(cap),
        cfg.per_peer <= cap,
        2 <= cap,
    ensures
        assigned(t, heavier, order, cfg, depth, band_hi, now_ms).0.st.requests_sound(cap),
{
    let alive = live_ids(t.st.slots);
    let a = t.st.without_requests(t.hub.blocks);
    lemma_without_requests(t.st, t.hub.blocks, cap);
    lemma_without_requests(a, a.off_path(), cap);
    let p = turn_begun(t, heavier);
    lemma_same_requests(pruned(t), p.st, cap);
    let gone = crate::assign::stale_in_batch(p, cfg.pending_stale_ms, now_ms);
    lemma_without_requests(p.st, gone, cap);
    let e = Turn { st: batch_expired(p, cfg.pending_stale_ms, now_ms), hub: t.hub };
    lemma_same_requests(p.st.without_requests(gone), e.st, cap);
    let holes = tip_holes(e, TIP_HOLE_MAX);
    let lo = e.hub.path_lo();
    lemma_holes_not_rejected(
        e,
        lo as int,
        crate::chain::sat_add32(lo, (TIP_HOLE_MAX * 4) as u32) as int,
        TIP_HOLE_MAX as int,
    );
    let c = covered(e, holes, alive, cfg.per_peer, now_ms);
    lemma_cover(
        Cover { turn: e, issued: 0, stuck: false },
        holes,
        0,
        alive,
        cfg.per_peer,
        now_ms,
        cap,
    );
    assert(c.turn.st.requests_sound(cap));
    let need = c.turn.st.reorg.need();
    let start = Pull {
        turn: c.turn,
        room: crate::assign::pull_room(cfg.window, c.turn.st.inflight.dom().len(), need.len()),
        rot: c.turn.st.assign_rot,
        issued: c.issued,
    };
    lemma_pull(start, need, 0, alive, cfg.per_peer, now_ms, cap);
    let tip = tip_assigned(p, alive, cfg, now_ms);
    lemma_same_requests(
        pull_from(start, need, 0, alive, cfg.per_peer, now_ms).turn.st,
        tip.turn.st,
        cap,
    );
    if depth == AssignDepth::Full {
        lemma_densified(
            tip.turn,
            order,
            alive,
            cfg,
            hole_seen(p, cfg, now_ms),
            band_hi,
            now_ms,
            cap,
        );
    }
}

/// After an assign turn's first step every request left feeds the work path or the awaited
/// branch, and none is for a confirmed block.
pub proof fn law_pruned_requests_feed(t: Turn, h: BlockHash)
    requires
        pruned(t).inflight.contains_key(h),
    ensures
        t.st.inflight.contains_key(h),
        t.st.feeds(h),
        !t.hub.blocks.contains(h),
{
    let a = t.st.without_requests(t.hub.blocks);
    assert(a.inflight.contains_key(h));
    assert(!a.off_path().contains(h));
}

/// How many hashes are requested.
pub open spec fn out_count(v: WorkView) -> nat {
    v.inflight.dom().len()
}

/// A hash that nobody was asked for takes one place of the window when it goes out, and
/// none when it does not.
proof fn lemma_fresh_takes_one(v: WorkView, pid: usize, h: BlockHash, now_ms: u64)
    requires
        v.inflight.dom().finite(),
        !v.inflight.contains_key(h),
    ensures
        v.with_issued(pid, seq![h], now_ms).inflight.dom().finite(),
        out_count(v.with_issued(pid, seq![h], now_ms)) == out_count(v) + v.newly_asked(
            pid,
            seq![h],
            now_ms,
        ),
        v.newly_asked(pid, seq![h], now_ms) == v.going_out(pid, seq![h]).len(),
        v.going_out(pid, seq![h]).len() <= 1,
{
    let w = v.with_issued(pid, seq![h], now_ms);
    let once = crate::inflight::asked_once(w.inflight);
    let none = Seq::<BlockHash>::empty();
    none.lemma_filter_len(once);
    match live_slot(v.slots, pid) {
        Some(i) => {
            lemma_filter_one(h, unasked(v.slots[i]));
            let out = v.going_out(pid, seq![h]);
            if out.len() > 0 {
                assert(out == seq![h]);
                assert(out.drop_last() =~= none);
                assert(with_requests(v.inflight, none, pid, now_ms) == v.inflight);
                assert(out.last() == h);
                assert(w.inflight.dom() =~= v.inflight.dom().insert(h));
                lemma_filter_one(h, once);
            } else {
                assert(out =~= none);
            }
        },
        None => {},
    }
}

proof fn lemma_next_need_same_requests(t: Turn, q: Seq<BlockHash>)
    ensures
        next_need(t, q).0.st.inflight == t.st.inflight,
        next_need(t, q).2 matches Some(h) ==> !t.st.inflight.contains_key(h),
    decreases q.len(),
{
    if q.len() > 0 {
        let h = q[0];
        let has = t.hub.blocks.contains(h);
        let after = Turn {
            st: WorkView { body: t.st.body.after_skip_probe(h, has), ..t.st },
            hub: t.hub,
        };
        lemma_next_need_same_requests(after, q.drop_first());
    }
}

proof fn lemma_feed_peer_window(f: Feed, pid: usize, slots: usize, now_ms: u64, window: nat)
    requires
        f.turn.st.inflight.dom().finite(),
        f.room + out_count(f.turn.st) <= window,
    ensures
        feed_peer(f, pid, slots, now_ms).turn.st.inflight.dom().finite(),
        feed_peer(f, pid, slots, now_ms).room + out_count(
            feed_peer(f, pid, slots, now_ms).turn.st,
        ) <= window,
    decreases f.q.len(),
{
    lemma_next_need_shrinks(f.turn, f.q);
    if f.room == 0 || f.q.len() == 0 || !f.turn.st.has_slot(pid, slots) {
    } else {
        lemma_next_need_same_requests(f.turn, f.q);
        let (t, rest, got) = next_need(f.turn, f.q);
        if let Some(h) = got {
            let v = t.st;
            lemma_fresh_takes_one(v, pid, h, now_ms);
            let next = Feed {
                turn: Turn { st: v.with_issued(pid, seq![h], now_ms), hub: t.hub },
                q: rest,
                room: crate::inflight::room_after(f.room, v.newly_asked(pid, seq![h], now_ms)),
                issued: crate::time::sat_add(f.issued, v.going_out(pid, seq![h]).len() as u64),
            };
            if v.going_out(pid, seq![h]).len() > 0 {
                lemma_feed_peer_window(next, pid, slots, now_ms, window);
            }
        }
    }
}

proof fn lemma_feed_window(
    f: Feed,
    row: Seq<usize>,
    i: int,
    caps: Map<usize, usize>,
    now_ms: u64,
    window: nat,
)
    requires
        f.turn.st.inflight.dom().finite(),
        f.room + out_count(f.turn.st) <= window,
    ensures
        out_count(feed_from(f, row, i, caps, now_ms).turn.st) <= window,
    decreases row.len() - i,
{
    if i >= row.len() || f.room == 0 || f.q.len() == 0 {
    } else {
        lemma_feed_peer_window(f, row[i], cap_in(caps, row[i]), now_ms, window);
        lemma_feed_window(
            feed_peer(f, row[i], cap_in(caps, row[i]), now_ms),
            row,
            i + 1,
            caps,
            now_ms,
            window,
        );
    }
}

proof fn lemma_steal_adds_none(
    s: Steal,
    row: Seq<BlockHash>,
    i: int,
    alive: Seq<usize>,
    caps: Map<usize, usize>,
    now_ms: u64,
)
    ensures
        steal_from(s, row, i, alive, caps, now_ms).st.inflight.dom().subset_of(
            s.st.inflight.dom(),
        ),
    decreases row.len() - i,
{
    if i < row.len() {
        let h = row[i];
        let n = steal_one(s, h, alive, caps, now_ms);
        assert(n.st.inflight.dom().subset_of(s.st.inflight.dom())) by {
            if s.st.inflight.contains_key(h) && s.st.inflight[h].peers.len() > 0 {
                let owner = s.st.inflight[h].peers[0];
                let v = without_owner(s.st, h, owner);
                if let Some(pid) = steal_dest(s.st, alive, owner, caps) {
                    let out = v.going_out(pid, seq![h]);
                    if let Some(k) = live_slot(v.slots, pid) {
                        lemma_filter_one(h, unasked(v.slots[k]));
                        if out.len() > 0 {
                            assert(out.drop_last() =~= Seq::<BlockHash>::empty());
                            assert(with_requests(v.inflight, out.drop_last(), pid, now_ms)
                                == v.inflight);
                            assert(out.last() == h);
                        }
                    }
                }
            }
        }
        lemma_steal_adds_none(n, row, i + 1, alive, caps, now_ms);
    }
}

proof fn lemma_scan_same_requests(s: Scan, ht: int, hi: int, max: usize, budget: int)
    ensures
        scan_from(s, ht, hi, max, budget).turn.st.inflight == s.turn.st.inflight,
    decreases hi - ht + 1,
{
    if ht > hi || s.out.len() >= max || budget <= 0 {
    } else {
        lemma_scan_same_requests(scan_step(s, ht as u32), ht + 1, hi, max, budget - 1);
    }
}

/// Densify never takes the requests that are out beyond the window: where fewer are out it
/// stops at the window, and otherwise it adds none.
pub proof fn law_densify_stays_in_window(
    t: Turn,
    order: Seq<BlockHash>,
    alive: Seq<usize>,
    cfg: IbdConfig,
    tip_hole: bool,
    band_hi: u32,
    now_ms: u64,
)
    requires
        t.st.inflight.dom().finite(),
    ensures
        ({
            let after = out_count(
                densified(t, order, alive, cfg, tip_hole, band_hi, now_ms).0.st,
            );
            after <= cfg.window || after <= out_count(t.st)
        }),
{
    let caps = caps_of(t.st.slots, alive, cfg.per_peer, tip_hole);
    let row = order.filter(is_hung(t, crate::assign::batch_hi(t.hub), now_ms));
    lemma_steal_adds_none(Steal { st: t.st, issued: 0 }, row, 0, alive, caps, now_ms);
    let s = stolen(t, order, alive, crate::assign::batch_hi(t.hub), caps, now_ms);
    vstd::set_lib::lemma_len_subset(s.st.inflight.dom(), t.st.inflight.dom());
    let room = crate::inflight::room_after(cfg.window, out_count(s.st));
    let v = with_path_lo(s.st, t.hub.path_lo());
    if room == 0 || !crate::assign::anyone_free(v, alive, caps) {
    } else {
        let from = Turn { st: v, hub: t.hub };
        let lo = v.densify_scan_lo;
        let (found, need) = band_scan(from, lo, band_hi, room, cfg.far_scan_budget);
        let top = crate::fetch::min32(
            band_hi,
            crate::chain::max32(from.st.max_ordered_height, lo),
        );
        let start = Scan { turn: from, out: Seq::empty(), prefix: lo, tracking: true };
        lemma_scan_same_requests(
            start,
            lo as int,
            top as int,
            room,
            cfg.far_scan_budget as int,
        );
        lemma_feed_window(
            Feed { turn: found, q: need, room, issued: s.issued },
            ranked(found.st.slots, alive, Set::empty()),
            0,
            caps,
            now_ms,
            cfg.window as nat,
        );
    }
}

} // verus!

//! When peers are asked for more headers, and when headers are complete.
use vstd::prelude::*;
use crate::chain::HubView;
use crate::config::IbdConfig;
use crate::exit::{law_finite_set_has_a_top, top_of};
use crate::hash::BlockHash;
use crate::header_events::{empty_taken, known_headers_noted, new_headers_noted};
use crate::peers::{lemma_slot_from, live_ids, CmdView, SlotView};
use crate::state::WorkView;

verus! {

/// Is `peer` alive?
pub open spec fn is_alive(slots: Seq<SlotView>, peer: usize) -> bool {
    exists|i: int| 0 <= i < slots.len() && (#[trigger] slots[i]).id == peer && slots[i].alive
}

/// Did one header request to `peer`, and nothing else, go out?
pub open spec fn asked_once(before: Seq<(usize, CmdView)>, after: Seq<(usize, CmdView)>, peer: usize) -> bool {
    &&& after.len() == before.len() + 1
    &&& after.drop_last() == before
    &&& after.last().0 == peer
    &&& after.last().1 matches CmdView::GetHeaders { locator } && locator.len() > 0
}

/// Are peers more than `n` above the tip, the ready bodies and the whole path?
pub open spec fn peers_are_ahead(v: WorkView, tip_h: u32, n: int) -> bool {
    &&& v.max_peer_height > tip_h + n
    &&& v.max_peer_height > v.max_ready_height + n
    &&& forall|h: u32| #[trigger] v.height_to_hash.contains_key(h) ==> v.max_peer_height > h + n
}

/// A peer is alive where it has an alive slot.
pub proof fn lemma_alive(slots: Seq<SlotView>, peer: usize)
    ensures
        is_alive(slots, peer) == crate::peers::live_slot(slots, peer) is Some,
{
    lemma_slot_from(slots, peer, true, 0);
}

proof fn lemma_some_locator(tips: Seq<BlockHash>, tip: Option<BlockHash>, rest: Seq<BlockHash>)
    ensures
        crate::dial::locator_of(tips, tip, rest).len() > 0,
{
}

/// The lag is what peers are ahead of the tip, the ready bodies and the path.
pub proof fn lemma_ahead(v: WorkView, tip_h: u32, n: int)
    requires
        v.height_to_hash.dom().finite(),
        n >= 0,
    ensures
        peers_are_ahead(v, tip_h, n) == (v.header_lag(tip_h) > n),
{
    let s = v.height_to_hash.dom();
    law_finite_set_has_a_top(s);
    let m = top_of(s);
    if peers_are_ahead(v, tip_h, n) {
        if s.contains(m) {
            assert(v.height_to_hash.contains_key(m));
        }
    }
    if v.header_lag(tip_h) > n {
        assert forall|h: u32| #[trigger] v.height_to_hash.contains_key(h) implies v.max_peer_height
            > h + n by {
            assert(s.contains(h));
        }
    }
}

/// After a full reply with new headers, the peer that sent it is asked on while the path is
/// shorter than the soft cap and the longest path, however few bodies are ready. Exactly one
/// request goes out, and nothing but the streak and the latch changes besides.
pub proof fn law_full_reply_asks_on(
    v: WorkView,
    hub: HubView,
    cfg: IbdConfig,
    peer: usize,
    batch_len: int,
    out: WorkView,
)
    requires
        new_headers_noted(v, hub, cfg, peer, batch_len, out),
        batch_len >= 2000,
        v.ordered_set.len() < cfg.ordered_soft_cap,
        v.ordered_set.len() < cfg.max_ordered_headers,
        is_alive(v.slots, peer),
        hub.locator is Ok,
    ensures
        asked_once(v.outbox, out.outbox, peer),
        out.empty_header_streak == 0,
        !out.headers_done,
        out == (WorkView {
            outbox: out.outbox,
            empty_header_streak: 0,
            headers_done: false,
            ..v
        }),
{
    lemma_alive(v.slots, peer);
    assert(out.outbox.drop_last() =~= v.outbox);
}

/// Past the soft cap a full reply is followed up only while most of the path is ready and
/// its ready end is near.
pub proof fn law_long_path_asks_on_when_ready(
    v: WorkView,
    hub: HubView,
    cfg: IbdConfig,
    peer: usize,
    batch_len: int,
    out: WorkView,
)
    requires
        new_headers_noted(v, hub, cfg, peer, batch_len, out),
        batch_len >= 2000,
        0 < v.ordered_set.len() < cfg.max_ordered_headers,
        v.ordered_set.len() * 3 <= usize::MAX,
        v.body.known.len() <= usize::MAX,
        v.ordered_set.len() >= cfg.ordered_soft_cap,
        is_alive(v.slots, peer),
        hub.locator is Ok,
    ensures
        4 * (v.body.known.len() + 1) > 3 * v.ordered_set.len() && v.max_ordered_height
            - v.max_ready_height < 4096 ==> asked_once(v.outbox, out.outbox, peer),
        4 * (v.body.known.len() + 1) <= 3 * v.ordered_set.len() || v.max_ordered_height
            - v.max_ready_height >= 4096 ==> out.outbox == v.outbox,
{
    lemma_alive(v.slots, peer);
    if out.outbox.len() == v.outbox.len() + 1 {
        assert(out.outbox.drop_last() =~= v.outbox);
    }
}

/// New headers end the streak of empty replies and open the latch, whatever else holds; a
/// short reply, a path at its longest, a dead peer or a missing locator sends nothing.
pub proof fn law_short_reply_asks_nothing(
    v: WorkView,
    hub: HubView,
    cfg: IbdConfig,
    peer: usize,
    batch_len: int,
    out: WorkView,
)
    requires
        new_headers_noted(v, hub, cfg, peer, batch_len, out),
    ensures
        batch_len < 2000 || v.ordered_set.len() >= cfg.max_ordered_headers || !is_alive(
            v.slots,
            peer,
        ) || hub.locator is Err ==> out.outbox == v.outbox,
        out.empty_header_streak == 0 && !out.headers_done,
        out.ordered == v.ordered && out.inflight == v.inflight && out.slots == v.slots && out.body
            == v.body,
{
    lemma_alive(v.slots, peer);
}

/// Headers that were all known are followed up on a path with room after a full reply, or
/// while peers are more than two ahead. With nothing ordered they never are.
pub proof fn law_known_headers_ask_on(
    v: WorkView,
    hub: HubView,
    cfg: IbdConfig,
    peer: usize,
    batch_len: int,
    out: WorkView,
)
    requires
        known_headers_noted(v, hub, cfg, peer, batch_len, out),
        v.height_to_hash.dom().finite(),
        v.ordered_set.len() <= usize::MAX,
    ensures
        0 < v.ordered_set.len() < cfg.ordered_soft_cap && v.ordered_set.len()
            < cfg.max_ordered_headers && (batch_len >= 2000 || peers_are_ahead(
            v,
            hub.tip_or_zero(),
            2,
        )) && is_alive(v.slots, peer) && hub.locator is Ok ==> asked_once(
            v.outbox,
            out.outbox,
            peer,
        ),
        v.ordered_set.len() == 0 || v.ordered_set.len() >= cfg.max_ordered_headers || !is_alive(
            v.slots,
            peer,
        ) || hub.locator is Err ==> out == v,
        out == (WorkView { outbox: out.outbox, ..v }),
{
    lemma_alive(v.slots, peer);
    lemma_ahead(v, hub.tip_or_zero(), 2);
    if out.outbox.len() == v.outbox.len() + 1 {
        assert(out.outbox.drop_last() =~= v.outbox);
    }
}

/// What is alive in a row of slots.
pub proof fn lemma_live_ids(slots: Seq<SlotView>)
    ensures
        forall|k: int|
            0 <= k < live_ids(slots).len() ==> is_alive(slots, #[trigger] live_ids(slots)[k]),
        forall|p: usize| is_alive(slots, p) ==> live_ids(slots).contains(p),
    decreases slots.len(),
{
    if slots.len() > 0 {
        let rest = slots.drop_last();
        lemma_live_ids(rest);
        let last = slots.len() - 1;
        assert(slots[last] == slots.last());
        assert forall|k: int| 0 <= k < live_ids(slots).len() implies is_alive(
            slots,
            #[trigger] live_ids(slots)[k],
        ) by {
            let p = live_ids(slots)[k];
            if k < live_ids(rest).len() {
                assert(live_ids(rest)[k] == p);
                let i = choose|i: int|
                    0 <= i < rest.len() && (#[trigger] rest[i]).id == p && rest[i].alive;
                assert(slots[i].id == p && slots[i].alive);
            } else {
                assert(slots[last].id == p && slots[last].alive);
            }
        }
        assert forall|p: usize| is_alive(slots, p) implies live_ids(slots).contains(p) by {
            let i = choose|i: int|
                0 <= i < slots.len() && (#[trigger] slots[i]).id == p && slots[i].alive;
            if i < last {
                assert(rest[i].id == p && rest[i].alive);
                assert(is_alive(rest, p));
                assert(live_ids(rest).contains(p));
                let k = choose|k: int| 0 <= k < live_ids(rest).len() && live_ids(rest)[k] == p;
                assert(live_ids(slots)[k] == p);
            } else {
                assert(live_ids(slots)[live_ids(rest).len() as int] == p);
            }
        }
    }
}

/// An empty reply closes headers only on a path with nothing left, or within two of the
/// peers. While peers are more than two ahead and work is left, headers stay open.
pub proof fn law_lag_keeps_headers_open(
    v: WorkView,
    hub: HubView,
    soft_cap: usize,
    out: WorkView,
)
    requires
        empty_taken(v, hub, soft_cap, out),
        v.height_to_hash.dom().finite(),
        peers_are_ahead(v, hub.tip_or_zero(), 2),
        v.ordered.len() > 0 || exists|h: BlockHash| #[trigger] v.inflight.contains_key(h),
    ensures
        !out.headers_done,
{
    let c = crate::header_events::streak_counted(v);
    lemma_ahead(c, hub.tip_or_zero(), 2);
    assert(peers_are_ahead(c, hub.tip_or_zero(), 2));
    if v.ordered.len() == 0 {
        let h = choose|h: BlockHash| #[trigger] v.inflight.contains_key(h);
        assert(v.inflight.dom().contains(h));
    }
}

/// While peers are more than two ahead and work is left, the first empty reply of a streak
/// and every eighth ask one alive peer for headers again, unless the path is reseeded; no
/// other reply of the streak does.
pub proof fn law_lag_asks_by_cadence(
    v: WorkView,
    hub: HubView,
    soft_cap: usize,
    out: WorkView,
)
    requires
        empty_taken(v, hub, soft_cap, out),
        v.height_to_hash.dom().finite(),
        v.empty_header_streak < u32::MAX,
        peers_are_ahead(v, hub.tip_or_zero(), 2),
        v.ordered.len() > 0,
        exists|h: BlockHash| #[trigger] v.ordered_set.contains(h),
        exists|p: usize| is_alive(v.slots, p),
        hub.locator is Ok,
    ensures
        out.empty_header_streak == v.empty_header_streak + 1,
        v.empty_header_streak == 0 || (v.empty_header_streak + 1) % 8 == 0 ==> exists|p: usize|
            is_alive(v.slots, p) && #[trigger] asked_once(v.outbox, out.outbox, p),
        v.empty_header_streak != 0 && (v.empty_header_streak + 1) % 8 != 0 ==> out.outbox
            == v.outbox,
{
    let c = crate::header_events::streak_counted(v);
    lemma_ahead(c, hub.tip_or_zero(), 2);
    assert(peers_are_ahead(c, hub.tip_or_zero(), 2));
    let h = choose|h: BlockHash| #[trigger] v.ordered_set.contains(h);
    assert(v.ordered_set != Set::<BlockHash>::empty());
    lemma_turn(v.slots, v.header_req_seq);
    if v.empty_header_streak == 0 || (v.empty_header_streak + 1) % 8 == 0 {
        let p = crate::dial::turn_of(v.slots, v.header_req_seq)->0;
        lemma_alive(v.slots, p);
        assert(out.outbox.drop_last() =~= v.outbox);
        assert(asked_once(v.outbox, out.outbox, p));
    }
}

proof fn lemma_turn(slots: Seq<SlotView>, seq_no: u32)
    ensures
        (exists|p: usize| is_alive(slots, p)) ==> crate::dial::turn_of(slots, seq_no) is Some,
        crate::dial::turn_of(slots, seq_no) is Some ==> is_alive(
            slots,
            crate::dial::turn_of(slots, seq_no)->0,
        ),
{
    lemma_live_ids(slots);
    let ids = live_ids(slots);
    if exists|p: usize| is_alive(slots, p) {
        let p = choose|p: usize| is_alive(slots, p);
        assert(ids.contains(p));
    }
    if ids.len() > 0 {
        let k = seq_no as int % ids.len() as int;
        assert(0 <= k < ids.len());
        assert(is_alive(slots, ids[k]));
    }
}

/// Close to the peers, the first seven empty replies ask on below the soft cap and leave the
/// latch alone, and the eighth closes headers.
pub proof fn law_eighth_empty_reply_closes_headers(
    v: WorkView,
    hub: HubView,
    soft_cap: usize,
    out: WorkView,
)
    requires
        empty_taken(v, hub, soft_cap, out),
        v.height_to_hash.dom().finite(),
        v.empty_header_streak < u32::MAX,
        !peers_are_ahead(v, hub.tip_or_zero(), 2),
        v.ordered.len() > 0,
    ensures
        v.empty_header_streak >= 7 ==> out.headers_done && out.outbox == v.outbox,
        v.empty_header_streak < 7 ==> out.headers_done == v.headers_done,
        v.empty_header_streak < 7 && v.ordered_set.len() < soft_cap && hub.locator is Ok && (
        exists|p: usize| is_alive(v.slots, p)) ==> exists|p: usize|
            is_alive(v.slots, p) && #[trigger] asked_once(v.outbox, out.outbox, p),
        v.empty_header_streak < 7 && v.ordered_set.len() >= soft_cap ==> out.outbox == v.outbox,
{
    let c = crate::header_events::streak_counted(v);
    lemma_ahead(c, hub.tip_or_zero(), 2);
    assert(peers_are_ahead(c, hub.tip_or_zero(), 2) == peers_are_ahead(v, hub.tip_or_zero(), 2));
    lemma_turn(v.slots, v.header_req_seq);
    if v.empty_header_streak < 7 && v.ordered_set.len() < soft_cap && hub.locator is Ok && (exists|
        p: usize,
    |
        is_alive(v.slots, p)) {
        let p = crate::dial::turn_of(v.slots, v.header_req_seq)->0;
        lemma_alive(v.slots, p);
        assert(out.outbox.drop_last() =~= v.outbox);
        assert(asked_once(v.outbox, out.outbox, p));
    }
}

/// With nothing ordered and nothing requested, headers close once every alive peer, and at
/// least two replies, had nothing more.
pub proof fn law_idle_path_closes_headers(
    v: WorkView,
    hub: HubView,
    soft_cap: usize,
    out: WorkView,
)
    requires
        empty_taken(v, hub, soft_cap, out),
        v.empty_header_streak < u32::MAX,
        v.ordered.len() == 0,
        forall|h: BlockHash| !#[trigger] v.inflight.contains_key(h),
        v.slots.len() <= u32::MAX,
        v.empty_header_streak + 1 >= 2,
        v.empty_header_streak + 1 >= v.slots.len(),
    ensures
        out.headers_done,
        out.outbox == v.outbox,
{
    assert(v.inflight.dom() =~= Set::<BlockHash>::empty());
    lemma_live_len(v.slots);
}

proof fn lemma_live_len(slots: Seq<SlotView>)
    ensures
        live_ids(slots).len() <= slots.len(),
    decreases slots.len(),
{
    if slots.len() > 0 {
        lemma_live_len(slots.drop_last());
    }
}

/// Asking in turn goes round: over as many turns as peers are alive, each of them is asked.
pub proof fn law_turns_reach_every_peer(slots: Seq<SlotView>, seq_no: u32, p: usize) -> (k: u32)
    requires
        is_alive(slots, p),
        seq_no + live_ids(slots).len() <= u32::MAX,
    ensures
        k < live_ids(slots).len(),
        crate::dial::turn_of(slots, (seq_no + k) as u32) == Some(p),
{
    lemma_live_ids(slots);
    let ids = live_ids(slots);
    let n = ids.len() as int;
    let i = choose|i: int| 0 <= i < ids.len() && ids[i] == p;
    assert(ids.contains(p) && ids[i] == p);
    let r = seq_no as int % n;
    let k = if i >= r {
        i - r
    } else {
        i - r + n
    };
    vstd::arithmetic::div_mod::lemma_fundamental_div_mod(seq_no as int, n);
    let q = seq_no as int / n;
    assert(seq_no == n * q + r);
    assert(q * n == n * q) by (nonlinear_arith);
    if i >= r {
        assert(seq_no + k == q * n + i);
        vstd::arithmetic::div_mod::lemma_fundamental_div_mod_converse(seq_no + k, n, q, i);
    } else {
        assert((q + 1) * n == n * q + n) by (nonlinear_arith);
        assert(seq_no + k == (q + 1) * n + i);
        vstd::arithmetic::div_mod::lemma_fundamental_div_mod_converse(seq_no + k, n, q + 1, i);
    }
    k as u32
}

} // verus!

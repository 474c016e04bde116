//! Getdata assignment: what is requested, from whom, and what is left alone.
use rbitcoin_ibd::assign::{
    archive_pipeline_saturated, assign_work_ordered, densify_band, AssignDepth, BandAsk, LoopStats,
};
use rbitcoin_ibd::assign_plan::far_slots_per_peer;
use rbitcoin_ibd::chain::{ChainHub, ChainTip};
use rbitcoin_ibd::config::{IbdConfig, TIP_HOLE_MAX, TIP_HOLE_MAX_PEERS};
use rbitcoin_ibd::fetch::{contiguous_tip_holes, pop_need};
use rbitcoin_ibd::hash::BlockHash;
use rbitcoin_ibd::inflight::{
    clear_hash_inflight, drop_hash_owner, inflight_add_peer, issue_batch, issue_one, prune_off_path_inflight,
};
use rbitcoin_ibd::keyed::KeySet;
use rbitcoin_ibd::peers::{alive_ids, PeerAddr, PeerIp, PeerSlot};
use rbitcoin_ibd::race::{cover_tip_holes, rank_peers_by_speed, tip_hole_owner_to_drop};
use rbitcoin_ibd::rate::PeerRate;
use rbitcoin_ibd::reorg::ReorgState;
use rbitcoin_ibd::state::{IbdWorkState, InflightReq};
use std::collections::{HashSet, VecDeque};

const NOW: u64 = 1_000_000;

fn h(n: u32) -> BlockHash {
    let mut b = [0u8; 32];
    b[0..4].copy_from_slice(&n.to_le_bytes());
    BlockHash::from_byte_array(b)
}

fn dummy_slot(id: usize) -> PeerSlot {
    PeerSlot {
        id,
        addr: PeerAddr { ip: PeerIp::V4 { a: 127, b: 0, c: 0, d: 1 }, port: 18444 + id as u16 },
        in_flight: KeySet::new(),
        peer_height: 100,
        connected_ms: 1,
        first_data_ms: 0,
        bytes_rx: 0,
        bytes_rx_total: 0,
        rate: PeerRate::idle(),
        alive: true,
    }
}

fn genesis() -> BlockHash {
    BlockHash::from_byte_array([0x6f; 32])
}

fn genesis_hub() -> ChainHub {
    let mut hub = ChainHub::new();
    let g = genesis();
    hub.tip = Some(ChainTip { height: 0, hash: g });
    hub.blocks.insert(g);
    hub.heights.insert(g, 0);
    hub.locator = Ok(vec![g]);
    hub
}

fn config() -> IbdConfig {
    IbdConfig {
        window: 64,
        per_peer: 16,
        densify_ahead: 65_536,
        far_scan_budget: 65_536,
        pending_stale_ms: 60_000,
        max_ordered_headers: 100_000,
        ordered_soft_cap: 50_000,
        max_peer_pool: 32,
    }
}

/// Densify without a soft limit: as far ahead as the queue may reach.
const FULL_AHEAD: u32 = 65_536;

fn stats() -> LoopStats {
    LoopStats { assign_ns: 0, assign_issued: 0 }
}

fn plant_work_path(st: &mut IbdWorkState, lo: u32, hi: u32) {
    for ht in lo..=hi {
        let hash = h(ht);
        st.record_height(hash, ht);
        st.height_to_hash.insert(ht, hash);
        st.ordered_set.insert(hash);
        st.ordered.push_back(hash);
        st.max_ordered_height = ht;
        st.body.mark_missing(hash);
    }
}

fn seed_ewma(slot: &mut PeerSlot, bytes_per_sec: u64) {
    slot.rate.ewma_bps = Some(bytes_per_sec);
    slot.rate.active_ms = 5_000;
}

fn offer(hub: &mut ChainHub, ht: u32, hash: BlockHash, payload: &[u8]) {
    assert!(hub.queue.offer(ht, hash, ht as u64, payload.to_vec()));
}

fn mark_tip_batch_ready(st: &mut IbdWorkState, hub: &mut ChainHub, path_lo: u32) {
    for ht in path_lo..=32 {
        offer(hub, ht, h(ht), &[0u8; 80]);
        st.body.mark_pending(h(ht), NOW);
    }
}

fn work(n: usize, hub: &ChainHub) -> IbdWorkState {
    let mut slots = Vec::new();
    for id in 0..n {
        slots.push(dummy_slot(id));
    }
    IbdWorkState::new(slots, hub.tip_hash(), hub.tip_height())
}

fn peers_of(st: &IbdWorkState, hash: &BlockHash) -> Vec<usize> {
    match st.inflight.get(hash) {
        Some(r) => r.peers.clone(),
        None => Vec::new(),
    }
}

fn issued_heights(st: &IbdWorkState) -> Vec<u32> {
    let mut out = Vec::new();
    for k in st.inflight.keys() {
        if let Some(ht) = st.hash_height.get(&k) {
            out.push(*ht);
        }
    }
    out
}

fn assign(st: &mut IbdWorkState, hub: &mut ChainHub, cfg: &IbdConfig, depth: AssignDepth, band_hi: u32) {
    let mut s = stats();
    assign_work_ordered(st, hub, cfg, &mut s, None, depth, band_hi, NOW, 1);
}

#[test]
fn densify_skips_at_or_below_lookup_taken_hi() {
    assert!(!ChainHub::lookup_taken_covers(5, None));
    assert!(!ChainHub::lookup_taken_covers(0, None));
    assert!(ChainHub::lookup_taken_covers(5, Some(5)));
    assert!(ChainHub::lookup_taken_covers(4, Some(5)));
    assert!(!ChainHub::lookup_taken_covers(6, Some(5)));
    assert!(ChainHub::lookup_taken_covers(0, Some(0)));
}

#[test]
fn cover_tip_holes_skips_taken_prefix() {
    let mut hub = genesis_hub();
    let mut st = work(3, &hub);
    let ht = hub.tip_height().unwrap_or(0).saturating_add(1);
    let want = h(0x11);
    st.record_height(want, ht);
    st.height_to_hash.insert(ht, want);
    st.body.mark_missing(want);
    hub.taken_hi = Some(ht);
    let holes = contiguous_tip_holes(&st, &hub, 8);
    assert!(holes.is_empty(), "taken tip+1 is not a fetch hole: {holes:?}");
    let alive = alive_ids(&st.slots);
    let issued = cover_tip_holes(&mut st, &mut hub, &config(), &alive, &vec![want], NOW);
    assert_eq!(issued, 0, "must not race getdata for a taken height");
    assert!(st.inflight.is_empty());
}

#[test]
fn clear_inflight_add_peer_pop_need_and_tip_holes() {
    let mut hub = ChainHub::new();
    let mut st = IbdWorkState::new(vec![dummy_slot(0), dummy_slot(1)], None, Some(0));
    let hash = h(10);
    st.slots[0].in_flight.insert(hash);
    st.slots[1].in_flight.insert(hash);
    inflight_add_peer(&mut st.inflight, hash, 0, NOW);
    inflight_add_peer(&mut st.inflight, hash, 1, NOW);
    assert_eq!(st.inflight.get(&hash).unwrap().len(), 2);
    clear_hash_inflight(&mut st.slots, &mut st.inflight, hash);
    assert!(st.inflight.is_empty());
    assert!(st.slots[0].in_flight.is_empty());
    assert!(st.slots[1].in_flight.is_empty());

    let mut q = VecDeque::from([h(1), h(2)]);
    st.body.mark_pending(h(1), NOW);
    st.body.mark_missing(h(2));
    assert_eq!(pop_need(&mut q, &mut st, &hub), Some(h(2)));
    assert!(pop_need(&mut q, &mut st, &hub).is_none());

    st.height_to_hash.clear();
    let hole = h(21);
    let zombie = h(22);
    st.height_to_hash.insert(0, hole);
    st.height_to_hash.insert(1, zombie);
    st.body.mark_missing(hole);
    st.body.mark_pending(zombie, NOW);
    let holes = contiguous_tip_holes(&st, &hub, 8);
    assert_eq!(holes, vec![hole, zombie]);

    let mut room = 10usize;
    let mut issued = 0u64;
    assert!(!issue_one(&mut st, 99, h(30), &mut room, &mut issued, NOW));
    assert!(!issue_batch(&mut st, 0, vec![], &mut room, &mut issued, NOW));
    st.body.mark_missing(h(30));
    assert!(issue_one(&mut st, 0, h(30), &mut room, &mut issued, NOW));
    assert!(issued >= 1);
    assert_eq!(room, 9);
    assert!(st.inflight.contains_key(&h(30)));
    assert!(st.slots[0].in_flight.contains(&h(30)));

    for s in st.slots.iter_mut() {
        s.alive = false;
    }
    let before = st.inflight.len();
    assign(&mut st, &mut hub, &config(), AssignDepth::Full, FULL_AHEAD);
    assert_eq!(st.inflight.len(), before);
}

#[test]
fn issue_batch_does_not_count_as_rx() {
    let mut st = IbdWorkState::new(vec![dummy_slot(0)], None, Some(0));
    st.slots[0].rate.progress_ms = 42;
    st.slots[0].rate.work_started_ms = 7;
    let mut room = 10usize;
    let mut issued = 0u64;
    assert!(issue_one(&mut st, 0, h(30), &mut room, &mut issued, NOW));
    assert_eq!(st.slots[0].rate.progress_ms, 42);
    assert_eq!(st.slots[0].rate.work_started_ms, NOW);
}

#[test]
fn prune_off_path_inflight_drops_orphans_keeps_path_and_reorg() {
    let hub = genesis_hub();
    let mut st = work(1, &hub);
    assert!(st.ordered.is_empty());
    assert!(st.height_to_hash.is_empty() || st.height_to_hash.len() <= 1);
    for i in 0..7u32 {
        let hash = h(1000 + i);
        st.slots[0].in_flight.insert(hash);
        inflight_add_peer(&mut st.inflight, hash, 0, NOW);
    }
    let want = h(0x11);
    let ht = hub.tip_height().unwrap_or(0).saturating_add(1);
    st.record_height(want, ht);
    st.slots[0].in_flight.insert(want);
    inflight_add_peer(&mut st.inflight, want, 0, NOW);
    let explore_h = h(0x22);
    st.reorg.register_explore(&vec![explore_h], None);
    st.slots[0].in_flight.insert(explore_h);
    inflight_add_peer(&mut st.inflight, explore_h, 0, NOW);
    let await_h = h(0x33);
    st.reorg.set_awaiting(h(0x44), vec![await_h]);
    st.slots[0].in_flight.insert(await_h);
    inflight_add_peer(&mut st.inflight, await_h, 0, NOW);
    assert_eq!(st.inflight.len(), 10);

    prune_off_path_inflight(&mut st);

    assert!(st.inflight.contains_key(&want), "tip+1 occupant stays");
    assert!(st.inflight.contains_key(&await_h), "awaiting reorg need stays");
    assert!(
        !st.inflight.contains_key(&explore_h),
        "explore-need at empty remainder is leftover"
    );
    for i in 0..7u32 {
        let hash = h(1000 + i);
        assert!(!st.inflight.contains_key(&hash), "orphan {i} dropped");
        assert!(!st.slots[0].in_flight.contains(&hash));
    }
    assert_eq!(st.inflight.len(), 2, "orphans+explore dropped; path+awaiting kept");
}

#[test]
fn scale_and_saturated_helpers() {
    assert!(!archive_pipeline_saturated(0, 20, false));
    assert!(!archive_pipeline_saturated(96, 0, false));
    assert!(!archive_pipeline_saturated(0, 0, false));
    assert!(archive_pipeline_saturated(0, 0, true));
    assert!(archive_pipeline_saturated(200, 15, true));
    assert!(!archive_pipeline_saturated(0, 32, true));
}

#[test]
fn densify_yields_peer_slots_while_tip_hole_open() {
    assert_eq!(far_slots_per_peer(16, true), 2);
    assert!(far_slots_per_peer(16, true) < 16);
    assert_eq!(far_slots_per_peer(16, false), 8);
}

#[test]
fn tip_hole_owner_to_drop_too_early_dead_racer_and_solo() {
    let mut slots = vec![dummy_slot(0), dummy_slot(1)];
    assert_eq!(
        tip_hole_owner_to_drop(&[0, 1], &slots, NOW, NOW),
        None,
        "no rx yet is too early"
    );
    slots[1].rate.note_rx(NOW);
    assert_eq!(
        tip_hole_owner_to_drop(&[0, 1], &slots, NOW, NOW),
        Some(0),
        "silent owner drops when sibling has rx"
    );
    slots[0].rate.note_rx(NOW);
    assert_eq!(
        tip_hole_owner_to_drop(&[0], &slots, NOW - 7_000, NOW),
        None,
        "solo with live rx is kept"
    );
    assert_eq!(
        tip_hole_owner_to_drop(&[0], &slots, NOW - 31_000, NOW),
        None,
        "solo with live rx kept even if started_at is old"
    );
    slots[0].rate.progress_ms = 0;
    assert_eq!(
        tip_hole_owner_to_drop(&[0], &slots, NOW - 31_000, NOW),
        Some(0),
        "solo hung with no rx after 30s is replaced"
    );
    assert_eq!(tip_hole_owner_to_drop(&[], &slots, NOW, NOW), None);
}

#[test]
fn cover_tip_holes_drops_wrong_bq_hash_and_regets() {
    let mut hub = genesis_hub();
    let mut st = work(3, &hub);
    let want = h(0xabc);
    let wrong = h(0xdef);
    let ht = hub.tip_height().unwrap_or(0).saturating_add(1);
    st.record_height(want, ht);
    st.height_to_hash.insert(ht, want);
    offer(&mut hub, ht, wrong, b"wrong");
    assert!(hub.queue.has_height(ht));
    assert!(!hub.claim_ready(ht, &want), "wrong queued hash must not be claim-ready");
    let holes = contiguous_tip_holes(&st, &hub, 8);
    assert_eq!(holes, vec![want]);
    let alive = alive_ids(&st.slots);
    let issued = cover_tip_holes(&mut st, &mut hub, &config(), &alive, &holes, NOW);
    assert!(issued >= 1, "must re-get correct tip+1 hash; issued={issued}");
    assert!(!hub.queue.has_height(ht), "wrong queued body must be dequeued");
    assert!(st.inflight.contains_key(&want));
}

#[test]
fn cover_tip_holes_regets_class_a_without_body_queue() {
    let mut hub = genesis_hub();
    let mut st = work(3, &hub);
    let hole = h(1001);
    let ht = hub.tip_height().unwrap_or(0).saturating_add(1);
    st.height_to_hash.insert(ht, hole);
    st.record_height(hole, ht);
    st.body.mark_archived(hole);
    assert!(st.body.is_known_archived(&hole));
    assert!(!st.body.is_pending(&hole));
    assert!(!hub.queue.has_height(ht));
    assert!(!hub.claim_ready(ht, &hole), "archived alone must not be claim-ready");
    let holes = contiguous_tip_holes(&st, &hub, 8);
    assert_eq!(holes, vec![hole], "archived tip+1 without queued wire is a fetch hole");
    let alive = alive_ids(&st.slots);
    let issued = cover_tip_holes(&mut st, &mut hub, &config(), &alive, &holes, NOW);
    assert!(issued >= 1, "must re-getdata archived tip hole (got issued={issued})");
    assert!(st.inflight.contains_key(&hole), "tip hole must be inflight after cover");
}

#[test]
fn cover_tip_holes_regets_zombie_pending_without_body_queue() {
    let mut hub = genesis_hub();
    let mut st = work(3, &hub);
    let hole = h(0xaa);
    let ht = hub.tip_height().unwrap_or(0).saturating_add(1);
    st.height_to_hash.insert(ht, hole);
    st.record_height(hole, ht);
    st.body.mark_pending(hole, NOW);
    assert!(st.body.is_pending(&hole));
    assert!(!hub.queue.has_height(ht));
    assert!(!hub.claim_ready(ht, &hole), "zombie pending must not be claim-ready");
    let holes = contiguous_tip_holes(&st, &hub, 8);
    assert_eq!(holes, vec![hole], "zombie pending is a fetch hole");
    let alive = alive_ids(&st.slots);
    let issued = cover_tip_holes(&mut st, &mut hub, &config(), &alive, &holes, NOW);
    assert!(issued >= 1, "must re-getdata zombie pending tip hole (got issued={issued})");
    assert!(st.inflight.contains_key(&hole), "tip hole must be inflight after cover");
    assert!(!st.body.is_pending(&hole), "cover demotes zombie pending to missing");
}

#[test]
fn cover_tip_holes_does_not_clear_whole_set_on_started_at() {
    let mut hub = genesis_hub();
    let mut st = work(3, &hub);
    let hole = h(0x51);
    let ht = hub.tip_height().unwrap_or(0).saturating_add(1);
    st.record_height(hole, ht);
    st.height_to_hash.insert(ht, hole);
    st.body.mark_missing(hole);
    let mut frozen = InflightReq::new(0, NOW - 7_000);
    frozen.add_peer(1);
    st.inflight.insert(hole, frozen);
    st.slots[0].in_flight.insert(hole);
    st.slots[1].in_flight.insert(hole);
    st.slots[0].rate.note_rx(NOW);
    st.slots[1].rate.note_rx(NOW);
    seed_ewma(&mut st.slots[0], 1_000_000);
    seed_ewma(&mut st.slots[1], 1_100_000);
    seed_ewma(&mut st.slots[2], 1_050_000);
    let alive = alive_ids(&st.slots);
    let _ = cover_tip_holes(&mut st, &mut hub, &config(), &alive, &vec![hole], NOW);
    let peers = peers_of(&st, &hole);
    assert!(
        peers.contains(&0) && peers.contains(&1),
        "tight pack with live rx must keep owners; peers={peers:?}"
    );
}

#[test]
fn cover_tip_holes_drops_owner_with_no_rx_when_sibling_progresses() {
    let mut hub = genesis_hub();
    let mut st = work(3, &hub);
    let hole = h(0x52);
    let ht = hub.tip_height().unwrap_or(0).saturating_add(1);
    st.record_height(hole, ht);
    st.height_to_hash.insert(ht, hole);
    st.body.mark_missing(hole);
    let mut req = InflightReq::new(0, NOW);
    req.add_peer(1);
    st.inflight.insert(hole, req);
    st.slots[0].in_flight.insert(hole);
    st.slots[1].in_flight.insert(hole);
    st.slots[1].rate.note_rx(NOW);
    let alive = alive_ids(&st.slots);
    let _ = cover_tip_holes(&mut st, &mut hub, &config(), &alive, &vec![hole], NOW);
    let peers = peers_of(&st, &hole);
    assert!(!peers.contains(&0), "silent owner must leave this hash; peers={peers:?}");
}

#[test]
fn cover_tip_holes_drops_relative_slow_owner_among_progressing() {
    let mut hub = genesis_hub();
    let mut st = work(3, &hub);
    let hole = h(0x53);
    let ht = hub.tip_height().unwrap_or(0).saturating_add(1);
    st.record_height(hole, ht);
    st.height_to_hash.insert(ht, hole);
    st.body.mark_missing(hole);
    let mut req = InflightReq::new(0, NOW);
    req.add_peer(1);
    req.add_peer(2);
    st.inflight.insert(hole, req);
    for i in 0..3 {
        st.slots[i].in_flight.insert(hole);
        st.slots[i].rate.note_rx(NOW);
    }
    seed_ewma(&mut st.slots[0], 400_000);
    seed_ewma(&mut st.slots[1], 2_000_000);
    seed_ewma(&mut st.slots[2], 1_900_000);
    let alive = alive_ids(&st.slots);
    let _ = cover_tip_holes(&mut st, &mut hub, &config(), &alive, &vec![hole], NOW);
    let peers = peers_of(&st, &hole);
    assert!(
        !peers.contains(&0),
        "quarter-median owner among progressing racers drops; peers={peers:?}"
    );
}

#[test]
fn cover_tip_holes_solo_slow_but_rx_live_kept() {
    let mut hub = genesis_hub();
    let mut st = work(1, &hub);
    let hole = h(0x54);
    let ht = hub.tip_height().unwrap_or(0).saturating_add(1);
    st.record_height(hole, ht);
    st.height_to_hash.insert(ht, hole);
    st.body.mark_missing(hole);
    st.inflight.insert(hole, InflightReq::new(0, NOW - 31_000));
    st.slots[0].in_flight.insert(hole);
    st.slots[0].rate.note_rx(NOW);
    let _ = cover_tip_holes(&mut st, &mut hub, &config(), &vec![0], &vec![hole], NOW);
    assert!(
        st.inflight.get(&hole).unwrap().contains_peer(0),
        "solo slow-but-steady download stays"
    );
}

#[test]
fn cover_tip_holes_prefers_fast_peers() {
    let mut hub = genesis_hub();
    let mut st = work(3, &hub);
    let hole = h(0x61);
    let ht = hub.tip_height().unwrap_or(0).saturating_add(1);
    st.record_height(hole, ht);
    st.height_to_hash.insert(ht, hole);
    st.body.mark_missing(hole);
    seed_ewma(&mut st.slots[0], 100_000);
    seed_ewma(&mut st.slots[1], 10_000_000);
    seed_ewma(&mut st.slots[2], 1_000_000);
    let alive = alive_ids(&st.slots);
    let ranked = rank_peers_by_speed(&st.slots, &alive, &HashSet::new());
    assert_eq!(ranked[0], 1, "fastest peer first: ranked={ranked:?}");
    assert_eq!(ranked[1], 2, "medium second: ranked={ranked:?}");
    assert_eq!(ranked[2], 0, "slow last: ranked={ranked:?}");
    let holes = contiguous_tip_holes(&st, &hub, 8);
    let issued = cover_tip_holes(&mut st, &mut hub, &config(), &alive, &holes, NOW);
    assert!(issued >= 1, "issued={issued}");
    let peers = peers_of(&st, &hole);
    assert!(peers.contains(&1), "fast peer must be in tip-hole race; peers={peers:?}");
    assert_eq!(peers, vec![1, 2, 0]);
}

fn hung_setup(hub: &mut ChainHub, peers: usize, hi: u32) -> (IbdWorkState, IbdConfig, BlockHash) {
    let mut st = work(peers, hub);
    let cfg = config();
    let path_lo = hub.path_lo();
    plant_work_path(&mut st, path_lo, hi);
    offer(hub, path_lo, h(path_lo), &[0u8; 80]);
    st.body.mark_pending(h(path_lo), NOW);
    let hung = h(40);
    st.inflight.insert(hung, InflightReq::new(0, NOW - 31_000));
    st.slots[0].in_flight.insert(hung);
    (st, cfg, hung)
}

#[test]
fn densify_hung_owner_stolen_to_faster_peer() {
    let mut hub = genesis_hub();
    let (mut st, cfg, hung) = hung_setup(&mut hub, 2, 40);
    seed_ewma(&mut st.slots[1], 1_000_000);
    assign(&mut st, &mut hub, &cfg, AssignDepth::Full, FULL_AHEAD);
    let peers = peers_of(&st, &hung);
    assert!(
        peers.contains(&1) && !peers.contains(&0),
        "hung densify must move to faster peer; peers={peers:?}"
    );
}

#[test]
fn densify_slow_but_rx_live_not_stolen() {
    let mut hub = genesis_hub();
    let (mut st, cfg, hung) = hung_setup(&mut hub, 2, 40);
    st.slots[0].rate.note_rx(NOW);
    seed_ewma(&mut st.slots[1], 1_000_000);
    assign(&mut st, &mut hub, &cfg, AssignDepth::Full, FULL_AHEAD);
    assert!(
        st.inflight.get(&hung).unwrap().contains_peer(0),
        "live rx must not be stolen; peers={:?}",
        peers_of(&st, &hung)
    );
}

#[test]
fn densify_hung_no_faster_peer_does_not_steal() {
    let mut hub = genesis_hub();
    let (mut st, cfg, hung) = hung_setup(&mut hub, 1, 40);
    assign(&mut st, &mut hub, &cfg, AssignDepth::Full, FULL_AHEAD);
    assert!(
        st.inflight.get(&hung).unwrap().contains_peer(0),
        "solo hung densify has no faster peer to steal to"
    );
}

#[test]
fn densify_hung_no_slot_rewinds_scan_lo() {
    let mut hub = genesis_hub();
    let (mut st, mut cfg, hung) = hung_setup(&mut hub, 2, 41);
    cfg.window = 1;
    cfg.per_peer = 2;
    let other = h(41);
    st.inflight.insert(other, InflightReq::new(1, NOW));
    st.slots[1].in_flight.insert(other);
    st.slots[1].rate.note_rx(NOW);
    seed_ewma(&mut st.slots[1], 1_000_000);
    st.densify_scan_lo = 90;
    assign(&mut st, &mut hub, &cfg, AssignDepth::Full, FULL_AHEAD);
    assert!(
        !st.inflight.contains_key(&hung),
        "hung hash cleared when faster peer has no slot"
    );
    assert!(
        st.densify_scan_lo <= 40,
        "scan_lo must rewind to hung height; scan_lo={}",
        st.densify_scan_lo
    );
}

#[test]
fn densify_issues_to_fastest_peer_first() {
    let mut hub = genesis_hub();
    let mut st = work(3, &hub);
    let mut cfg = config();
    cfg.window = 128;
    let path_lo = hub.path_lo();
    plant_work_path(&mut st, path_lo, 40);
    mark_tip_batch_ready(&mut st, &mut hub, path_lo);
    seed_ewma(&mut st.slots[0], 100_000);
    seed_ewma(&mut st.slots[1], 10_000_000);
    seed_ewma(&mut st.slots[2], 1_000_000);
    st.densify_scan_lo = 40;
    assign(&mut st, &mut hub, &cfg, AssignDepth::Full, FULL_AHEAD);
    let want = h(40);
    assert!(
        peers_of(&st, &want).contains(&1),
        "first densify hash must go to fastest peer; inflight={:?}",
        peers_of(&st, &want)
    );
}

#[test]
fn densify_skips_band_walk_when_peers_at_cap() {
    let mut hub = genesis_hub();
    let mut st = work(2, &hub);
    let mut cfg = config();
    cfg.window = 128;
    let path_lo = hub.path_lo();
    plant_work_path(&mut st, path_lo, 70);
    mark_tip_batch_ready(&mut st, &mut hub, path_lo);
    for i in 0..16u32 {
        let hash = h(40 + i);
        let pid = (i % 2) as usize;
        st.inflight.insert(hash, InflightReq::new(pid, NOW));
        st.slots[pid].in_flight.insert(hash);
    }
    st.densify_scan_lo = 40;
    let mut before = issued_heights(&st);
    assign(&mut st, &mut hub, &cfg, AssignDepth::Full, FULL_AHEAD);
    let mut after = issued_heights(&st);
    before.sort();
    after.sort();
    assert_eq!(after, before, "no new densify when peers at cap");
    assert_eq!(st.densify_scan_lo, 40, "band walk must not advance scan_lo");
}

#[test]
fn densify_fast_peer_receives_more_than_eight() {
    let mut hub = genesis_hub();
    let mut st = work(3, &hub);
    let mut cfg = config();
    cfg.window = 128;
    let path_lo = hub.path_lo();
    plant_work_path(&mut st, path_lo, 52);
    mark_tip_batch_ready(&mut st, &mut hub, path_lo);
    seed_ewma(&mut st.slots[0], 5_000_000);
    seed_ewma(&mut st.slots[1], 15_000_000);
    seed_ewma(&mut st.slots[2], 5_000_000);
    st.densify_scan_lo = 33;
    assign(&mut st, &mut hub, &cfg, AssignDepth::Full, FULL_AHEAD);
    assert_eq!(
        st.slots[1].in_flight.len(),
        16,
        "an outlier at twice the median must get full densify cap"
    );
    assert!(st.slots[0].in_flight.len() <= 8, "non-outlier stays at half cap");
    assert!(st.slots[2].in_flight.len() <= 8, "non-outlier stays at half cap");
}

#[test]
fn contiguous_and_cover_skip_awaiting_held_tip() {
    let mut hub = genesis_hub();
    let mut st = work(2, &hub);
    let ht = hub.path_lo();
    let held = h(0xbb);
    st.record_height(held, ht);
    st.height_to_hash.insert(ht, held);
    st.body.mark_pending(held, NOW);
    st.reorg.set_awaiting(held, vec![h(0xcc)]);
    assert!(st.reorg.is_awaiting_held_tip(&held));
    let holes = contiguous_tip_holes(&st, &hub, 8);
    assert!(
        holes.is_empty(),
        "awaiting held tip+1 must not appear as tip hole; holes={holes:?}"
    );
    let alive = alive_ids(&st.slots);
    let issued = cover_tip_holes(&mut st, &mut hub, &config(), &alive, &vec![held], NOW);
    assert_eq!(issued, 0, "cover must skip awaiting held tip+1 (mid densify only)");
    assert!(!st.inflight.contains_key(&held), "must not race getdata for held tip+1");
}

fn two_heights(want1: BlockHash, want2: BlockHash) -> IbdWorkState {
    let mut st = IbdWorkState::new(vec![dummy_slot(0), dummy_slot(1)], None, Some(0));
    st.record_height(want1, 1);
    st.record_height(want2, 2);
    st.height_to_hash.insert(1, want1);
    st.height_to_hash.insert(2, want2);
    st.ordered_set.insert(want1);
    st.ordered_set.insert(want2);
    st.ordered.push_back(want1);
    st.ordered.push_back(want2);
    st.max_ordered_height = 2;
    st
}

#[test]
fn densify_zombie_pending_regets_work_path() {
    let mut hub = genesis_hub();
    let mut cfg = config();
    cfg.window = 32;
    cfg.per_peer = 8;
    let want1 = h(0x31);
    let want2 = h(0x32);
    let mut st = two_heights(want1, want2);
    offer(&mut hub, 1, want1, b"ok1");
    st.body.mark_pending(want1, NOW);
    st.body.mark_pending(want2, NOW);
    assert!(!hub.queue.has_height(2));
    assert!(!hub.claim_ready(2, &want2), "zombie pending must not be claim-ready");
    assign(&mut st, &mut hub, &cfg, AssignDepth::Full, FULL_AHEAD);
    assert!(
        st.inflight.contains_key(&want2),
        "densify must re-get zombie pending at ht=2; inflight={:?}",
        st.inflight.keys()
    );
    assert!(!st.body.is_pending(&want2), "zombie pending is demoted before issue");
}

#[test]
fn densify_drops_wrong_bq_hash_and_regets_work_path() {
    let mut hub = genesis_hub();
    let mut cfg = config();
    cfg.window = 32;
    cfg.per_peer = 8;
    let want1 = h(0x11);
    let want2 = h(0x22);
    let wrong2 = h(0x99);
    let mut st = two_heights(want1, want2);
    offer(&mut hub, 1, want1, b"ok1");
    st.body.mark_pending(want1, NOW);
    offer(&mut hub, 2, wrong2, b"wrong2");
    assert!(
        !hub.claim_ready(2, &want2),
        "wrong queued body at ht=2 must not be claim-ready for want2"
    );
    assign(&mut st, &mut hub, &cfg, AssignDepth::Full, FULL_AHEAD);
    assert!(
        st.inflight.contains_key(&want2),
        "densify must re-get correct work-path hash at ht=2; inflight={:?}",
        st.inflight.keys()
    );
    assert!(!hub.queue.has_height(2), "wrong queued body at densify height must be dequeued");
}

#[test]
fn assign_reorg_need_despite_wrong_height_bq_occupant() {
    let mut hub = genesis_hub();
    let mut st = IbdWorkState::new(vec![dummy_slot(0)], None, Some(0));
    let mut cfg = config();
    cfg.window = 16;
    cfg.per_peer = 4;
    let need = h(0xab);
    let wrong_occupant = h(0xde);
    st.record_height(need, 1);
    offer(&mut hub, 1, wrong_occupant, b"loser");
    assert!(hub.queue.has_height(1));
    assert!(!hub.queue.has_hash(&need));
    st.reorg.set_awaiting(h(0xee), vec![need]);
    st.body.mark_missing(need);
    assign(&mut st, &mut hub, &cfg, AssignDepth::Full, FULL_AHEAD);
    assert!(
        st.inflight.contains_key(&need),
        "reorg need must getdata by hash despite wrong height occupant; inflight={:?}",
        st.inflight.keys()
    );
}

#[test]
fn densify_requests_beyond_legacy_2k_when_soft_allows() {
    let mut hub = genesis_hub();
    let mut st = IbdWorkState::new(vec![dummy_slot(0), dummy_slot(1)], None, Some(0));
    let mut cfg = config();
    cfg.window = 128;
    const HI: u32 = 2200;
    const FILL: u32 = 2040;
    for ht in 1u32..=HI {
        let hash = h(ht);
        st.record_height(hash, ht);
        st.height_to_hash.insert(ht, hash);
        st.ordered_set.insert(hash);
        st.ordered.push_back(hash);
        st.max_ordered_height = ht;
        if ht <= FILL {
            offer(&mut hub, ht, hash, &[0u8; 8]);
            st.body.mark_pending(hash, NOW);
        } else {
            st.body.mark_missing(hash);
        }
    }
    assign(&mut st, &mut hub, &cfg, AssignDepth::Full, FULL_AHEAD);
    let far: Vec<u32> = issued_heights(&st).into_iter().filter(|&ht| ht > FILL).collect();
    assert!(!far.is_empty(), "expected densify past claim-ready prefix");
    assert!(far.iter().any(|&ht| ht > 2048), "2048 must not be the ceiling; far={far:?}");
}

#[test]
fn densify_over_free_bytes_limited_to_confirm_window() {
    let mut hub = genesis_hub();
    let mut st = IbdWorkState::new(vec![dummy_slot(0), dummy_slot(1)], None, Some(0));
    let cfg = config();
    plant_work_path(&mut st, 1, 200);
    offer(&mut hub, 1, h(1), &[0u8; 64]);
    offer(&mut hub, 2, h(2), &[0u8; 64]);
    st.body.mark_pending(h(1), NOW);
    st.body.mark_pending(h(2), NOW);
    let band_hi = 6u32;
    assign(&mut st, &mut hub, &cfg, AssignDepth::Full, band_hi);
    let issued = issued_heights(&st);
    assert!(!issued.is_empty(), "expected densify inside confirm window; issued={issued:?}");
    assert!(
        issued.iter().all(|&ht| ht <= band_hi),
        "no densify past confirm window {band_hi}; issued={issued:?}"
    );
}

#[test]
fn densify_under_free_bytes_uses_full_ahead() {
    let mut hub = genesis_hub();
    let mut st = IbdWorkState::new(vec![dummy_slot(0), dummy_slot(1)], None, Some(0));
    let cfg = config();
    plant_work_path(&mut st, 1, 100);
    for ht in 1u32..=10 {
        offer(&mut hub, ht, h(ht), b"x");
        st.body.mark_pending(h(ht), NOW);
    }
    assign(&mut st, &mut hub, &cfg, AssignDepth::Full, FULL_AHEAD);
    let issued = issued_heights(&st);
    assert!(
        issued.iter().any(|&ht| ht > 16),
        "under free bytes: densify past 1-min window; issued={issued:?}"
    );
}

#[test]
fn densify_watermark_skips_bq_ready_prefix() {
    let mut hub = genesis_hub();
    let mut st = IbdWorkState::new(vec![dummy_slot(0), dummy_slot(1)], None, Some(0));
    let mut cfg = config();
    cfg.window = 128;
    cfg.per_peer = 64;
    plant_work_path(&mut st, 1, 80);
    for ht in 1u32..=40 {
        offer(&mut hub, ht, h(ht), b"x");
        st.body.mark_pending(h(ht), NOW);
    }
    assign(&mut st, &mut hub, &cfg, AssignDepth::Full, FULL_AHEAD);
    assert!(
        st.densify_scan_lo >= 41,
        "queued 1..=40 must bump scan_lo; scan_lo={}",
        st.densify_scan_lo
    );
    let issued_low = issued_heights(&st).into_iter().filter(|&ht| ht <= 40).count();
    assert_eq!(issued_low, 0, "must not getdata heights already queued");
}

#[test]
fn densify_over_assign_stop_clamps_window_and_fetched() {
    let mut hub = genesis_hub();
    let mut st = IbdWorkState::new(vec![dummy_slot(0), dummy_slot(1)], None, Some(0));
    let mut cfg = config();
    cfg.window = 128;
    cfg.per_peer = 64;
    plant_work_path(&mut st, 1, 500);
    for ht in 1u32..=TIP_HOLE_MAX as u32 {
        offer(&mut hub, ht, h(ht), b"x");
        st.body.mark_pending(h(ht), NOW);
    }
    offer(&mut hub, 500, h(500), &vec![0u8; 4096]);
    st.body.mark_pending(h(500), NOW);
    assert_eq!(hub.queue.max_height(), Some(500));
    assign(&mut st, &mut hub, &cfg, AssignDepth::Full, 300);
    let issued = issued_heights(&st);
    assert!(
        issued.iter().any(|&ht| ht > TIP_HOLE_MAX as u32 && ht <= 300),
        "must densify holes inside confirm window; issued={issued:?}"
    );
    assert!(
        issued.iter().all(|&ht| ht <= 300),
        "must not issue past window 300 (fetched_hi=500); issued={issued:?}"
    );
}

#[test]
fn assign_issues_reorg_need_getdata() {
    let mut hub = genesis_hub();
    let mut st = IbdWorkState::new(vec![dummy_slot(0)], None, Some(0));
    let mut cfg = config();
    cfg.window = 16;
    cfg.per_peer = 4;
    let need = h(0xab);
    st.reorg.set_awaiting(h(0xee), vec![need]);
    st.body.mark_missing(need);
    assert_eq!(st.reorg.need_getdata(), vec![need]);
    assign(&mut st, &mut hub, &cfg, AssignDepth::Full, FULL_AHEAD);
    assert!(
        st.inflight.contains_key(&need),
        "reorg need_getdata must be issued as getdata"
    );
}

#[test]
fn assign_depth_densify_cache_and_early_exits() {
    let mut hub = genesis_hub();
    let mut st = IbdWorkState::new(vec![dummy_slot(0), dummy_slot(1)], None, Some(0));
    let mut s = stats();
    let mut cfg = config();
    cfg.per_peer = 8;
    plant_work_path(&mut st, 1, 12);

    assign_work_ordered(&mut st, &mut hub, &cfg, &mut s, None, AssignDepth::Critical, FULL_AHEAD, NOW, 1);
    assert!(st.inflight.len() > 0, "critical should still issue tip/race");

    let n_before = st.inflight.len();
    assign_work_ordered(&mut st, &mut hub, &cfg, &mut s, None, AssignDepth::Full, FULL_AHEAD, NOW, 1);
    assert!(st.inflight.len() <= n_before + 8);

    for hash in st.inflight.keys() {
        clear_hash_inflight(&mut st.slots, &mut st.inflight, hash);
        st.body.mark_missing(hash);
    }
    st.body.mark_pending(h(5), NOW);
    let _ = st.body.expire_stale_pending_if(NOW, 0, |_: &BlockHash| true);
    st.body.mark_pending(h(5), NOW);
    st.body.mark_pending(h(1), NOW);
    let expired = st.body.expire_stale_pending_if(NOW, 0, |_: &BlockHash| true);
    for hash in expired {
        clear_hash_inflight(&mut st.slots, &mut st.inflight, hash);
        st.body.mark_missing(hash);
    }

    assign_work_ordered(&mut st, &mut hub, &cfg, &mut s, None, AssignDepth::Full, FULL_AHEAD, NOW, 1);
    assert!(st.inflight.len() > 0);
    assert!(s.assign_issued > 0);
    assert_eq!(s.assign_ns, 3);

    for ht in 20u32..20 + cfg.window as u32 {
        let hash = h(ht + 100);
        inflight_add_peer(&mut st.inflight, hash, 0, NOW);
        st.slots[0].in_flight.insert(hash);
    }
    let n_full = st.inflight.len();
    assign_work_ordered(&mut st, &mut hub, &cfg, &mut s, None, AssignDepth::Full, FULL_AHEAD, NOW, 1);
    assert!(st.inflight.len() <= n_full + 2);

    st.inflight.clear();
    st.slots[0].in_flight.clear();
    st.slots[1].in_flight.clear();
    for ht in 1u32..=4 {
        st.body.mark_missing(h(ht));
    }
    for i in 0..cfg.per_peer {
        let hash = h(200 + i as u32);
        st.slots[0].in_flight.insert(hash);
        inflight_add_peer(&mut st.inflight, hash, 0, NOW);
    }
    assign_work_ordered(&mut st, &mut hub, &cfg, &mut s, None, AssignDepth::Full, FULL_AHEAD, NOW, 1);
    assert!(st.slots[1].in_flight.len() > 0 || st.inflight.len() > cfg.per_peer);

    for ht in 1u32..=12 {
        let hash = h(ht);
        offer(&mut hub, ht, hash, &[0u8; 8]);
        st.body.mark_pending(hash, NOW);
    }
    st.inflight.clear();
    for slot in st.slots.iter_mut() {
        slot.in_flight.clear();
    }
    st.max_ready_height = 12;
    st.max_ordered_height = 12;
    assign_work_ordered(&mut st, &mut hub, &cfg, &mut s, None, AssignDepth::Full, FULL_AHEAD, NOW, 1);
    assert!(
        st.inflight.is_empty(),
        "claim-ready tip band must not re-get; inflight={:?}",
        st.inflight.keys()
    );
}

fn books_agree(st: &IbdWorkState) {
    for s in &st.slots {
        for hash in s.in_flight.members() {
            assert!(st.inflight.get(&hash).unwrap().contains_peer(s.id));
        }
    }
    for hash in st.inflight.keys() {
        let peers = peers_of(st, &hash);
        assert!(!peers.is_empty() && peers.len() <= TIP_HOLE_MAX_PEERS);
        assert!(!st.body.is_rejected(&hash));
        for p in peers {
            assert!(st.slots.iter().any(|s| s.id == p && s.in_flight.contains(&hash)));
        }
    }
}

#[test]
fn heavier_branch_seen_in_a_turn_is_pulled_in_it() {
    let mut hub = genesis_hub();
    let mut st = work(2, &hub);
    let cfg = config();
    let mut s = stats();
    let (held, need, old) = (h(0xee), h(0xaa), h(0xbb));
    st.reorg.set_awaiting(h(0xef), vec![old]);
    inflight_add_peer(&mut st.inflight, old, st.slots[0].id, NOW);
    st.slots[0].in_flight.insert(old);
    let mut reorg = ReorgState::new();
    reorg.set_awaiting(held, vec![need]);
    assign_work_ordered(&mut st, &mut hub, &cfg, &mut s, Some(reorg), AssignDepth::Critical, 0, NOW, 1);
    assert!(st.reorg.is_awaiting_held_tip(&held));
    assert!(st.inflight.contains_key(&need), "the branch is gathered in the same turn");
    assert!(st.inflight.contains_key(&old), "pruning went by what was awaited before");
    assert_eq!(s.assign_issued, 1);

    let mut alone = IbdWorkState::new(Vec::new(), None, Some(0));
    let mut reorg = ReorgState::new();
    reorg.set_awaiting(held, vec![need]);
    assign_work_ordered(&mut alone, &mut hub, &cfg, &mut s, Some(reorg), AssignDepth::Full, 9, NOW, 1);
    assert!(!alone.reorg.is_awaiting_held_tip(&held), "no turn without an alive peer");
}

#[test]
fn assign_turns_keep_both_sides_of_the_books() {
    let mut hub = genesis_hub();
    let mut st = work(6, &hub);
    let cfg = config();
    plant_work_path(&mut st, 1, 120);
    st.body.mark_rejected(h(7));
    for ht in 10u32..=20 {
        offer(&mut hub, ht, h(ht), b"x");
    }
    for round in 0..3u64 {
        let mut s = stats();
        let now = NOW + round * 40_000;
        assign_work_ordered(&mut st, &mut hub, &cfg, &mut s, None, AssignDepth::Full, 100, now, 1);
        books_agree(&st);
        assert!(!st.inflight.contains_key(&h(7)));
        for slot in &st.slots {
            assert!(slot.in_flight.len() <= cfg.per_peer);
        }
        st.slots[1].rate.note_rx(now);
        seed_ewma(&mut st.slots[1], 2_000_000);
    }
}

#[test]
fn densify_stops_at_the_window() {
    let mut hub = genesis_hub();
    let mut st = work(4, &hub);
    let mut cfg = config();
    cfg.window = 10;
    cfg.per_peer = 64;
    plant_work_path(&mut st, 1, 120);
    for ht in 1u32..=32 {
        offer(&mut hub, ht, h(ht), b"x");
    }
    assign(&mut st, &mut hub, &cfg, AssignDepth::Full, FULL_AHEAD);
    assert_eq!(st.inflight.len(), 10);
    assign(&mut st, &mut hub, &cfg, AssignDepth::Full, FULL_AHEAD);
    assert_eq!(st.inflight.len(), 10);
}

#[test]
fn race_is_never_larger_than_its_cap() {
    let mut hub = genesis_hub();
    let mut st = work(9, &hub);
    plant_work_path(&mut st, 1, 3);
    let alive = alive_ids(&st.slots);
    let holes = contiguous_tip_holes(&st, &hub, TIP_HOLE_MAX);
    assert_eq!(holes.len(), 3);
    let issued = cover_tip_holes(&mut st, &mut hub, &config(), &alive, &holes, NOW);
    assert_eq!(issued, 3 * TIP_HOLE_MAX_PEERS as u64);
    for hash in &holes {
        assert_eq!(peers_of(&st, hash).len(), TIP_HOLE_MAX_PEERS);
    }
}

#[test]
fn densify_band_is_asked_with_what_has_come() {
    let mut hub = genesis_hub();
    let mut cfg = config();
    cfg.densify_ahead = 100;
    let ask = densify_band(&hub, &cfg);
    assert_eq!(ask, BandAsk { path_lo: 1, densify_hi: 101, fetched_hi: None });
    hub.taken_hi = Some(9);
    assert_eq!(densify_band(&hub, &cfg).fetched_hi, Some(9));
    offer(&mut hub, 7, h(7), b"x");
    assert_eq!(densify_band(&hub, &cfg).fetched_hi, Some(9));
    offer(&mut hub, 12, h(12), b"x");
    assert_eq!(densify_band(&hub, &cfg).fetched_hi, Some(12));
}

#[test]
fn offered_body_is_claim_ready() {
    let mut hub = genesis_hub();
    assert!(!hub.claim_ready(5, &h(5)));
    offer(&mut hub, 5, h(5), b"x");
    assert!(hub.claim_ready(5, &h(5)));
    assert!(!hub.claim_ready(5, &h(6)));
    assert!(!hub.claim_ready(6, &h(5)));
}

#[test]
fn race_outlives_an_eviction() {
    let mut st = IbdWorkState::new(vec![dummy_slot(0), dummy_slot(1)], None, Some(0));
    let (mut room, mut issued) = (8usize, 0u64);
    assert!(issue_one(&mut st, 0, h(1), &mut room, &mut issued, NOW));
    assert!(issue_one(&mut st, 1, h(1), &mut room, &mut issued, NOW));
    drop_hash_owner(&mut st, h(1), 0);
    assert_eq!(st.inflight.get(&h(1)).unwrap().peers, vec![1]);
    assert!(!st.slots[0].in_flight.contains(&h(1)));
    drop_hash_owner(&mut st, h(1), 1);
    assert!(!st.inflight.contains_key(&h(1)));
}

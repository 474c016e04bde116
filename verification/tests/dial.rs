//! Dialing, header requests, stalled and slow peers.
use rbitcoin_ibd::chain::{ChainHub, ChainTip};
use rbitcoin_ibd::dial::{
    apply_dial_result, classify_dial_err, dial_blocked_addrs,
    disconnect_relative_slow_block_peers, disconnect_stalled_block_peers_at,
    expire_addr_cooldown, global_first_block_ms, ibd_header_locator,
    mature_relative_slow_samples, pick_dial_targets, relative_slow_global_warmup_ok,
    release_peer_block_work, request_headers, request_headers_from, settle_dials, BookNote,
    DialBatchResult, DialFailKind, DialOutcome, STALL_ADDR_COOLDOWN_MS,
};
use rbitcoin_ibd::error::NetError;
use rbitcoin_ibd::hash::BlockHash;
use rbitcoin_ibd::keyed::{KeyMap, KeySet};
use rbitcoin_ibd::order::sorted;
use rbitcoin_ibd::peer_io::MAX_LOCATOR_SZ;
use rbitcoin_ibd::peers::{PeerAddr, PeerCmd, PeerIp, PeerSlot};
use rbitcoin_ibd::rate::PeerRate;
use rbitcoin_ibd::relslow::{
    median_u64, relative_slow_min_samples, relative_slow_pick, relative_slow_with_hysteresis,
    RelativeSlowSample, RELATIVE_SLOW_GLOBAL_WARMUP_MS, RELATIVE_SLOW_MIN_SAMPLES,
};
use rbitcoin_ibd::state::InflightReq;
use std::collections::VecDeque;

/// How long a peer has to be active before its rate counts, in milliseconds.
const RELSLOW_ACTIVE_MS: u64 = 30_000;

fn addr(o: u8) -> PeerAddr {
    PeerAddr { ip: PeerIp::V4 { a: 10, b: 0, c: 0, d: o }, port: 8333 }
}

fn dummy_slot(id: usize, a: PeerAddr, alive: bool) -> PeerSlot {
    PeerSlot {
        id,
        addr: a,
        in_flight: KeySet::new(),
        peer_height: 0,
        connected_ms: 0,
        first_data_ms: 0,
        bytes_rx: 0,
        bytes_rx_total: 0,
        rate: PeerRate::idle(),
        alive,
    }
}

#[test]
fn classify_dial_err_network_vs_incompatible() {
    assert_eq!(
        classify_dial_err(&NetError::V1Peer),
        DialFailKind::Incompatible
    );
    assert_eq!(
        classify_dial_err(&NetError::Bip324("x".into())),
        DialFailKind::Incompatible
    );
    assert_eq!(
        classify_dial_err(&NetError::Protocol("no v2 support".to_string())),
        DialFailKind::Incompatible
    );
    assert_eq!(
        classify_dial_err(&NetError::Protocol("missing verack".to_string())),
        DialFailKind::Incompatible
    );
    assert_eq!(
        classify_dial_err(&NetError::Protocol("version too old".to_string())),
        DialFailKind::Incompatible
    );
    assert_eq!(classify_dial_err(&NetError::Timeout), DialFailKind::Network);
    assert_eq!(
        classify_dial_err(&NetError::Disconnected),
        DialFailKind::Network
    );
    assert_eq!(
        classify_dial_err(&NetError::Protocol("ban score".to_string())),
        DialFailKind::Network
    );
}


fn samp(id: usize, bps: u64, inflight: bool) -> RelativeSlowSample {
    RelativeSlowSample {
        peer_id: id,
        bps,
        has_inflight: inflight,
    }
}

#[test]
fn relative_slow_pick_respects_cluster_and_outlier() {
    // Thin samples
    assert_eq!(relative_slow_pick(&[samp(0, 1_000_000, true)], 8), None);
    // Tight pack — slowest is still in-cluster
    let tight = [
        samp(0, 1_000_000, true),
        samp(1, 1_100_000, true),
        samp(2, 1_200_000, true),
        samp(3, 900_000, true),
        samp(4, 1_050_000, true),
        samp(5, 1_000_000, true),
        samp(6, 1_080_000, true),
        samp(7, 950_000, true),
    ];
    assert_eq!(relative_slow_pick(&tight, 8), None);

    // Mild spread, slowest > median/2
    let mild = [
        samp(0, 2_000_000, true),
        samp(1, 1_500_000, true),
        samp(2, 1_400_000, true),
        samp(3, 1_100_000, true),
        samp(4, 1_600_000, true),
        samp(5, 1_550_000, true),
        samp(6, 1_450_000, true),
        samp(7, 1_300_000, true),
    ];
    assert_eq!(relative_slow_pick(&mild, 8), None);

    // Clear half-median outlier
    let outlier = [
        samp(0, 2_000_000, true),
        samp(1, 1_900_000, true),
        samp(2, 1_800_000, true),
        samp(3, 800_000, true), // ≤ med/2
        samp(4, 1_850_000, true),
        samp(5, 1_950_000, true),
        samp(6, 1_880_000, true),
        samp(7, 1_920_000, true),
    ];
    assert_eq!(relative_slow_pick(&outlier, 8), Some(3));

    // Outlier without inflight is not kicked
    let no_work = [
        samp(0, 2_000_000, true),
        samp(1, 1_900_000, true),
        samp(2, 1_800_000, true),
        samp(3, 800_000, false),
        samp(4, 1_850_000, true),
        samp(5, 1_950_000, true),
        samp(6, 1_880_000, true),
        samp(7, 1_920_000, true),
    ];
    assert_eq!(relative_slow_pick(&no_work, 8), None);

    // Two outliers → worst (lowest bps)
    let two = [
        samp(0, 2_000_000, true),
        samp(1, 1_900_000, true),
        samp(2, 1_800_000, true),
        samp(3, 800_000, true),
        samp(4, 400_000, true),
        samp(5, 1_950_000, true),
        samp(6, 1_880_000, true),
        samp(7, 1_920_000, true),
    ];
    assert_eq!(relative_slow_pick(&two, 8), Some(4));
}

#[test]
fn relative_slow_hysteresis_two_ticks() {
    let outlier = [
        samp(0, 2_000_000, true),
        samp(1, 1_900_000, true),
        samp(2, 1_800_000, true),
        samp(3, 800_000, true),
        samp(4, 1_850_000, true),
        samp(5, 1_950_000, true),
        samp(6, 1_880_000, true),
        samp(7, 1_920_000, true),
    ];
    let (kick0, sus0) = relative_slow_with_hysteresis(&outlier, 8, None);
    assert_eq!(kick0, None);
    assert_eq!(sus0, Some(3));
    let (kick1, sus1) = relative_slow_with_hysteresis(&outlier, 8, sus0);
    assert_eq!(kick1, Some(3));
    assert_eq!(sus1, None);
    // Clear when pack tightens
    let tight = [
        samp(0, 1_000_000, true),
        samp(1, 1_100_000, true),
        samp(2, 1_200_000, true),
        samp(3, 900_000, true),
        samp(4, 1_050_000, true),
        samp(5, 1_000_000, true),
        samp(6, 1_080_000, true),
        samp(7, 950_000, true),
    ];
    let (kick2, sus2) = relative_slow_with_hysteresis(&tight, 8, Some(3));
    assert_eq!(kick2, None);
    assert_eq!(sus2, None);
}

#[test]
fn relative_slow_min_samples_scales() {
    assert_eq!(relative_slow_min_samples(16), 8);
    assert_eq!(relative_slow_min_samples(10), 6); // max(6, 5)=6
    assert_eq!(relative_slow_min_samples(4), 4); // min(alive)
    assert_eq!(relative_slow_min_samples(8), 6);
}

#[test]
fn dial_blocked_and_cooldown_expiry() {
    let now = 100_000u64;
    let slots = vec![dummy_slot(1, addr(1), true)];
    let mut cooldown = KeyMap::new();
    cooldown.insert(addr(2), now + 60_000);
    cooldown.insert(addr(3), now - 1_000);
    let blocked = dial_blocked_addrs(&slots, &cooldown, now);
    assert!(blocked.contains(&addr(1)));
    assert!(blocked.contains(&addr(2)));
    assert!(!blocked.contains(&addr(3)));

    expire_addr_cooldown(&mut cooldown, now);
    assert!(cooldown.contains_key(&addr(2)));
    assert!(!cooldown.contains_key(&addr(3)));
}

#[test]
fn apply_dial_result_updates_book() {
    let good = addr(5);
    let bad = addr(6);
    let inc = addr(7);
    let result = DialBatchResult {
        slots: vec![dummy_slot(0, good, true)],
        failed: vec![(bad, DialFailKind::Network), (inc, DialFailKind::Incompatible)],
    };
    let notes = apply_dial_result(&result);
    assert_eq!(
        notes,
        vec![
            BookNote::Connected { addr: good },
            BookNote::ConnectFailed { addr: bad, incompatible: false },
            BookNote::ConnectFailed { addr: inc, incompatible: true },
        ]
    );
}

#[test]
fn release_peer_block_work_clears_inflight() {
    let mut slot = dummy_slot(3, addr(9), true);
    let h = BlockHash::from_byte_array([7u8; 32]);
    slot.in_flight.insert(h);
    let mut inflight = KeyMap::new();
    inflight.insert(h, InflightReq::new(3, 0));
    let mut slots = vec![slot];
    release_peer_block_work(&mut slots, &mut inflight, 3);
    assert!(inflight.is_empty());
    assert!(!slots[0].alive && slots[0].in_flight.is_empty());
}

#[test]
fn dial_batch_empty_count_or_book() {
    let mut already = KeySet::new();
    assert!(pick_dial_targets(&vec![addr(1)], &mut already, 0).is_empty());
    assert!(pick_dial_targets(&vec![], &mut already, 4).is_empty());
    assert!(already.is_empty());
    let r = settle_dials(VecDeque::new());
    assert!(r.slots.is_empty() && r.failed.is_empty());
}

#[test]
fn dial_targets_are_distinct_and_not_blocked() {
    let mut already = KeySet::new();
    already.insert(addr(2));
    let picked = pick_dial_targets(
        &vec![addr(1), addr(2), addr(1), addr(3), addr(4)],
        &mut already,
        2,
    );
    assert_eq!(picked, vec![addr(1), addr(3)]);
    assert!(already.contains(&addr(3)) && !already.contains(&addr(4)));
}

#[test]
fn dials_settle_by_id_with_their_failures() {
    let mut out = VecDeque::new();
    out.push_back(DialOutcome::Connected(dummy_slot(4, addr(4), true)));
    out.push_back(DialOutcome::Failed { addr: addr(5), err: NetError::V1Peer });
    out.push_back(DialOutcome::Connected(dummy_slot(2, addr(2), true)));
    out.push_back(DialOutcome::Lost);
    out.push_back(DialOutcome::TimedOut { addr: addr(6) });
    out.push_back(DialOutcome::Connected(dummy_slot(3, addr(3), true)));
    let r = settle_dials(out);
    let ids: Vec<usize> = r.slots.iter().map(|s| s.id).collect();
    assert_eq!(ids, vec![2, 3, 4]);
    assert_eq!(
        r.failed,
        vec![(addr(5), DialFailKind::Incompatible), (addr(6), DialFailKind::Network)]
    );
}

#[test]
fn disconnect_stalled_after_30s_without_rx() {
    let a = addr(11);
    let mut slot = dummy_slot(5, a, true);
    let h = BlockHash::from_byte_array([0xee; 32]);
    slot.in_flight.insert(h);
    slot.rate.note_work_started(0);
    let mut inflight = KeyMap::new();
    inflight.insert(h, InflightReq::new(5, 0));
    let mut cooldown = KeyMap::new();
    let mut slots = vec![slot];
    let gone = disconnect_stalled_block_peers_at(
        &mut slots,
        &mut inflight,
        &mut cooldown,
        30_000,
        30_001,
    );
    assert_eq!(gone, vec![(5, a)]);
    assert!(cooldown.contains_key(&a));
    assert_eq!(cooldown.get(&a), Some(&(30_001 + STALL_ADDR_COOLDOWN_MS)));
    assert!(inflight.is_empty());
}

#[test]
fn disconnect_stalled_not_when_rx_recent() {
    let a = addr(12);
    let mut slot = dummy_slot(6, a, true);
    let h = BlockHash::from_byte_array([0xee; 32]);
    slot.in_flight.insert(h);
    slot.rate.note_work_started(0);
    slot.rate.note_rx(25_000);
    let mut inflight = KeyMap::new();
    inflight.insert(h, InflightReq::new(6, 0));
    let mut cooldown = KeyMap::new();
    let mut slots = vec![slot];
    disconnect_stalled_block_peers_at(&mut slots, &mut inflight, &mut cooldown, 30_000, 45_000);
    assert!(cooldown.get(&a).is_none());
    assert!(inflight.contains_key(&h));
}

#[test]
fn disconnect_stalled_releases_and_cools_addr() {
    let mut cooldown = KeyMap::new();
    let mut slots = vec![dummy_slot(7, addr(13), true)];
    disconnect_stalled_block_peers_at(
        &mut slots,
        &mut KeyMap::new(),
        &mut cooldown,
        30_000,
        1_000_000,
    );
    assert!(cooldown.get(&addr(13)).is_none());
}

#[test]
fn stall_has_a_floor() {
    let mut slot = dummy_slot(5, addr(11), true);
    slot.in_flight.insert(BlockHash::from_byte_array([1; 32]));
    slot.rate.note_work_started(0);
    let mut slots = vec![slot];
    let gone = disconnect_stalled_block_peers_at(
        &mut slots,
        &mut KeyMap::new(),
        &mut KeyMap::new(),
        1_000,
        20_000,
    );
    assert!(gone.is_empty());
}

#[test]
fn request_headers_no_alive_returns_false() {
    let mut hub = ChainHub::new();
    hub.locator = Ok(vec![]);
    let mut seq = 0u32;
    let mut outbox = Vec::new();
    assert!(!request_headers(&vec![], &hub, &mut seq, &vec![], &mut outbox).unwrap());
    let dead = vec![dummy_slot(1, addr(1), false)];
    assert!(!request_headers_from(&dead, 1, &hub, &vec![], &mut outbox).unwrap());
    assert!(outbox.is_empty());
    let loc = ibd_header_locator(&hub, &vec![]).unwrap();
    assert!(!loc.is_empty());
    assert_eq!(loc, vec![BlockHash::zero()]);
}

#[test]
fn headers_are_asked_in_turn() {
    let mut hub = ChainHub::new();
    hub.locator = Ok(vec![]);
    let slots =
        vec![dummy_slot(3, addr(3), true), dummy_slot(4, addr(4), false), dummy_slot(5, addr(5), true)];
    let mut seq = 0u32;
    let mut outbox = Vec::new();
    for _ in 0..3 {
        assert!(request_headers(&slots, &hub, &mut seq, &vec![], &mut outbox).unwrap());
    }
    let asked: Vec<usize> = outbox.iter().map(|c| c.0).collect();
    assert_eq!(asked, vec![3, 5, 3]);
    assert_eq!(seq, 3);
    assert!(matches!(&outbox[0].1, PeerCmd::GetHeaders { locator } if locator.len() == 1));

    hub.locator = Err("no store".to_string());
    let r = request_headers(&slots, &hub, &mut seq, &vec![], &mut outbox);
    assert!(matches!(r, Err(NetError::Consensus(m)) if m == "no store"));
    assert_eq!((outbox.len(), seq), (3, 4), "the turn passes, nothing is asked");
}

#[test]
fn locator_starts_with_the_work_path_and_fits_the_wire() {
    let mut hub = ChainHub::new();
    let b = |n: u8| BlockHash::from_byte_array([n; 32]);
    hub.tip = Some(ChainTip { height: 9, hash: b(9) });
    hub.locator = Ok((9..=250u8).map(b).collect());
    let tips: Vec<BlockHash> = vec![b(3), b(2), b(3), b(1)];
    let loc = ibd_header_locator(&hub, &tips).unwrap();
    assert_eq!(loc[..5], [b(3), b(2), b(1), b(9), b(10)]);
    assert_eq!(loc.len(), MAX_LOCATOR_SZ);
    hub.locator = Err("store".to_string());
    assert!(matches!(ibd_header_locator(&hub, &tips), Err(NetError::Consensus(m)) if m == "store"));
}

#[test]
fn relative_slow_pure_edges_and_mature_sample_filters() {
    assert_eq!(median_u64(&[]), 0);
    assert_eq!(median_u64(&[7]), 7);
    assert_eq!(median_u64(&[2, 8]), 5);
    assert_eq!(median_u64(&[1, 2, 3]), 2);
    assert_eq!(relative_slow_min_samples(0), RELATIVE_SLOW_MIN_SAMPLES);

    let zeros: Vec<_> = (0..8).map(|i| samp(i, 0, true)).collect();
    assert_eq!(relative_slow_pick(&zeros, 8), None);
    let zero_and_fast = [
        samp(0, 0, true),
        samp(1, 2_000_000, true),
        samp(2, 1_900_000, true),
        samp(3, 1_800_000, true),
        samp(4, 1_850_000, true),
        samp(5, 1_950_000, true),
        samp(6, 1_880_000, true),
        samp(7, 1_920_000, true),
    ];
    assert_eq!(relative_slow_pick(&zero_and_fast, 8), Some(0));

    let tie = [
        samp(5, 400_000, true),
        samp(2, 400_000, true),
        samp(0, 2_000_000, true),
        samp(1, 1_900_000, true),
        samp(3, 1_800_000, true),
        samp(4, 1_850_000, true),
        samp(6, 1_880_000, true),
        samp(7, 1_920_000, true),
    ];
    assert_eq!(relative_slow_pick(&tie, 8), Some(2));

    let mut dead = dummy_slot(0, addr(20), false);
    dead.rate.ewma_bps = Some(1_000_000);
    dead.rate.active_ms = RELSLOW_ACTIVE_MS;
    let mut young = dummy_slot(2, addr(22), true);
    young.rate.ewma_bps = Some(10_000_000);
    young.rate.active_ms = 5_000;
    let samples = mature_relative_slow_samples(&vec![dead, young], RELSLOW_ACTIVE_MS);
    assert!(samples.iter().all(|s| s.peer_id != 0 && s.peer_id != 2));

    assert_eq!(global_first_block_ms(&vec![]), 0);
    assert_eq!(global_first_block_ms(&vec![dummy_slot(10, addr(30), true)]), 0);
    let mut b_dead = dummy_slot(11, addr(31), true);
    b_dead.alive = false;
    b_dead.first_data_ms = 5;
    assert_eq!(global_first_block_ms(&vec![b_dead]), 0);
    let mut a = dummy_slot(10, addr(30), true);
    a.first_data_ms = 42;
    let mut c = dummy_slot(12, addr(32), true);
    c.first_data_ms = 10;
    assert_eq!(global_first_block_ms(&vec![a, c]), 10);
    let mut a2 = dummy_slot(10, addr(30), true);
    a2.first_data_ms = 10;
    let warm = vec![a2];
    assert!(!relative_slow_global_warmup_ok(&warm, 10 + RELATIVE_SLOW_GLOBAL_WARMUP_MS - 1));
    assert!(relative_slow_global_warmup_ok(&warm, 10 + RELATIVE_SLOW_GLOBAL_WARMUP_MS));

    let mut slots = vec![dummy_slot(1, addr(40), true)];
    let mut inflight = KeyMap::new();
    let mut cooldown = KeyMap::new();
    let mut suspect = Some(1usize);
    let gone = disconnect_relative_slow_block_peers(
        &mut slots,
        &mut inflight,
        &mut cooldown,
        RELSLOW_ACTIVE_MS,
        1_000_000,
        &mut suspect,
    );
    assert!(gone.is_none());
    assert!(suspect.is_none());
    assert!(cooldown.is_empty());
}

#[test]
fn mature_relative_slow_samples_uses_ewma_active_ms() {
    let h = BlockHash::from_byte_array([9u8; 32]);
    let mut young = dummy_slot(0, addr(50), true);
    young.rate.ewma_bps = Some(10_000_000);
    young.rate.active_ms = 5_000;
    young.in_flight.insert(h);
    assert!(young.rate.bps().is_some());
    assert!(young.rate.active_ms < RELSLOW_ACTIVE_MS);

    let mut mature = dummy_slot(1, addr(51), true);
    mature.rate.ewma_bps = Some(10_000_000);
    mature.rate.active_ms = RELSLOW_ACTIVE_MS;
    mature.in_flight.insert(h);

    let samples = mature_relative_slow_samples(&vec![young, mature], RELSLOW_ACTIVE_MS);
    assert!(samples.iter().all(|s| s.peer_id != 0));
    assert!(samples.iter().any(|s| s.peer_id == 1));
}

#[test]
fn relative_slow_peer_goes_on_its_second_tick() {
    let now = 1_000_000u64;
    let mut slots = Vec::new();
    for i in 0..8usize {
        let mut s = dummy_slot(i, addr(i as u8 + 1), true);
        s.first_data_ms = 1;
        s.rate.active_ms = RELSLOW_ACTIVE_MS;
        s.rate.ewma_bps = Some(if i == 3 { 500_000 } else { 2_000_000 });
        s.in_flight.insert(BlockHash::from_byte_array([i as u8; 32]));
        slots.push(s);
    }
    let mut inflight = KeyMap::new();
    inflight.insert(BlockHash::from_byte_array([3; 32]), InflightReq::new(3, 0));
    let mut cooldown = KeyMap::new();
    let mut suspect = None;
    let first = disconnect_relative_slow_block_peers(
        &mut slots,
        &mut inflight,
        &mut cooldown,
        RELSLOW_ACTIVE_MS,
        now,
        &mut suspect,
    );
    assert_eq!((first, suspect), (None, Some(3)));
    let second = disconnect_relative_slow_block_peers(
        &mut slots,
        &mut inflight,
        &mut cooldown,
        RELSLOW_ACTIVE_MS,
        now,
        &mut suspect,
    );
    assert_eq!((second, suspect), (Some(3), None));
    assert!(!slots[3].alive && inflight.is_empty());
    assert_eq!(cooldown.get(&addr(4)), Some(&(now + STALL_ADDR_COOLDOWN_MS)));
}

#[test]
fn sorting_keeps_every_number() {
    assert_eq!(sorted(&vec![5, 1, 4, 1]), vec![1, 1, 4, 5]);
    assert!(sorted(&vec![]).is_empty());
}

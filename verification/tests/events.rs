//! What peer events and confirm events do to the work state.
use bitcoin::consensus::Encodable;
use rbitcoin_ibd::assign::{assign_work_ordered, AssignDepth, LoopStats};
use rbitcoin_ibd::body_events::{
    apply_peer_event, disconnect_all_peers, exploring, framed_ensured, framed_noted,
    framed_offered, framed_place, held_place, inject_learned_addrs, try_apply_exploration,
    try_complete_awaiting_reorg, DrainFrom, DrainTurn, FramedStep, PeerStep, PlaceStep,
    RewindReply, BODY_DRAIN_TIME_BUDGET_NS, CTRL_DRAIN_EVENT_BUDGET,
};
use rbitcoin_ibd::chain::{ChainHub, ChainTip};
use rbitcoin_ibd::config::IbdConfig;
use rbitcoin_ibd::confirm_class::ConfirmRejectClass;
use rbitcoin_ibd::confirm_engine::ConfirmEvent;
use rbitcoin_ibd::confirm_events::{
    apply_confirm_event, apply_confirm_reject, bad_prev_answered, explore_competing,
    finish_confirm_events, invalid_settled, on_accepted, update_confirm_lag, ConfirmStep,
    RejectStep, CASCADE_HALT_AFTER,
};
use rbitcoin_ibd::confirm_feed::ConfirmFeed;
use rbitcoin_ibd::exit::header_lag_behind_peers;
use rbitcoin_ibd::hash::BlockHash;
use rbitcoin_ibd::header_events::{
    header_lacks_row, on_new_headers, parent_height, poll_headers, HeadersStep,
};
use rbitcoin_ibd::keyed::{KeyMap, KeySet};
use rbitcoin_ibd::path::{seed_work_path_from_store, PathEntry, SeedStep};
use rbitcoin_ibd::peer_io::PeerEvent;
use rbitcoin_ibd::peers::{PeerAddr, PeerCmd, PeerIp, PeerSlot};
use rbitcoin_ibd::rate::PeerRate;
use rbitcoin_ibd::state::{IbdWorkState, InflightReq};
use rbitcoin_ibd::wire::BlockHeader;

const NOW: u64 = 500_000;

fn h(n: u8) -> BlockHash {
    let mut b = [0u8; 32];
    b[0] = n;
    BlockHash::from_byte_array(b)
}

fn addr(o: u8) -> PeerAddr {
    PeerAddr { ip: PeerIp::V4 { a: 10, b: 1, c: 0, d: o }, port: 18444 }
}

fn dummy_slot(id: usize, a: PeerAddr) -> PeerSlot {
    PeerSlot {
        id,
        addr: a,
        in_flight: KeySet::new(),
        peer_height: 10,
        connected_ms: 1,
        first_data_ms: 0,
        bytes_rx: 0,
        bytes_rx_total: 0,
        rate: PeerRate::idle(),
        alive: true,
    }
}

fn genesis() -> BlockHash {
    BlockHash::from_byte_array([0x6f; 32])
}

fn genesis_hub() -> ChainHub {
    let mut hub = ChainHub::new();
    let g = genesis();
    hub.tip = Some(ChainTip { height: 0, hash: g });
    hub.blocks.insert(g);
    hub.heights.insert(g, 0);
    hub.locator = Ok(vec![g]);
    hub
}

fn config() -> IbdConfig {
    IbdConfig {
        window: 64,
        per_peer: 16,
        densify_ahead: 65_536,
        far_scan_budget: 65_536,
        pending_stale_ms: 60_000,
        max_ordered_headers: 100_000,
        ordered_soft_cap: 50_000,
        max_peer_pool: 32,
    }
}

fn outside(hd: &BlockHeader) -> bitcoin::block::Header {
    bitcoin::block::Header {
        version: bitcoin::block::Version::from_consensus(hd.version),
        prev_blockhash: bitcoin::hashes::Hash::from_byte_array(hd.prev.to_byte_array()),
        merkle_root: bitcoin::hashes::Hash::from_byte_array(hd.merkle_root.to_byte_array()),
        time: hd.time,
        bits: bitcoin::CompactTarget::from_consensus(hd.bits),
        nonce: hd.nonce,
    }
}

fn hash_of(hd: &BlockHeader) -> BlockHash {
    BlockHash::from_byte_array(bitcoin::hashes::Hash::to_byte_array(outside(hd).block_hash()))
}

fn dummy_header(prev: BlockHash, n: u8) -> BlockHeader {
    BlockHeader {
        version: 4,
        prev,
        merkle_root: BlockHash::from_byte_array([n; 32]),
        time: 1_300_000_000 + u32::from(n),
        bits: 0x207fffff,
        nonce: u32::from(n),
    }
}

/// A whole block with one coinbase on `prev`, and its bytes.
fn shell(prev: BlockHash, n: u32) -> (BlockHash, Vec<u8>) {
    let tx = bitcoin::Transaction {
        version: bitcoin::transaction::Version::ONE,
        lock_time: bitcoin::absolute::LockTime::ZERO,
        input: vec![bitcoin::TxIn {
            previous_output: bitcoin::OutPoint::null(),
            script_sig: bitcoin::ScriptBuf::from_bytes(vec![0x51, n as u8]),
            sequence: bitcoin::Sequence::MAX,
            witness: bitcoin::Witness::new(),
        }],
        output: vec![bitcoin::TxOut {
            value: bitcoin::Amount::from_sat(50_0000_0000),
            script_pubkey: bitcoin::ScriptBuf::from_bytes(vec![0x51]),
        }],
    };
    let mut block = bitcoin::Block {
        header: outside(&dummy_header(prev, n as u8)),
        txdata: vec![tx],
    };
    block.header.merkle_root = block.compute_merkle_root().unwrap();
    block.header.nonce = n;
    let mut bytes = Vec::new();
    block.consensus_encode(&mut bytes).unwrap();
    let hash = bitcoin::hashes::Hash::to_byte_array(block.block_hash());
    (BlockHash::from_byte_array(hash), bytes)
}

/// Take in one event as the download loop does: the store gives every header a row,
/// and the queue takes every offer.
fn deliver(
    st: &mut IbdWorkState,
    hub: &mut ChainHub,
    feed: &mut ConfirmFeed,
    ev: PeerEvent,
) -> PeerStep {
    let cfg = config();
    let mut fks = Vec::new();
    if let PeerEvent::Headers { headers, .. } = &ev {
        for (i, _) in headers.iter().enumerate() {
            fks.push(Some(1_000 + i as u64));
        }
    }
    let step = apply_peer_event(st, hub, &cfg, ev, &fks, &addr(99), NOW);
    if let PeerStep::Framed { next, body } = step {
        let next = match next {
            FramedStep::EnsureHeader(_) => framed_ensured(st, body.hash, Some(77)),
            other => other,
        };
        if let FramedStep::Place(fk) = next {
            let place = framed_place(st, hub, &cfg, 1, &body, NOW);
            let place = match place {
                PlaceStep::Held { height } => held_place(hub, height, &body.hash),
                other => other,
            };
            if let PlaceStep::Offer { height } = place {
                let hash = body.hash;
                if framed_offered(st, hub, height, fk, body, true) {
                    framed_noted(st, feed, height, hash, NOW);
                }
            }
        }
        return PeerStep::Done;
    }
    step
}

#[test]
fn apply_peer_event_body_and_control_surface() {
    let mut hub = genesis_hub();
    let gen = genesis();
    let mut feed = ConfirmFeed::new();
    let mut st = IbdWorkState::new(vec![dummy_slot(1, addr(1))], Some(gen), Some(0));
    st.slots[0].in_flight.insert(h(9));
    st.inflight.insert(h(9), InflightReq::new(1, 0));

    let ev = PeerEvent::BlockFramed { peer: 1, hash: h(9), payload: vec![0u8; 80] };
    deliver(&mut st, &mut hub, &mut feed, ev);
    assert!(st.inflight.is_empty());
    assert!(!st.body.is_pending(&h(9)));

    let class_a_hash = h(0xca);
    st.body.mark_archived(class_a_hash);
    st.record_height(class_a_hash, 1);
    st.height_to_hash.insert(1, class_a_hash);
    st.header_fks.insert(class_a_hash, 1);
    st.slots[0].in_flight.insert(class_a_hash);
    st.inflight.insert(class_a_hash, InflightReq::new(1, 0));
    let mut payload = vec![0u8; 81];
    payload[0..4].copy_from_slice(&1u32.to_le_bytes());
    let ev = PeerEvent::BlockFramed { peer: 1, hash: class_a_hash, payload };
    deliver(&mut st, &mut hub, &mut feed, ev);
    assert!(
        st.body.is_pending(&class_a_hash),
        "archived must still land in pending after wire offer"
    );
    assert!(hub.queue.has_height(1), "archived must still enter body queue (claim intake)");

    st.body.mark_pending(h(9), NOW);
    let ev = PeerEvent::BlockDecodeFailed { peer: 1, hash: h(9) };
    deliver(&mut st, &mut hub, &mut feed, ev);
    assert!(!st.body.is_pending(&h(9)));

    let hdr = dummy_header(gen, 1);
    let hash = hash_of(&hdr);
    let ev = PeerEvent::Headers { peer: 1, headers: vec![hdr] };
    deliver(&mut st, &mut hub, &mut feed, ev);
    assert!(st.known_headers.contains(&hash));
    assert!(st.ordered_set.contains(&hash) || st.hash_height.contains_key(&hash));

    st.max_peer_height = 100;
    st.empty_header_streak = 0;
    let ev = PeerEvent::Headers { peer: 1, headers: vec![] };
    deliver(&mut st, &mut hub, &mut feed, ev);
    assert!(!st.headers_done);

    st.slots[0].in_flight.insert(h(3));
    st.inflight.insert(h(3), InflightReq::new(1, 0));
    let ev = PeerEvent::NotFound { peer: 1, hashes: vec![h(3)] };
    deliver(&mut st, &mut hub, &mut feed, ev);
    assert!(!st.inflight.contains_key(&h(3)));

    assert!(inject_learned_addrs(&vec![], &addr(99)).is_empty());
    let unspecified = PeerAddr { ip: PeerIp::V4 { a: 0, b: 0, c: 0, d: 0 }, port: 1 };
    assert_eq!(
        inject_learned_addrs(&vec![addr(2), addr(99), unspecified], &addr(99)),
        vec![addr(2)]
    );

    st.slots[0].in_flight.insert(h(4));
    st.inflight.insert(h(4), InflightReq::new(1, 0));
    let ev = PeerEvent::Dead { peer: 1, reason: "bye".to_string() };
    let step = deliver(&mut st, &mut hub, &mut feed, ev);
    assert!(matches!(step, PeerStep::Lost(Some(l)) if l.addr == addr(1) && l.bps.is_none()));
    assert!(!st.slots[0].alive);
    assert!(!st.inflight.contains_key(&h(4)));
}

#[test]
fn apply_peer_event_block_framed_bq_horizon_and_headers_done() {
    let mut hub = genesis_hub();
    let gen = genesis();
    let mut feed = ConfirmFeed::new();
    let mut st = IbdWorkState::new(vec![dummy_slot(1, addr(1))], Some(gen), Some(0));
    let (h1, b1) = shell(gen, 1);
    st.record_height(h1, 1);
    st.header_fks.insert(h1, 11);
    let ev = PeerEvent::BlockFramed { peer: 1, hash: h1, payload: b1.clone() };
    deliver(&mut st, &mut hub, &mut feed, ev);
    assert!(st.body.is_pending(&h1));
    assert!(hub.queue.has_height(1));
    let ev = PeerEvent::BlockFramed { peer: 1, hash: h1, payload: b1 };
    deliver(&mut st, &mut hub, &mut feed, ev);
    assert_eq!(hub.queue.len(), 1);

    let (h2, b2) = shell(h1, 2);
    st.record_height(h2, 2);
    st.header_fks.insert(h2, 12);
    hub.taken_hi = Some(2);
    let ev = PeerEvent::BlockFramed { peer: 1, hash: h2, payload: b2 };
    deliver(&mut st, &mut hub, &mut feed, ev);
    assert!(!st.body.is_pending(&h2), "taken height must not be marked pending");
    assert!(!hub.queue.has_height(2));
    hub.taken_hi = None;

    let far_h = 1u32 + config().densify_ahead + 10;
    let (far_hash, far) = shell(h1, 3);
    st.record_height(far_hash, far_h);
    let ev = PeerEvent::BlockFramed { peer: 1, hash: far_hash, payload: far };
    deliver(&mut st, &mut hub, &mut feed, ev);
    assert!(!st.body.is_pending(&far_hash));
    assert!(st.body.is_missing(&far_hash));

    st.max_peer_height = 0;
    st.empty_header_streak = 0;
    st.ordered.clear();
    st.ordered_set.clear();
    st.inflight.clear();
    for _ in 0..2 {
        let ev = PeerEvent::Headers { peer: 1, headers: vec![] };
        deliver(&mut st, &mut hub, &mut feed, ev);
    }
    assert!(st.headers_done);
}

#[test]
fn block_framed_raw_offers_body_queue_with_confirm_feed() {
    let mut hub = genesis_hub();
    let gen = genesis();
    let mut feed = ConfirmFeed::new();
    let mut st = IbdWorkState::new(vec![dummy_slot(1, addr(1))], Some(gen), Some(0));
    let (h1, b1) = shell(gen, 1);
    st.record_height(h1, 1);
    st.header_fks.insert(h1, 11);
    st.slots[0].in_flight.insert(h1);
    st.inflight.insert(h1, InflightReq::new(1, 0));
    let bytes = b1.len() as u64;
    let ev = PeerEvent::BlockFramed { peer: 1, hash: h1, payload: b1.clone() };
    deliver(&mut st, &mut hub, &mut feed, ev);
    assert!(st.body.is_pending(&h1));
    assert!(hub.queue.has_height(1));
    assert_eq!(feed.size_snap().0, 1);
    assert!(st.inflight.is_empty());
    assert_eq!(st.slots[0].bytes_rx, bytes);
    assert_eq!(st.slots[0].first_data_ms, NOW);

    let ev = PeerEvent::BlockFramed { peer: 1, hash: h1, payload: b1 };
    deliver(&mut st, &mut hub, &mut feed, ev);
    assert_eq!(hub.queue.len(), 1);
    assert_eq!(feed.size_snap().0, 1);
}

#[test]
fn known_headers_re_admit_to_ordered_after_tip_drain() {
    let mut hub = genesis_hub();
    let gen = genesis();
    let mut feed = ConfirmFeed::new();
    let mut st = IbdWorkState::new(vec![dummy_slot(1, addr(1))], Some(gen), Some(0));
    let hdr = dummy_header(gen, 1);
    let hash = hash_of(&hdr);
    let again = || PeerEvent::Headers { peer: 1, headers: vec![hdr] };
    deliver(&mut st, &mut hub, &mut feed, again());
    assert!(st.ordered_set.contains(&hash), "first admit");
    assert_eq!(st.hash_height.get(&hash), Some(&1));
    assert_eq!(st.header_fks.get(&hash), Some(&1_000));

    st.ordered.clear();
    st.ordered_set.clear();
    st.height_to_hash.clear();
    assert!(st.known_headers.contains(&hash));
    assert!(st.ordered.is_empty());
    deliver(&mut st, &mut hub, &mut feed, again());
    assert!(
        st.ordered_set.contains(&hash),
        "known header must re-enter ordered after tip drain"
    );
    assert_eq!(st.ordered.len(), 1);

    st.ordered.clear();
    st.ordered_set.clear();
    st.inflight.insert(hash, InflightReq::new(1, 0));
    deliver(&mut st, &mut hub, &mut feed, again());
    assert!(!st.ordered_set.contains(&hash), "inflight hash must not re-enter ordered");
    st.inflight.clear();

    st.body.mark_pending(hash, NOW);
    deliver(&mut st, &mut hub, &mut feed, again());
    assert!(!st.ordered_set.contains(&hash), "pending hash must not re-enter ordered");
}

#[test]
fn path_slot_first_wins_chained_via_headers() {
    let mut hub = genesis_hub();
    let gen = genesis();
    let mut feed = ConfirmFeed::new();
    let mut st = IbdWorkState::new(vec![dummy_slot(1, addr(1))], Some(gen), Some(0));
    let a = dummy_header(gen, 1);
    let b = dummy_header(gen, 2);
    let ha = hash_of(&a);
    let hb = hash_of(&b);
    deliver(&mut st, &mut hub, &mut feed, PeerEvent::Headers { peer: 1, headers: vec![a] });
    deliver(&mut st, &mut hub, &mut feed, PeerEvent::Headers { peer: 1, headers: vec![b] });
    assert_eq!(
        st.height_to_hash.get(&1).copied(),
        Some(ha),
        "first chained header keeps the slot"
    );
    assert!(st.known_headers.contains(&hb));
    assert!(!st.ordered_set.contains(&hb), "later sibling must not enter ordered");
    assert!(!st.is_on_path(&hb, 1), "competitor is known, not a path occupant");
    assert!(
        st.reorg.explore_need.contains(&hb),
        "occupied-height sibling registers explore, not path"
    );
    let lag = header_lag_behind_peers(&st, 0);
    let ev = PeerEvent::Headers { peer: 1, headers: vec![dummy_header(gen, 3)] };
    deliver(&mut st, &mut hub, &mut feed, ev);
    assert_eq!(
        header_lag_behind_peers(&st, 0),
        lag,
        "further competitors must not inflate path lag"
    );
}

#[test]
fn parent_height_resolves_confirmed_tip_minus_one() {
    let mut hub = genesis_hub();
    let p = h(1);
    let lose = h(2);
    hub.heights.insert(p, 1);
    hub.heights.insert(lose, 2);
    hub.tip = Some(ChainTip { height: 2, hash: lose });
    let empty = KeyMap::new();
    assert_eq!(
        parent_height(&empty, &hub, &p),
        Some(2),
        "child of confirmed tip−1 must get height tip"
    );
    assert_eq!(parent_height(&empty, &hub, &lose), Some(3), "child of tip still tip+1");
    let unknown = BlockHash::from_byte_array([0xab; 32]);
    assert_eq!(parent_height(&empty, &hub, &unknown), None);
    assert_eq!(parent_height(&empty, &hub, &BlockHash::zero()), Some(0));
}

#[test]
fn header_chain_in_one_batch_gets_its_heights() {
    let mut hub = genesis_hub();
    let gen = genesis();
    let mut feed = ConfirmFeed::new();
    let mut st = IbdWorkState::new(vec![dummy_slot(1, addr(1))], Some(gen), Some(0));
    let a = dummy_header(gen, 1);
    let b = dummy_header(hash_of(&a), 2);
    let c = dummy_header(hash_of(&b), 3);
    assert!(header_lacks_row(&st, &a));
    let step = deliver(
        &mut st,
        &mut hub,
        &mut feed,
        PeerEvent::Headers { peer: 1, headers: vec![a, b, c] },
    );
    assert!(matches!(step, PeerStep::Headers { step: HeadersStep::Weigh, batch_len: 3, .. }));
    assert_eq!(st.ordered.len(), 3);
    assert_eq!(st.height_to_hash.get(&3), Some(&hash_of(&c)));
    assert_eq!(st.max_ordered_height, 3);
    assert!(!header_lacks_row(&st, &a));

    on_new_headers(&mut st, &hub, &config(), 1, 3);
    let before = st.outbox.len();
    poll_headers(&mut st, &hub);
    assert_eq!(st.outbox.len(), before + 1);
    assert!(matches!(&st.outbox[before].1, PeerCmd::GetHeaders { locator } if locator[0] == hash_of(&c)));
}

#[test]
fn orphan_and_rejected_headers_stay_off_the_path() {
    let mut hub = genesis_hub();
    let gen = genesis();
    let mut feed = ConfirmFeed::new();
    let mut st = IbdWorkState::new(vec![dummy_slot(1, addr(1))], Some(gen), Some(0));
    let orphan = dummy_header(h(0x77), 1);
    deliver(&mut st, &mut hub, &mut feed, PeerEvent::Headers { peer: 1, headers: vec![orphan] });
    assert!(!st.known_headers.contains(&hash_of(&orphan)));
    let bad = dummy_header(gen, 2);
    st.body.mark_rejected(hash_of(&bad));
    deliver(&mut st, &mut hub, &mut feed, PeerEvent::Headers { peer: 1, headers: vec![bad] });
    assert!(st.ordered.is_empty());
}

#[test]
fn side_body_is_held_by_its_hash() {
    let mut hub = genesis_hub();
    let gen = genesis();
    hub.tip = Some(ChainTip { height: 1, hash: h(1) });
    let mut st = IbdWorkState::new(vec![dummy_slot(1, addr(1))], Some(h(1)), Some(1));
    let (side, bytes) = shell(gen, 9);
    st.hash_height.insert(side, 1);
    st.header_fks.insert(side, 5);
    let wire = bytes.clone();
    let ev = PeerEvent::BlockFramed { peer: 1, hash: side, payload: bytes };
    let step = apply_peer_event(&mut st, &hub, &config(), ev, &vec![], &addr(99), NOW);
    match step {
        PeerStep::Framed { next: FramedStep::Place(5), body } => {
            let place = framed_place(&mut st, &hub, &config(), 2, &body, NOW);
            assert_eq!(place, PlaceStep::Held { height: 1 });
            assert_eq!(st.reorg.get_held(&side), Some(&wire));
            assert!(st.body.is_pending(&side));
            let mut junk = body;
            junk.payload = vec![0u8; 80];
            junk.hash = h(0x31);
            st.hash_height.insert(junk.hash, 1);
            let place = framed_place(&mut st, &hub, &config(), 2, &junk, NOW);
            assert_eq!(place, PlaceStep::Offer { height: 1 }, "not a block: not held");
            assert!(!framed_offered(&mut st, &mut hub, 1, 5, junk, false));
            assert!(st.body.is_missing(&h(0x31)));
        }
        _ => panic!("expected a body to place"),
    }
}

#[test]
fn rejected_body_only_counts_its_bytes() {
    let mut hub = genesis_hub();
    let mut feed = ConfirmFeed::new();
    let mut st = IbdWorkState::new(vec![dummy_slot(1, addr(1))], Some(genesis()), Some(0));
    st.body.mark_rejected(h(5));
    st.record_height(h(5), 1);
    st.header_fks.insert(h(5), 1);
    st.slots[0].in_flight.insert(h(5));
    st.inflight.insert(h(5), InflightReq::new(1, 0));
    let ev = PeerEvent::BlockFramed { peer: 1, hash: h(5), payload: vec![0u8; 100] };
    deliver(&mut st, &mut hub, &mut feed, ev);
    assert!(!hub.queue.has_height(1) && st.inflight.is_empty());
    assert!(st.body.is_rejected(&h(5)) && !st.body.is_pending(&h(5)));
    assert_eq!(st.slots[0].bytes_rx, 100);
}

#[test]
fn body_without_a_row_is_missing_again() {
    let mut st = IbdWorkState::new(vec![dummy_slot(1, addr(1))], Some(genesis()), Some(0));
    assert!(matches!(framed_ensured(&mut st, h(3), None), FramedStep::Done));
    assert!(st.body.is_missing(&h(3)));
}

#[test]
fn exploration_ends_where_no_branch_is_heavier() {
    let mut st = IbdWorkState::new(Vec::new(), Some(genesis()), Some(0));
    assert!(!exploring(&st));
    assert!(!try_apply_exploration(&mut st, RewindReply::Rewound));
    st.reorg.register_explore(&vec![h(4)], Some(h(4)));
    assert!(exploring(&st));
    assert!(!try_complete_awaiting_reorg(&mut st, RewindReply::Failed));
    assert!(exploring(&st));
    assert!(try_apply_exploration(&mut st, RewindReply::Rewound));
    assert!(!try_apply_exploration(&mut st, RewindReply::Kept));
    assert!(!exploring(&st));
}

#[test]
fn drain_takes_bodies_first_within_its_budgets() {
    let mut t = DrainTurn::new();
    assert_eq!(t.from, DrainFrom::Body);
    t.took_one();
    assert!(!t.budget(0));
    assert!(t.budget(BODY_DRAIN_TIME_BUDGET_NS));
    assert_eq!(t.from, DrainFrom::Ctrl);
    for _ in 0..CTRL_DRAIN_EVENT_BUDGET {
        assert!(!t.budget(0));
        t.took_one();
    }
    assert!(t.budget(0));
    assert_eq!(t.from, DrainFrom::Stop);
    assert_eq!(t.events, CTRL_DRAIN_EVENT_BUDGET + 1);
}

#[test]
fn every_peer_is_told_to_stop() {
    let mut st = IbdWorkState::new(
        vec![dummy_slot(1, addr(1)), dummy_slot(2, addr(2))],
        Some(genesis()),
        Some(0),
    );
    st.inflight.insert(h(1), InflightReq::new(1, 0));
    disconnect_all_peers(&mut st);
    assert!(st.slots.is_empty() && st.inflight.is_empty());
    assert_eq!(st.outbox.len(), 2);
    assert!(matches!(st.outbox[1], (2, PeerCmd::Shutdown)));
}

fn on_path(hub: &ChainHub, n: u8) -> IbdWorkState {
    let mut st = IbdWorkState::new(Vec::new(), hub.tip_hash(), hub.tip_height());
    st.record_height(h(n), hub.path_lo());
    st.ordered.push_back(h(n));
    st.ordered_set.insert(h(n));
    st.body.mark_archived(h(n));
    st
}

fn reject(
    st: &mut IbdWorkState,
    hub: &mut ChainHub,
    n: u8,
    err: &str,
    batch_len: usize,
) -> RejectStep {
    let mut feed = ConfirmFeed::new();
    let class = ConfirmRejectClass::from_err_str(err, false);
    let height = hub.path_lo();
    apply_confirm_reject(st, hub, &mut feed, height, h(n), class, err, batch_len, NOW)
}

#[test]
fn only_broken_rules_blacklist() {
    let mut hub = genesis_hub();
    let mut st = IbdWorkState::new(Vec::new(), None, Some(100));
    let mut feed = ConfirmFeed::new();
    let zero = BlockHash::zero();
    apply_confirm_reject(
        &mut st,
        &mut hub,
        &mut feed,
        101,
        zero,
        ConfirmRejectClass::ConsensusInvalid,
        "consensus: prevout already spent on best chain",
        1,
        NOW,
    );
    assert!(!st.body.is_rejected(&zero), "the blank hash is never blacklisted");

    let mut st = on_path(&hub, 7);
    hub.queue.offer(1, h(7), 1, vec![0u8; 80]);
    let step =
        reject(&mut st, &mut hub, 7, "consensus: script verification failed: script false", 1);
    assert_eq!(step, RejectStep::Invalidated);
    assert!(st.body.is_rejected(&h(7)));
    assert!(!st.ordered_set.contains(&h(7)));
    assert!(st.reorg.invalid.contains(&h(7)));
    assert!(st.height_to_hash.get(&1).is_none());
    assert!(!hub.queue.has_height(1));

    for (n, err) in [
        (0x5b, "consensus: store: corrupt record: invariant: spend annotate missing pin denserels/abs"),
        (0x53, "consensus: store: corrupt record: archive: parent create_fk unresolved"),
        (0x68, "consensus: store: corrupt record: tx put_full_batch fk mismatch"),
    ] {
        let mut st = on_path(&hub, n);
        assert_eq!(reject(&mut st, &mut hub, n, err, 1), RejectStep::Done);
        assert!(!st.body.is_rejected(&h(n)), "{err}");
        assert_eq!(st.confirm_stuck_since, Some(NOW));
    }

    let mut st = on_path(&hub, 0xae);
    let step = reject(&mut st, &mut hub, 0xae, "consensus: bad block: merkle root mismatch", 1);
    assert_eq!(step, RejectStep::ClearArchived);
    assert!(!st.body.is_rejected(&h(0xae)));
    assert!(!st.body.is_known_archived(&h(0xae)), "re-get after a mismatch");

    let mut st = on_path(&hub, 0x42);
    let err = "consensus: bad header: missing retarget first header";
    assert_eq!(reject(&mut st, &mut hub, 0x42, err, 1), RejectStep::Done);
    assert!(!st.body.is_rejected(&h(0x42)));
    assert!(st.ordered_set.contains(&h(0x42)), "soft path leaves ordered path intact");

    let mut st = on_path(&hub, 0x29);
    reject(&mut st, &mut hub, 0x29, "consensus: prevout already spent on best chain", 1);
    assert!(st.body.is_rejected(&h(0x29)));
    let mut st = on_path(&hub, 0x2a);
    reject(&mut st, &mut hub, 0x2a, "consensus: prevout already spent on best chain", 4);
    assert!(!st.body.is_rejected(&h(0x2a)), "a wave is taken apart first");
}

#[test]
fn bad_prev_evicts_slot_and_puts_lookup_back_to_the_tip() {
    let mut hub = genesis_hub();
    hub.tip = Some(ChainTip { height: 1, hash: h(1) });
    hub.taken_hi = Some(2);
    hub.queue.offer(2, h(0x44), 1, vec![0u8; 80]);
    let mut st = on_path(&hub, 0x44);
    st.headers_done = true;
    let err = "consensus: unexpected previous header";
    assert_eq!(reject(&mut st, &mut hub, 0x44, err, 1), RejectStep::AskRewind);
    assert_eq!(hub.taken_hi, Some(1));
    assert!(!st.headers_done);
    assert!(st.reorg.explore_tips.contains(&h(0x44)));
    assert!(st.ordered_set.contains(&h(0x44)), "nothing is evicted before the answer");

    let step = bad_prev_answered(&mut st, &mut hub, 2, h(0x44), err, false);
    assert_eq!(step, RejectStep::Done);
    assert!(st.height_to_hash.get(&2).is_none());
    assert!(!st.ordered_set.contains(&h(0x44)));
    assert!(!hub.queue.has_height(2));
    assert!(!st.body.is_missing(&h(0x44)), "the same hash is not fetched again");
    assert!(!st.body.is_rejected(&h(0x44)));
}

#[test]
fn third_cascade_at_one_tip_halts() {
    let mut hub = genesis_hub();
    let mut st = on_path(&hub, 3);
    for n in 1..=CASCADE_HALT_AFTER {
        assert!(st.halt.is_none());
        reject(&mut st, &mut hub, 3, "plan not committed in order", 1);
        assert_eq!(st.cascade_at.map(|c| c.2), Some(n));
    }
    let mut shown = String::new();
    for b in h(3).to_byte_array().iter().rev() {
        shown.push_str(&format!("{b:02x}"));
    }
    assert_eq!(
        st.halt,
        Some(format!(
            "cascade repeated 3× @1 {shown} (tip unchanged): plan not committed in order"
        ))
    );
    let mut st = on_path(&hub, 3);
    reject(&mut st, &mut hub, 3, "plan not committed in order", 1);
    hub.tip = Some(ChainTip { height: 0, hash: h(0x70) });
    reject(&mut st, &mut hub, 3, "plan not committed in order", 1);
    assert_eq!(st.cascade_at.map(|c| c.2), Some(1), "another tip starts over");
}

#[test]
fn second_engine_fault_halts() {
    let mut hub = genesis_hub();
    let mut st = on_path(&hub, 6);
    reject(&mut st, &mut hub, 6, "io error", 1);
    assert!(st.halt.is_none() && st.engine_fault_seen.contains(&h(6)));
    reject(&mut st, &mut hub, 6, "io error", 1);
    assert!(st.halt.as_ref().unwrap().starts_with("engine fault repeated @1 "));
}

#[test]
fn accepted_block_leaves_the_ordered_path() {
    let mut hub = genesis_hub();
    let mut st = on_path(&hub, 1);
    st.confirm_stuck_since = Some(3);
    hub.tip = Some(ChainTip { height: 1, hash: h(1) });
    let mut feed = ConfirmFeed::new();
    let ev = ConfirmEvent::Accepted { hash: h(1) };
    match apply_confirm_event(&mut st, &mut hub, &mut feed, &ev, NOW) {
        ConfirmStep::Accepted { write_next } => assert_eq!(write_next, 2),
        ConfirmStep::Rejected(_) => panic!("expected acceptance"),
    }
    assert!(st.ordered.is_empty() && st.confirm_stuck_since.is_none());
    assert!(st.body.is_known_archived(&h(1)));
    assert_eq!(st.max_ready_height, 1);
    assert_eq!(on_accepted(&mut st, &hub, h(1)), 2);
    let mut lag = 0u32;
    update_confirm_lag(&mut lag, Some(1), 9);
    assert_eq!(lag, 8);
    update_confirm_lag(&mut lag, None, 0);
    assert_eq!(lag, 0);
}

#[test]
fn quiesce_clears_the_feed_once() {
    let mut st = IbdWorkState::new(Vec::new(), None, Some(0));
    let mut feed = ConfirmFeed::new();
    feed.note(1, h(1));
    finish_confirm_events(&mut st, &mut feed);
    assert_eq!(feed.size_snap(), (1, 0));
    st.confirm_quiesce = true;
    finish_confirm_events(&mut st, &mut feed);
    assert_eq!(feed.size_snap(), (0, 0));
    assert!(!st.confirm_quiesce);
}

#[test]
fn blacklisted_block_gives_way_to_a_valid_child() {
    let mut hub = genesis_hub();
    hub.parents.insert(h(1), genesis());
    hub.parents.insert(h(2), genesis());
    let mut st = on_path(&hub, 1);
    st.hash_height.insert(h(2), 1);
    reject(&mut st, &mut hub, 1, "bad block", 1);
    explore_competing(&mut st, &vec![h(2)]);
    assert_eq!(st.reorg.explore_tips, vec![h(2)]);
    invalid_settled(&mut st, &hub, 100, false, NOW);
    assert_eq!(st.height_to_hash.get(&1), Some(&h(2)));
    assert!(st.confirm_stuck_since.is_none());

    let mut st = on_path(&hub, 1);
    reject(&mut st, &mut hub, 1, "bad block", 1);
    invalid_settled(&mut st, &hub, 100, false, NOW);
    assert_eq!(st.confirm_stuck_since, Some(NOW), "nothing to go on with");
}

/// A losing chain confirmed up to height two, and headers of a heavier branch from the
/// first block on. The seed asks for a rewind; the chain goes back to the fork, and the
/// branch is planted as a plain extension of it.
fn rewound_onto_branch(branch: &[(BlockHash, Vec<u8>)]) -> (ChainHub, IbdWorkState) {
    let mut hub = genesis_hub();
    for n in 1u8..=2 {
        hub.blocks.insert(h(n));
        hub.heights.insert(h(n), u32::from(n));
    }
    hub.tip = Some(ChainTip { height: 2, hash: h(2) });
    let mut path = Vec::new();
    let mut prev = genesis();
    for (i, (hash, _)) in branch.iter().enumerate() {
        path.push(PathEntry {
            hash: *hash,
            height: i as u32 + 1,
            header_fk: i as u64 + 10,
            has_body: false,
        });
        hub.parents.insert(*hash, prev);
        prev = *hash;
    }
    let mut st = IbdWorkState::new(vec![dummy_slot(0, addr(1))], hub.tip_hash(), hub.tip_height());
    let step = seed_work_path_from_store(&mut st, &hub, &path, 100);
    assert_eq!(step, SeedStep::AskRewind);
    for n in 1u8..=2 {
        hub.blocks.remove(&h(n));
        hub.heights.remove(&h(n));
    }
    hub.tip = Some(ChainTip { height: 0, hash: genesis() });
    assert!(try_apply_exploration(&mut st, RewindReply::Rewound));
    st.reorg.clear_explore();
    assert_eq!(seed_work_path_from_store(&mut st, &hub, &path, 100), SeedStep::Done);
    (hub, st)
}

fn branch_of(n: u32) -> Vec<(BlockHash, Vec<u8>)> {
    let mut out = Vec::new();
    let mut prev = genesis();
    for i in 0..n {
        let b = shell(prev, 100 + i);
        prev = b.0;
        out.push(b);
    }
    out
}

fn assign_full(st: &mut IbdWorkState, hub: &mut ChainHub) {
    let mut stats = LoopStats { assign_ns: 0, assign_issued: 0 };
    assign_work_ordered(st, hub, &config(), &mut stats, None, AssignDepth::Full, 65_536, NOW, 1);
}

#[test]
fn confirmed_height_mids_blocked_while_densify_ahead_leaves_tip_hole() {
    let branch = branch_of(5);
    let (mut hub, mut st) = rewound_onto_branch(&branch);
    let mut feed = ConfirmFeed::new();
    for (i, (hash, _)) in branch.iter().enumerate() {
        assert_eq!(st.height_to_hash.get(&(i as u32 + 1)), Some(hash));
    }
    assert!(
        st.reorg.need_getdata().is_empty(),
        "after rewind the winner is a linear extension"
    );
    let (w1, body) = branch[0].clone();
    assert!(!st.body.skip_download(false, &w1), "W1 must be downloadable as the new tip+1");
    assign_full(&mut st, &mut hub);
    assert!(st.inflight.contains_key(&w1), "assign must getdata new tip+1 W1");
    let ev = PeerEvent::BlockFramed { peer: 0, hash: w1, payload: body };
    deliver(&mut st, &mut hub, &mut feed, ev);
    assert!(hub.queue.has_height(1), "W1 must land in the body queue as a linear tip+1");
    assert_eq!(hub.queue.hash_at_height(1), Some(w1));
}

#[test]
fn zombie_pending_mid_at_confirmed_height_never_reget() {
    let branch = branch_of(3);
    let (mut hub, mut st) = rewound_onto_branch(&branch);
    let w1 = branch[0].0;
    assert_eq!(st.height_to_hash.get(&1), Some(&w1));
    st.body.mark_pending(w1, NOW);
    assert!(st.body.is_pending(&w1));
    assert!(st.reorg.get_held(&w1).is_none());
    assert!(!hub.queue.has_height(1));
    assert!(st.body.skip_download(false, &w1), "precondition: pending mid is skip_download");
    assign_full(&mut st, &mut hub);
    assert!(
        st.inflight.contains_key(&w1),
        "must re-getdata zombie-pending mid at already-confirmed height"
    );
    assert!(!st.body.is_pending(&w1), "zombie mid pending must be demoted before re-get");
}

//! The confirm pipeline: feed, waves, queues, and what a failure leads to.
use rbitcoin_ibd::body::BodyPresence;
use rbitcoin_ibd::chain::{ChainHub, ChainTip};
use rbitcoin_ibd::confirm_class::ConfirmRejectClass;
use rbitcoin_ibd::confirm_engine::{
    accept_rows, apply_write_store_fault, claim_load_batch, classify_write_store_fault,
    emit_confirm_reject,
    gives_up, load_settle, lookup_plan, lookup_settle, newest_row, requeue_on_uring_recover,
    requeue_run, script_settle, stamp_settle, wave_batches, write_begin, write_done, write_settle,
    write_triage, ConfirmEvent, EngineCounters, LookupFaultAction, LookupFaultPolicy, Settled,
    UringRecover, WriteStart, WriteStoreFault, WriteTriage,
};
use rbitcoin_ibd::confirm_feed::{
    lookup_ready_hash, offer_confirm_ready, write_batch_is_stale, write_batch_is_stale_plan,
    ConfirmFeed, ReadyBody,
};
use rbitcoin_ibd::confirm_queue::{
    confirm_queue_caps, drain_script_ok_write_queue, format_conf_q, format_queue_depth,
    format_stamp_reject_missing_prevout, load_queue_cap, max_claim_ahead, script_queue_cap,
    stamp_reject_operator_msg, write_drain_max_parts, write_queue_cap, ConfirmQueueDepths,
    StampMisses, WriteBatch, LOAD_QUEUE_CAP_DEFAULT, SCRIPT_QUEUE_CAP_DEFAULT,
    WRITE_QUEUE_CAP_DEFAULT,
};
use rbitcoin_ibd::confirm_thr_stats;
use rbitcoin_ibd::confirm_thr_stats::ConfirmThrStats;
use rbitcoin_ibd::confirm_wave::{
    batch_wire_bytes, block_input_count, chunk_parent_ids, confirm_batch_max_inputs,
    confirm_ready_count, load_batches_from_wave, load_stamp_items, pack_stop_after,
    split_wave_into_load_batches_kind, BatchParentIds, LoadBatch, LoadItem, OutPoint, QueueMeta,
    ResolvedWire, TxPrecompute, WireBlock, WireTx, CONFIRM_BATCH_INPUTS_DEFAULT,
    CONFIRM_RUN_MAX_BLOCKS,
};
use rbitcoin_ibd::error::{ConsensusError, NetError, StoreError, StoreFault};
use rbitcoin_ibd::hash::BlockHash;
use rbitcoin_ibd::keyed::KeyMap;
use rbitcoin_ibd::load_ahead::{ArchivedBlock, LoadAheadState};
use rbitcoin_ibd::time::Duration;
use std::collections::{HashMap, HashSet, VecDeque};
use std::sync::mpsc;
use std::sync::Arc;

fn bh(b: u8) -> BlockHash {
    BlockHash::from_byte_array([b; 32])
}

fn genesis_hub() -> ChainHub {
    let mut hub = ChainHub::new();
    let g = bh(0x6f);
    hub.tip = Some(ChainTip { height: 0, hash: g });
    hub.blocks.insert(g);
    hub.heights.insert(g, 0);
    hub.locator = Ok(vec![g]);
    hub
}

fn coinbase() -> WireTx {
    WireTx { inputs: vec![OutPoint { txid: bh(0), vout: u32::MAX }] }
}

fn one_tx_wire() -> ResolvedWire {
    ResolvedWire {
        block: Arc::new(WireBlock { payload: vec![7u8; 285], txs: vec![coinbase()] }),
        pres: Arc::new(vec![TxPrecompute { txid: bh(0x4a), wtxid: bh(0x4b) }]),
    }
}

fn item(h: u32) -> LoadItem {
    (h, bh(h as u8), one_tx_wire())
}

fn no_parents() -> BatchParentIds {
    BatchParentIds {
        ids: Arc::new(KeyMap::new()),
        spent: Arc::new(HashMap::new()),
        need_vouts: HashMap::new(),
    }
}

fn store_err(fault: StoreFault, session_fault: bool, backpressure: bool) -> ConsensusError {
    ConsensusError::Store(StoreError { fault, session_fault, backpressure })
}

fn io_err() -> ConsensusError {
    store_err(StoreFault::Io, false, false)
}

/// Contiguous feed claim from `expect`, optional skip of already-confirmed.
fn claim_feed_run(
    expect: u32,
    max: usize,
    claim_hi: u32,
    feed_has: impl Fn(u32) -> bool,
    already_confirmed: impl Fn(u32) -> bool,
) -> Vec<u32> {
    let mut run = Vec::with_capacity(max.min(32));
    let mut h = expect;
    while run.len() < max && h <= claim_hi {
        if !feed_has(h) {
            break;
        }
        if already_confirmed(h) {
            h = h.saturating_add(1);
            continue;
        }
        run.push(h);
        h = h.saturating_add(1);
    }
    run
}

/// Offline mirror of online pack: prefix length under soft inputs + hard blocks.
fn pack_confirm_run_len(
    input_counts: &[u32],
    soft_max_inputs: u32,
    hard_max_blocks: usize,
) -> usize {
    if input_counts.is_empty() || hard_max_blocks == 0 {
        return 0;
    }
    let mut sum = 0u32;
    let mut n = 0usize;
    for &c in input_counts {
        sum = sum.saturating_add(c);
        n += 1;
        if pack_stop_after(sum, n, soft_max_inputs, hard_max_blocks) {
            break;
        }
    }
    n.max(1).min(input_counts.len())
}

#[test]
fn pack_confirm_run_len_policy() {
    assert_eq!(pack_confirm_run_len(&[10, 10, 10], 8000, 144), 3);
    assert_eq!(pack_confirm_run_len(&[7990, 100, 50], 8000, 144), 2);
    assert_eq!(pack_confirm_run_len(&[50_000, 10], 8000, 144), 1);
    let ones = vec![1u32; 200];
    assert_eq!(
        pack_confirm_run_len(&ones, CONFIRM_BATCH_INPUTS_DEFAULT, CONFIRM_RUN_MAX_BLOCKS),
        CONFIRM_RUN_MAX_BLOCKS
    );
    assert_eq!(pack_confirm_run_len(&[], 8000, 144), 0);
    assert_eq!(pack_confirm_run_len(&[4000, 4000, 1], 8000, 144), 3);
    assert_eq!(pack_confirm_run_len(&[4000, 4000, 1, 1], 8000, 144), 3);
}

#[test]
fn split_wave_into_load_batches_is_eight_by_8000() {
    assert_eq!(LOAD_QUEUE_CAP_DEFAULT, 14);
    assert_eq!(confirm_queue_caps().load, LOAD_QUEUE_CAP_DEFAULT);
    assert_eq!(load_queue_cap(), LOAD_QUEUE_CAP_DEFAULT);
    assert!(LoadBatch { items: vec![], parent_ids: None, drop_inflight_below: None, epoch: 0 }
        .items
        .is_empty());
    let wave: Vec<u32> = vec![8001; 8];
    let parts = split_wave_into_load_batches_kind(
        &wave,
        &[],
        CONFIRM_BATCH_INPUTS_DEFAULT,
        CONFIRM_RUN_MAX_BLOCKS,
    );
    assert_eq!(parts, vec![1, 1, 1, 1, 1, 1, 1, 1]);
    assert_eq!(split_wave_into_load_batches_kind(&[8000, 8000], &[], 8000, 144), vec![2]);
    assert!(split_wave_into_load_batches_kind(&[], &[], 8000, 144).is_empty());
    assert_eq!(split_wave_into_load_batches_kind(&[50_000], &[], 8000, 144), vec![1]);
    let thin = vec![1u32; 288];
    assert_eq!(split_wave_into_load_batches_kind(&thin, &[], 8000, 144), vec![144, 144]);
}

#[test]
fn split_wave_into_load_batches_stops_at_has_body_change() {
    let counts = [1u32, 1, 1, 1, 1];
    let has_body = [true, true, false, false, false];
    assert_eq!(split_wave_into_load_batches_kind(&counts, &has_body, 8000, 144), vec![2, 3]);
    assert_eq!(
        split_wave_into_load_batches_kind(&[4000, 4000], &[true, false], 8000, 144),
        vec![1, 1]
    );
    assert_eq!(
        split_wave_into_load_batches_kind(&[8000, 8000], &[false, false], 8000, 144),
        vec![2]
    );
    assert!(split_wave_into_load_batches_kind(&[], &[], 8000, 144).is_empty());
    assert_eq!(split_wave_into_load_batches_kind(&[50_000], &[true], 8000, 144), vec![1]);
}

#[test]
fn last_sent_load_batch_carries_wave_drain_fence() {
    let items: Vec<LoadItem> = (1..=5).map(item).collect();
    let parts = split_wave_into_load_batches_kind(&[1, 1, 1, 1, 1], &[], 2, 2);
    assert_eq!(parts, vec![2, 2, 1]);
    let empty_ids = no_parents();
    let batches = load_batches_from_wave(&items, &parts, 14, &empty_ids, Some(40));
    assert_eq!(batches.len(), 3);
    assert!(batches[0].drop_inflight_below.is_none());
    assert!(batches[1].drop_inflight_below.is_none());
    assert_eq!(batches[2].drop_inflight_below, Some(40));
    assert_eq!(batches[0].items.len(), 2);
    assert_eq!(batches[2].items.len(), 1);
    assert!(batches.iter().all(|b| b.parent_ids.is_some()));

    let truncated = load_batches_from_wave(&items, &parts, 2, &empty_ids, Some(7));
    assert_eq!(truncated.len(), 2, "remaining loadq slots cap sent batches");
    assert!(truncated[0].drop_inflight_below.is_none());
    assert_eq!(
        truncated[1].drop_inflight_below,
        Some(7),
        "last sent batch of a truncated wave still carries the snapshot"
    );

    let unmarked = load_batches_from_wave(&items, &parts, 14, &empty_ids, None);
    assert!(unmarked.last().unwrap().drop_inflight_below.is_none());
}

#[test]
fn chunk_parent_ids_vouts_are_per_chunk() {
    let mut raw = [0u8; 32];
    raw[0] = 0x42;
    let parent = BlockHash::from_byte_array(raw);
    let mut ids = KeyMap::new();
    ids.insert(parent, (Some(7), (100, 32)));
    let wave = BatchParentIds {
        ids: Arc::new(ids),
        spent: Arc::new(HashMap::new()),
        need_vouts: HashMap::new(),
    };
    let spend = WireBlock {
        payload: vec![0u8; 200],
        txs: vec![coinbase(), WireTx { inputs: vec![OutPoint { txid: parent, vout: 0 }] }],
    };
    let pres_spend = vec![
        TxPrecompute { txid: bh(0x51), wtxid: bh(0x51) },
        TxPrecompute { txid: bh(0x52), wtxid: bh(0x52) },
    ];
    let chunk0 =
        vec![(1u32, bh(1), ResolvedWire { block: Arc::new(spend), pres: Arc::new(pres_spend) })];
    let chunk1 = vec![(2u32, bh(2), one_tx_wire())];
    let a = chunk_parent_ids(&wave, &chunk0);
    let b = chunk_parent_ids(&wave, &chunk1);
    assert_eq!(a.need_vouts.get(&7).map(|v| v.as_slice()), Some(&[0][..]));
    assert!(
        b.need_vouts.get(&7).is_none(),
        "chunk that does not spend the parent must not list its vout"
    );
    assert!(Arc::ptr_eq(&a.ids, &b.ids), "chunks share the wave map");
    assert!(Arc::ptr_eq(&a.spent, &wave.spent));
}

#[test]
fn load_recv_is_lookup_order() {
    let (tx, rx) = mpsc::sync_channel::<LoadBatch>(8);
    tx.send(LoadBatch {
        items: vec![item(1), item(2)],
        parent_ids: None,
        drop_inflight_below: None,
        epoch: 0,
    })
    .unwrap();
    tx.send(LoadBatch {
        items: vec![item(3)],
        parent_ids: None,
        drop_inflight_below: Some(7),
        epoch: 0,
    })
    .unwrap();
    let a = rx.recv().unwrap();
    let b = rx.recv().unwrap();
    assert_eq!(a.items[0].0, 1);
    assert_eq!(a.items[1].0, 2);
    assert!(a.drop_inflight_below.is_none());
    assert_eq!(b.items[0].0, 3);
    assert_eq!(b.drop_inflight_below, Some(7));
}

#[test]
fn load_stamp_items_keep_pres() {
    let wire = one_tx_wire();
    let pres = Arc::clone(&wire.pres);
    let lb = LoadBatch {
        items: vec![(1, bh(1), wire)],
        parent_ids: None,
        drop_inflight_below: None,
        epoch: 0,
    };
    let items = load_stamp_items(&lb.items);
    assert_eq!(items.len(), 1);
    let got = items[0].2.as_ref().expect("load must pass lookup pres");
    assert!(Arc::ptr_eq(got, &pres), "stamp input must keep the batch's pres");
}

#[test]
fn lookup_blocks_when_loadq_full() {
    let empty = || LoadBatch {
        items: vec![],
        parent_ids: None,
        drop_inflight_below: None,
        epoch: 0,
    };
    let (tx, rx) = mpsc::sync_channel::<LoadBatch>(LOAD_QUEUE_CAP_DEFAULT);
    for _ in 0..LOAD_QUEUE_CAP_DEFAULT {
        tx.send(empty()).unwrap();
    }
    assert!(tx.try_send(empty()).is_err(), "a send past the cap must wait / fail");
    let _ = rx.recv().unwrap();
    tx.send(empty()).unwrap();
    let mut depths = ConfirmQueueDepths::new();
    for _ in 0..LOAD_QUEUE_CAP_DEFAULT {
        depths.note_load_send(1, 1);
    }
    let plan = lookup_plan(&ConfirmFeed::new(), &genesis_hub(), &depths, 10_000, u32::MAX);
    assert_eq!(plan.remaining, 0);
    assert_eq!(plan.max_blocks, 0);
}

#[test]
fn block_input_count_sums_tx_inputs() {
    let mk_tx = |n: usize| WireTx {
        inputs: (0..n).map(|i| OutPoint { txid: bh(i as u8), vout: 0 }).collect(),
    };
    let block = WireBlock { payload: vec![0u8; 80], txs: vec![mk_tx(1), mk_tx(3), mk_tx(2)] };
    assert_eq!(block_input_count(&block), 6);
}

#[test]
fn pipeline_parents_meter_prep_and_write() {
    let mut q = ConfirmQueueDepths::new();
    q.note_script_send(2, 1_000, 50);
    q.note_write_send(3, 2_000, 80);
    let c = q.content_snap();
    assert_eq!(c.script_parents, 50);
    assert_eq!(c.write_parents, 80);
    assert_eq!(c.parents_total(), 130);
    q.note_script_recv(2, 1_000, 50);
    q.note_write_recv(3, 2_000, 80);
    let c2 = q.content_snap();
    assert_eq!(c2.parents_total(), 0);
    q.note_write_recv(1, 1, 99);
    assert_eq!(q.content_snap().write_parents, 0);
}

#[test]
fn claim_feed_wave_and_skip_confirmed() {
    let run = claim_feed_run(101, 32, 200, |h| h >= 101 && h < 101 + 40, |_| false);
    assert_eq!(run.len(), 32);
    assert_eq!(run[0], 101);
    assert_eq!(*run.last().unwrap(), 132);
    let run = claim_feed_run(10, 32, 200, |h| h >= 10 && h <= 50, |h| h == 10 || h == 11);
    assert_eq!(run.first().copied(), Some(12));
    assert_eq!(run.len(), 32);
}

#[test]
fn claim_ahead_cap_blocks_far_skip() {
    let ahead = max_claim_ahead();
    assert!(ahead >= CONFIRM_RUN_MAX_BLOCKS as u32);
    assert!(
        ahead <= 64 * 3 * CONFIRM_RUN_MAX_BLOCKS as u32 + CONFIRM_RUN_MAX_BLOCKS as u32,
        "keep claim window within env clamp: {ahead}"
    );
    let path_lo = 87u32;
    let run = claim_feed_run(
        path_lo,
        CONFIRM_RUN_MAX_BLOCKS,
        path_lo + ahead,
        |h| h >= path_lo && h < path_lo + 1000,
        |_| false,
    );
    assert_eq!(run.len(), CONFIRM_RUN_MAX_BLOCKS);
    assert_eq!(run[0], path_lo);
    assert!(*run.last().unwrap() <= path_lo + ahead);
}

#[test]
fn requeue_clears_inflight_so_tip_can_retry() {
    let mut feed = ConfirmFeed::new();
    feed.note(87, bh(1));
    feed.note(88, bh(2));
    feed.ready.remove(&87);
    feed.ready.remove(&88);
    feed.inflight.insert(87);
    feed.inflight.insert(88);
    feed.requeue_wire(&vec![(87, bh(1), None), (88, bh(2), None)]);
    assert!(!feed.inflight.contains(&87));
    assert!(!feed.inflight.contains(&88));
    assert!(feed.ready.contains_key(&87));
    assert!(feed.ready.contains_key(&88));
}

#[test]
fn queue_hwm_tracks_max_depth() {
    let mut q = ConfirmQueueDepths::new();
    q.note_script_send(32, 1, 0);
    q.note_script_send(32, 1, 0);
    assert_eq!(q.snap().1, 2);
    q.note_script_recv(32, 1, 0);
    assert_eq!(q.snap().1, 1);
    let (_lh, sh, wh) = q.sample_hwm_and_reset();
    assert_eq!(sh, 2, "hwm keeps max even after recv");
    assert_eq!(wh, 0);
    let (_, sh2, _) = q.sample_hwm_and_reset();
    assert_eq!(sh2, 0, "hwm resets each sample window");
}

#[test]
fn queue_load_send_saturates_wire_and_parents() {
    let mut q = ConfirmQueueDepths::new();
    let half = usize::MAX / 2 + 1;
    q.note_script_send(1, half, half);
    q.note_script_send(1, half, half);
    let c = q.content_snap();
    assert_eq!(c.script_wire_bytes, usize::MAX);
    assert_eq!(c.script_parents, usize::MAX);
    assert_eq!(c.script_blocks, 2);
    q.note_script_recv(1, half, half);
    let c2 = q.content_snap();
    assert!(c2.script_wire_bytes <= usize::MAX);
    assert!(c2.script_parents <= usize::MAX);
}

#[test]
fn thr_stats_add_is_local() {
    let mut a: u64 = 0;
    confirm_thr_stats::add(&mut a, Duration::from_millis(5));
    confirm_thr_stats::add(&mut a, Duration::from_millis(20));
    assert!(a >= 25_000_000);
    let before = a;
    confirm_thr_stats::add(&mut a, Duration::from_nanos(0));
    assert_eq!(a, before, "zero duration is a no-op");
    assert_eq!(
        confirm_thr_stats::script_work_from_verify_ns(2_000),
        Duration::from_nanos(2_000)
    );
}

fn no_misses() -> StampMisses {
    StampMisses {
        leftover_n: 0,
        leftover_hit: 0,
        miss_n: 0,
        miss_txid: None,
        pending: false,
        miss_on: None,
        miss_cands: 0,
        diag: false,
    }
}

#[test]
fn stamp_reject_names_leftover_unresolved() {
    let msg = stamp_reject_operator_msg("missing prevout", &no_misses());
    assert!(msg.contains("missing prevout"), "{msg}");
    assert!(msg.contains("unresolved"), "{msg}");
    assert!(msg.contains("leftover_n="), "{msg}");
    assert!(msg.contains("leftover_hit="), "{msg}");
    assert!(!msg.contains("corrupt"), "must not look like store wipe: {msg}");
    assert_eq!(
        stamp_reject_operator_msg("unexpected previous header", &no_misses()),
        "unexpected previous header"
    );
}

#[test]
fn stamp_reject_names_union_miss_txid() {
    let mut raw = [0u8; 32];
    raw[0] = 0xab;
    raw[31] = 0xcd;
    let msg = format_stamp_reject_missing_prevout(&StampMisses {
        leftover_n: 1914,
        leftover_hit: 1913,
        miss_n: 1,
        miss_txid: Some(BlockHash::from_byte_array(raw)),
        pending: true,
        miss_on: Some("head".to_string()),
        miss_cands: 0,
        diag: false,
    });
    assert!(msg.contains("leftover_n=1914"), "{msg}");
    assert!(msg.contains("leftover_hit=1913"), "{msg}");
    assert!(msg.contains("miss_n=1"), "{msg}");
    assert!(msg.contains("miss_txid="), "{msg}");
    assert!(msg.contains("pending=1"), "{msg}");
    assert!(msg.contains("miss_on=head"), "{msg}");
    assert!(msg.contains("miss_cands=0"), "{msg}");
    let mut disp = String::new();
    for b in raw.iter().rev() {
        disp.push_str(&format!("{b:02x}"));
    }
    assert!(msg.contains(&disp), "operator line must name display txid {disp}: {msg}");
}

#[test]
fn feed_note_requeue_finish_surface() {
    let mut feed = ConfirmFeed::new();
    feed.note(100, bh(1));
    let body = feed.ready.remove(&100).unwrap();
    feed.inflight.insert(100);
    assert_eq!(body.hash, bh(1));
    assert!(body.wire.is_none());
    feed.note(100, bh(1));
    assert!(feed.ready.is_empty(), "inflight height must not re-enter ready");
    assert!(feed.inflight.contains(&100));

    feed.inflight.insert(50);
    feed.inflight.insert(51);
    feed.requeue_wire(&vec![(50, bh(5), None), (51, bh(6), None)]);
    assert!(!feed.inflight.contains(&50));
    assert_eq!(feed.ready.get(&50).map(|b| b.hash), Some(bh(5)));
    assert_eq!(feed.ready.get(&51).map(|b| b.hash), Some(bh(6)));

    feed.inflight.insert(10);
    feed.inflight.insert(11);
    feed.finish(&vec![10, 11]);
    assert!(!feed.inflight.contains(&10));
    assert!(!feed.inflight.contains(&11));
}

#[test]
fn queue_depth_log_and_caps_surface() {
    assert_eq!(format_queue_depth("write", 0, 2), "write<0/2");
    assert_eq!(format_queue_depth("script", 1, 2), "script=1/2");
    assert_eq!(format_queue_depth("write", 2, 2), "write=2/2");
    assert_eq!(format_conf_q(0, 0, 1, 8, 2, 2), "loadq<0/8 scriptq<0/2 writeq=1/2");
    assert_eq!(format_conf_q(3, 1, 0, 8, 2, 2), "loadq=3/8 scriptq=1/2 writeq<0/2");
    assert_eq!(format_conf_q(0, 0, 0, 8, 2, 2), "loadq<0/8 scriptq<0/2 writeq<0/2");

    let caps = confirm_queue_caps();
    assert_eq!(caps.script, SCRIPT_QUEUE_CAP_DEFAULT);
    assert_eq!(caps.write, WRITE_QUEUE_CAP_DEFAULT);
    assert_eq!(script_queue_cap(), caps.script);
    assert_eq!(write_queue_cap(), caps.write);
    for c in [caps.script, caps.write] {
        assert!(c >= 1, "queue cap must be positive: {c}");
    }
    assert_eq!(
        format_conf_q(0, 0, 0, caps.load, caps.script, caps.write),
        format!("loadq<0/{} scriptq<0/{} writeq<0/{}", caps.load, caps.script, caps.write)
    );
    assert_eq!(
        format_conf_q(caps.load, caps.script, caps.write, caps.load, caps.script, caps.write),
        format!(
            "loadq={0}/{0} scriptq={1}/{1} writeq={2}/{2}",
            caps.load, caps.script, caps.write
        )
    );
}

#[test]
fn feed_stop_size_snap_and_empty_requeue() {
    let mut feed = ConfirmFeed::new();
    assert!(!feed.stopped());
    assert_eq!(feed.size_snap(), (0, 0));
    feed.note(1, bh(1));
    feed.note(2, bh(2));
    feed.inflight.insert(3);
    assert_eq!(feed.size_snap(), (2, 1));
    feed.requeue_wire(&vec![]);
    assert_eq!(feed.size_snap(), (2, 1));
    feed.request_stop();
    assert!(feed.stopped());
}

#[test]
fn claim_feed_stops_at_gap() {
    let run = claim_feed_run(5, 10, 100, |h| h == 5 || h == 6 || h == 8, |_| false);
    assert_eq!(run, vec![5, 6]);
    let empty = claim_feed_run(1, 8, 100, |_| false, |_| false);
    assert!(empty.is_empty());
}

#[test]
fn confirm_queue_depths_content_snap_and_notes() {
    let mut q = ConfirmQueueDepths::new();
    assert_eq!(q.snap(), (0, 0, 0));
    let c0 = q.content_snap();
    assert_eq!(c0.script_batches, 0);
    assert_eq!(c0.write_batches, 0);
    assert_eq!(c0.feed_ready, 0);
    assert_eq!(c0.feed_inflight, 0);

    q.note_script_send(3, 1000, 2);
    q.note_write_send(2, 500, 7);
    let c1 = q.content_snap();
    assert_eq!(c1.script_batches, 1);
    assert_eq!(c1.script_blocks, 3);
    assert_eq!(c1.script_wire_bytes, 1000);
    assert_eq!(c1.script_parents, 2);
    assert_eq!(c1.write_batches, 1);
    assert_eq!(c1.write_blocks, 2);
    assert_eq!(c1.write_wire_bytes, 500);
    assert_eq!(c1.write_parents, 7);
    assert_eq!(c1.parents_total(), 9);
    assert_eq!(q.snap(), (0, 1, 1));

    q.note_script_recv(3, 1000, 2);
    q.note_write_recv(2, 500, 7);
    let c2 = q.content_snap();
    assert_eq!(c2.script_batches, 0);
    assert_eq!(c2.write_batches, 0);
    assert_eq!(c2.script_blocks, 0);
    assert_eq!(c2.write_blocks, 0);
    q.note_script_recv(99, 99, 99);
    assert_eq!(q.content_snap().script_blocks, 0);
}

#[test]
fn offer_confirm_ready_walks_height_map() {
    let hub = genesis_hub();
    let mut feed = ConfirmFeed::new();
    let mut body = BodyPresence::new();
    let mut h2h = HashMap::new();
    let h1 = bh(0x11);
    h2h.insert(1u32, h1);
    body.mark_pending(h1, 1);
    let mut max_ready = 0u32;
    let n = offer_confirm_ready(&mut feed, &h2h, &body, &hub, &mut max_ready);
    assert_eq!(n, 0, "pending without body queue must not note");
    assert_eq!(feed.size_snap().0, 0);

    body.mark_rejected(h1);
    assert_eq!(offer_confirm_ready(&mut feed, &h2h, &body, &hub, &mut max_ready), 0);

    let h2h2 = HashMap::new();
    assert_eq!(offer_confirm_ready(&mut feed, &h2h2, &body, &hub, &mut max_ready), 0);

    let h2 = bh(0x22);
    feed.note(1, h1);
    feed.inflight.insert(1);
    feed.ready.remove(&1);
    assert_eq!(offer_confirm_ready(&mut feed, &h2h, &body, &hub, &mut max_ready), 0);

    body = BodyPresence::new();
    let mut h2h3 = HashMap::new();
    h2h3.insert(1u32, h1);
    h2h3.insert(2u32, h2);
    body.mark_archived(h1);
    feed.finish(&vec![1]);
    max_ready = 0;
    let n5 = offer_confirm_ready(&mut feed, &h2h3, &body, &hub, &mut max_ready);
    assert_eq!(n5, 0, "archived without body queue must not note confirm feed");

    body.mark_pending(h1, 1);
    let n6 = offer_confirm_ready(&mut feed, &h2h3, &body, &hub, &mut max_ready);
    assert_eq!(n6, 0, "pending alone must not note without body queue");
}

#[test]
fn offer_notes_the_queued_run_above_the_tip() {
    let mut hub = genesis_hub();
    let mut feed = ConfirmFeed::new();
    let mut body = BodyPresence::new();
    let mut h2h = HashMap::new();
    for ht in 1u32..=6 {
        h2h.insert(ht, bh(ht as u8));
        if ht != 5 {
            assert!(hub.queue.offer(ht, bh(ht as u8), 1, vec![0u8; 80]));
        }
    }
    hub.parents.insert(bh(1), bh(0x6f));
    hub.blocks.insert(bh(2));
    feed.inflight.insert(3);
    let mut max_ready = 0u32;
    let n = offer_confirm_ready(&mut feed, &h2h, &body, &hub, &mut max_ready);
    assert_eq!(n, 3, "heights 1, 3 and 4; 2 is confirmed, 5 is a gap");
    assert_eq!(max_ready, 4);
    assert!(feed.ready.contains_key(&1) && feed.ready.contains_key(&4));
    assert!(!feed.ready.contains_key(&3), "a claimed height is not noted again");
    assert!(!feed.ready.contains_key(&6));

    body.mark_rejected(bh(4));
    let mut again = ConfirmFeed::new();
    assert_eq!(offer_confirm_ready(&mut again, &h2h, &body, &hub, &mut max_ready), 2);

    hub.parents.insert(bh(1), bh(0x77));
    let mut other = ConfirmFeed::new();
    assert_eq!(
        offer_confirm_ready(&mut other, &h2h, &body, &hub, &mut max_ready),
        0,
        "a first block with another parent stops the walk"
    );
}

#[test]
fn claim_feed_skips_inflight_and_confirmed_in_helper() {
    let run = claim_feed_run(
        1,
        8,
        100,
        |h| (1..=10).contains(&h),
        |h| h == 1 || h == 2 || h == 5,
    );
    assert_eq!(run.first().copied(), Some(3));
    assert!(!run.contains(&5));
    assert_eq!(run, vec![3, 4, 6, 7, 8, 9, 10]);
    assert!(claim_feed_run(1, 0, 100, |_| true, |_| false).is_empty());
}

#[test]
fn thr_stats_all_stages_and_note_wire_prefer() {
    let mut feed = ConfirmFeed::new();
    feed.note(10, bh(1));
    assert!(feed.ready.get(&10).unwrap().wire.is_none());
    feed.note_wire(10, bh(1), Some(vec![1, 2, 3]));
    assert!(feed.ready.get(&10).unwrap().wire.is_some());
    feed.note_wire(10, bh(1), Some(vec![9, 9, 9]));
    assert_eq!(
        feed.ready.get(&10).unwrap().wire.as_ref().unwrap(),
        &vec![1, 2, 3],
        "must keep first wire, not replace"
    );
    feed.inflight.insert(11);
    feed.note_wire(11, bh(2), Some(vec![1]));
    assert!(!feed.ready.contains_key(&11));
    feed.requeue_wire(&vec![(10, bh(1), None)]);
    assert!(feed.ready.get(&10).unwrap().wire.is_some());
    assert!(!feed.inflight.contains(&10));
    feed.note(12, bh(3));
    feed.requeue_wire(&vec![(12, bh(3), Some(vec![4]))]);
    assert!(feed.ready.get(&12).unwrap().wire.is_some());
    feed.clear();
    assert!(feed.ready.is_empty());
    assert!(feed.inflight.is_empty());

    assert!(!pack_stop_after(0, 0, 8000, 144));
    assert!(pack_stop_after(0, 144, 8000, 144));
    assert!(pack_stop_after(8001, 1, 8000, 144));
    assert!(!pack_stop_after(8000, 1, 8000, 144));
    assert_eq!(confirm_batch_max_inputs(), CONFIRM_BATCH_INPUTS_DEFAULT);
    assert_eq!(write_drain_max_parts(20), 20);
    assert_eq!(write_drain_max_parts(4), 4);
    assert_eq!(write_drain_max_parts(3), 3);
    assert_eq!(write_drain_max_parts(0), 1);
}

#[test]
fn each_timer_has_its_own_stage() {
    let mut s = ConfirmThrStats::new();
    let d = Duration::from_nanos(1);
    confirm_thr_stats::add_lookup_claim(&mut s, d);
    confirm_thr_stats::add_lookup_stamp(&mut s, Duration::from_nanos(2));
    confirm_thr_stats::add_lookup_other(&mut s, Duration::from_nanos(3));
    confirm_thr_stats::add_lookup_send_wait(&mut s, Duration::from_nanos(4));
    confirm_thr_stats::add_load_recv_wait(&mut s, Duration::from_nanos(5));
    confirm_thr_stats::add_load_pack(&mut s, Duration::from_nanos(6));
    confirm_thr_stats::add_load_clone(&mut s, Duration::from_nanos(7));
    confirm_thr_stats::add_load_stamp(&mut s, Duration::from_nanos(8));
    confirm_thr_stats::add_load_pin(&mut s, Duration::from_nanos(9));
    confirm_thr_stats::add_load_asm(&mut s, Duration::from_nanos(10));
    confirm_thr_stats::add_load_prune(&mut s, Duration::from_nanos(11));
    confirm_thr_stats::add_load_send_wait(&mut s, Duration::from_nanos(12));
    confirm_thr_stats::add_script_recv_wait(&mut s, Duration::from_nanos(13));
    confirm_thr_stats::add_script_work(&mut s, Duration::from_nanos(14));
    confirm_thr_stats::add_script_send_wait(&mut s, Duration::from_nanos(15));
    confirm_thr_stats::add_write_recv_wait(&mut s, Duration::from_nanos(16));
    confirm_thr_stats::add_write_work(&mut s, Duration::from_nanos(17));
    assert_eq!(
        [s.lookup_claim_ns, s.lookup_stamp_ns, s.lookup_other_ns, s.lookup_send_wait_ns],
        [1, 2, 3, 4]
    );
    assert_eq!(
        [
            s.load_recv_wait_ns,
            s.load_pack_ns,
            s.load_clone_ns,
            s.load_stamp_ns,
            s.load_pin_ns,
            s.load_asm_ns,
            s.load_prune_ns,
            s.load_send_wait_ns
        ],
        [5, 6, 7, 8, 9, 10, 11, 12]
    );
    assert_eq!(
        [s.script_recv_wait_ns, s.script_work_ns, s.script_send_wait_ns],
        [13, 14, 15]
    );
    assert_eq!([s.write_recv_wait_ns, s.write_work_ns], [16, 17]);
}

#[test]
fn write_batch_is_stale_after_tip_moves() {
    let hub = genesis_hub();
    assert!(!write_batch_is_stale(&hub, 1), "tip+1 is live");
    assert!(write_batch_is_stale(&hub, 0), "already-confirmed height is stale");
    assert!(write_batch_is_stale(&hub, 2), "ahead of tip+1 is not the live batch");
}

#[test]
fn confirm_feed_clear_drops_queued_plans() {
    let mut feed = ConfirmFeed::new();
    feed.note(10, bh(1));
    feed.note(11, bh(2));
    feed.inflight.insert(12);
    assert_eq!(feed.ready.len(), 2);
    assert_eq!(feed.inflight.len(), 1);
    feed.clear();
    let (ready, inflight) = feed.size_snap();
    assert_eq!(ready, 0, "rewind must drop ready confirm plans");
    assert_eq!(inflight, 0, "rewind must drop inflight confirm plans");
    assert_eq!(feed.epoch(), 1, "clear bumps the rewind epoch");
}

#[test]
fn isolate_if_batched_downgrades_multi_block_consensus() {
    assert_eq!(
        ConfirmRejectClass::ConsensusInvalid.isolate_if_batched(1),
        ConfirmRejectClass::ConsensusInvalid
    );
    assert_eq!(
        ConfirmRejectClass::ConsensusInvalid.isolate_if_batched(8),
        ConfirmRejectClass::Cascade
    );
    assert_eq!(
        ConfirmRejectClass::EngineFault.isolate_if_batched(8),
        ConfirmRejectClass::EngineFault
    );
}

#[test]
fn plan_epoch_stale_after_clear() {
    let mut feed = ConfirmFeed::new();
    let live = feed.epoch();
    feed.claimed_epoch.insert(1, live);
    assert!(!feed.plan_epoch_stale(1), "claimed at live epoch");
    feed.clear();
    assert!(feed.plan_epoch_stale(1), "in-channel plan claimed before rewind is stale");
    assert!(!feed.plan_epoch_stale(99), "unknown height is not stale");
}

#[test]
fn write_session_fault_is_engine_fault_and_requeue_puts_ready() {
    let undrained =
        store_err(StoreFault::Corrupt("invariant: io_uring undrained".to_string()), true, false);
    assert_eq!(
        ConfirmRejectClass::from_consensus(&undrained),
        ConfirmRejectClass::EngineFault
    );
    let leftover =
        store_err(StoreFault::Corrupt("invariant: io_uring leftover cqe".to_string()), true, false);
    assert_eq!(ConfirmRejectClass::from_consensus(&leftover), ConfirmRejectClass::EngineFault);
    assert_eq!(ConfirmRejectClass::from_consensus(&io_err()), ConfirmRejectClass::EngineFault);

    let mut feed = ConfirmFeed::new();
    feed.inflight.insert(10);
    feed.requeue_hashes(&vec![(10, bh(1))]);
    assert!(feed.ready.contains_key(&10));
    assert!(!feed.inflight.contains(&10));
}

#[test]
fn requeue_on_uring_recover_credits_then_skips_non_fault() {
    let mut feed = ConfirmFeed::new();
    feed.inflight.insert(7);
    assert!(requeue_on_uring_recover(
        &mut feed,
        true,
        UringRecover::Recovered,
        &vec![(7, bh(3))]
    ));
    assert!(feed.ready.contains_key(&7));
    assert!(!feed.inflight.contains(&7));
    assert!(!requeue_on_uring_recover(&mut feed, false, UringRecover::Recovered, &vec![]));
    feed.inflight.insert(8);
    assert!(!requeue_on_uring_recover(
        &mut feed,
        true,
        UringRecover::Exhausted,
        &vec![(8, bh(4))]
    ));
    assert!(feed.inflight.contains(&8));
}

#[test]
fn lookup_fault_policy_io_halt() {
    let mut p = LookupFaultPolicy::default();
    let bp = store_err(StoreFault::BudgetFull, false, true);
    assert_eq!(p.on_err(&bp), LookupFaultAction::Ignore);
    let io = io_err();
    for _ in 0..7 {
        assert_eq!(p.on_err(&io), LookupFaultAction::Warn);
    }
    assert_eq!(p.on_err(&io), LookupFaultAction::RejectEngineFault);
    p.on_success();
    assert_eq!(p.on_err(&io), LookupFaultAction::Warn);
    assert_eq!(
        p.on_err_recover(&io, Some(UringRecover::Recovered)),
        LookupFaultAction::RecoverContinue
    );
    assert_eq!(p.consecutive, 0);
    assert_eq!(p.on_err_recover(&io, Some(UringRecover::Exhausted)), LookupFaultAction::Abort);
}

#[test]
fn lookup_ready_hash_none_when_missing() {
    let mut feed = ConfirmFeed::new();
    assert!(lookup_ready_hash(&feed, 10).is_none());
    feed.ready.insert(10, ReadyBody { hash: bh(2), wire: None });
    assert_eq!(lookup_ready_hash(&feed, 10), Some(bh(2)));
}

#[test]
fn load_session_fault_after_note_lookup_ok_clears_speculative_fks() {
    let body0 = 40u64;
    let mut st = LoadAheadState::new(body0);
    let durable = body0.saturating_add(1).max(1);
    let planned = vec![Some(body0.saturating_add(10).max(10))];
    assert!(st.note_lookup_ok(&planned, 1, 1, bh(1)));
    assert!(st.next_tx_start > durable);
    assert_eq!(st.last_loaded, Some((1, bh(1))));
    st.on_uring_recover(body0);
    assert_eq!(st.next_tx_start, durable);
    assert!(st.last_loaded.is_none());
}

#[test]
fn archived_creates_are_told_with_their_rows() {
    let mut st = LoadAheadState::new(0);
    let (pairs, top) = st.note_archived_creates(&vec![
        ArchivedBlock {
            height: 4,
            hash: bh(4),
            creates: vec![(Some(11), Some(bh(0xa1))), (None, Some(bh(0xa2)))],
        },
        ArchivedBlock { height: 5, hash: bh(5), creates: vec![(Some(13), Some(bh(0xa3)))] },
    ]);
    assert_eq!(pairs, vec![(bh(0xa1), 11), (bh(0xa3), 13)]);
    assert_eq!(top, Some(5));
}

#[test]
fn load_pipeline_continues_behind_what_was_loaded() {
    let mut st = LoadAheadState::new(9);
    st.note_lookup_ok(&vec![Some(20)], 1, 7, bh(7));
    let p = st.pipeline_for(8, 3);
    assert_eq!(p.next_tx_start, 21);
    assert_eq!(p.parent_hash, Some(bh(7)));
    st.clear_all(30);
    assert_eq!(st.next_tx_start, 31);
    assert_eq!(st.stamp_pipeline(8, 3), Some(st.pipeline_for(8, 3)));
    assert_eq!(st.stamp_pipeline(3, 3), Some(st.pipeline_for(3, 3)));
    assert_eq!(st.stamp_pipeline(2, 3), None);
}

#[test]
fn claimed_height_leaves_ready_and_is_not_noted_again() {
    let mut feed = ConfirmFeed::new();
    feed.note(4, bh(4));
    let e = feed.epoch();
    feed.claim(4, e);
    assert!(feed.in_flight(4));
    assert!(!feed.ready.contains_key(&4));
    feed.note(4, bh(4));
    assert!(!feed.ready.contains_key(&4));
    assert_eq!(feed.inflight_heights(), vec![4]);
    feed.finish(&vec![4]);
    feed.note(4, bh(4));
    assert!(feed.ready.contains_key(&4));
    feed.drop_ready(4);
    assert!(!feed.ready.contains_key(&4));
}

#[test]
fn claim_load_batch_leaves_out_confirmed_and_claimed() {
    let mut hub = genesis_hub();
    hub.blocks.insert(bh(1));
    let mut feed = ConfirmFeed::new();
    for h in 1u32..=4 {
        feed.note(h, bh(h as u8));
    }
    let e = feed.epoch();
    feed.claim(3, e);
    let run = claim_load_batch(&mut feed, &hub, (1..=4).map(item).collect(), e).unwrap();
    let hs: Vec<u32> = run.iter().map(|x| x.0).collect();
    assert_eq!(hs, vec![2, 4]);
    assert!(feed.ready.is_empty());
    assert!(feed.in_flight(2) && feed.in_flight(3) && feed.in_flight(4));

    requeue_run(&mut feed, &run);
    assert!(!feed.in_flight(2));
    assert_eq!(feed.ready.get(&2).unwrap().wire.as_ref().map(|w| w.len()), Some(285));

    feed.clear();
    assert!(claim_load_batch(&mut feed, &hub, vec![item(2)], e).is_none());
    assert!(!feed.in_flight(2));
}

#[test]
fn out_of_date_batch_is_dropped_and_a_live_one_committed() {
    let mut hub = genesis_hub();
    let mut feed = ConfirmFeed::new();
    let rows = vec![(1u32, bh(1)), (2u32, bh(2))];
    let e = feed.epoch();
    feed.claim(1, e);
    feed.claim(2, e);
    assert_eq!(write_begin(&mut feed, &hub, false, &rows), WriteStart::Commit);
    assert_eq!(write_begin(&mut feed, &hub, true, &rows), WriteStart::Exit);
    assert!(!write_batch_is_stale_plan(&hub, &feed, 1));

    hub.queue.offer(1, bh(1), 1, vec![0u8; 80]);
    hub.queue.offer(2, bh(2), 2, vec![0u8; 80]);
    hub.queue.offer(3, bh(3), 3, vec![0u8; 80]);
    let mut counters = EngineCounters { confirm_blocks: 5, confirm_reject_stops: 0, accepted: 5 };
    let events = accept_rows(&rows);
    assert!(matches!(&events[0], ConfirmEvent::Accepted { hash } if *hash == bh(1)));
    assert!(matches!(&events[1], ConfirmEvent::Accepted { hash } if *hash == bh(2)));
    assert_eq!(events.len(), 2);
    assert!(write_done(&mut feed, &mut hub, &rows, 2, &mut counters));
    assert_eq!((counters.confirm_blocks, counters.accepted), (7, 7));
    assert!(!hub.queue.has_height(1) && !hub.queue.has_height(2) && hub.queue.has_height(3));
    assert!(!feed.in_flight(1) && !feed.in_flight(2));

    feed.claim(1, e);
    hub.tip = Some(ChainTip { height: 2, hash: bh(2) });
    assert_eq!(write_begin(&mut feed, &hub, false, &rows), WriteStart::Dropped);
    assert!(!feed.in_flight(1));
}

#[test]
fn write_ends_at_the_first_acceptance_nobody_takes() {
    let rows: Vec<(u32, BlockHash)> = (1u32..=3).map(|h| (h, bh(h as u8))).collect();
    for (sent, counted) in [(0usize, 1u32), (1, 2), (2, 3), (3, 3), (9, 3)] {
        let mut hub = genesis_hub();
        let mut feed = ConfirmFeed::new();
        let e = feed.epoch();
        for (height, hash) in &rows {
            hub.queue.offer(*height, *hash, 1, vec![0u8; 80]);
            feed.claim(*height, e);
        }
        let mut counters =
            EngineCounters { confirm_blocks: 10, confirm_reject_stops: 4, accepted: u32::MAX };
        let on = write_done(&mut feed, &mut hub, &rows, sent, &mut counters);
        assert_eq!(on, sent >= 3);
        assert_eq!(counters.confirm_blocks, 10 + counted as u64);
        assert_eq!(counters.accepted, counted - 1, "the count goes round");
        assert_eq!(counters.confirm_reject_stops, 4);
        for (height, _) in &rows {
            assert_eq!(hub.queue.has_height(*height), *height > counted);
            assert!(!feed.in_flight(*height));
        }
    }
}

#[test]
fn failed_write_is_settled_by_what_the_store_says() {
    let rows = vec![(1u32, bh(1)), (2u32, bh(2))];
    let mut counters = EngineCounters { confirm_blocks: 0, confirm_reject_stops: 0, accepted: 0 };
    let session = store_err(StoreFault::Corrupt("x".to_string()), true, false);

    assert_eq!(
        classify_write_store_fault(&session, Some(UringRecover::Recovered)),
        WriteStoreFault::Requeue
    );
    assert_eq!(
        classify_write_store_fault(&session, Some(UringRecover::Exhausted)),
        WriteStoreFault::Abort
    );
    assert_eq!(
        classify_write_store_fault(&ConsensusError::InvalidPow, None),
        WriteStoreFault::Reject(ConfirmRejectClass::ConsensusInvalid)
    );

    let mut feed = ConfirmFeed::new();
    let e = feed.epoch();
    feed.claim(1, e);
    feed.claim(2, e);
    let mut reset = false;
    let s = write_settle(
        &mut feed,
        &rows,
        &session,
        "m".to_string(),
        Some(UringRecover::Recovered),
        &mut reset,
        &mut counters,
    );
    assert!(matches!(s, Settled::Requeued));
    assert!(reset && feed.ready.contains_key(&1) && feed.ready.contains_key(&2));

    let mut feed = ConfirmFeed::new();
    feed.claim(1, e);
    feed.claim(2, e);
    let s = write_settle(
        &mut feed,
        &rows,
        &ConsensusError::InvalidPow,
        "pow invalid".to_string(),
        None,
        &mut reset,
        &mut counters,
    );
    match s {
        Settled::Rejected(ConfirmEvent::Reject { height, hash, class, err, batch_len }) => {
            assert_eq!((height, hash, batch_len), (1, bh(1), 2));
            assert_eq!(class, ConfirmRejectClass::Cascade, "a wave is taken apart first");
            assert_eq!(err, "pow invalid");
        }
        _ => panic!("expected a reject"),
    }
    assert!(feed.single_block());
    assert!(!feed.in_flight(1) && feed.ready.is_empty());
    assert_eq!(counters.confirm_reject_stops, 1);

    let mut untouched = false;
    apply_write_store_fault(&mut feed, &rows, WriteStoreFault::Abort, &mut untouched);
    assert!(!untouched);
}

#[test]
fn failed_write_of_confirmed_blocks_is_accepted() {
    let mut hub = genesis_hub();
    let rows = vec![(1u32, bh(1)), (2u32, bh(2))];
    let mut feed = ConfirmFeed::new();
    let mut counters = EngineCounters { confirm_blocks: 0, confirm_reject_stops: 0, accepted: 0 };
    let err = ConsensusError::PrevoutSpent;
    let t = write_triage(&mut feed, &hub, &rows, &err, "prevout already spent", false, &mut counters);
    assert!(matches!(t, WriteTriage::Settle));
    hub.blocks.insert(bh(1));
    match write_triage(&mut feed, &hub, &rows, &err, "prevout already spent", false, &mut counters) {
        WriteTriage::Committed(ev) => assert_eq!(ev.len(), 1),
        _ => panic!("expected committed"),
    }
    assert_eq!(counters.accepted, 1);
    let t = write_triage(&mut feed, &hub, &rows, &ConsensusError::Cancelled, "", false, &mut counters);
    assert!(matches!(t, WriteTriage::Exit));
    feed.request_stop();
    assert!(gives_up(&feed, &err));
}

#[test]
fn write_session_fault_after_class_c_finishes_annotate_in_place() {
    let mut hub = genesis_hub();
    hub.tip = Some(ChainTip { height: 1, hash: bh(1) });
    hub.blocks.insert(bh(1));
    assert!(
        write_batch_is_stale(&hub, 1),
        "tip already at height 1; requeue/stale would drop this batch"
    );
    hub.queue.offer(1, bh(1), 1, vec![0u8; 80]);
    assert!(hub.queue.has_height(1));
    let rows = vec![(1u32, bh(1))];
    let mut feed = ConfirmFeed::new();
    let e = feed.epoch();
    feed.claim(1, e);
    let mut counters = EngineCounters { confirm_blocks: 0, confirm_reject_stops: 0, accepted: 0 };
    let session = store_err(StoreFault::Corrupt("x".to_string()), true, false);

    let t = write_triage(&mut feed, &hub, &rows, &session, "x", false, &mut counters);
    assert!(matches!(t, WriteTriage::Finish));
    assert!(feed.in_flight(1), "nothing is given up yet");
    assert!(write_done(&mut feed, &mut hub, &rows, 1, &mut counters));
    assert!(!hub.queue.has_height(1));
    assert!(!feed.in_flight(1));
    assert_eq!((counters.confirm_blocks, counters.accepted), (1, 1));

    let t = write_triage(&mut feed, &hub, &rows, &session, "x", true, &mut counters);
    assert!(matches!(t, WriteTriage::Dropped), "finishing in place failed: out of date");
    let pow = ConsensusError::InvalidPow;
    let t = write_triage(&mut feed, &hub, &rows, &pow, "x", false, &mut counters);
    assert!(matches!(t, WriteTriage::Dropped), "no session fault");
    let more = vec![(1u32, bh(1)), (2u32, bh(2))];
    let t = write_triage(&mut feed, &hub, &more, &session, "x", false, &mut counters);
    assert!(matches!(t, WriteTriage::Dropped), "one row is not connected");
    let none: Vec<(u32, BlockHash)> = Vec::new();
    let t = write_triage(&mut feed, &hub, &none, &session, "x", false, &mut counters);
    assert!(!matches!(t, WriteTriage::Finish));
    feed.request_stop();
    let t = write_triage(&mut feed, &hub, &rows, &session, "x", false, &mut counters);
    assert!(matches!(t, WriteTriage::Exit));
}

#[test]
fn failed_script_wave_gives_up_what_is_behind_it() {
    let mut feed = ConfirmFeed::new();
    let e = feed.epoch();
    for h in 1u32..=4 {
        feed.claim(h, e);
    }
    let mut counters = EngineCounters { confirm_blocks: 0, confirm_reject_stops: 0, accepted: 0 };
    let s = script_settle(
        &mut feed,
        &vec![(1, bh(1))],
        &vec![vec![(2, bh(2))], vec![(3, bh(3))]],
        &ConsensusError::Script("bad".to_string()),
        "script verification".to_string(),
        None,
        &mut counters,
    );
    match s {
        Settled::Rejected(ConfirmEvent::Reject { class, .. }) => {
            assert_eq!(class, ConfirmRejectClass::ConsensusInvalid)
        }
        _ => panic!("expected a reject"),
    }
    assert_eq!(feed.inflight_heights(), vec![4]);
    assert!(!feed.single_block());
}

#[test]
fn failed_stamp_and_load_put_the_rest_of_the_run_back() {
    let mut hub = genesis_hub();
    hub.blocks.insert(bh(3));
    let rows = vec![(1u32, bh(1)), (2u32, bh(2)), (3u32, bh(3))];
    let mut counters = EngineCounters { confirm_blocks: 0, confirm_reject_stops: 0, accepted: 0 };
    let mut ahead = LoadAheadState::new(5);
    ahead.note_lookup_ok(&vec![Some(50)], 1, 3, bh(3));
    let mut feed = ConfirmFeed::new();
    let e = feed.epoch();
    for h in 1u32..=3 {
        feed.claim(h, e);
    }
    let s = stamp_settle(
        &mut feed,
        &hub,
        &mut ahead,
        5,
        &rows,
        &ConsensusError::MissingPrevout,
        "missing prevout",
        &no_misses(),
        None,
        &mut counters,
    );
    match s {
        Settled::Rejected(ConfirmEvent::Reject { height, err, .. }) => {
            assert_eq!(height, 1);
            assert!(err.contains("unresolved"));
        }
        _ => panic!("expected a reject"),
    }
    assert!(feed.ready.contains_key(&2));
    assert!(!feed.ready.contains_key(&1) && !feed.ready.contains_key(&3));
    assert_eq!(ahead.next_tx_start, 6, "planned rows are void after a failed stamp");

    ahead.note_lookup_ok(&vec![Some(50)], 1, 3, bh(3));
    let before = ahead;
    let s = stamp_settle(
        &mut feed,
        &hub,
        &mut ahead,
        5,
        &rows,
        &store_err(StoreFault::Io, true, false),
        "session",
        &no_misses(),
        Some(UringRecover::Recovered),
        &mut counters,
    );
    assert!(matches!(s, Settled::Requeued));
    assert!(feed.ready.contains_key(&1) && feed.ready.contains_key(&3));
    assert_eq!(ahead, before, "a recovered session puts the run back and keeps the rows");

    let s = load_settle(
        &mut feed,
        &hub,
        &mut ahead,
        5,
        &rows,
        &NetError::Mutated("m".to_string()),
        "mutated".to_string(),
        false,
        None,
        &mut counters,
    );
    match s {
        Settled::Rejected(ConfirmEvent::Reject { class, .. }) => assert!(class.is_soft()),
        _ => panic!("expected a reject"),
    }
    assert_eq!(ahead.next_tx_start, 51);
    let s = load_settle(
        &mut feed,
        &hub,
        &mut ahead,
        5,
        &rows,
        &NetError::Timeout,
        "t".to_string(),
        true,
        Some(UringRecover::Exhausted),
        &mut counters,
    );
    assert!(matches!(s, Settled::Abort));
    assert_eq!(counters.confirm_reject_stops, 2);
}

#[test]
fn lookup_reject_names_a_ready_height() {
    let mut feed = ConfirmFeed::new();
    let mut policy = LookupFaultPolicy { consecutive: 7 };
    let mut faults = 0u64;
    let (a, ev) = lookup_settle(
        &mut feed,
        &mut policy,
        &io_err(),
        "io error".to_string(),
        None,
        &vec![],
        9,
        &mut faults,
    );
    assert_eq!(a, LookupFaultAction::RejectEngineFault);
    assert!(ev.is_none(), "no ready block to name");
    feed.note(9, bh(9));
    let (_, ev) = lookup_settle(
        &mut feed,
        &mut policy,
        &io_err(),
        "io error".to_string(),
        None,
        &vec![],
        9,
        &mut faults,
    );
    match ev {
        Some(ConfirmEvent::Reject { height, hash, class, .. }) => {
            assert_eq!((height, hash), (9, bh(9)));
            assert_eq!(class, ConfirmRejectClass::EngineFault);
        }
        _ => panic!("expected a reject"),
    }
    assert_eq!(faults, 2);
}

#[test]
fn reject_of_a_wave_asks_for_single_blocks() {
    let mut feed = ConfirmFeed::new();
    let ev = emit_confirm_reject(
        &mut feed,
        3,
        bh(3),
        ConfirmRejectClass::ConsensusInvalid,
        "bad block".to_string(),
        5,
    );
    assert!(matches!(
        ev,
        ConfirmEvent::Reject { class: ConfirmRejectClass::Cascade, batch_len: 5, .. }
    ));
    assert!(feed.single_block());
    let plan = lookup_plan(&feed, &genesis_hub(), &ConfirmQueueDepths::new(), 10_000, u32::MAX);
    assert_eq!((plan.run_max, plan.max_blocks), (1, 14));
}

#[test]
fn wave_is_cut_by_inputs_blocks_and_bodies() {
    let feed = ConfirmFeed::new();
    let hub = genesis_hub();
    let plan = lookup_plan(&feed, &hub, &ConfirmQueueDepths::new(), 10_000, u32::MAX);
    assert_eq!(plan.max_inputs, 14 * 8000);
    assert_eq!(plan.path_lo, 1);
    let items: Vec<LoadItem> = (1..=4).map(item).collect();
    let batches =
        wave_batches(&feed, &plan, &items, &vec![true, true, false, false], &no_parents(), Some(9));
    assert_eq!(batches.len(), 2);
    assert_eq!(batches[1].drop_inflight_below, Some(9));
    assert_eq!(batch_wire_bytes(&batches[0].items), 2 * 285);
}

#[test]
fn newest_row_is_the_highest() {
    assert_eq!(newest_row(&vec![]), None);
    assert_eq!(newest_row(&vec![(3, bh(3)), (9, bh(9)), (4, bh(4))]), Some((9, bh(9))));
}

#[test]
fn ready_count_is_resolved_and_not_claimed() {
    let rows = vec![
        QueueMeta { height: 1, resolve_complete: true },
        QueueMeta { height: 5, resolve_complete: true },
        QueueMeta { height: 6, resolve_complete: false },
        QueueMeta { height: 7, resolve_complete: true },
    ];
    let mut inflight = HashSet::new();
    inflight.insert(7u32);
    assert_eq!(confirm_ready_count(&rows, 5, &inflight), 1);
}

fn write_batch(lo: u32, n: u32, has_plan: bool) -> WriteBatch {
    WriteBatch {
        rows: (lo..lo + n).map(|h| (h, bh(h as u8))).collect(),
        has_plan,
        wire_bytes: 10 * n as usize,
        parents: n as usize,
    }
}

#[test]
fn write_queue_is_drained_in_order_up_to_a_gap() {
    let mut depths = ConfirmQueueDepths::new();
    for n in [2usize, 3, 1] {
        depths.note_write_send(n, 10 * n, n);
    }
    let mut queue = VecDeque::new();
    queue.push_back(write_batch(3, 3, true));
    queue.push_back(write_batch(9, 1, true));
    let (batch, parts, leftover) =
        drain_script_ok_write_queue(write_batch(1, 2, true), &mut queue, 14, &mut depths);
    let hs: Vec<u32> = batch.rows.iter().map(|r| r.0).collect();
    assert_eq!(hs, vec![1, 2, 3, 4, 5]);
    assert_eq!(parts, 2);
    assert_eq!(batch.wire_bytes, 50);
    assert_eq!(leftover.map(|b| b.rows[0].0), Some(9));
    assert!(queue.is_empty());
}

#[test]
fn error_texts_have_their_class() {
    let c = |s: &str| ConfirmRejectClass::from_err_str(s, false);
    assert_eq!(c("Confirm cancelled"), ConfirmRejectClass::Cancelled);
    assert_eq!(c("unexpected previous header"), ConfirmRejectClass::SoftWire);
    assert_eq!(c("Merkle root mismatch"), ConfirmRejectClass::SoftWire);
    assert_eq!(c("plan not committed in order"), ConfirmRejectClass::Cascade);
    assert_eq!(c("corrupt record"), ConfirmRejectClass::EngineFault);
    assert_eq!(c("bad transaction: x"), ConfirmRejectClass::ConsensusInvalid);
    assert_eq!(c("something else"), ConfirmRejectClass::Cascade);
    assert_eq!(
        ConfirmRejectClass::from_err_str("something else", true),
        ConfirmRejectClass::EngineFault
    );
    assert_eq!(
        ConfirmRejectClass::from_net(&NetError::BadPrev, "", false),
        ConfirmRejectClass::SoftWire
    );
    assert_eq!(
        ConfirmRejectClass::from_net(&NetError::Cancelled, "", false),
        ConfirmRejectClass::Cancelled
    );
    assert_eq!(
        ConfirmRejectClass::from_net(
            &NetError::Consensus("bad header".to_string()),
            "io error",
            false
        ),
        ConfirmRejectClass::ConsensusInvalid
    );
    assert_eq!(
        ConfirmRejectClass::from_net(&NetError::Timeout, "io error", false),
        ConfirmRejectClass::EngineFault
    );
    assert_eq!(
        ConfirmRejectClass::from_consensus(&ConsensusError::BadBlock(
            "merkle root mismatch".to_string()
        )),
        ConfirmRejectClass::SoftWire
    );
    assert_eq!(
        ConfirmRejectClass::from_consensus(&ConsensusError::BadVersion(1)),
        ConfirmRejectClass::ConsensusInvalid
    );
}

#[test]
fn broken_rule_is_trusted_only_on_the_tip() {
    let mut hub = genesis_hub();
    let inv = ConfirmRejectClass::ConsensusInvalid;
    assert_eq!(inv.trust_consensus(&hub, &bh(1)), inv, "no header row keeps the class");
    hub.unreadable.insert(bh(1));
    assert_eq!(inv.trust_consensus(&hub, &bh(1)), ConfirmRejectClass::Cascade);
    hub.parents.insert(bh(1), bh(0x6f));
    assert_eq!(inv.trust_consensus(&hub, &bh(1)), inv);
    hub.parents.insert(bh(1), bh(0x55));
    assert_eq!(inv.trust_consensus(&hub, &bh(1)), ConfirmRejectClass::Cascade);
}

//! The meter lines, and what they are made of.
use rbitcoin_ibd::confirm_queue::ConfirmPipelineSizes;
use rbitcoin_ibd::perf_log::{
    format_debug, format_info, format_sizes, load_stage_wall_ms, slow_phase_warning,
    write_stage_ms,
};
use rbitcoin_ibd::perf_sample::{
    sample, ArchiveWindow, HeadWindow, HotWindow, IbdPerfSample, LoadWindow, LookupWindow,
    PerfWindows, PhaseWindow, ProcessOwnedSizes, ShWindow, StampWindow, WireFillWindow,
    WorkStructureSizes, WriteStageSample,
};
use rbitcoin_ibd::proc_rss::{
    format_tip_perf_sizes, kb_mib, parse_proc_rss, ProcRss, TipPerfSizes,
};

#[test]
fn write_stage_sample_inventory_sums_to_write_token() {
    let mut write = WriteStageSample::default();
    write.class_a_ms = 1;
    write.ensure_ms = 2;
    write.structural_ms = 4;
    write.class_c_ms = 8;
    write.sh_ms = 16;
    write.utxo_ms = 32;
    write.tweak_ms = 64;
    write.cache_tip_ms = 128;
    write.drain_join_ms = 0;
    write.dequeue_ms = 0;
    assert_eq!(
        write.stage_ms(),
        255,
        "inventory: class_a+ensure+struct+class_c+sh+spend+tweaks+tip_gc+recent_pub+pins+head_sub+drain_join+dequeue"
    );
    let mut s = IbdPerfSample::default();
    s.write = write;
    assert_eq!(write_stage_ms(&s), 255);
    let line = format_info(&s);
    assert!(line.contains("write=255ms"), "{line}");
    assert!(line.contains("tweaks=64ms"), "{line}");
    assert!(line.contains("tip_gc=128ms"), "{line}");
    assert!(line.contains("spend=32ms"), "{line}");
    assert!(line.contains("recent_pub=0ms(idx=0 clone=0)"), "{line}");
    assert!(line.contains("class_c_join=0ms"), "{line}");
    assert!(line.contains("drain_join=0ms"), "{line}");
    assert!(line.contains("dequeue=0ms"), "{line}");
    assert!(line.contains("other=0ms"), "{line}");
}

#[test]
fn write_other_classifies_pins_and_head_sub() {
    let mut s = IbdPerfSample::default();
    s.thr_write_work_ms = 500;
    s.write.pins_ms = 300;
    s.write.pins_ns = 300_000_000;
    s.write.head_sub_ms = 50;
    s.write.head_sub_ns = 50_000_000;
    s.pins_take_ms = 200;
    s.pins_map_ms = 100;
    let line = format_info(&s);
    assert!(line.contains("pins=300ms(take=200 map=100)"), "{line}");
    assert!(line.contains("head_sub=50ms"), "{line}");
    assert!(line.contains("write=350ms"), "{line}");
    assert!(
        line.contains("other=150ms"),
        "pins+head_sub must leave the write-thread residual: {line}"
    );
    let dbg = format_debug(&s);
    assert!(dbg.contains("pins="), "{dbg}");
    assert!(dbg.contains("head_sub="), "{dbg}");
}

#[test]
fn load_and_write_stage_walls_sum_parts() {
    let mut s = IbdPerfSample::default();
    s.load_ms = 30;
    s.connect_ms = 8;
    assert_eq!(load_stage_wall_ms(&s), 38);
    s.write.class_a_ms = 15;
    s.write.ensure_ms = 2;
    s.write.structural_ms = 50;
    s.write.class_c_ms = 40; // tables only
    s.write.sh_ms = 100; // SH exclusive (parallel with strong; counted separately)
    s.write.utxo_ms = 25;
    s.write.tweak_ms = 80;
    s.write.cache_tip_ms = 5;
    // 15+2+50+40+100+25+80+5 = 317
    assert_eq!(write_stage_ms(&s), 317);
}


#[test]
fn format_info_has_stable_tokens() {
    let mut s = IbdPerfSample::default();
    s.inflight = 3;
    s.inflight_cap = 256;
    s.bq_count = 7;
    s.bq_bytes = 128 * 1024 * 1024;
    s.bq_soft_stop = 180;
    s.arch_ahead = 224;
    s.hole = 0;
    s.peers = 16;
    s.phase_blks = 32;
    s.recon_ms = 100;
    s.script_ms = 20;
    s.load_ms = 30;
    s.connect_ms = 8;
    s.write.class_a_ms = 12;
    s.write.ensure_ms = 3;
    s.write.class_c_ms = 40;
    s.write.utxo_ms = 25;
    s.write.tweak_ms = 7;
    s.write.cache_tip_ms = 5;
    s.dominant = "confirm";
    s.live = Some((100, 32, 8000, 1500));
    s.confirm_reject_stops = 2;
    let line = format_info(&s);
    assert!(line.starts_with("ibd: perf "), "{line}");
    assert!(line.contains("inflight=3/256"), "{line}");
    assert!(!line.contains("body_soft="), "{line}");
    assert!(!line.contains("body_pend="), "{line}");
    assert!(!line.contains("bq n="), "{line}");
    assert!(!line.contains(" disk="), "{line}");
    assert!(line.contains("bq soft=7/180 RAM=128MiB"), "{line}");
    assert!(line.contains("buf_ahead=224"), "{line}");
    assert!(
        !line.contains("lead="),
        "no lead= on perf: {line}"
    );
    assert!(!line.contains("arch_hwm"), "{line}");
    assert!(!line.contains("arch_q="), "{line}");
    assert!(line.contains("conf blks=32"), "{line}");
    assert!(line.contains("script=20ms"), "{line}");
    assert!(line.contains("script=20ms(jobs=0 skip=0)"), "{line}");
    assert!(line.contains("load_thr busy/wait="), "{line}");
    assert!(line.contains("pack=0ms"), "{line}");
    assert!(line.contains("prune=0ms"), "{line}");
    s.thr_load_pack_ms = 100;
    s.thr_load_stamp_ms = 1700;
    s.thr_load_pin_ms = 700;
    s.thr_load_prune_ms = 50;
    s.thr_load_recv_wait_ms = 200;
    s.script_jobs = 12;
    s.script_skip = 3;
    let split = format_info(&s);
    assert!(split.contains("load_thr busy/wait=2550/200ms"), "{split}");
    assert!(split.contains("pack=100ms"), "{split}");
    assert!(
        split.contains("stamp=1700ms(pack=1700ms head=0ms)"),
        "{split}"
    );
    s.stamp_batch_head_fk_ms = 200;
    let nested = format_info(&s);
    assert!(
        nested.contains("stamp=1700ms(pack=1500ms head=200ms)"),
        "{nested}"
    );
    assert!(split.contains("pin=700ms"), "{split}");
    assert!(split.contains("prune=50ms"), "{split}");
    assert!(split.contains("script=20ms(jobs=12 skip=3)"), "{split}");
    s.thr_load_clone_ms = 75;
    let with_clone = format_info(&s);
    assert!(with_clone.contains("clone=75ms"), "{with_clone}");
    assert!(
        with_clone.contains("load_thr busy/wait=2625/200ms"),
        "clone is load-thread work: {with_clone}"
    );
    // load wall = load_ms(30)+assemble(8) = 38
    assert!(line.contains("load=38ms"), "{line}");
    assert!(
        !line.contains("connect="),
        "assemble is inside load, not a peer stage: {line}"
    );
    // write = class_a(12)+ensure(3)+class_c(40)+sh(0)+spend(25)+tweaks(7)+tip_gc(5) = 92
    assert!(line.contains("write=92ms"), "{line}");
    assert!(line.contains("class_a=12ms"), "{line}");
    assert!(line.contains("ensure=3ms"), "{line}");
    assert!(line.contains("class_c=40ms"), "{line}");
    assert!(line.contains("spend=25ms"), "{line}");
    assert!(line.contains("tweaks=7ms"), "{line}");
    assert!(line.contains("struct=0ms"), "{line}");
    assert!(line.contains("recon_ms=100"), "{line}"); // non-zero only
    assert!(!line.contains("prefetch"), "{line}");
    assert!(!line.contains("unpin"), "{line}");
    assert!(line.contains("loop confirm"), "{line}");
    assert!(line.contains("reject=2"), "{line}");
    assert!(line.contains("live h=100 n=32 in=8000 1500ms"), "{line}");
    s.conf_ready = 0;
    s.conf_script_q = 1;
    s.conf_write_q = 2;
    s.conf_script_q_cap = 2;
    s.conf_write_q_cap = 2;
    s.load_ready_through = 200;
    s.load_blocks = 32;
    s.load_pin_cache_body = 8;
    s.load_pin_new = 12;
    s.load_body_tx_reads = 400;
    s.load_parent_tx_reads = 12;
    s.load_win_ms = 40;
    s.load_thin_ms = 5;
    s.load_decode_ms = 15;
    s.load_cache_put_ms = 2;
    s.load_parent_pin_ms = 18;
    s.load_pin_body_ms = 4;
    s.load_pin_new_meta_ms = 14;
    s.sh_runs = 3;
    s.write.structural_ms = 50;
    s.structural_spent_ms = 30;
    s.structural_create_h_ms = 5;
    s.structural_bip68_ms = 20;
    s.arch_write_body_ms = 7;
    s.arch_write_head_ms = 2;
    let line = format_info(&s);
    assert!(line.contains("loadq<0/14 scriptq=1/2 writeq=2/2"), "{line}");
    assert!(line.contains("thru=200"), "{line}");
    // pin_residency slot always 0 (process pin FIFO removed); pin_plan_cache label retired.
    assert!(!line.contains("pin_res="), "{line}");
    assert!(line.contains("pin_new=12"), "{line}");
    assert!(line.contains("body_io=400 parent_io=12"), "{line}");
    s.spent_abs_ms = 20;
    s.spent_strong_ms = 5;
    s.spent_cold_ms = 3;
    s.spent_pending_ms = 2;
    let line = format_info(&s);
    assert!(
        line.contains("struct=50ms(spent=30 create_h=5 bip68=20)"),
        "{line}"
    );
    assert!(
        line.contains("spent_sub(abs=20 strong=5 cold=3 pending=2)"),
        "{line}"
    );
    // write = 12+3+50+40+25+7+5 = 142
    assert!(line.contains("write=142ms"), "{line}");
    assert!(line.contains("class_a_sub(body=7 head=2"), "{line}");
    assert!(line.contains("pre_asm=30ms"), "{line}");
    assert!(line.contains("assemble=8ms"), "{line}");
    assert!(line.contains("wire_arc="), "{line}");
    assert!(line.contains("prepare="), "{line}");
    assert!(line.contains("pin_win=40ms"), "{line}");
    // pin_hit% = cache / (cache+new). Cache is adopt/plan reuse only
    // (this-window range-fills are pin_new). 8/(8+12)=40; 1+2 → 33.
    assert!(line.contains("pin_hit%=40"), "{line}");
    s.load_pin_cache_body = 1;
    s.load_pin_new = 2;
    let line33 = format_info(&s);
    assert!(line33.contains("pin_hit%=33"), "{line33}");
    s.load_pin_cache_body = 8;
    s.load_pin_new = 12;
    assert!(!line.contains("denserels_hit%"), "{line}");
    assert!(line.contains("cold_io=14ms"), "{line}");
    // I1–I4 fields present with zero path counts when unset.
    assert!(line.contains("load_budget total="), "{line}");
    assert!(line.contains("us/in="), "{line}");
    assert!(line.contains("us/new="), "{line}");
    assert!(line.contains("cold_range="), "{line}");
    assert!(line.contains("cold_idx="), "{line}");
    assert!(line.contains("batch="), "{line}");
    assert!(!line.contains("thin[col="), "{line}");
    assert!(!line.contains("by_fk="), "{line}");
    assert!(!line.contains("pin_cached="), "{line}");
    assert!(line.contains("sh_runs=3"), "{line}");
    assert!(!line.contains("reserved"), "{line}");
    assert!(!line.contains("runway"), "{line}");
}

#[test]
fn format_info_load_instrumentation_i1_i4() {
    let mut s = IbdPerfSample::default();
    s.load_ms = 2000;
    s.connect_ms = 3000;
    s.load_parent_pin_ms = 1800;
    s.load_blocks = 10;
    s.asm_prevout_ms = 2500;
    s.asm_in_n = 50_000;
    s.asm_prev_batch_ms = 2000;
    s.asm_prev_batch_n = 40_000;
    s.asm_prev_same_ms = 50;
    s.asm_prev_same_n = 2_000;
    s.asm_prev_cold_ms = 250;
    s.asm_prev_cold_n = 3_000;
    s.asm_prev_fk_ms = 10;
    s.asm_sigop_ms = 2;
    s.asm_final_ms = 0;
    s.asm_job_ms = 40;
    s.load_thin_ms = 7;
    s.load_plan_pin_ms = 100;
    s.load_pin_plan = 20_000;
    s.load_pin_adopt_ms = 15;
    s.load_pin_recent_outs_ms = 8;
    s.load_pin_range_fill_ms = 40;
    s.load_pin_contract_ms = 25;
    s.load_pin_publish_ms = 12;
    s.load_cold_range_ms = 1200;
    s.load_cold_range_n = 4_000;
    s.load_cold_idx_ms = 400;
    s.load_cold_idx_n = 2_000;
    s.load_cold_io_ms = 1600;
    s.load_cold_decode_ms = 10;
    s.load_pin_new = 6_000;
    s.load_pin_cache_body = 30_000;
    let line = format_info(&s);
    // Residual pin sub-timers named in pin(...) block.
    assert!(line.contains("thin=7ms"), "{line}");
    assert!(line.contains("adopt=15ms"), "{line}");
    assert!(line.contains("recent_outs=8ms"), "{line}");
    assert!(line.contains("range_fill=40ms"), "{line}");
    assert!(line.contains("contract=25ms"), "{line}");
    assert!(line.contains("publish=12ms"), "{line}");
    // I1: total = load+connect = 5000; pin=1800; asm=3000; other=200
    assert!(
        line.contains("load_budget total=5000ms pin=1800ms asm=3000ms other=200ms"),
        "{line}"
    );
    // I3: us/in = 2500*1000/50000 = 50
    assert!(line.contains("us/in=50"), "{line}");
    assert!(line.contains("batch=2000/n=40000"), "{line}");
    assert!(!line.contains("res=/n="), "{line}");
    assert!(!line.contains("res_lk"), "{line}");
    assert!(line.contains("same=50/n=2000"), "{line}");
    assert!(line.contains("cold=250/n=3000"), "{line}");
    assert!(line.contains("cold_why(null_fk="), "{line}");
    assert!(line.contains("fk=10ms"), "{line}");
    // N1 reason breakdown when set.
    s.asm_cold_null_fk_n = 10;
    s.asm_cold_not_pin_n = 2900;
    s.asm_cold_txid_mismatch_n = 50;
    s.asm_cold_vout_miss_n = 40;
    let line = format_info(&s);
    assert!(
        line.contains("cold_why(null_fk=10 not_pin=2900 mismatch=50 vout_miss=40)"),
        "{line}"
    );
    // I2: us/new = (1200+400)*1000/6000 = 266
    assert!(line.contains("cold_range=1200ms(body="), "{line}");
    s.load_cold_range_body_ms = 800;
    s.load_cold_range_decode_ms = 400;
    let line = format_info(&s);
    assert!(
        line.contains("cold_range=1200ms(body=800 dec=400)/n=4000"),
        "{line}"
    );
    assert!(line.contains("cold_idx=400ms/n=2000"), "{line}");
    assert!(line.contains("us/new=266"), "{line}");
    assert!(!line.contains("res_lk"), "{line}");
    assert!(!line.contains("pin_res="), "{line}");
}

#[test]
fn format_info_and_debug_optional_subblocks() {
    let mut s = IbdPerfSample::default();
    s.phase_blks = 8;
    s.plan_blks = 4;
    s.plan_ms = 12;
    s.plan_parents = 100;
    s.plan_already = 10;
    s.plan_cold = 20;
    s.plan_same_batch = 5;
    s.plan_collect_ms = 3;
    s.lookup_decode_ms = 40;
    s.lookup_precompute_ms = 30;
    s.lookup_wave_head_ms = 20;
    s.plan_head_ms = 4;
    s.plan_cold_io_ms = 5;
    s.stamp_struct_ms = 1;
    s.stamp_prepare_ms = 2;
    s.stamp_filter_ms = 3;
    s.stamp_batch_ms = 4;
    s.stamp_batch_assign_ms = 1;
    s.stamp_batch_collect_ms = 1;
    s.stamp_batch_head_fk_ms = 1;
    s.stamp_batch_head_ms = 2;
    s.stamp_batch_stamp_ms = 1;
    s.stamp_batch_finish_ms = 1;
    s.arch_prep_age_hit_n = 50;
    s.arch_prep_age_cdf0_pct = 10;
    s.arch_prep_age_cdf3_pct = 40;
    s.arch_prep_age_cdf7_pct = 70;
    s.arch_prep_age_cdf15_pct = 90;
    s.arch_prep_age_cdf31_pct = 100;
    s.arch_ext_need = 30;
    s.arch_prep_assign_ms = 6;
    s.arch_prep_collect_ms = 2;
    s.arch_prep_inflight_ms = 1;
    s.arch_prep_head_fk_ms = 1;
    s.arch_prep_head_ms = 3;
    s.arch_prep_stamp_ms = 1;
    s.arch_prep_finish_ms = 1;
    s.arch_resolve_ns = 8_000_000;
    s.arch_resolve_blocks = 4;
    s.arch_head_hit = 20;
    s.arch_head_need = 25;
    s.arch_pin_txid = 15;
    s.arch_pin_txid_ms = 2;
    s.arch_recent_n = 9;
    s.arch_recent_ms = 3;
    s.arch_batch_stamp = 4;
    s.arch_prep_probe_ms = 8;
    s.arch_prep_idx_ms = 4;
    s.arch_prep_body_txid_ms = 2;
    s.arch_prep_head_keys = 100;
    s.arch_prep_head_cands = 300;
    s.arch_prep_body_lookups = 200;
    s.arch_prep_hit_rank_avg_x100 = 150;
    s.arch_prep_hit_rank_n = 20;
    s.arch_prep_miss_peeks = 5;
    s.arch_prep_pending_hits = 3;
    s.arch_prep_age_hit_compact = "1:2:3:0:0:0:0:0:0".to_string();
    s.sh_collect_pin = 7;
    s.sh_collect_cold = 3;
    s.sh_collect_ms = 9;
    s.sh_sort_ms = 1;
    s.sh_seed_ms = 2;
    s.sh_body_ms = 3;
    s.sh_head_ms = 4;
    s.wf_body_store = 1;
    s.wf_store_body_ms = 2;
    s.load_missing_parents = 3;
    s.thr_lookup_stamp_ms = 1;
    s.stamp_struct_ms = 8;
    s.stamp_struct_txid_ms = 6;
    s.stamp_struct_walk_ms = 2;
    let info = format_info(&s);
    assert!(info.contains("stamp_sub("), "{info}");
    assert!(info.contains("struct_txid=6ms"), "{info}");
    assert!(info.contains("struct_walk=2ms"), "{info}");
    assert!(info.contains("pin_txid=15"), "{info}");
    assert!(info.contains("pin_txid%=37"), "{info}");
    assert!(info.contains("pin_txid_ms=2"), "{info}");
    assert!(info.contains("leftover_n=25"), "{info}");
    assert!(info.contains("leftover_hit="), "{info}");
    assert!(info.contains("recent=9"), "{info}");
    assert!(info.contains("recent_ms=3"), "{info}");
    assert!(info.contains("head_loc(cdf0=10"), "{info}");
    assert!(info.contains("lookup_sub(blks=4"), "{info}");
    assert!(info.contains("decode=40ms"), "{info}");
    assert!(info.contains("precompute=30ms"), "{info}");
    assert!(info.contains("collect=3ms"), "{info}");
    assert!(
        info.contains(
            "wave=1ms(decode=40ms precompute=30ms collect=3ms head=20ms(probe=0ms io=0ms preads=0) spent=0ms)"
        ),
        "{info}"
    );
    let dbg = format_debug(&s);
    assert!(dbg.contains("plan_batch "), "{dbg}");
    assert!(dbg.contains("pin_txid=15/25"), "{dbg}");
    assert!(dbg.contains("us/pin_txid=133"), "{dbg}");
    assert!(dbg.contains("recent=9"), "{dbg}");
    assert!(dbg.contains("recent_ms=3"), "{dbg}");
    assert!(dbg.contains("head_rd("), "{dbg}");
    assert!(dbg.contains("pend=3"), "{dbg}");
    assert!(dbg.contains("probe_us/key="), "{dbg}");
    assert!(
        dbg.contains("sh_src pin=7 cold=3") || dbg.contains("sh collect=9"),
        "{dbg}"
    );
    // Zero-key / zero-block edge arms in the same helpers.
    s.arch_resolve_blocks = 0;
    s.arch_prep_head_keys = 0;
    s.arch_prep_age_hit_compact.clear();
    let dbg2 = format_debug(&s);
    assert!(dbg2.contains("plan_batch "), "{dbg2}");
    // Empty compact string uses the 0:0:… default when head_rd runs with hit_n.
    s.arch_prep_probe_ms = 1;
    s.arch_prep_head_keys = 0; // still enter outer if, but avg_* zero arms
    let _ = format_debug(&s);
}

#[test]
fn format_debug_has_detail_tokens() {
    let mut s = IbdPerfSample::default();
    s.phase_blks = 10;
    s.recon_ns = 10_000_000; // 1ms/blk → 1000 us/blk
    s.write.utxo_apply_ns = 5_000_000; // 500 us/blk
    s.write.tweak_ns = 3_000_000; // 300 us/blk
    s.spend_ranged = 10;
    s.spend_idx = 2;
    s.spend_skip = 0;
    s.wf_body_store = 3;
    s.wf_store_body_ms = 50;
    // (no cache/lock fields — pruned)
    s.conf_ready = 0;
    s.conf_script_q = 0;
    s.conf_write_q = 1;
    s.conf_script_q_cap = 2;
    s.conf_write_q_cap = 2;
    s.load_ready_through = 200;
    s.load_blocks = 16;
    s.load_utxo_parents = 100;
    s.load_creates = 50;
    s.load_body_tx_reads = 200;
    s.load_parent_tx_reads = 50;
    s.load_pin_cache_body = 0;
    s.load_pin_new = 38;
    s.load_edge_same = 10;
    s.load_edge_fk = 5;
    s.load_edge_cb = 1;
    s.sh_collect_ms = 12;
    s.sh_runs = 2;
    s.arch_ext_need = 100;
    s.bq_count = 3;
    s.bq_bytes = 64 * 1024 * 1024;
    s.bq_soft_stop = 256;
    let line = format_debug(&s);
    assert!(line.starts_with("ibd: perf_dbg "), "{line}");
    assert!(line.contains("us/blk load="), "{line}");
    assert!(line.contains("pre_asm="), "{line}");
    assert!(line.contains("assemble="), "{line}");
    assert!(line.contains("class_a="), "{line}");
    assert!(line.contains("ensure="), "{line}");
    assert!(line.contains("write="), "{line}");
    assert!(line.contains("spend=500(r=10 i=2 skip=0)"), "{line}");
    assert!(line.contains("tweaks=300"), "{line}");
    assert!(!line.contains("prefetch="), "{line}");
    assert!(!line.contains("wave body="), "{line}");
    assert!(!line.contains("sh seed="), "{line}");
    assert!(!line.contains("thin[col="), "{line}");
    assert!(line.contains("wire_body"), "{line}");
    assert!(line.contains("store_ms=50"), "{line}");
    assert!(line.contains("sh collect=12"), "{line}");
    assert!(line.contains("pin_sub body="), "{line}");
    assert!(line.contains("bq soft=3/256 RAM=64MiB"), "{line}");
    assert!(!line.contains("bq n="), "{line}");
    assert!(!line.contains(" disk="), "{line}");
    // Depth 0 → `<` (consumer waiting on empty queue).
    assert!(
        line.contains("loadq<0/14 scriptq<0/2 writeq=1/2") || line.contains("loadq="),
        "{line}"
    );
    assert!(line.contains("thru=200"), "{line}");
    assert!(line.contains("utxo_p=100"), "{line}");
    assert!(line.contains("creates=50"), "{line}");
    assert!(line.contains("body_io=200 parent_io=50"), "{line}");
    assert!(line.contains("pin_cache=0"), "{line}");
    assert!(!line.contains("pin_res="), "{line}");
    assert!(line.contains("pin_new=38"), "{line}");
    assert!(!line.contains("pin_cached="), "{line}");
    assert!(line.contains("edges same=10 fk=5 cb=1"), "{line}");
    assert!(line.contains("sh_runs=2"), "{line}");
    assert!(line.contains("plan_batch "), "{line}");
    assert!(!line.contains("res_txid"), "{line}");
    assert!(!line.contains("res_seed"), "{line}");
    assert!(!line.contains("sticky="), "{line}");
    assert!(!line.contains("dual_pipe "), "{line}");
    assert!(line.contains("loop "), "{line}");
    assert!(!line.contains("runway"), "{line}");
    assert!(!line.contains("connect wave%="), "{line}");
    // Present when head keys are sampled.
    if s.arch_prep_head_keys > 0 {
        assert!(line.contains("probe_us/key="), "{line}");
        assert!(line.contains("idx_us/key="), "{line}");
        assert!(line.contains("body_us/key="), "{line}");
    }
    if s.arch_prep_age_hit_n > 0 {
        assert!(line.contains("age_cdf("), "{line}");
        assert!(line.contains("age_hit="), "{line}");
    }
}

#[test]
fn format_debug_class_a_commit_without_dual_pipe() {
    let mut s = IbdPerfSample::default();
    s.phase_blks = 4;
    s.arch_write_blocks = 4;
    s.arch_write_total_ms = 20;
    s.write.class_a_ns = 20_000_000;
    let line = format_debug(&s);
    assert!(!line.contains("dual_pipe "), "{line}");
    assert!(line.contains("class_a="), "{line}");
    assert!(line.contains("class_a_commit total=20"), "{line}");
    assert!(line.contains("ca_head_us/blk="), "{line}");
    assert!(line.contains("ca_body_us/blk="), "{line}");
}

#[test]
fn format_sizes_has_rss_and_structure_tokens() {
    let mut s = IbdPerfSample::default();
    s.rss_kb = 2 * 1024; // 2 MiB
    s.rss_anon_kb = 1024;
    s.rss_file_kb = 512; // 0 MiB after integer MiB; still shows file=0MiB(25%)
    s.vm_hwm_kb = 3 * 1024;
    s.rss_locked_kb = 0;
    s.work.ordered = 100;
    s.work.ordered_set = 90;
    s.work.body.pending = 5;
    s.owned.conf_plans = 80;
    s.owned.inflight_layers = 3;
    s.owned.inflight_pins = 12_000;
    s.owned.inflight_bytes = 48 * 1024 * 1024;
    s.owned.recent_heights = 12;
    s.owned.recent_keys = 400;
    s.owned.recent_pub_keys = 400;
    s.owned.recent_overlay_keys = 0;
    s.owned.recent_fifo_keys = 400;
    s.owned.h2h_keys = 50;
    s.owned.fence_runs = 10;
    s.owned.pstore_weak = 20_000;
    s.owned.pstore_live = 8_000;
    s.owned.pstore_bytes = 16 * 1024 * 1024;
    s.bq_count = 4;
    s.bq_bytes = 32 * 1024 * 1024;
    s.bq_soft_stop = 256;
    s.owned.bq_promoted = 3;
    s.owned.head.primary_bits = 25;
    s.owned.head.primary_entry_b = 4;
    s.owned.head.primary_slots = 1 << 25;
    s.owned.head.primary_body_bytes = (1u64 << 25) * 4;
    s.owned.head.primary_occupied = 1_000_000;
    s.owned.head.segment_count = 3;
    s.owned.head.sealed_segments = 2;
    s.owned.head.class_a_n = 2_000_000;
    s.conf_pipe.load_batches = 3;
    s.conf_pipe.load_blocks = 8;
    s.conf_pipe.load_wire_bytes = 2 * 1024 * 1024;
    s.conf_pipe.script_batches = 2;
    s.conf_pipe.script_blocks = 16;
    s.conf_pipe.script_wire_bytes = 12 * 1024 * 1024;
    s.conf_pipe.script_parents = 500;
    s.conf_pipe.write_batches = 1;
    s.conf_pipe.write_blocks = 16;
    s.conf_pipe.write_wire_bytes = 4 * 1024 * 1024;
    s.conf_pipe.feed_ready = 8;
    s.conf_pipe.feed_inflight = 32;
    s.conf_ready = 40;
    s.conf_script_q_cap = 5;
    s.conf_write_q_cap = 5;
    let line = format_sizes(&s);
    assert!(line.starts_with("ibd: sizes "), "{line}");
    assert!(line.contains("rss=2MiB"), "{line}");
    assert!(line.contains("anon=1MiB"), "{line}");
    assert!(line.contains("file=0MiB(25%)"), "{line}"); // 512kB → 0 MiB; pct from kB
    assert!(line.contains("hwm=3MiB"), "{line}");
    assert!(line.contains("locked=0MiB"), "{line}");
    assert!(line.contains("ordered=100/set=90"), "{line}");
    assert!(line.contains("pend=5"), "{line}");
    assert!(line.contains("miss="), "{line}");
    assert!(!line.contains("body_soft"), "{line}");
    assert!(line.contains("bq soft=4/256 RAM=32MiB"), "{line}");
    assert!(!line.contains("bq_dec="), "{line}");
    assert!(!line.contains("bq n="), "{line}");
    assert!(!line.contains(" disk="), "{line}");
    assert!(line.contains("conf_plans=80"), "{line}");
    assert!(!line.contains("cache="), "{line}");
    assert!(!line.contains("outfifo"), "{line}");
    assert!(!line.contains("sticky_fk="), "{line}");
    assert!(line.contains("loadq=3/14 blks=8 wire=2MiB"), "{line}");
    assert!(line.contains("scriptq=2/5 blks=16 wire=12MiB"), "{line}");
    assert!(
        line.contains("writeq=1/5 blks=16 wire=4MiB parents=500"),
        "{line}"
    );
    assert!(line.contains("feed ready=8 inflight=32"), "{line}");
    assert!(line.contains("txhead bits=25"), "{line}");
    assert!(line.contains("segs=3 sealed=2"), "{line}");
    assert!(line.contains("class_a=2000000"), "{line}");
    assert!(
        line.contains("heap bq=32MiB iflight=3L/12000pin≈48MiB recent=12h live=400k/pub=400k/ov=0 fifo=400k≈0MiB"),
        "{line}"
    );
    assert!(!line.contains("union="), "{line}");
    assert!(line.contains("h2h=50k≈0MiB"), "{line}");
    assert!(line.contains("fence=10≈0MiB"), "{line}");
    assert!(line.contains("pstore weak=20000/live=8000≈16MiB"), "{line}");
    assert!(line.contains("accounted≈"), "{line}");
    assert!(line.contains("residual≈"), "{line}");
    assert!(line.contains("fuse8="), "{line}");
    assert!(line.contains("mphf_g="), "{line}");
    assert!(line.contains("class_c_l2="), "{line}");
    assert!(line.contains("open_keys="), "{line}");
    assert!(!line.contains("shadow"), "{line}");
    assert!(!line.contains("contig parked="), "{line}");
}

#[test]
fn format_sizes_no_residency_token() {
    let mut s = IbdPerfSample::default();
    s.rss_kb = 1024;
    s.owned.conf_plans = 10;
    let line = format_sizes(&s);
    assert!(
        !line.contains("residency creates=") && line.contains("conf_plans=10"),
        "{line}"
    );
    assert!(!line.contains("cache="), "{line}");
    assert!(!line.contains("outfifo"), "{line}");
    assert!(!line.contains("sticky_fk="), "{line}");
}



#[test]
fn format_tip_perf_sizes_tokens_and_mib() {
    let line = format_tip_perf_sizes(&TipPerfSizes {
        rss: ProcRss {
            rss_kb: 2 * 1024,
            anon_kb: 1024,
            file_kb: 512,
            hwm_kb: 3 * 1024,
            locked_kb: 0,
        },
        cache_bodies: 4,
        held_bodies: 1,
        sh_heads: 8,
        mp_live: 12,
    });
    assert!(line.contains("rss=2MiB"), "{line}");
    assert!(line.contains("anon=1MiB"), "{line}");
    assert!(line.contains("file=0MiB"), "{line}");
    assert!(line.contains("hwm=3MiB"), "{line}");
    assert!(line.contains("cache=4"), "{line}");
    assert!(line.contains("held=1"), "{line}");
    assert!(line.contains("sh_heads=8"), "{line}");
    assert!(line.contains("mp_live=12"), "{line}");
    assert!(!line.contains("accounted="), "{line}");
    assert!(!line.contains("residual="), "{line}");
}

fn windows() -> PerfWindows {
    PerfWindows {
        hot: HotWindow { dominant: "confirm", ..HotWindow::default() },
        thr: rbitcoin_ibd::confirm_thr_stats::ConfirmThrStats::new(),
        phase: PhaseWindow::default(),
        wire: WireFillWindow::default(),
        sh: ShWindow::default(),
        load: LoadWindow::default(),
        stamp: StampWindow::default(),
        archive: ArchiveWindow::default(),
        lookup: LookupWindow::default(),
        head: HeadWindow::default(),
    }
}

#[test]
fn sample_pulls_atomics_and_format_edge_arms() {
    let mut w = windows();
    w.hot.confirm_ms = 2;
    w.hot.confirm_blocks = 1;
    w.hot.assign_issued = 7;
    w.phase.class_a_ns = 3_000_000;
    w.phase.load_ns = 4_000_000;
    w.thr.load_pin_ns = 9_000_000;
    let s = sample(
        &mut w,
        4,
        256,
        (0, 0, 256),
        100,
        1,
        8,
        true,
        (50, 10, 0, 0, 0),
        0,
        0,
        0,
        (0, 0, 0),
        1,
        WorkStructureSizes::default(),
        ProcessOwnedSizes::default(),
        ConfirmPipelineSizes::default(),
        ProcRss::default(),
    );
    assert_eq!(s.inflight, 4);
    assert_eq!(s.peers, 8);
    assert!(s.headers_done);
    assert_eq!(s.assign_issued, 7);
    assert_eq!(s.confirm_blocks, 1);
    assert_eq!(s.sh_runs, 1);
    assert_eq!(s.conf_ready, 0);
    assert_eq!(s.write.class_a_ms, 3);
    assert_eq!(s.load_ms, 4);
    assert_eq!(s.thr_load_pin_ms, 9);
    assert_eq!(s.conf_script_q_cap, 4);
    let line = format_info(&s);
    assert!(line.contains("lookup_thr busy="), "{line}");
    assert!(line.contains("ready=0"), "{line}");

    let mut edge = s.clone();
    edge.spend_idx = 2;
    edge.spend_skip = 1;
    edge.spend_ranged = 3;
    edge.load_missing_parents = 4;
    edge.load_pin_cache_body = 0;
    edge.load_pin_new = 0;
    edge.headers_done = true;
    edge.wire_ms = 9;
    edge.strong_ms = 1;
    edge.resolve_ms = 2;
    edge.drain_ms = 3;
    let info = format_info(&edge);
    assert!(info.contains("spend_mix"), "{info}");
    assert!(info.contains("miss_p=4"), "{info}");
    assert!(info.contains("headers_done"), "{info}");
    assert!(info.contains("wire_ms=9"), "{info}");
    assert!(info.contains("getdata=7"), "{info}");
    assert!(info.contains("pin_hit%=0"), "{info}");
    assert!(slow_phase_warning(&edge).is_none());

    let mut slow = edge;
    slow.phase_blks = 1;
    slow.write.class_c_ms = 2000;
    slow.write.sh_ms = 2000;
    slow.load_ms = 6000;
    slow.write.class_a_ms = 6000;
    let warning = slow_phase_warning(&slow).unwrap();
    assert_eq!(
        warning,
        "ibd: slow confirm phase ms/blk load=6000 script=0 write=10000 class_a=6000 class_c=2000 sh=2000 (sh_collect=0ms window) store_body=0ms blks=1"
    );
}

#[test]
fn meter_line_shows_the_write_stage_and_the_rest_of_its_thread() {
    let mut s = IbdPerfSample::default();
    s.write.class_a_ms = 11;
    s.write.class_c_join_ms = 20;
    s.write.dequeue_ms = 3;
    s.thr_write_work_ms = 50;
    let line = format_info(&s);
    assert!(line.starts_with("ibd: perf inflight=0/0 bq soft=0/0 RAM=0MiB"), "{line}");
    assert!(line.contains("(jobs=0 skip=0) write=14ms lookup_thr busy=0ms"), "{line}");
    assert!(line.contains(" dequeue=3ms other=36ms ann=0ms/n=0"), "{line}");
    s.thr_write_work_ms = 30;
    assert!(format_info(&s).contains(" dequeue=3ms other=16ms ann=0ms/n=0"));
}

#[test]
fn class_c_join_is_no_part_of_the_write_stage() {
    let w = WriteStageSample {
        class_c_join_ms: 7,
        class_a_ms: 1,
        class_c_join_ns: 70,
        class_a_ns: 10,
        ..WriteStageSample::default()
    };
    assert_eq!((w.stage_ms(), w.stage_ns()), (1, 10));
    let mut s = IbdPerfSample::default();
    s.write = w;
    assert!(format_info(&s).contains(" class_c_join=7ms "));
}

#[test]
fn second_sample_without_activity_shows_zero() {
    let mut w = windows();
    w.hot.assign_issued = 7;
    w.hot.confirm_blocks = 3;
    w.hot.drain_events = 2;
    w.hot.confirm_live = Some((5, 2, 9, 40));
    w.phase.phase_blks = 4;
    w.phase.dequeue_ns = 6_000_000;
    w.thr.write_work_ns = 8_000_000;
    w.head.age_hit_compact = "1:2".to_string();
    let take = |w: &mut PerfWindows| {
        sample(
            w,
            4,
            256,
            (9, 1, 256),
            100,
            1,
            8,
            true,
            (50, 10, 0, 3, 2),
            0,
            0,
            0,
            (0, 0, 0),
            1,
            WorkStructureSizes::default(),
            ProcessOwnedSizes::default(),
            ConfirmPipelineSizes::default(),
            ProcRss::default(),
        )
    };
    let first = take(&mut w);
    assert_eq!((first.assign_issued, first.confirm_blocks, first.drain_events), (7, 3, 2));
    assert_eq!((first.phase_blks, first.thr_write_work_ms), (4, 8));
    assert_eq!((first.write.stage_ms(), first.write.stage_ns()), (6, 6_000_000));
    assert_eq!(first.arch_prep_age_hit_compact, "1:2");
    let second = take(&mut w);
    assert_eq!((second.assign_issued, second.confirm_blocks, second.drain_events), (0, 0, 0));
    assert_eq!((second.phase_blks, second.thr_write_work_ms), (0, 0));
    assert_eq!((second.write.stage_ms(), second.write.stage_ns()), (0, 0));
    assert_eq!(second.arch_prep_age_hit_compact, "");
    assert_eq!((second.dominant, second.live), ("confirm", Some((5, 2, 9, 40))));
    assert_eq!((second.inflight, second.bq_bytes, second.load_ready_through), (4, 9, 50));
}

#[test]
fn slow_phase_thresholds_are_per_block() {
    let mut s = IbdPerfSample::default();
    s.write.class_c_ms = 1_000;
    assert!(slow_phase_warning(&s).is_none(), "no blocks, no warning");
    s.phase_blks = 1;
    assert!(slow_phase_warning(&s).is_some());
    s.phase_blks = 2;
    assert!(slow_phase_warning(&s).is_none());
    s.write.class_c_ms = 0;
    s.load_ms = 9_999;
    assert!(slow_phase_warning(&s).is_none());
    s.connect_ms = 1;
    assert!(slow_phase_warning(&s).is_some());
}

#[test]
fn rank_is_shown_with_two_decimals() {
    let mut s = IbdPerfSample::default();
    s.arch_ext_need = 1;
    s.arch_prep_head_keys = 2;
    s.arch_prep_hit_rank_avg_x100 = 1207;
    let dbg = format_debug(&s);
    assert!(dbg.contains("12.07"), "{dbg}");
    s.arch_prep_hit_rank_avg_x100 = 5;
    assert!(format_debug(&s).contains("0.05"));
    assert!(format_debug(&s).contains("age_hit=0:0:0:0:0:0:0:0:0"));
}

#[test]
fn memory_is_read_from_status_and_rollup() {
    let status = "Name:\tibd\nVmHWM:\t    3000 kB\nVmRSS:\t    2048 kB\nRssAnon:\t    1024 kB\nRssFile:\t     900 kB\nRssShmem:\t     124 kB\n";
    let r = parse_proc_rss(Some(status), None);
    assert_eq!(r.rss_kb, 2048);
    assert_eq!(r.hwm_kb, 3000);
    assert_eq!(r.anon_kb, 1024);
    assert_eq!(r.file_kb, 1024, "shared memory counts as file-backed");
    assert_eq!(r.locked_kb, 0);
    let rollup = "Rss:  500 kB\nAnonymous:  120 kB\nLocked:  7 kB\n";
    assert_eq!(parse_proc_rss(Some(status), Some(rollup)).rss_kb, 2048);
    let r = parse_proc_rss(None, Some(rollup));
    assert_eq!((r.rss_kb, r.anon_kb, r.file_kb, r.locked_kb), (500, 120, 380, 7));
    let odd = parse_proc_rss(Some("VmRSS:\tnone kB\nVmHWM: +12 kB"), None);
    assert_eq!((odd.rss_kb, odd.hwm_kb), (0, 12));
    let none = parse_proc_rss(None, None);
    assert_eq!((none.rss_kb, none.anon_kb, none.file_kb), (0, 0, 0));
    assert_eq!(kb_mib(2047), 1);
}

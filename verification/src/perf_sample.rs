//! One window of counters, taken once per status tick.
use vstd::prelude::*;
use crate::body::BodyPresenceSizes;
use crate::confirm_queue::{
    script_queue_cap, write_queue_cap, ConfirmPipelineSizes, SCRIPT_QUEUE_CAP_DEFAULT,
    WRITE_QUEUE_CAP_DEFAULT,
};
use crate::confirm_thr_stats::ConfirmThrStats;
use crate::proc_rss::ProcRss;
use crate::time::sat_add;

verus! {

/// Milliseconds in a count of nanoseconds.
pub open spec fn ms_of(ns: u64) -> u64 {
    ns / 1_000_000
}

/// Milliseconds in a count of nanoseconds.
pub fn ns_ms(ns: u64) -> (ms: u64)
    ensures
        ms == ms_of(ns),
{
    ns / 1_000_000
}

/// What the write stage did. The exclusive parts add up to the stage: class A, ensure,
/// structure, class C, script hashes, spends, tweaks, tip cleanup, recent creates, pins,
/// head submit, drain join and dequeue. Times in milliseconds and nanoseconds.
#[derive(Clone, Copy, Debug, PartialEq, Eq, Structural)]
pub struct WriteStageSample {
    /// `archive_commit_plan`
    pub class_a_ms: u64,
    pub class_a_ns: u64,
    /// fill planned layout + ensure spend abs
    pub ensure_ms: u64,
    pub ensure_ns: u64,
    /// spentness / create-height / BIP68
    pub structural_ms: u64,
    pub structural_ns: u64,
    /// strong + tip tables (`flush_class_c_tip`)
    pub class_c_ms: u64,
    pub class_c_ns: u64,
    /// SH filter+collect (parallel with strong)
    pub sh_ms: u64,
    pub sh_ns: u64,
    /// spend annotate (`spend=`)
    pub utxo_ms: u64,
    pub utxo_apply_ns: u64,
    /// Tip write-through `index_sp_tweaks_batch` (`tweaks=`)
    pub tweak_ms: u64,
    pub tweak_ns: u64,
    /// `advance_parent_cache_tip` (`tip_gc=`)
    pub cache_tip_ms: u64,
    pub cache_tip_ns: u64,
    /// RecentCreates note+expire+one snapshot (`recent_pub=`)
    pub recent_pub_ms: u64,
    pub recent_pub_ns: u64,
    /// Write-thread pin Arc copies: plan take + create-pin FkMap (`pins=`)
    pub pins_ms: u64,
    pub pins_ns: u64,
    /// `take_pending_queued` + `submit_head_insert` (`head_sub=`)
    pub head_sub_ms: u64,
    pub head_sub_ns: u64,
    /// `class_c_commit` join/flush minus tables (`class_c_join=`)
    pub class_c_join_ms: u64,
    pub class_c_join_ns: u64,
    /// Residual `head_insert_queued` join after Class C (`drain_join=`)
    pub drain_join_ms: u64,
    pub drain_join_ns: u64,
    /// Body-queue dequeue after confirm (`dequeue=`)
    pub dequeue_ms: u64,
    pub dequeue_ns: u64,
}

/// The sum of counts, stopping at the largest value.
pub open spec fn sat_total(s: Seq<u64>) -> u64
    decreases s.len(),
{
    if s.len() == 0 {
        0
    } else {
        sat_add(sat_total(s.drop_last()), s.last())
    }
}

fn total(parts: [u64; 13]) -> (n: u64)
    ensures
        n == sat_total(parts@),
{
    let mut n: u64 = 0;
    let mut i: usize = 0;
    while i < 13
        invariant
            i <= 13,
            n == sat_total(parts@.take(i as int)),
        decreases 13 - i,
    {
        assert(parts@.take(i + 1).drop_last() =~= parts@.take(i as int));
        n = n.saturating_add(parts[i]);
        i = i + 1;
    }
    assert(parts@.take(13) =~= parts@);
    n
}

impl WriteStageSample {
    /// The exclusive parts in milliseconds. The join of class C is shown beside them and
    /// is none of them.
    pub open spec fn parts_ms(self) -> Seq<u64> {
        seq![
            self.class_a_ms,
            self.ensure_ms,
            self.structural_ms,
            self.class_c_ms,
            self.sh_ms,
            self.utxo_ms,
            self.tweak_ms,
            self.cache_tip_ms,
            self.recent_pub_ms,
            self.pins_ms,
            self.head_sub_ms,
            self.drain_join_ms,
            self.dequeue_ms,
        ]
    }

    /// The exclusive parts in nanoseconds, the same ones.
    pub open spec fn parts_ns(self) -> Seq<u64> {
        seq![
            self.class_a_ns,
            self.ensure_ns,
            self.structural_ns,
            self.class_c_ns,
            self.sh_ns,
            self.utxo_apply_ns,
            self.tweak_ns,
            self.cache_tip_ns,
            self.recent_pub_ns,
            self.pins_ns,
            self.head_sub_ns,
            self.drain_join_ns,
            self.dequeue_ns,
        ]
    }

    /// The whole stage in milliseconds.
    pub fn stage_ms(&self) -> (n: u64)
        ensures
            n == sat_total(self.parts_ms()),
    {
        let parts: [u64; 13] = [
            self.class_a_ms,
            self.ensure_ms,
            self.structural_ms,
            self.class_c_ms,
            self.sh_ms,
            self.utxo_ms,
            self.tweak_ms,
            self.cache_tip_ms,
            self.recent_pub_ms,
            self.pins_ms,
            self.head_sub_ms,
            self.drain_join_ms,
            self.dequeue_ms,
        ];
        assert(parts@ =~= self.parts_ms());
        total(parts)
    }

    /// The whole stage in nanoseconds.
    pub fn stage_ns(&self) -> (n: u64)
        ensures
            n == sat_total(self.parts_ns()),
    {
        let parts: [u64; 13] = [
            self.class_a_ns,
            self.ensure_ns,
            self.structural_ns,
            self.class_c_ns,
            self.sh_ns,
            self.utxo_apply_ns,
            self.tweak_ns,
            self.cache_tip_ns,
            self.recent_pub_ns,
            self.pins_ns,
            self.head_sub_ns,
            self.drain_join_ns,
            self.dequeue_ns,
        ];
        assert(parts@ =~= self.parts_ns());
        total(parts)
    }
}

impl WriteStageSample {
    /// Nothing written.
    pub open spec fn blank() -> WriteStageSample {
        WriteStageSample {
            class_a_ms: 0,
            class_a_ns: 0,
            ensure_ms: 0,
            ensure_ns: 0,
            structural_ms: 0,
            structural_ns: 0,
            class_c_ms: 0,
            class_c_ns: 0,
            sh_ms: 0,
            sh_ns: 0,
            utxo_ms: 0,
            utxo_apply_ns: 0,
            tweak_ms: 0,
            tweak_ns: 0,
            cache_tip_ms: 0,
            cache_tip_ns: 0,
            recent_pub_ms: 0,
            recent_pub_ns: 0,
            pins_ms: 0,
            pins_ns: 0,
            head_sub_ms: 0,
            head_sub_ns: 0,
            class_c_join_ms: 0,
            class_c_join_ns: 0,
            drain_join_ms: 0,
            drain_join_ns: 0,
            dequeue_ms: 0,
            dequeue_ns: 0,
        }
    }
}

impl Default for WriteStageSample {
    fn default() -> (s: Self)
        ensures
            s == WriteStageSample::blank(),
    {
        WriteStageSample {
            class_a_ms: 0,
            class_a_ns: 0,
            ensure_ms: 0,
            ensure_ns: 0,
            structural_ms: 0,
            structural_ns: 0,
            class_c_ms: 0,
            class_c_ns: 0,
            sh_ms: 0,
            sh_ns: 0,
            utxo_ms: 0,
            utxo_apply_ns: 0,
            tweak_ms: 0,
            tweak_ns: 0,
            cache_tip_ms: 0,
            cache_tip_ns: 0,
            recent_pub_ms: 0,
            recent_pub_ns: 0,
            pins_ms: 0,
            pins_ns: 0,
            head_sub_ms: 0,
            head_sub_ns: 0,
            class_c_join_ms: 0,
            class_c_join_ns: 0,
            drain_join_ms: 0,
            drain_join_ns: 0,
            dequeue_ms: 0,
            dequeue_ns: 0,
        }
    }
}

/// How much the work state holds.
#[derive(Clone, Copy, Debug, PartialEq, Eq, Structural)]
pub struct WorkStructureSizes {
    pub ordered: usize,
    pub ordered_set: usize,
    pub hash_height: usize,
    pub height_to_hash: usize,
    pub header_fks: usize,
    pub known_headers: usize,
    pub inflight: usize,
    /// Requests over all slots.
    pub peer_inflight: usize,
    pub addr_cooldown: usize,
    pub body: BodyPresenceSizes,
}

impl WorkStructureSizes {
    /// Nothing held.
    pub open spec fn blank() -> WorkStructureSizes {
        WorkStructureSizes {
            ordered: 0,
            ordered_set: 0,
            hash_height: 0,
            height_to_hash: 0,
            header_fks: 0,
            known_headers: 0,
            inflight: 0,
            peer_inflight: 0,
            addr_cooldown: 0,
            body: BodyPresenceSizes { known: 0, pending: 0, missing: 0, rejected: 0 },
        }
    }
}

impl Default for WorkStructureSizes {
    fn default() -> (s: Self)
        ensures
            s == WorkStructureSizes::blank(),
    {
        WorkStructureSizes {
            ordered: 0,
            ordered_set: 0,
            hash_height: 0,
            height_to_hash: 0,
            header_fks: 0,
            known_headers: 0,
            inflight: 0,
            peer_inflight: 0,
            addr_cooldown: 0,
            body: BodyPresenceSizes { known: 0, pending: 0, missing: 0, rejected: 0 },
        }
    }
}

/// How much the transaction index holds.
#[derive(Clone, Copy, Debug, PartialEq, Eq, Structural)]
pub struct HeadSizes {
    pub primary_bits: u64,
    pub primary_entry_b: u64,
    pub primary_slots: u64,
    pub primary_occupied: u64,
    pub primary_body_bytes: u64,
    pub segment_count: u64,
    pub sealed_segments: u64,
    pub class_a_n: u64,
    pub fuse8_bytes: u64,
    pub mphf_g_bytes: u64,
    pub open_keys_bytes: u64,
    pub class_c_l2_bytes: u64,
}

impl HeadSizes {
    /// Nothing held.
    pub open spec fn blank() -> HeadSizes {
        HeadSizes {
            primary_bits: 0,
            primary_entry_b: 0,
            primary_slots: 0,
            primary_occupied: 0,
            primary_body_bytes: 0,
            segment_count: 0,
            sealed_segments: 0,
            class_a_n: 0,
            fuse8_bytes: 0,
            mphf_g_bytes: 0,
            open_keys_bytes: 0,
            class_c_l2_bytes: 0,
        }
    }
}

impl Default for HeadSizes {
    fn default() -> (s: Self)
        ensures
            s == HeadSizes::blank(),
    {
        HeadSizes {
            primary_bits: 0,
            primary_entry_b: 0,
            primary_slots: 0,
            primary_occupied: 0,
            primary_body_bytes: 0,
            segment_count: 0,
            sealed_segments: 0,
            class_a_n: 0,
            fuse8_bytes: 0,
            mphf_g_bytes: 0,
            open_keys_bytes: 0,
            class_c_l2_bytes: 0,
        }
    }
}

/// How much the store side of the process holds.
#[derive(Clone, Copy, Debug, PartialEq, Eq, Structural)]
pub struct ProcessOwnedSizes {
    pub conf_plans: usize,
    pub bq_promoted: usize,
    pub inflight_layers: usize,
    pub inflight_pins: usize,
    pub inflight_bytes: u64,
    pub recent_heights: usize,
    pub recent_keys: usize,
    pub recent_pub_keys: usize,
    pub recent_overlay_keys: usize,
    pub recent_fifo_keys: usize,
    pub recent_pin_bytes: u64,
    pub h2h_keys: usize,
    pub fence_runs: usize,
    pub pstore_weak: usize,
    pub pstore_live: usize,
    pub pstore_bytes: u64,
    pub sh_runs: usize,
    pub sh_heads: usize,
    pub head: HeadSizes,
}

impl ProcessOwnedSizes {
    /// Nothing held.
    pub open spec fn blank() -> ProcessOwnedSizes {
        ProcessOwnedSizes {
            conf_plans: 0,
            bq_promoted: 0,
            inflight_layers: 0,
            inflight_pins: 0,
            inflight_bytes: 0,
            recent_heights: 0,
            recent_keys: 0,
            recent_pub_keys: 0,
            recent_overlay_keys: 0,
            recent_fifo_keys: 0,
            recent_pin_bytes: 0,
            h2h_keys: 0,
            fence_runs: 0,
            pstore_weak: 0,
            pstore_live: 0,
            pstore_bytes: 0,
            sh_runs: 0,
            sh_heads: 0,
            head: HeadSizes::blank(),
        }
    }
}

impl Default for ProcessOwnedSizes {
    fn default() -> (s: Self)
        ensures
            s == ProcessOwnedSizes::blank(),
    {
        ProcessOwnedSizes {
            conf_plans: 0,
            bq_promoted: 0,
            inflight_layers: 0,
            inflight_pins: 0,
            inflight_bytes: 0,
            recent_heights: 0,
            recent_keys: 0,
            recent_pub_keys: 0,
            recent_overlay_keys: 0,
            recent_fifo_keys: 0,
            recent_pin_bytes: 0,
            h2h_keys: 0,
            fence_runs: 0,
            pstore_weak: 0,
            pstore_live: 0,
            pstore_bytes: 0,
            sh_runs: 0,
            sh_heads: 0,
            head: HeadSizes::default(),
        }
    }
}

/// The download loop's own counters.
#[derive(Clone, Copy, Debug)]
pub struct HotWindow {
    pub confirm_ms: u64,
    pub confirm_blocks: u64,
    pub confirm_reject_stops: u64,
    pub confirm_us_per_block: u64,
    pub assign_ms: u64,
    pub assign_issued: u64,
    pub drain_ms: u64,
    pub drain_events: u64,
    pub status_scan_ms: u64,
    /// What the loop spent most of its time on.
    pub dominant: &'static str,
    /// First height, blocks, inputs and age in milliseconds of the batch under way.
    pub confirm_live: Option<(u32, u32, u32, u64)>,
}

impl HotWindow {
    /// No activity. What is under way right now is no count.
    pub open spec fn quiet(self) -> bool {
        &&& self.confirm_ms == 0
        &&& self.confirm_blocks == 0
        &&& self.confirm_reject_stops == 0
        &&& self.confirm_us_per_block == 0
        &&& self.assign_ms == 0
        &&& self.assign_issued == 0
        &&& self.drain_ms == 0
        &&& self.drain_events == 0
        &&& self.status_scan_ms == 0
    }
}

impl Default for HotWindow {
    fn default() -> (w: Self)
        ensures
            w.quiet(),
    {
        HotWindow {
            confirm_ms: 0,
            confirm_blocks: 0,
            confirm_reject_stops: 0,
            confirm_us_per_block: 0,
            assign_ms: 0,
            assign_issued: 0,
            drain_ms: 0,
            drain_events: 0,
            status_scan_ms: 0,
            dominant: "",
            confirm_live: None,
        }
    }
}

/// Confirm phases. Times in nanoseconds.
#[derive(Clone, Copy, Debug)]
pub struct PhaseWindow {
    pub phase_blks: u64,
    pub recon_ns: u64,
    pub wire_ns: u64,
    pub connect_ns: u64,
    pub script_ns: u64,
    pub ensure_res_hit: u64,
    pub ensure_cold_n: u64,
    pub recent_idx_ns: u64,
    pub recent_clone_ns: u64,
    pub pins_take_ns: u64,
    pub pins_map_ns: u64,
    pub asm_prevout_ns: u64,
    pub asm_sigop_ns: u64,
    pub asm_final_ns: u64,
    pub asm_job_ns: u64,
    pub asm_in_n: u64,
    pub asm_prev_batch_ns: u64,
    pub asm_prev_batch_n: u64,
    pub asm_prev_same_ns: u64,
    pub asm_prev_same_n: u64,
    pub asm_prev_cold_ns: u64,
    pub asm_prev_cold_n: u64,
    pub asm_cold_null_fk_n: u64,
    pub asm_cold_not_pin_n: u64,
    pub asm_cold_txid_mismatch_n: u64,
    pub asm_cold_vout_miss_n: u64,
    pub asm_prev_fk_ns: u64,
    pub strong_ns: u64,
    pub structural_spent_ns: u64,
    pub spent_abs_ns: u64,
    pub spent_strong_ns: u64,
    pub spent_cold_ns: u64,
    pub spent_pending_ns: u64,
    pub structural_create_h_ns: u64,
    pub structural_bip68_ns: u64,
    pub spend_ranged: u64,
    pub spend_idx: u64,
    pub spend_skip: u64,
    pub ann_ns: u64,
    pub ann_n: u64,
    pub ann_pread_skip: u64,
    pub ann_pread: u64,
    pub meta_ns: u64,
    pub meta_n: u64,
    pub resolve_ns: u64,
    pub load_ns: u64,
    pub prep_wire_arc_ns: u64,
    pub prep_struct_ns: u64,
    pub prep_header_ns: u64,
    pub prep_prepare_ns: u64,
    pub prep_filter_plan_ns: u64,
    pub tip_ns: u64,
    pub script_jobs: u64,
    pub script_skip: u64,
    pub class_a_ns: u64,
    pub ensure_ns: u64,
    pub structural_ns: u64,
    pub class_c_ns: u64,
    pub sh_ns: u64,
    pub utxo_apply_ns: u64,
    pub tweak_ns: u64,
    pub cache_tip_ns: u64,
    pub recent_pub_ns: u64,
    pub head_sub_ns: u64,
    pub class_c_join_ns: u64,
    pub drain_join_ns: u64,
    pub dequeue_ns: u64,
}

impl PhaseWindow {
    /// No activity.
    pub open spec fn quiet(self) -> bool {
        &&& self.phase_blks == 0
        &&& self.recon_ns == 0
        &&& self.wire_ns == 0
        &&& self.connect_ns == 0
        &&& self.script_ns == 0
        &&& self.ensure_res_hit == 0
        &&& self.ensure_cold_n == 0
        &&& self.recent_idx_ns == 0
        &&& self.recent_clone_ns == 0
        &&& self.pins_take_ns == 0
        &&& self.pins_map_ns == 0
        &&& self.asm_prevout_ns == 0
        &&& self.asm_sigop_ns == 0
        &&& self.asm_final_ns == 0
        &&& self.asm_job_ns == 0
        &&& self.asm_in_n == 0
        &&& self.asm_prev_batch_ns == 0
        &&& self.asm_prev_batch_n == 0
        &&& self.asm_prev_same_ns == 0
        &&& self.asm_prev_same_n == 0
        &&& self.asm_prev_cold_ns == 0
        &&& self.asm_prev_cold_n == 0
        &&& self.asm_cold_null_fk_n == 0
        &&& self.asm_cold_not_pin_n == 0
        &&& self.asm_cold_txid_mismatch_n == 0
        &&& self.asm_cold_vout_miss_n == 0
        &&& self.asm_prev_fk_ns == 0
        &&& self.strong_ns == 0
        &&& self.structural_spent_ns == 0
        &&& self.spent_abs_ns == 0
        &&& self.spent_strong_ns == 0
        &&& self.spent_cold_ns == 0
        &&& self.spent_pending_ns == 0
        &&& self.structural_create_h_ns == 0
        &&& self.structural_bip68_ns == 0
        &&& self.spend_ranged == 0
        &&& self.spend_idx == 0
        &&& self.spend_skip == 0
        &&& self.ann_ns == 0
        &&& self.ann_n == 0
        &&& self.ann_pread_skip == 0
        &&& self.ann_pread == 0
        &&& self.meta_ns == 0
        &&& self.meta_n == 0
        &&& self.resolve_ns == 0
        &&& self.load_ns == 0
        &&& self.prep_wire_arc_ns == 0
        &&& self.prep_struct_ns == 0
        &&& self.prep_header_ns == 0
        &&& self.prep_prepare_ns == 0
        &&& self.prep_filter_plan_ns == 0
        &&& self.tip_ns == 0
        &&& self.script_jobs == 0
        &&& self.script_skip == 0
        &&& self.class_a_ns == 0
        &&& self.ensure_ns == 0
        &&& self.structural_ns == 0
        &&& self.class_c_ns == 0
        &&& self.sh_ns == 0
        &&& self.utxo_apply_ns == 0
        &&& self.tweak_ns == 0
        &&& self.cache_tip_ns == 0
        &&& self.recent_pub_ns == 0
        &&& self.head_sub_ns == 0
        &&& self.class_c_join_ns == 0
        &&& self.drain_join_ns == 0
        &&& self.dequeue_ns == 0
    }
}

impl Default for PhaseWindow {
    fn default() -> (w: Self)
        ensures
            w.quiet(),
    {
        PhaseWindow {
            phase_blks: 0,
            recon_ns: 0,
            wire_ns: 0,
            connect_ns: 0,
            script_ns: 0,
            ensure_res_hit: 0,
            ensure_cold_n: 0,
            recent_idx_ns: 0,
            recent_clone_ns: 0,
            pins_take_ns: 0,
            pins_map_ns: 0,
            asm_prevout_ns: 0,
            asm_sigop_ns: 0,
            asm_final_ns: 0,
            asm_job_ns: 0,
            asm_in_n: 0,
            asm_prev_batch_ns: 0,
            asm_prev_batch_n: 0,
            asm_prev_same_ns: 0,
            asm_prev_same_n: 0,
            asm_prev_cold_ns: 0,
            asm_prev_cold_n: 0,
            asm_cold_null_fk_n: 0,
            asm_cold_not_pin_n: 0,
            asm_cold_txid_mismatch_n: 0,
            asm_cold_vout_miss_n: 0,
            asm_prev_fk_ns: 0,
            strong_ns: 0,
            structural_spent_ns: 0,
            spent_abs_ns: 0,
            spent_strong_ns: 0,
            spent_cold_ns: 0,
            spent_pending_ns: 0,
            structural_create_h_ns: 0,
            structural_bip68_ns: 0,
            spend_ranged: 0,
            spend_idx: 0,
            spend_skip: 0,
            ann_ns: 0,
            ann_n: 0,
            ann_pread_skip: 0,
            ann_pread: 0,
            meta_ns: 0,
            meta_n: 0,
            resolve_ns: 0,
            load_ns: 0,
            prep_wire_arc_ns: 0,
            prep_struct_ns: 0,
            prep_header_ns: 0,
            prep_prepare_ns: 0,
            prep_filter_plan_ns: 0,
            tip_ns: 0,
            script_jobs: 0,
            script_skip: 0,
            class_a_ns: 0,
            ensure_ns: 0,
            structural_ns: 0,
            class_c_ns: 0,
            sh_ns: 0,
            utxo_apply_ns: 0,
            tweak_ns: 0,
            cache_tip_ns: 0,
            recent_pub_ns: 0,
            head_sub_ns: 0,
            class_c_join_ns: 0,
            drain_join_ns: 0,
            dequeue_ns: 0,
        }
    }
}

/// Bodies rebuilt from the store. Times in nanoseconds.
#[derive(Clone, Copy, Debug)]
pub struct WireFillWindow {
    pub body_store: u64,
    pub store_body_ns: u64,
}

impl WireFillWindow {
    /// No activity.
    pub open spec fn quiet(self) -> bool {
        &&& self.body_store == 0
        &&& self.store_body_ns == 0
    }
}

impl Default for WireFillWindow {
    fn default() -> (w: Self)
        ensures
            w.quiet(),
    {
        WireFillWindow {
            body_store: 0,
            store_body_ns: 0,
        }
    }
}

/// Script-hash index. Times in nanoseconds.
#[derive(Clone, Copy, Debug)]
pub struct ShWindow {
    pub collect_ns: u64,
    pub sort_ns: u64,
    pub seed_ns: u64,
    pub body_ns: u64,
    pub head_ns: u64,
    pub collect_pin: u64,
    pub collect_cold: u64,
}

impl ShWindow {
    /// No activity.
    pub open spec fn quiet(self) -> bool {
        &&& self.collect_ns == 0
        &&& self.sort_ns == 0
        &&& self.seed_ns == 0
        &&& self.body_ns == 0
        &&& self.head_ns == 0
        &&& self.collect_pin == 0
        &&& self.collect_cold == 0
    }
}

impl Default for ShWindow {
    fn default() -> (w: Self)
        ensures
            w.quiet(),
    {
        ShWindow {
            collect_ns: 0,
            sort_ns: 0,
            seed_ns: 0,
            body_ns: 0,
            head_ns: 0,
            collect_pin: 0,
            collect_cold: 0,
        }
    }
}

/// Load stage. Times in nanoseconds.
#[derive(Clone, Copy, Debug)]
pub struct LoadWindow {
    pub total_ns: u64,
    pub blocks: u64,
    pub utxo_parents: u64,
    pub creates: u64,
    pub parent_unique: u64,
    pub pin_cache_body: u64,
    pub pin_plan: u64,
    pub pin_new: u64,
    pub pin_body_ns: u64,
    pub pin_new_meta_ns: u64,
    pub plan_pin_ns: u64,
    pub pin_adopt_ns: u64,
    pub pin_range_fill_ns: u64,
    pub pin_recent_outs_ns: u64,
    pub pin_contract_ns: u64,
    pub pin_publish_ns: u64,
    pub cold_io_ns: u64,
    pub cold_range_ns: u64,
    pub cold_range_n: u64,
    pub cold_range_body_ns: u64,
    pub cold_range_decode_ns: u64,
    pub cold_idx_ns: u64,
    pub cold_idx_n: u64,
    pub cold_decode_ns: u64,
    pub body_tx: u64,
    pub parent_tx: u64,
    pub missing: u64,
    pub header_ns: u64,
    pub body_decode_ns: u64,
    pub thin_ns: u64,
    pub parent_pin_ns: u64,
    pub cache_put_ns: u64,
    pub edge_same_batch: u64,
    pub edge_fk: u64,
    pub edge_coinbase: u64,
}

impl LoadWindow {
    /// No activity.
    pub open spec fn quiet(self) -> bool {
        &&& self.total_ns == 0
        &&& self.blocks == 0
        &&& self.utxo_parents == 0
        &&& self.creates == 0
        &&& self.parent_unique == 0
        &&& self.pin_cache_body == 0
        &&& self.pin_plan == 0
        &&& self.pin_new == 0
        &&& self.pin_body_ns == 0
        &&& self.pin_new_meta_ns == 0
        &&& self.plan_pin_ns == 0
        &&& self.pin_adopt_ns == 0
        &&& self.pin_range_fill_ns == 0
        &&& self.pin_recent_outs_ns == 0
        &&& self.pin_contract_ns == 0
        &&& self.pin_publish_ns == 0
        &&& self.cold_io_ns == 0
        &&& self.cold_range_ns == 0
        &&& self.cold_range_n == 0
        &&& self.cold_range_body_ns == 0
        &&& self.cold_range_decode_ns == 0
        &&& self.cold_idx_ns == 0
        &&& self.cold_idx_n == 0
        &&& self.cold_decode_ns == 0
        &&& self.body_tx == 0
        &&& self.parent_tx == 0
        &&& self.missing == 0
        &&& self.header_ns == 0
        &&& self.body_decode_ns == 0
        &&& self.thin_ns == 0
        &&& self.parent_pin_ns == 0
        &&& self.cache_put_ns == 0
        &&& self.edge_same_batch == 0
        &&& self.edge_fk == 0
        &&& self.edge_coinbase == 0
    }
}

impl Default for LoadWindow {
    fn default() -> (w: Self)
        ensures
            w.quiet(),
    {
        LoadWindow {
            total_ns: 0,
            blocks: 0,
            utxo_parents: 0,
            creates: 0,
            parent_unique: 0,
            pin_cache_body: 0,
            pin_plan: 0,
            pin_new: 0,
            pin_body_ns: 0,
            pin_new_meta_ns: 0,
            plan_pin_ns: 0,
            pin_adopt_ns: 0,
            pin_range_fill_ns: 0,
            pin_recent_outs_ns: 0,
            pin_contract_ns: 0,
            pin_publish_ns: 0,
            cold_io_ns: 0,
            cold_range_ns: 0,
            cold_range_n: 0,
            cold_range_body_ns: 0,
            cold_range_decode_ns: 0,
            cold_idx_ns: 0,
            cold_idx_n: 0,
            cold_decode_ns: 0,
            body_tx: 0,
            parent_tx: 0,
            missing: 0,
            header_ns: 0,
            body_decode_ns: 0,
            thin_ns: 0,
            parent_pin_ns: 0,
            cache_put_ns: 0,
            edge_same_batch: 0,
            edge_fk: 0,
            edge_coinbase: 0,
        }
    }
}

/// Stamp step. Times in nanoseconds.
#[derive(Clone, Copy, Debug)]
pub struct StampWindow {
    pub struct_ns: u64,
    pub struct_txid_ns: u64,
    pub struct_walk_ns: u64,
    pub prepare_ns: u64,
    pub filter_ns: u64,
    pub batch_ns: u64,
}

impl StampWindow {
    /// No activity.
    pub open spec fn quiet(self) -> bool {
        &&& self.struct_ns == 0
        &&& self.struct_txid_ns == 0
        &&& self.struct_walk_ns == 0
        &&& self.prepare_ns == 0
        &&& self.filter_ns == 0
        &&& self.batch_ns == 0
    }
}

impl Default for StampWindow {
    fn default() -> (w: Self)
        ensures
            w.quiet(),
    {
        StampWindow {
            struct_ns: 0,
            struct_txid_ns: 0,
            struct_walk_ns: 0,
            prepare_ns: 0,
            filter_ns: 0,
            batch_ns: 0,
        }
    }
}

/// Archive planning and writing. Times in nanoseconds.
#[derive(Clone, Copy, Debug)]
pub struct ArchiveWindow {
    pub prep_assign_ns: u64,
    pub prep_collect_ns: u64,
    pub prep_head_ns: u64,
    pub prep_head_fk_ns: u64,
    pub prep_stamp_ns: u64,
    pub prep_finish_ns: u64,
    pub ext_need: u64,
    pub head_need: u64,
    pub head_hit: u64,
    pub leftover_pend: u64,
    pub leftover_cdf0_pct: u64,
    pub leftover_cdf3_pct: u64,
    pub leftover_age_n: u64,
    pub pin_txid_n: u64,
    pub pin_txid_ns: u64,
    pub recent_n: u64,
    pub recent_ns: u64,
    pub batch_stamp: u64,
    pub resolve_ns: u64,
    pub blocks: u64,
    pub prep_inflight_ns: u64,
    pub write_total_ns: u64,
    pub write_reserve_ns: u64,
    pub write_body_ns: u64,
    pub write_head_ns: u64,
    pub write_spend_ns: u64,
    pub write_htxs_ns: u64,
    pub write_flush_ns: u64,
    pub write_blocks: u64,
}

impl ArchiveWindow {
    /// No activity.
    pub open spec fn quiet(self) -> bool {
        &&& self.prep_assign_ns == 0
        &&& self.prep_collect_ns == 0
        &&& self.prep_head_ns == 0
        &&& self.prep_head_fk_ns == 0
        &&& self.prep_stamp_ns == 0
        &&& self.prep_finish_ns == 0
        &&& self.ext_need == 0
        &&& self.head_need == 0
        &&& self.head_hit == 0
        &&& self.leftover_pend == 0
        &&& self.leftover_cdf0_pct == 0
        &&& self.leftover_cdf3_pct == 0
        &&& self.leftover_age_n == 0
        &&& self.pin_txid_n == 0
        &&& self.pin_txid_ns == 0
        &&& self.recent_n == 0
        &&& self.recent_ns == 0
        &&& self.batch_stamp == 0
        &&& self.resolve_ns == 0
        &&& self.blocks == 0
        &&& self.prep_inflight_ns == 0
        &&& self.write_total_ns == 0
        &&& self.write_reserve_ns == 0
        &&& self.write_body_ns == 0
        &&& self.write_head_ns == 0
        &&& self.write_spend_ns == 0
        &&& self.write_htxs_ns == 0
        &&& self.write_flush_ns == 0
        &&& self.write_blocks == 0
    }
}

impl Default for ArchiveWindow {
    fn default() -> (w: Self)
        ensures
            w.quiet(),
    {
        ArchiveWindow {
            prep_assign_ns: 0,
            prep_collect_ns: 0,
            prep_head_ns: 0,
            prep_head_fk_ns: 0,
            prep_stamp_ns: 0,
            prep_finish_ns: 0,
            ext_need: 0,
            head_need: 0,
            head_hit: 0,
            leftover_pend: 0,
            leftover_cdf0_pct: 0,
            leftover_cdf3_pct: 0,
            leftover_age_n: 0,
            pin_txid_n: 0,
            pin_txid_ns: 0,
            recent_n: 0,
            recent_ns: 0,
            batch_stamp: 0,
            resolve_ns: 0,
            blocks: 0,
            prep_inflight_ns: 0,
            write_total_ns: 0,
            write_reserve_ns: 0,
            write_body_ns: 0,
            write_head_ns: 0,
            write_spend_ns: 0,
            write_htxs_ns: 0,
            write_flush_ns: 0,
            write_blocks: 0,
        }
    }
}

/// Lookup stage. Times in nanoseconds.
#[derive(Clone, Copy, Debug)]
pub struct LookupWindow {
    pub blocks: u64,
    pub total_ns: u64,
    pub collect_ns: u64,
    pub head_ns: u64,
    pub cold_io_ns: u64,
    pub decode_ns: u64,
    pub precompute_ns: u64,
    pub wave_head_ns: u64,
    pub wave_spent_ns: u64,
    pub parents: u64,
    pub already: u64,
    pub cold: u64,
    pub unresolved: u64,
}

impl LookupWindow {
    /// No activity.
    pub open spec fn quiet(self) -> bool {
        &&& self.blocks == 0
        &&& self.total_ns == 0
        &&& self.collect_ns == 0
        &&& self.head_ns == 0
        &&& self.cold_io_ns == 0
        &&& self.decode_ns == 0
        &&& self.precompute_ns == 0
        &&& self.wave_head_ns == 0
        &&& self.wave_spent_ns == 0
        &&& self.parents == 0
        &&& self.already == 0
        &&& self.cold == 0
        &&& self.unresolved == 0
    }
}

impl Default for LookupWindow {
    fn default() -> (w: Self)
        ensures
            w.quiet(),
    {
        LookupWindow {
            blocks: 0,
            total_ns: 0,
            collect_ns: 0,
            head_ns: 0,
            cold_io_ns: 0,
            decode_ns: 0,
            precompute_ns: 0,
            wave_head_ns: 0,
            wave_spent_ns: 0,
            parents: 0,
            already: 0,
            cold: 0,
            unresolved: 0,
        }
    }
}

/// Transaction index probes. Times in nanoseconds.
#[derive(Debug)]
pub struct HeadWindow {
    pub probe_ns: u64,
    pub body_ns: u64,
    pub idx_ns: u64,
    pub body_lookups: u64,
    pub keys: u64,
    pub cands: u64,
    /// Mean rank of the probe that hit, in hundredths.
    pub hit_rank_avg_x100: u64,
    pub hit_rank_n: u64,
    pub miss_peeks: u64,
    pub pending_hits: u64,
    /// Hits up to a segment age, in percent.
    pub age_cdf0_pct: u64,
    pub age_cdf3_pct: u64,
    pub age_cdf7_pct: u64,
    pub age_cdf15_pct: u64,
    pub age_cdf31_pct: u64,
    pub age_hit_n: u64,
    /// Hits per segment age, as text.
    pub age_hit_compact: String,
}

impl HeadWindow {
    /// No activity.
    pub open spec fn quiet(self) -> bool {
        &&& self.probe_ns == 0
        &&& self.body_ns == 0
        &&& self.idx_ns == 0
        &&& self.body_lookups == 0
        &&& self.keys == 0
        &&& self.cands == 0
        &&& self.hit_rank_avg_x100 == 0
        &&& self.hit_rank_n == 0
        &&& self.miss_peeks == 0
        &&& self.pending_hits == 0
        &&& self.age_cdf0_pct == 0
        &&& self.age_cdf3_pct == 0
        &&& self.age_cdf7_pct == 0
        &&& self.age_cdf15_pct == 0
        &&& self.age_cdf31_pct == 0
        &&& self.age_hit_n == 0
        &&& self.age_hit_compact@ == Seq::<char>::empty()
    }
}

impl Default for HeadWindow {
    fn default() -> (w: Self)
        ensures
            w.quiet(),
    {
        HeadWindow {
            probe_ns: 0,
            body_ns: 0,
            idx_ns: 0,
            body_lookups: 0,
            keys: 0,
            cands: 0,
            hit_rank_avg_x100: 0,
            hit_rank_n: 0,
            miss_peeks: 0,
            pending_hits: 0,
            age_cdf0_pct: 0,
            age_cdf3_pct: 0,
            age_cdf7_pct: 0,
            age_cdf15_pct: 0,
            age_cdf31_pct: 0,
            age_hit_n: 0,
            age_hit_compact: String::new(),
        }
    }
}

/// Every counter of one window.
#[derive(Debug)]
pub struct PerfWindows {
    pub hot: HotWindow,
    pub thr: ConfirmThrStats,
    pub phase: PhaseWindow,
    pub wire: WireFillWindow,
    pub sh: ShWindow,
    pub load: LoadWindow,
    pub stamp: StampWindow,
    pub archive: ArchiveWindow,
    pub lookup: LookupWindow,
    pub head: HeadWindow,
}

impl PerfWindows {
    /// No activity.
    pub open spec fn quiet(self) -> bool {
        &&& self.hot.quiet()
        &&& self.thr == ConfirmThrStats::blank()
        &&& self.phase.quiet()
        &&& self.wire.quiet()
        &&& self.sh.quiet()
        &&& self.load.quiet()
        &&& self.stamp.quiet()
        &&& self.archive.quiet()
        &&& self.lookup.quiet()
        &&& self.head.quiet()
    }

    /// Hand out the window and start the next one: every count from zero.
    pub fn take(&mut self) -> (w: PerfWindows)
        ensures
            w == *old(self),
            final(self).quiet(),
            final(self).hot.dominant == old(self).hot.dominant,
            final(self).hot.confirm_live == old(self).hot.confirm_live,
    {
        let mut hot = HotWindow::default();
        hot.dominant = self.hot.dominant;
        hot.confirm_live = self.hot.confirm_live;
        let mut w = PerfWindows {
            hot,
            thr: ConfirmThrStats::new(),
            phase: PhaseWindow::default(),
            wire: WireFillWindow::default(),
            sh: ShWindow::default(),
            load: LoadWindow::default(),
            stamp: StampWindow::default(),
            archive: ArchiveWindow::default(),
            lookup: LookupWindow::default(),
            head: HeadWindow::default(),
        };
        std::mem::swap(&mut w, self);
        w
    }
}

/// One window of counters, ready to be shown.
#[derive(Clone, Debug)]
pub struct IbdPerfSample {
    pub inflight: usize,
    pub inflight_cap: usize,
    /// In-RAM block queue used bytes / count (process heap wire payloads).
    pub bq_bytes: u64,
    pub bq_count: usize,
    /// Soft densify confirm-window target (block count ≈ 1 min tip rate).
    pub bq_soft_stop: u32,
    /// Claim-ready HWM (+ inflight) ahead of tip — densify headroom (not a progress lead token).
    pub arch_ahead: u32,
    pub hole: usize,
    pub peers: usize,
    pub headers_done: bool,
    pub confirm_ms: u64,
    pub confirm_blocks: u64,
    pub confirm_reject_stops: u64,
    pub confirm_us_per_block: u64,
    pub assign_ms: u64,
    pub assign_issued: u64,
    pub drain_ms: u64,
    pub drain_events: u64,
    pub status_scan_ms: u64,
    pub dominant: &'static str,
    /// `(first, batch_n, batch_inputs, elapsed_ms)` if confirm mid-batch.
    pub live: Option<(u32, u32, u32, u64)>,
    pub phase_blks: u64,
    pub recon_ms: u64,
    pub wire_ms: u64,
    pub connect_ms: u64,
    pub script_ms: u64,
    pub write: WriteStageSample,
    /// Ensure mix: residency/pin hits vs cold denserels body loads.
    pub ensure_res_hit: u64,
    pub ensure_cold_n: u64,
    /// RecentCreates idx vs snapshot clone (`recent_idx=` / `recent_clone=`).
    pub recent_idx_ms: u64,
    pub recent_clone_ms: u64,
    /// `pins=` part: planned_fks clone + pin Arc vec before Class A.
    pub pins_take_ms: u64,
    /// `pins=` part: write_create_pins FkMap insert after Class A.
    pub pins_map_ms: u64,
    /// Assemble subtimers (ms; sum ≈ connect/assemble).
    pub asm_prevout_ms: u64,
    pub asm_sigop_ms: u64,
    pub asm_final_ms: u64,
    pub asm_job_ms: u64,
    /// Non-coinbase inputs resolved (us/in = prevout_ns / max(1, asm_in_n)).
    pub asm_in_n: u64,
    /// Prevout path: batch pin hit ms / count.
    pub asm_prev_batch_ms: u64,
    pub asm_prev_batch_n: u64,
    /// Prevout path: same-block ms / count.
    pub asm_prev_same_ms: u64,
    pub asm_prev_same_n: u64,
    /// Prevout path: cold Class A ms / count.
    pub asm_prev_cold_ms: u64,
    pub asm_prev_cold_n: u64,
    pub asm_cold_null_fk_n: u64,
    pub asm_cold_not_pin_n: u64,
    pub asm_cold_txid_mismatch_n: u64,
    pub asm_cold_vout_miss_n: u64,
    /// Prevout path: durable txid→fk lookup ms.
    pub asm_prev_fk_ms: u64,
    pub strong_ms: u64,
    /// Structural sub: durable spentness probes.
    pub structural_spent_ms: u64,
    /// Spent sub: pin abs + on-disk 8-byte meta pread.
    pub spent_abs_ms: u64,
    /// Spent sub: is_confirmed_strong_at on non-null fields.
    pub spent_strong_ms: u64,
    /// Spent sub: cold unspent / null-create path.
    pub spent_cold_ms: u64,
    /// Spent sub: pending_spent order gate.
    pub spent_pending_ms: u64,
    /// Structural sub: create-height + coinbase maturity.
    pub structural_create_h_ms: u64,
    /// Structural sub: BIP68 + coin MTP.
    pub structural_bip68_ms: u64,
    pub spend_ranged: u64,
    pub spend_idx: u64,
    pub spend_skip: u64,
    /// Pure-write annotate wall ms / edge count.
    pub ann_ms: u64,
    pub ann_n: u64,
    /// Annotate edges without body pread (should equal annotate edges).
    pub ann_pread_skip: u64,
    /// Annotate body preads (must stay 0 on pure-write path).
    pub ann_pread: u64,
    /// Structural meta bulk read wall ms / peek count.
    pub meta_ms: u64,
    pub meta_n: u64,
    pub resolve_ms: u64,
    pub load_ms: u64,
    /// Wire load residual (inside load/pre_asm, outside pin): Arc clone.
    pub prep_wire_arc_ms: u64,
    /// Structure validate.
    pub prep_struct_ms: u64,
    /// Header validate/put + cache seed.
    pub prep_header_ms: u64,
    /// prepare_block_for_archive.
    pub prep_prepare_ms: u64,
    /// filter need + plan batch + tx_fks wiring.
    pub prep_filter_plan_ms: u64,
    pub recon_ns: u64,
    pub wire_ns: u64,
    pub connect_ns: u64,
    pub script_ns: u64,
    pub strong_ns: u64,
    pub tip_ns: u64,
    pub structural_spent_ns: u64,
    pub structural_create_h_ns: u64,
    pub structural_bip68_ns: u64,
    pub resolve_ns: u64,
    pub load_ns: u64,
    pub sh_runs: usize,
    /// Wire rebuild: store body decode count + wall ms.
    pub wf_body_store: u64,
    pub wf_store_body_ms: u64,
    pub sh_collect_ms: u64,
    pub sh_sort_ms: u64,
    pub sh_seed_ms: u64,
    pub sh_body_ms: u64,
    pub sh_head_ms: u64,
    /// SH collect create sources: write-pin / residency / cold Class A body.
    pub sh_collect_pin: u64,
    pub sh_collect_cold: u64,
    pub load_win_ms: u64,
    pub load_blocks: u64,
    pub load_utxo_parents: u64,
    pub load_creates: u64,
    pub load_parent_unique: u64,
    pub load_pin_cache_body: u64,
    /// Wire plan / in-flight parent pins (not denserels hits).
    pub load_pin_plan: u64,
    pub load_pin_new: u64,
    pub load_pin_body_ms: u64,
    pub load_pin_new_meta_ms: u64,
    pub load_plan_pin_ms: u64,
    /// Pin residual sub-walls (adopt / recent-outs / range-fill insert / contract / publish).
    pub load_pin_adopt_ms: u64,
    pub load_pin_range_fill_ms: u64,
    pub load_pin_recent_outs_ms: u64,
    pub load_pin_contract_ms: u64,
    pub load_pin_publish_ms: u64,
    pub load_cold_io_ms: u64,
    /// Cold denserels by plan body range (ms / create count).
    pub load_cold_range_ms: u64,
    pub load_cold_range_n: u64,
    pub load_cold_range_body_ms: u64,
    pub load_cold_range_decode_ms: u64,
    /// Cold denserels by idx→body (ms / create count).
    pub load_cold_idx_ms: u64,
    pub load_cold_idx_n: u64,
    pub load_cold_decode_ms: u64,
    pub load_body_tx_reads: u64,
    pub load_parent_tx_reads: u64,
    pub load_missing_parents: u64,
    pub load_ready_through: u32,
    pub cache_bodies: usize,
    pub cache_plans: usize,
    pub conf_ready: usize,
    pub conf_script_q: usize,
    pub conf_write_q: usize,
    pub conf_script_q_cap: usize,
    pub conf_write_q_cap: usize,
    /// Max scriptq depth since last 5s sample.
    pub conf_script_q_hwm: usize,
    pub conf_write_q_hwm: usize,
    pub thr_lookup_claim_ms: u64,
    pub thr_lookup_stamp_ms: u64,
    pub thr_lookup_other_ms: u64,
    pub thr_lookup_send_wait_ms: u64,
    /// Stamp sub-walls (structure / prepare / filter / plan_batch).
    pub stamp_struct_ms: u64,
    /// Split of structure: one-pass txid/wtxid encode vs remaining walks.
    pub stamp_struct_txid_ms: u64,
    pub stamp_struct_walk_ms: u64,
    pub stamp_prepare_ms: u64,
    pub stamp_filter_ms: u64,
    pub stamp_batch_ms: u64,
    pub stamp_batch_assign_ms: u64,
    pub stamp_batch_collect_ms: u64,
    pub stamp_batch_head_ms: u64,
    /// Pure get_fk_by_txid_batch wall.
    pub stamp_batch_head_fk_ms: u64,
    pub stamp_batch_stamp_ms: u64,
    pub stamp_batch_finish_ms: u64,
    pub thr_load_recv_wait_ms: u64,
    pub thr_load_pack_ms: u64,
    pub thr_load_clone_ms: u64,
    pub thr_load_stamp_ms: u64,
    pub thr_load_pin_ms: u64,
    pub thr_load_asm_ms: u64,
    pub thr_load_prune_ms: u64,
    pub thr_load_send_wait_ms: u64,
    pub script_jobs: u64,
    pub script_skip: u64,
    pub thr_script_recv_wait_ms: u64,
    pub thr_script_work_ms: u64,
    pub thr_script_send_wait_ms: u64,
    pub thr_write_recv_wait_ms: u64,
    pub thr_write_work_ms: u64,
    pub plan_blks: u64,
    pub plan_ms: u64,
    pub plan_collect_ms: u64,
    pub plan_head_ms: u64,
    pub plan_cold_io_ms: u64,
    /// Lookup-wave `consensus_decode` (`decode=`).
    pub lookup_decode_ms: u64,
    /// Lookup-wave `TxPrecompute::from_tx` / `from_tx_connect` (`precompute=`).
    pub lookup_precompute_ms: u64,
    /// Lookup-wave TipOnly `get_fk_by_txid_batch` (`wave=… head=`). Not load stamp.
    pub lookup_wave_head_ms: u64,
    /// TipOnly CPU (slot/fuse probe + fence snapshot) inside `head=`.
    pub lookup_wave_head_probe_ms: u64,
    /// TipOnly body+idx pread wall inside `head=`.
    pub lookup_wave_head_io_ms: u64,
    /// TipOnly `txid.body` / identity preads this window.
    pub lookup_wave_head_preads: u64,
    /// Lookup-wave `tx_spent_range_batch` for TipOnly hits (`wave=… spent=`).
    pub lookup_wave_spent_ms: u64,
    pub plan_parents: u64,
    pub plan_already: u64,
    pub plan_cold: u64,
    pub plan_same_batch: u64,
    pub load_hdr_ms: u64,
    pub load_decode_ms: u64,
    pub load_thin_ms: u64,
    pub load_parent_pin_ms: u64,
    pub load_cache_put_ms: u64,
    pub load_edge_same: u64,
    pub load_edge_fk: u64,
    pub load_edge_cb: u64,
    pub arch_ext_need: u64,
    pub arch_head_need: u64,
    pub arch_head_hit: u64,
    pub leftover_pend: u64,
    pub leftover_cdf0_pct: u64,
    pub leftover_cdf3_pct: u64,
    pub leftover_age_n: u64,
    /// Unique prev_txids resolved from live pipeline pins (not in-flight).
    pub arch_pin_txid: u64,
    pub arch_pin_txid_ms: u64,
    /// Write-published recent-create identity hits (after published, before leftover).
    pub arch_recent_n: u64,
    pub arch_recent_ms: u64,
    pub arch_batch_stamp: u64,
    pub arch_resolve_ns: u64,
    pub arch_resolve_blocks: u64,
    pub arch_prep_assign_ms: u64,
    pub arch_prep_collect_ms: u64,
    pub arch_prep_inflight_ms: u64,
    pub arch_prep_head_ms: u64,
    pub arch_prep_head_fk_ms: u64,
    pub arch_prep_probe_ms: u64,
    pub arch_prep_idx_ms: u64,
    pub arch_prep_body_txid_ms: u64,
    pub arch_prep_head_keys: u64,
    pub arch_prep_head_cands: u64,
    /// Mean winning cand rank (1 = first probe body peek).
    pub arch_prep_hit_rank_avg_x100: u64,
    pub arch_prep_hit_rank_n: u64,
    pub arch_prep_miss_peeks: u64,
    /// Write-behind pending txid→fk hits.
    pub arch_prep_pending_hits: u64,
    /// Winner sealed-age CDF % (0/3/7/15/31); `cdf3` ≈ wave1 hit % under ages≤3 policy.
    pub arch_prep_age_cdf0_pct: u64,
    pub arch_prep_age_cdf3_pct: u64,
    pub arch_prep_age_cdf7_pct: u64,
    pub arch_prep_age_cdf15_pct: u64,
    pub arch_prep_age_cdf31_pct: u64,
    /// Winner age hist compact `h0:h1:…:h7+tail`.
    pub arch_prep_age_hit_compact: String,
    pub arch_prep_age_hit_n: u64,
    pub arch_prep_body_lookups: u64,
    pub arch_prep_stamp_ms: u64,
    pub arch_prep_finish_ms: u64,
    pub arch_write_total_ms: u64,
    pub arch_write_reserve_ms: u64,
    pub arch_write_body_ms: u64,
    pub arch_write_head_ms: u64,
    pub arch_write_spend_ms: u64,
    pub arch_write_htxs_ms: u64,
    pub arch_write_flush_ms: u64,
    pub arch_write_blocks: u64,
    /// Process RSS / smaps (kB); 0 when `/proc` unavailable.
    pub rss_kb: u64,
    pub rss_anon_kb: u64,
    pub rss_file_kb: u64,
    pub vm_hwm_kb: u64,
    /// `mlock`ed pages only (usually 0); RSS is **not** limited to these.
    pub rss_locked_kb: u64,
    /// Work-path + body presence occupancy (O(1) lens).
    pub work: WorkStructureSizes,
    /// Query-side process-owned caches (residency + header plans + SH + tx.head).
    pub owned: ProcessOwnedSizes,
    /// Confirm load/scripts/write queue contents + feed.
    pub conf_pipe: ConfirmPipelineSizes,
}

/// Is this the sample of an idle window: every count zero?
pub open spec fn is_idle_sample(s: IbdPerfSample) -> bool {
    &&& s.inflight == 0
    &&& s.inflight_cap == 0
    &&& s.bq_bytes == 0
    &&& s.bq_count == 0
    &&& s.bq_soft_stop == 0
    &&& s.arch_ahead == 0
    &&& s.hole == 0
    &&& s.peers == 0
    &&& !s.headers_done
    &&& s.confirm_ms == 0
    &&& s.confirm_blocks == 0
    &&& s.confirm_reject_stops == 0
    &&& s.confirm_us_per_block == 0
    &&& s.assign_ms == 0
    &&& s.assign_issued == 0
    &&& s.drain_ms == 0
    &&& s.drain_events == 0
    &&& s.status_scan_ms == 0
    &&& s.dominant@ == "idle"@
    &&& s.live is None
    &&& s.phase_blks == 0
    &&& s.recon_ms == 0
    &&& s.wire_ms == 0
    &&& s.connect_ms == 0
    &&& s.script_ms == 0
    &&& s.write == WriteStageSample::blank()
    &&& s.ensure_res_hit == 0
    &&& s.ensure_cold_n == 0
    &&& s.recent_idx_ms == 0
    &&& s.recent_clone_ms == 0
    &&& s.pins_take_ms == 0
    &&& s.pins_map_ms == 0
    &&& s.asm_prevout_ms == 0
    &&& s.asm_sigop_ms == 0
    &&& s.asm_final_ms == 0
    &&& s.asm_job_ms == 0
    &&& s.asm_in_n == 0
    &&& s.asm_prev_batch_ms == 0
    &&& s.asm_prev_batch_n == 0
    &&& s.asm_prev_same_ms == 0
    &&& s.asm_prev_same_n == 0
    &&& s.asm_prev_cold_ms == 0
    &&& s.asm_prev_cold_n == 0
    &&& s.asm_cold_null_fk_n == 0
    &&& s.asm_cold_not_pin_n == 0
    &&& s.asm_cold_txid_mismatch_n == 0
    &&& s.asm_cold_vout_miss_n == 0
    &&& s.asm_prev_fk_ms == 0
    &&& s.strong_ms == 0
    &&& s.structural_spent_ms == 0
    &&& s.spent_abs_ms == 0
    &&& s.spent_strong_ms == 0
    &&& s.spent_cold_ms == 0
    &&& s.spent_pending_ms == 0
    &&& s.structural_create_h_ms == 0
    &&& s.structural_bip68_ms == 0
    &&& s.spend_ranged == 0
    &&& s.spend_idx == 0
    &&& s.spend_skip == 0
    &&& s.ann_ms == 0
    &&& s.ann_n == 0
    &&& s.ann_pread_skip == 0
    &&& s.ann_pread == 0
    &&& s.meta_ms == 0
    &&& s.meta_n == 0
    &&& s.resolve_ms == 0
    &&& s.load_ms == 0
    &&& s.prep_wire_arc_ms == 0
    &&& s.prep_struct_ms == 0
    &&& s.prep_header_ms == 0
    &&& s.prep_prepare_ms == 0
    &&& s.prep_filter_plan_ms == 0
    &&& s.recon_ns == 0
    &&& s.wire_ns == 0
    &&& s.connect_ns == 0
    &&& s.script_ns == 0
    &&& s.strong_ns == 0
    &&& s.tip_ns == 0
    &&& s.structural_spent_ns == 0
    &&& s.structural_create_h_ns == 0
    &&& s.structural_bip68_ns == 0
    &&& s.resolve_ns == 0
    &&& s.load_ns == 0
    &&& s.sh_runs == 0
    &&& s.wf_body_store == 0
    &&& s.wf_store_body_ms == 0
    &&& s.sh_collect_ms == 0
    &&& s.sh_sort_ms == 0
    &&& s.sh_seed_ms == 0
    &&& s.sh_body_ms == 0
    &&& s.sh_head_ms == 0
    &&& s.sh_collect_pin == 0
    &&& s.sh_collect_cold == 0
    &&& s.load_win_ms == 0
    &&& s.load_blocks == 0
    &&& s.load_utxo_parents == 0
    &&& s.load_creates == 0
    &&& s.load_parent_unique == 0
    &&& s.load_pin_cache_body == 0
    &&& s.load_pin_plan == 0
    &&& s.load_pin_new == 0
    &&& s.load_pin_body_ms == 0
    &&& s.load_pin_new_meta_ms == 0
    &&& s.load_plan_pin_ms == 0
    &&& s.load_pin_adopt_ms == 0
    &&& s.load_pin_range_fill_ms == 0
    &&& s.load_pin_recent_outs_ms == 0
    &&& s.load_pin_contract_ms == 0
    &&& s.load_pin_publish_ms == 0
    &&& s.load_cold_io_ms == 0
    &&& s.load_cold_range_ms == 0
    &&& s.load_cold_range_n == 0
    &&& s.load_cold_range_body_ms == 0
    &&& s.load_cold_range_decode_ms == 0
    &&& s.load_cold_idx_ms == 0
    &&& s.load_cold_idx_n == 0
    &&& s.load_cold_decode_ms == 0
    &&& s.load_body_tx_reads == 0
    &&& s.load_parent_tx_reads == 0
    &&& s.load_missing_parents == 0
    &&& s.load_ready_through == 0
    &&& s.cache_bodies == 0
    &&& s.cache_plans == 0
    &&& s.conf_ready == 0
    &&& s.conf_script_q == 0
    &&& s.conf_write_q == 0
    &&& s.conf_script_q_cap == SCRIPT_QUEUE_CAP_DEFAULT
    &&& s.conf_write_q_cap == WRITE_QUEUE_CAP_DEFAULT
    &&& s.conf_script_q_hwm == 0
    &&& s.conf_write_q_hwm == 0
    &&& s.thr_lookup_claim_ms == 0
    &&& s.thr_lookup_stamp_ms == 0
    &&& s.thr_lookup_other_ms == 0
    &&& s.thr_lookup_send_wait_ms == 0
    &&& s.stamp_struct_ms == 0
    &&& s.stamp_struct_txid_ms == 0
    &&& s.stamp_struct_walk_ms == 0
    &&& s.stamp_prepare_ms == 0
    &&& s.stamp_filter_ms == 0
    &&& s.stamp_batch_ms == 0
    &&& s.stamp_batch_assign_ms == 0
    &&& s.stamp_batch_collect_ms == 0
    &&& s.stamp_batch_head_ms == 0
    &&& s.stamp_batch_head_fk_ms == 0
    &&& s.stamp_batch_stamp_ms == 0
    &&& s.stamp_batch_finish_ms == 0
    &&& s.thr_load_recv_wait_ms == 0
    &&& s.thr_load_pack_ms == 0
    &&& s.thr_load_clone_ms == 0
    &&& s.thr_load_stamp_ms == 0
    &&& s.thr_load_pin_ms == 0
    &&& s.thr_load_asm_ms == 0
    &&& s.thr_load_prune_ms == 0
    &&& s.thr_load_send_wait_ms == 0
    &&& s.script_jobs == 0
    &&& s.script_skip == 0
    &&& s.thr_script_recv_wait_ms == 0
    &&& s.thr_script_work_ms == 0
    &&& s.thr_script_send_wait_ms == 0
    &&& s.thr_write_recv_wait_ms == 0
    &&& s.thr_write_work_ms == 0
    &&& s.plan_blks == 0
    &&& s.plan_ms == 0
    &&& s.plan_collect_ms == 0
    &&& s.plan_head_ms == 0
    &&& s.plan_cold_io_ms == 0
    &&& s.lookup_decode_ms == 0
    &&& s.lookup_precompute_ms == 0
    &&& s.lookup_wave_head_ms == 0
    &&& s.lookup_wave_head_probe_ms == 0
    &&& s.lookup_wave_head_io_ms == 0
    &&& s.lookup_wave_head_preads == 0
    &&& s.lookup_wave_spent_ms == 0
    &&& s.plan_parents == 0
    &&& s.plan_already == 0
    &&& s.plan_cold == 0
    &&& s.plan_same_batch == 0
    &&& s.load_hdr_ms == 0
    &&& s.load_decode_ms == 0
    &&& s.load_thin_ms == 0
    &&& s.load_parent_pin_ms == 0
    &&& s.load_cache_put_ms == 0
    &&& s.load_edge_same == 0
    &&& s.load_edge_fk == 0
    &&& s.load_edge_cb == 0
    &&& s.arch_ext_need == 0
    &&& s.arch_head_need == 0
    &&& s.arch_head_hit == 0
    &&& s.leftover_pend == 0
    &&& s.leftover_cdf0_pct == 0
    &&& s.leftover_cdf3_pct == 0
    &&& s.leftover_age_n == 0
    &&& s.arch_pin_txid == 0
    &&& s.arch_pin_txid_ms == 0
    &&& s.arch_recent_n == 0
    &&& s.arch_recent_ms == 0
    &&& s.arch_batch_stamp == 0
    &&& s.arch_resolve_ns == 0
    &&& s.arch_resolve_blocks == 0
    &&& s.arch_prep_assign_ms == 0
    &&& s.arch_prep_collect_ms == 0
    &&& s.arch_prep_inflight_ms == 0
    &&& s.arch_prep_head_ms == 0
    &&& s.arch_prep_head_fk_ms == 0
    &&& s.arch_prep_probe_ms == 0
    &&& s.arch_prep_idx_ms == 0
    &&& s.arch_prep_body_txid_ms == 0
    &&& s.arch_prep_head_keys == 0
    &&& s.arch_prep_head_cands == 0
    &&& s.arch_prep_hit_rank_avg_x100 == 0
    &&& s.arch_prep_hit_rank_n == 0
    &&& s.arch_prep_miss_peeks == 0
    &&& s.arch_prep_pending_hits == 0
    &&& s.arch_prep_age_cdf0_pct == 0
    &&& s.arch_prep_age_cdf3_pct == 0
    &&& s.arch_prep_age_cdf7_pct == 0
    &&& s.arch_prep_age_cdf15_pct == 0
    &&& s.arch_prep_age_cdf31_pct == 0
    &&& s.arch_prep_age_hit_compact@ == Seq::<char>::empty()
    &&& s.arch_prep_age_hit_n == 0
    &&& s.arch_prep_body_lookups == 0
    &&& s.arch_prep_stamp_ms == 0
    &&& s.arch_prep_finish_ms == 0
    &&& s.arch_write_total_ms == 0
    &&& s.arch_write_reserve_ms == 0
    &&& s.arch_write_body_ms == 0
    &&& s.arch_write_head_ms == 0
    &&& s.arch_write_spend_ms == 0
    &&& s.arch_write_htxs_ms == 0
    &&& s.arch_write_flush_ms == 0
    &&& s.arch_write_blocks == 0
    &&& s.rss_kb == 0
    &&& s.rss_anon_kb == 0
    &&& s.rss_file_kb == 0
    &&& s.vm_hwm_kb == 0
    &&& s.rss_locked_kb == 0
    &&& s.work == WorkStructureSizes::blank()
    &&& s.owned == ProcessOwnedSizes::blank()
    &&& s.conf_pipe == ConfirmPipelineSizes::blank()
}

impl Default for IbdPerfSample {
    fn default() -> (s: Self)
        ensures
            is_idle_sample(s),
    {
        let s = IbdPerfSample {
            inflight: 0,
            inflight_cap: 0,
            bq_bytes: 0,
            bq_count: 0,
            bq_soft_stop: 0,
            arch_ahead: 0,
            hole: 0,
            peers: 0,
            headers_done: false,
            confirm_ms: 0,
            confirm_blocks: 0,
            confirm_reject_stops: 0,
            confirm_us_per_block: 0,
            assign_ms: 0,
            assign_issued: 0,
            drain_ms: 0,
            drain_events: 0,
            status_scan_ms: 0,
            dominant: "idle",
            live: None,
            phase_blks: 0,
            recon_ms: 0,
            wire_ms: 0,
            connect_ms: 0,
            script_ms: 0,
            write: WriteStageSample::default(),
            ensure_res_hit: 0,
            ensure_cold_n: 0,
            recent_idx_ms: 0,
            recent_clone_ms: 0,
            pins_take_ms: 0,
            pins_map_ms: 0,
            asm_prevout_ms: 0,
            asm_sigop_ms: 0,
            asm_final_ms: 0,
            asm_job_ms: 0,
            asm_in_n: 0,
            asm_prev_batch_ms: 0,
            asm_prev_batch_n: 0,
            asm_prev_same_ms: 0,
            asm_prev_same_n: 0,
            asm_prev_cold_ms: 0,
            asm_prev_cold_n: 0,
            asm_cold_null_fk_n: 0,
            asm_cold_not_pin_n: 0,
            asm_cold_txid_mismatch_n: 0,
            asm_cold_vout_miss_n: 0,
            asm_prev_fk_ms: 0,
            strong_ms: 0,
            structural_spent_ms: 0,
            spent_abs_ms: 0,
            spent_strong_ms: 0,
            spent_cold_ms: 0,
            spent_pending_ms: 0,
            structural_create_h_ms: 0,
            structural_bip68_ms: 0,
            spend_ranged: 0,
            spend_idx: 0,
            spend_skip: 0,
            ann_ms: 0,
            ann_n: 0,
            ann_pread_skip: 0,
            ann_pread: 0,
            meta_ms: 0,
            meta_n: 0,
            resolve_ms: 0,
            load_ms: 0,
            prep_wire_arc_ms: 0,
            prep_struct_ms: 0,
            prep_header_ms: 0,
            prep_prepare_ms: 0,
            prep_filter_plan_ms: 0,
            recon_ns: 0,
            wire_ns: 0,
            connect_ns: 0,
            script_ns: 0,
            strong_ns: 0,
            tip_ns: 0,
            structural_spent_ns: 0,
            structural_create_h_ns: 0,
            structural_bip68_ns: 0,
            resolve_ns: 0,
            load_ns: 0,
            sh_runs: 0,
            wf_body_store: 0,
            wf_store_body_ms: 0,
            sh_collect_ms: 0,
            sh_sort_ms: 0,
            sh_seed_ms: 0,
            sh_body_ms: 0,
            sh_head_ms: 0,
            sh_collect_pin: 0,
            sh_collect_cold: 0,
            load_win_ms: 0,
            load_blocks: 0,
            load_utxo_parents: 0,
            load_creates: 0,
            load_parent_unique: 0,
            load_pin_cache_body: 0,
            load_pin_plan: 0,
            load_pin_new: 0,
            load_pin_body_ms: 0,
            load_pin_new_meta_ms: 0,
            load_plan_pin_ms: 0,
            load_pin_adopt_ms: 0,
            load_pin_range_fill_ms: 0,
            load_pin_recent_outs_ms: 0,
            load_pin_contract_ms: 0,
            load_pin_publish_ms: 0,
            load_cold_io_ms: 0,
            load_cold_range_ms: 0,
            load_cold_range_n: 0,
            load_cold_range_body_ms: 0,
            load_cold_range_decode_ms: 0,
            load_cold_idx_ms: 0,
            load_cold_idx_n: 0,
            load_cold_decode_ms: 0,
            load_body_tx_reads: 0,
            load_parent_tx_reads: 0,
            load_missing_parents: 0,
            load_ready_through: 0,
            cache_bodies: 0,
            cache_plans: 0,
            conf_ready: 0,
            conf_script_q: 0,
            conf_write_q: 0,
            conf_script_q_cap: script_queue_cap(),
            conf_write_q_cap: write_queue_cap(),
            conf_script_q_hwm: 0,
            conf_write_q_hwm: 0,
            thr_lookup_claim_ms: 0,
            thr_lookup_stamp_ms: 0,
            thr_lookup_other_ms: 0,
            thr_lookup_send_wait_ms: 0,
            stamp_struct_ms: 0,
            stamp_struct_txid_ms: 0,
            stamp_struct_walk_ms: 0,
            stamp_prepare_ms: 0,
            stamp_filter_ms: 0,
            stamp_batch_ms: 0,
            stamp_batch_assign_ms: 0,
            stamp_batch_collect_ms: 0,
            stamp_batch_head_ms: 0,
            stamp_batch_head_fk_ms: 0,
            stamp_batch_stamp_ms: 0,
            stamp_batch_finish_ms: 0,
            thr_load_recv_wait_ms: 0,
            thr_load_pack_ms: 0,
            thr_load_clone_ms: 0,
            thr_load_stamp_ms: 0,
            thr_load_pin_ms: 0,
            thr_load_asm_ms: 0,
            thr_load_prune_ms: 0,
            thr_load_send_wait_ms: 0,
            script_jobs: 0,
            script_skip: 0,
            thr_script_recv_wait_ms: 0,
            thr_script_work_ms: 0,
            thr_script_send_wait_ms: 0,
            thr_write_recv_wait_ms: 0,
            thr_write_work_ms: 0,
            plan_blks: 0,
            plan_ms: 0,
            plan_collect_ms: 0,
            plan_head_ms: 0,
            plan_cold_io_ms: 0,
            lookup_decode_ms: 0,
            lookup_precompute_ms: 0,
            lookup_wave_head_ms: 0,
            lookup_wave_head_probe_ms: 0,
            lookup_wave_head_io_ms: 0,
            lookup_wave_head_preads: 0,
            lookup_wave_spent_ms: 0,
            plan_parents: 0,
            plan_already: 0,
            plan_cold: 0,
            plan_same_batch: 0,
            load_hdr_ms: 0,
            load_decode_ms: 0,
            load_thin_ms: 0,
            load_parent_pin_ms: 0,
            load_cache_put_ms: 0,
            load_edge_same: 0,
            load_edge_fk: 0,
            load_edge_cb: 0,
            arch_ext_need: 0,
            arch_head_need: 0,
            arch_head_hit: 0,
            leftover_pend: 0,
            leftover_cdf0_pct: 0,
            leftover_cdf3_pct: 0,
            leftover_age_n: 0,
            arch_pin_txid: 0,
            arch_pin_txid_ms: 0,
            arch_recent_n: 0,
            arch_recent_ms: 0,
            arch_batch_stamp: 0,
            arch_resolve_ns: 0,
            arch_resolve_blocks: 0,
            arch_prep_assign_ms: 0,
            arch_prep_collect_ms: 0,
            arch_prep_inflight_ms: 0,
            arch_prep_head_ms: 0,
            arch_prep_head_fk_ms: 0,
            arch_prep_probe_ms: 0,
            arch_prep_idx_ms: 0,
            arch_prep_body_txid_ms: 0,
            arch_prep_head_keys: 0,
            arch_prep_head_cands: 0,
            arch_prep_hit_rank_avg_x100: 0,
            arch_prep_hit_rank_n: 0,
            arch_prep_miss_peeks: 0,
            arch_prep_pending_hits: 0,
            arch_prep_age_cdf0_pct: 0,
            arch_prep_age_cdf3_pct: 0,
            arch_prep_age_cdf7_pct: 0,
            arch_prep_age_cdf15_pct: 0,
            arch_prep_age_cdf31_pct: 0,
            arch_prep_age_hit_compact: String::new(),
            arch_prep_age_hit_n: 0,
            arch_prep_body_lookups: 0,
            arch_prep_stamp_ms: 0,
            arch_prep_finish_ms: 0,
            arch_write_total_ms: 0,
            arch_write_reserve_ms: 0,
            arch_write_body_ms: 0,
            arch_write_head_ms: 0,
            arch_write_spend_ms: 0,
            arch_write_htxs_ms: 0,
            arch_write_flush_ms: 0,
            arch_write_blocks: 0,
            rss_kb: 0,
            rss_anon_kb: 0,
            rss_file_kb: 0,
            vm_hwm_kb: 0,
            rss_locked_kb: 0,
            work: WorkStructureSizes::default(),
            owned: ProcessOwnedSizes::default(),
            conf_pipe: ConfirmPipelineSizes::default(),
        };
        assert(s.arch_prep_age_hit_compact@ =~= Seq::<char>::empty());
        s
    }
}

/// Does `s` show the write stage of the window: each part in nanoseconds, and in whole
/// milliseconds?
pub open spec fn shows_write(s: WriteStageSample, w: PerfWindows) -> bool {
    &&& s.class_a_ms == ms_of(w.phase.class_a_ns)
    &&& s.class_a_ns == w.phase.class_a_ns
    &&& s.ensure_ms == ms_of(w.phase.ensure_ns)
    &&& s.ensure_ns == w.phase.ensure_ns
    &&& s.structural_ms == ms_of(w.phase.structural_ns)
    &&& s.structural_ns == w.phase.structural_ns
    &&& s.class_c_ms == ms_of(w.phase.class_c_ns)
    &&& s.class_c_ns == w.phase.class_c_ns
    &&& s.sh_ms == ms_of(w.phase.sh_ns)
    &&& s.sh_ns == w.phase.sh_ns
    &&& s.utxo_ms == ms_of(w.phase.utxo_apply_ns)
    &&& s.utxo_apply_ns == w.phase.utxo_apply_ns
    &&& s.tweak_ms == ms_of(w.phase.tweak_ns)
    &&& s.tweak_ns == w.phase.tweak_ns
    &&& s.cache_tip_ms == ms_of(w.phase.cache_tip_ns)
    &&& s.cache_tip_ns == w.phase.cache_tip_ns
    &&& s.recent_pub_ms == ms_of(w.phase.recent_pub_ns)
    &&& s.recent_pub_ns == w.phase.recent_pub_ns
    &&& s.pins_ms == ms_of(sat_add(w.phase.pins_take_ns, w.phase.pins_map_ns))
    &&& s.pins_ns == sat_add(w.phase.pins_take_ns, w.phase.pins_map_ns)
    &&& s.head_sub_ms == ms_of(w.phase.head_sub_ns)
    &&& s.head_sub_ns == w.phase.head_sub_ns
    &&& s.class_c_join_ms == ms_of(w.phase.class_c_join_ns)
    &&& s.class_c_join_ns == w.phase.class_c_join_ns
    &&& s.drain_join_ms == ms_of(w.phase.drain_join_ns)
    &&& s.drain_join_ns == w.phase.drain_join_ns
    &&& s.dequeue_ms == ms_of(w.phase.dequeue_ns)
    &&& s.dequeue_ns == w.phase.dequeue_ns
}

/// Does `s` show the counters of the window? Times are shown in whole milliseconds,
/// and some in nanoseconds too; counts as they are.
pub open spec fn shows_windows(s: IbdPerfSample, w: PerfWindows) -> bool {
    &&& shows_write(s.write, w)
    &&& s.confirm_ms == w.hot.confirm_ms
    &&& s.confirm_blocks == w.hot.confirm_blocks
    &&& s.confirm_reject_stops == w.hot.confirm_reject_stops
    &&& s.confirm_us_per_block == w.hot.confirm_us_per_block
    &&& s.assign_ms == w.hot.assign_ms
    &&& s.assign_issued == w.hot.assign_issued
    &&& s.drain_ms == w.hot.drain_ms
    &&& s.drain_events == w.hot.drain_events
    &&& s.status_scan_ms == w.hot.status_scan_ms
    &&& s.dominant@ == w.hot.dominant@
    &&& s.live == w.hot.confirm_live
    &&& s.phase_blks == w.phase.phase_blks
    &&& s.recon_ms == ms_of(w.phase.recon_ns)
    &&& s.wire_ms == ms_of(w.phase.wire_ns)
    &&& s.connect_ms == ms_of(w.phase.connect_ns)
    &&& s.script_ms == ms_of(w.phase.script_ns)
    &&& s.ensure_res_hit == w.phase.ensure_res_hit
    &&& s.ensure_cold_n == w.phase.ensure_cold_n
    &&& s.recent_idx_ms == ms_of(w.phase.recent_idx_ns)
    &&& s.recent_clone_ms == ms_of(w.phase.recent_clone_ns)
    &&& s.pins_take_ms == ms_of(w.phase.pins_take_ns)
    &&& s.pins_map_ms == ms_of(w.phase.pins_map_ns)
    &&& s.asm_prevout_ms == ms_of(w.phase.asm_prevout_ns)
    &&& s.asm_sigop_ms == ms_of(w.phase.asm_sigop_ns)
    &&& s.asm_final_ms == ms_of(w.phase.asm_final_ns)
    &&& s.asm_job_ms == ms_of(w.phase.asm_job_ns)
    &&& s.asm_in_n == w.phase.asm_in_n
    &&& s.asm_prev_batch_ms == ms_of(w.phase.asm_prev_batch_ns)
    &&& s.asm_prev_batch_n == w.phase.asm_prev_batch_n
    &&& s.asm_prev_same_ms == ms_of(w.phase.asm_prev_same_ns)
    &&& s.asm_prev_same_n == w.phase.asm_prev_same_n
    &&& s.asm_prev_cold_ms == ms_of(w.phase.asm_prev_cold_ns)
    &&& s.asm_prev_cold_n == w.phase.asm_prev_cold_n
    &&& s.asm_cold_null_fk_n == w.phase.asm_cold_null_fk_n
    &&& s.asm_cold_not_pin_n == w.phase.asm_cold_not_pin_n
    &&& s.asm_cold_txid_mismatch_n == w.phase.asm_cold_txid_mismatch_n
    &&& s.asm_cold_vout_miss_n == w.phase.asm_cold_vout_miss_n
    &&& s.asm_prev_fk_ms == ms_of(w.phase.asm_prev_fk_ns)
    &&& s.strong_ms == ms_of(w.phase.strong_ns)
    &&& s.structural_spent_ms == ms_of(w.phase.structural_spent_ns)
    &&& s.spent_abs_ms == ms_of(w.phase.spent_abs_ns)
    &&& s.spent_strong_ms == ms_of(w.phase.spent_strong_ns)
    &&& s.spent_cold_ms == ms_of(w.phase.spent_cold_ns)
    &&& s.spent_pending_ms == ms_of(w.phase.spent_pending_ns)
    &&& s.structural_create_h_ms == ms_of(w.phase.structural_create_h_ns)
    &&& s.structural_bip68_ms == ms_of(w.phase.structural_bip68_ns)
    &&& s.spend_ranged == w.phase.spend_ranged
    &&& s.spend_idx == w.phase.spend_idx
    &&& s.spend_skip == w.phase.spend_skip
    &&& s.ann_ms == ms_of(w.phase.ann_ns)
    &&& s.ann_n == w.phase.ann_n
    &&& s.ann_pread_skip == w.phase.ann_pread_skip
    &&& s.ann_pread == w.phase.ann_pread
    &&& s.meta_ms == ms_of(w.phase.meta_ns)
    &&& s.meta_n == w.phase.meta_n
    &&& s.resolve_ms == ms_of(w.phase.resolve_ns)
    &&& s.load_ms == ms_of(w.phase.load_ns)
    &&& s.prep_wire_arc_ms == ms_of(w.phase.prep_wire_arc_ns)
    &&& s.prep_struct_ms == ms_of(w.phase.prep_struct_ns)
    &&& s.prep_header_ms == ms_of(w.phase.prep_header_ns)
    &&& s.prep_prepare_ms == ms_of(w.phase.prep_prepare_ns)
    &&& s.prep_filter_plan_ms == ms_of(w.phase.prep_filter_plan_ns)
    &&& s.recon_ns == w.phase.recon_ns
    &&& s.wire_ns == w.phase.wire_ns
    &&& s.connect_ns == w.phase.connect_ns
    &&& s.script_ns == w.phase.script_ns
    &&& s.strong_ns == w.phase.strong_ns
    &&& s.tip_ns == w.phase.tip_ns
    &&& s.structural_spent_ns == w.phase.structural_spent_ns
    &&& s.structural_create_h_ns == w.phase.structural_create_h_ns
    &&& s.structural_bip68_ns == w.phase.structural_bip68_ns
    &&& s.resolve_ns == w.phase.resolve_ns
    &&& s.load_ns == w.phase.load_ns
    &&& s.wf_body_store == w.wire.body_store
    &&& s.wf_store_body_ms == ms_of(w.wire.store_body_ns)
    &&& s.sh_collect_ms == ms_of(w.sh.collect_ns)
    &&& s.sh_sort_ms == ms_of(w.sh.sort_ns)
    &&& s.sh_seed_ms == ms_of(w.sh.seed_ns)
    &&& s.sh_body_ms == ms_of(w.sh.body_ns)
    &&& s.sh_head_ms == ms_of(w.sh.head_ns)
    &&& s.sh_collect_pin == w.sh.collect_pin
    &&& s.sh_collect_cold == w.sh.collect_cold
    &&& s.load_win_ms == ms_of(w.load.total_ns)
    &&& s.load_blocks == w.load.blocks
    &&& s.load_utxo_parents == w.load.utxo_parents
    &&& s.load_creates == w.load.creates
    &&& s.load_parent_unique == w.load.parent_unique
    &&& s.load_pin_cache_body == w.load.pin_cache_body
    &&& s.load_pin_plan == w.load.pin_plan
    &&& s.load_pin_new == w.load.pin_new
    &&& s.load_pin_body_ms == ms_of(w.load.pin_body_ns)
    &&& s.load_pin_new_meta_ms == ms_of(w.load.pin_new_meta_ns)
    &&& s.load_plan_pin_ms == ms_of(w.load.plan_pin_ns)
    &&& s.load_pin_adopt_ms == ms_of(w.load.pin_adopt_ns)
    &&& s.load_pin_range_fill_ms == ms_of(w.load.pin_range_fill_ns)
    &&& s.load_pin_recent_outs_ms == ms_of(w.load.pin_recent_outs_ns)
    &&& s.load_pin_contract_ms == ms_of(w.load.pin_contract_ns)
    &&& s.load_pin_publish_ms == ms_of(w.load.pin_publish_ns)
    &&& s.load_cold_io_ms == ms_of(w.load.cold_io_ns)
    &&& s.load_cold_range_ms == ms_of(w.load.cold_range_ns)
    &&& s.load_cold_range_n == w.load.cold_range_n
    &&& s.load_cold_range_body_ms == ms_of(w.load.cold_range_body_ns)
    &&& s.load_cold_range_decode_ms == ms_of(w.load.cold_range_decode_ns)
    &&& s.load_cold_idx_ms == ms_of(w.load.cold_idx_ns)
    &&& s.load_cold_idx_n == w.load.cold_idx_n
    &&& s.load_cold_decode_ms == ms_of(w.load.cold_decode_ns)
    &&& s.load_body_tx_reads == w.load.body_tx
    &&& s.load_parent_tx_reads == w.load.parent_tx
    &&& s.load_missing_parents == w.load.missing
    &&& s.thr_lookup_claim_ms == ms_of(w.thr.lookup_claim_ns)
    &&& s.thr_lookup_stamp_ms == ms_of(w.thr.lookup_stamp_ns)
    &&& s.thr_lookup_other_ms == ms_of(w.thr.lookup_other_ns)
    &&& s.thr_lookup_send_wait_ms == ms_of(w.thr.lookup_send_wait_ns)
    &&& s.stamp_struct_ms == ms_of(w.stamp.struct_ns)
    &&& s.stamp_struct_txid_ms == ms_of(w.stamp.struct_txid_ns)
    &&& s.stamp_struct_walk_ms == ms_of(w.stamp.struct_walk_ns)
    &&& s.stamp_prepare_ms == ms_of(w.stamp.prepare_ns)
    &&& s.stamp_filter_ms == ms_of(w.stamp.filter_ns)
    &&& s.stamp_batch_ms == ms_of(w.stamp.batch_ns)
    &&& s.stamp_batch_assign_ms == ms_of(w.archive.prep_assign_ns)
    &&& s.stamp_batch_collect_ms == ms_of(w.archive.prep_collect_ns)
    &&& s.stamp_batch_head_ms == ms_of(w.archive.prep_head_ns)
    &&& s.stamp_batch_head_fk_ms == ms_of(w.archive.prep_head_fk_ns)
    &&& s.stamp_batch_stamp_ms == ms_of(w.archive.prep_stamp_ns)
    &&& s.stamp_batch_finish_ms == ms_of(w.archive.prep_finish_ns)
    &&& s.thr_load_recv_wait_ms == ms_of(w.thr.load_recv_wait_ns)
    &&& s.thr_load_pack_ms == ms_of(w.thr.load_pack_ns)
    &&& s.thr_load_clone_ms == ms_of(w.thr.load_clone_ns)
    &&& s.thr_load_stamp_ms == ms_of(w.thr.load_stamp_ns)
    &&& s.thr_load_pin_ms == ms_of(w.thr.load_pin_ns)
    &&& s.thr_load_asm_ms == ms_of(w.thr.load_asm_ns)
    &&& s.thr_load_prune_ms == ms_of(w.thr.load_prune_ns)
    &&& s.thr_load_send_wait_ms == ms_of(w.thr.load_send_wait_ns)
    &&& s.script_jobs == w.phase.script_jobs
    &&& s.script_skip == w.phase.script_skip
    &&& s.thr_script_recv_wait_ms == ms_of(w.thr.script_recv_wait_ns)
    &&& s.thr_script_work_ms == ms_of(w.thr.script_work_ns)
    &&& s.thr_script_send_wait_ms == ms_of(w.thr.script_send_wait_ns)
    &&& s.thr_write_recv_wait_ms == ms_of(w.thr.write_recv_wait_ns)
    &&& s.thr_write_work_ms == ms_of(w.thr.write_work_ns)
    &&& s.plan_blks == w.lookup.blocks
    &&& s.plan_ms == ms_of(w.lookup.total_ns)
    &&& s.plan_collect_ms == ms_of(w.lookup.collect_ns)
    &&& s.plan_head_ms == ms_of(w.lookup.head_ns)
    &&& s.plan_cold_io_ms == ms_of(w.lookup.cold_io_ns)
    &&& s.lookup_decode_ms == ms_of(w.lookup.decode_ns)
    &&& s.lookup_precompute_ms == ms_of(w.lookup.precompute_ns)
    &&& s.lookup_wave_head_ms == ms_of(w.lookup.wave_head_ns)
    &&& s.lookup_wave_head_probe_ms == ms_of(w.head.probe_ns)
    &&& s.lookup_wave_head_io_ms == ms_of(sat_add(w.head.body_ns, w.head.idx_ns))
    &&& s.lookup_wave_head_preads == w.head.body_lookups
    &&& s.lookup_wave_spent_ms == ms_of(w.lookup.wave_spent_ns)
    &&& s.plan_parents == w.lookup.parents
    &&& s.plan_already == w.lookup.already
    &&& s.plan_cold == w.lookup.cold
    &&& s.plan_same_batch == w.lookup.unresolved
    &&& s.load_hdr_ms == ms_of(w.load.header_ns)
    &&& s.load_decode_ms == ms_of(w.load.body_decode_ns)
    &&& s.load_thin_ms == ms_of(w.load.thin_ns)
    &&& s.load_parent_pin_ms == ms_of(w.load.parent_pin_ns)
    &&& s.load_cache_put_ms == ms_of(w.load.cache_put_ns)
    &&& s.load_edge_same == w.load.edge_same_batch
    &&& s.load_edge_fk == w.load.edge_fk
    &&& s.load_edge_cb == w.load.edge_coinbase
    &&& s.arch_ext_need == w.archive.ext_need
    &&& s.arch_head_need == w.archive.head_need
    &&& s.arch_head_hit == w.archive.head_hit
    &&& s.leftover_pend == w.archive.leftover_pend
    &&& s.leftover_cdf0_pct == w.archive.leftover_cdf0_pct
    &&& s.leftover_cdf3_pct == w.archive.leftover_cdf3_pct
    &&& s.leftover_age_n == w.archive.leftover_age_n
    &&& s.arch_pin_txid == w.archive.pin_txid_n
    &&& s.arch_pin_txid_ms == ms_of(w.archive.pin_txid_ns)
    &&& s.arch_recent_n == w.archive.recent_n
    &&& s.arch_recent_ms == ms_of(w.archive.recent_ns)
    &&& s.arch_batch_stamp == w.archive.batch_stamp
    &&& s.arch_resolve_ns == w.archive.resolve_ns
    &&& s.arch_resolve_blocks == w.archive.blocks
    &&& s.arch_prep_assign_ms == ms_of(w.archive.prep_assign_ns)
    &&& s.arch_prep_collect_ms == ms_of(w.archive.prep_collect_ns)
    &&& s.arch_prep_inflight_ms == ms_of(w.archive.prep_inflight_ns)
    &&& s.arch_prep_head_ms == ms_of(w.archive.prep_head_ns)
    &&& s.arch_prep_head_fk_ms == ms_of(w.archive.prep_head_fk_ns)
    &&& s.arch_prep_probe_ms == ms_of(w.head.probe_ns)
    &&& s.arch_prep_idx_ms == ms_of(w.head.idx_ns)
    &&& s.arch_prep_body_txid_ms == ms_of(w.head.body_ns)
    &&& s.arch_prep_head_keys == w.head.keys
    &&& s.arch_prep_head_cands == w.head.cands
    &&& s.arch_prep_hit_rank_avg_x100 == w.head.hit_rank_avg_x100
    &&& s.arch_prep_hit_rank_n == w.head.hit_rank_n
    &&& s.arch_prep_miss_peeks == w.head.miss_peeks
    &&& s.arch_prep_pending_hits == w.head.pending_hits
    &&& s.arch_prep_age_cdf0_pct == w.head.age_cdf0_pct
    &&& s.arch_prep_age_cdf3_pct == w.head.age_cdf3_pct
    &&& s.arch_prep_age_cdf7_pct == w.head.age_cdf7_pct
    &&& s.arch_prep_age_cdf15_pct == w.head.age_cdf15_pct
    &&& s.arch_prep_age_cdf31_pct == w.head.age_cdf31_pct
    &&& s.arch_prep_age_hit_compact@ == w.head.age_hit_compact@
    &&& s.arch_prep_age_hit_n == w.head.age_hit_n
    &&& s.arch_prep_body_lookups == w.head.body_lookups
    &&& s.arch_prep_stamp_ms == ms_of(w.archive.prep_stamp_ns)
    &&& s.arch_prep_finish_ms == ms_of(w.archive.prep_finish_ns)
    &&& s.arch_write_total_ms == ms_of(w.archive.write_total_ns)
    &&& s.arch_write_reserve_ms == ms_of(w.archive.write_reserve_ns)
    &&& s.arch_write_body_ms == ms_of(w.archive.write_body_ns)
    &&& s.arch_write_head_ms == ms_of(w.archive.write_head_ns)
    &&& s.arch_write_spend_ms == ms_of(w.archive.write_spend_ns)
    &&& s.arch_write_htxs_ms == ms_of(w.archive.write_htxs_ns)
    &&& s.arch_write_flush_ms == ms_of(w.archive.write_flush_ns)
    &&& s.arch_write_blocks == w.archive.write_blocks
}

/// Take one window of counters together with what the loop sees at the moment. `bq`
/// is the body queue: bytes, bodies, soft stop. `load` is how far load is ready and
/// ahead, its parents, bodies and plans. `conf_q_hwm` are the greatest depths of the
/// load, script and write queues.
pub fn sample(
    windows: &mut PerfWindows,
    inflight: usize,
    inflight_cap: usize,
    bq: (u64, usize, u32),
    arch_ahead: u32,
    hole: usize,
    peers: usize,
    headers_done: bool,
    load: (u32, u32, usize, usize, usize),
    conf_ready: usize,
    conf_script_q: usize,
    conf_write_q: usize,
    conf_q_hwm: (usize, usize, usize),
    sh_runs: usize,
    work: WorkStructureSizes,
    owned: ProcessOwnedSizes,
    conf_pipe: ConfirmPipelineSizes,
    rss: ProcRss,
) -> (s: IbdPerfSample)
    ensures
        shows_windows(s, *old(windows)),
        final(windows).quiet(),
        final(windows).hot.dominant == old(windows).hot.dominant,
        final(windows).hot.confirm_live == old(windows).hot.confirm_live,
        s.inflight == inflight,
        s.inflight_cap == inflight_cap,
        s.bq_bytes == bq.0,
        s.bq_count == bq.1,
        s.bq_soft_stop == bq.2,
        s.arch_ahead == arch_ahead,
        s.hole == hole,
        s.peers == peers,
        s.headers_done == headers_done,
        s.sh_runs == sh_runs,
        s.load_ready_through == load.0,
        s.cache_bodies == load.3,
        s.cache_plans == load.4,
        s.conf_ready == conf_ready,
        s.conf_script_q == conf_script_q,
        s.conf_write_q == conf_write_q,
        s.conf_script_q_cap == SCRIPT_QUEUE_CAP_DEFAULT,
        s.conf_write_q_cap == WRITE_QUEUE_CAP_DEFAULT,
        s.conf_script_q_hwm == conf_q_hwm.1,
        s.conf_write_q_hwm == conf_q_hwm.2,
        s.rss_kb == rss.rss_kb,
        s.rss_anon_kb == rss.anon_kb,
        s.rss_file_kb == rss.file_kb,
        s.vm_hwm_kb == rss.hwm_kb,
        s.rss_locked_kb == rss.locked_kb,
        s.work == work,
        s.owned == owned,
        s.conf_pipe == conf_pipe,
{
    let w = windows.take();
    let pins_ns: u64 = w.phase.pins_take_ns.saturating_add(w.phase.pins_map_ns);
    let write = WriteStageSample {
        class_a_ms: ns_ms(w.phase.class_a_ns),
        class_a_ns: w.phase.class_a_ns,
        ensure_ms: ns_ms(w.phase.ensure_ns),
        ensure_ns: w.phase.ensure_ns,
        structural_ms: ns_ms(w.phase.structural_ns),
        structural_ns: w.phase.structural_ns,
        class_c_ms: ns_ms(w.phase.class_c_ns),
        class_c_ns: w.phase.class_c_ns,
        sh_ms: ns_ms(w.phase.sh_ns),
        sh_ns: w.phase.sh_ns,
        utxo_ms: ns_ms(w.phase.utxo_apply_ns),
        utxo_apply_ns: w.phase.utxo_apply_ns,
        tweak_ms: ns_ms(w.phase.tweak_ns),
        tweak_ns: w.phase.tweak_ns,
        cache_tip_ms: ns_ms(w.phase.cache_tip_ns),
        cache_tip_ns: w.phase.cache_tip_ns,
        recent_pub_ms: ns_ms(w.phase.recent_pub_ns),
        recent_pub_ns: w.phase.recent_pub_ns,
        pins_ms: ns_ms(pins_ns),
        pins_ns,
        head_sub_ms: ns_ms(w.phase.head_sub_ns),
        head_sub_ns: w.phase.head_sub_ns,
        class_c_join_ms: ns_ms(w.phase.class_c_join_ns),
        class_c_join_ns: w.phase.class_c_join_ns,
        drain_join_ms: ns_ms(w.phase.drain_join_ns),
        drain_join_ns: w.phase.drain_join_ns,
        dequeue_ms: ns_ms(w.phase.dequeue_ns),
        dequeue_ns: w.phase.dequeue_ns,
    };
    IbdPerfSample {
        inflight,
        inflight_cap,
        bq_bytes: bq.0,
        bq_count: bq.1,
        bq_soft_stop: bq.2,
        arch_ahead,
        hole,
        peers,
        headers_done,
        confirm_ms: w.hot.confirm_ms,
        confirm_blocks: w.hot.confirm_blocks,
        confirm_reject_stops: w.hot.confirm_reject_stops,
        confirm_us_per_block: w.hot.confirm_us_per_block,
        assign_ms: w.hot.assign_ms,
        assign_issued: w.hot.assign_issued,
        drain_ms: w.hot.drain_ms,
        drain_events: w.hot.drain_events,
        status_scan_ms: w.hot.status_scan_ms,
        dominant: w.hot.dominant,
        live: w.hot.confirm_live,
        phase_blks: w.phase.phase_blks,
        recon_ms: ns_ms(w.phase.recon_ns),
        wire_ms: ns_ms(w.phase.wire_ns),
        connect_ms: ns_ms(w.phase.connect_ns),
        script_ms: ns_ms(w.phase.script_ns),
        write,
        ensure_res_hit: w.phase.ensure_res_hit,
        ensure_cold_n: w.phase.ensure_cold_n,
        recent_idx_ms: ns_ms(w.phase.recent_idx_ns),
        recent_clone_ms: ns_ms(w.phase.recent_clone_ns),
        pins_take_ms: ns_ms(w.phase.pins_take_ns),
        pins_map_ms: ns_ms(w.phase.pins_map_ns),
        asm_prevout_ms: ns_ms(w.phase.asm_prevout_ns),
        asm_sigop_ms: ns_ms(w.phase.asm_sigop_ns),
        asm_final_ms: ns_ms(w.phase.asm_final_ns),
        asm_job_ms: ns_ms(w.phase.asm_job_ns),
        asm_in_n: w.phase.asm_in_n,
        asm_prev_batch_ms: ns_ms(w.phase.asm_prev_batch_ns),
        asm_prev_batch_n: w.phase.asm_prev_batch_n,
        asm_prev_same_ms: ns_ms(w.phase.asm_prev_same_ns),
        asm_prev_same_n: w.phase.asm_prev_same_n,
        asm_prev_cold_ms: ns_ms(w.phase.asm_prev_cold_ns),
        asm_prev_cold_n: w.phase.asm_prev_cold_n,
        asm_cold_null_fk_n: w.phase.asm_cold_null_fk_n,
        asm_cold_not_pin_n: w.phase.asm_cold_not_pin_n,
        asm_cold_txid_mismatch_n: w.phase.asm_cold_txid_mismatch_n,
        asm_cold_vout_miss_n: w.phase.asm_cold_vout_miss_n,
        asm_prev_fk_ms: ns_ms(w.phase.asm_prev_fk_ns),
        strong_ms: ns_ms(w.phase.strong_ns),
        structural_spent_ms: ns_ms(w.phase.structural_spent_ns),
        spent_abs_ms: ns_ms(w.phase.spent_abs_ns),
        spent_strong_ms: ns_ms(w.phase.spent_strong_ns),
        spent_cold_ms: ns_ms(w.phase.spent_cold_ns),
        spent_pending_ms: ns_ms(w.phase.spent_pending_ns),
        structural_create_h_ms: ns_ms(w.phase.structural_create_h_ns),
        structural_bip68_ms: ns_ms(w.phase.structural_bip68_ns),
        spend_ranged: w.phase.spend_ranged,
        spend_idx: w.phase.spend_idx,
        spend_skip: w.phase.spend_skip,
        ann_ms: ns_ms(w.phase.ann_ns),
        ann_n: w.phase.ann_n,
        ann_pread_skip: w.phase.ann_pread_skip,
        ann_pread: w.phase.ann_pread,
        meta_ms: ns_ms(w.phase.meta_ns),
        meta_n: w.phase.meta_n,
        resolve_ms: ns_ms(w.phase.resolve_ns),
        load_ms: ns_ms(w.phase.load_ns),
        prep_wire_arc_ms: ns_ms(w.phase.prep_wire_arc_ns),
        prep_struct_ms: ns_ms(w.phase.prep_struct_ns),
        prep_header_ms: ns_ms(w.phase.prep_header_ns),
        prep_prepare_ms: ns_ms(w.phase.prep_prepare_ns),
        prep_filter_plan_ms: ns_ms(w.phase.prep_filter_plan_ns),
        recon_ns: w.phase.recon_ns,
        wire_ns: w.phase.wire_ns,
        connect_ns: w.phase.connect_ns,
        script_ns: w.phase.script_ns,
        strong_ns: w.phase.strong_ns,
        tip_ns: w.phase.tip_ns,
        structural_spent_ns: w.phase.structural_spent_ns,
        structural_create_h_ns: w.phase.structural_create_h_ns,
        structural_bip68_ns: w.phase.structural_bip68_ns,
        resolve_ns: w.phase.resolve_ns,
        load_ns: w.phase.load_ns,
        sh_runs,
        wf_body_store: w.wire.body_store,
        wf_store_body_ms: ns_ms(w.wire.store_body_ns),
        sh_collect_ms: ns_ms(w.sh.collect_ns),
        sh_sort_ms: ns_ms(w.sh.sort_ns),
        sh_seed_ms: ns_ms(w.sh.seed_ns),
        sh_body_ms: ns_ms(w.sh.body_ns),
        sh_head_ms: ns_ms(w.sh.head_ns),
        sh_collect_pin: w.sh.collect_pin,
        sh_collect_cold: w.sh.collect_cold,
        load_win_ms: ns_ms(w.load.total_ns),
        load_blocks: w.load.blocks,
        load_utxo_parents: w.load.utxo_parents,
        load_creates: w.load.creates,
        load_parent_unique: w.load.parent_unique,
        load_pin_cache_body: w.load.pin_cache_body,
        load_pin_plan: w.load.pin_plan,
        load_pin_new: w.load.pin_new,
        load_pin_body_ms: ns_ms(w.load.pin_body_ns),
        load_pin_new_meta_ms: ns_ms(w.load.pin_new_meta_ns),
        load_plan_pin_ms: ns_ms(w.load.plan_pin_ns),
        load_pin_adopt_ms: ns_ms(w.load.pin_adopt_ns),
        load_pin_range_fill_ms: ns_ms(w.load.pin_range_fill_ns),
        load_pin_recent_outs_ms: ns_ms(w.load.pin_recent_outs_ns),
        load_pin_contract_ms: ns_ms(w.load.pin_contract_ns),
        load_pin_publish_ms: ns_ms(w.load.pin_publish_ns),
        load_cold_io_ms: ns_ms(w.load.cold_io_ns),
        load_cold_range_ms: ns_ms(w.load.cold_range_ns),
        load_cold_range_n: w.load.cold_range_n,
        load_cold_range_body_ms: ns_ms(w.load.cold_range_body_ns),
        load_cold_range_decode_ms: ns_ms(w.load.cold_range_decode_ns),
        load_cold_idx_ms: ns_ms(w.load.cold_idx_ns),
        load_cold_idx_n: w.load.cold_idx_n,
        load_cold_decode_ms: ns_ms(w.load.cold_decode_ns),
        load_body_tx_reads: w.load.body_tx,
        load_parent_tx_reads: w.load.parent_tx,
        load_missing_parents: w.load.missing,
        load_ready_through: load.0,
        cache_bodies: load.3,
        cache_plans: load.4,
        conf_ready,
        conf_script_q,
        conf_write_q,
        conf_script_q_cap: script_queue_cap(),
        conf_write_q_cap: write_queue_cap(),
        conf_script_q_hwm: conf_q_hwm.1,
        conf_write_q_hwm: conf_q_hwm.2,
        thr_lookup_claim_ms: ns_ms(w.thr.lookup_claim_ns),
        thr_lookup_stamp_ms: ns_ms(w.thr.lookup_stamp_ns),
        thr_lookup_other_ms: ns_ms(w.thr.lookup_other_ns),
        thr_lookup_send_wait_ms: ns_ms(w.thr.lookup_send_wait_ns),
        stamp_struct_ms: ns_ms(w.stamp.struct_ns),
        stamp_struct_txid_ms: ns_ms(w.stamp.struct_txid_ns),
        stamp_struct_walk_ms: ns_ms(w.stamp.struct_walk_ns),
        stamp_prepare_ms: ns_ms(w.stamp.prepare_ns),
        stamp_filter_ms: ns_ms(w.stamp.filter_ns),
        stamp_batch_ms: ns_ms(w.stamp.batch_ns),
        stamp_batch_assign_ms: ns_ms(w.archive.prep_assign_ns),
        stamp_batch_collect_ms: ns_ms(w.archive.prep_collect_ns),
        stamp_batch_head_ms: ns_ms(w.archive.prep_head_ns),
        stamp_batch_head_fk_ms: ns_ms(w.archive.prep_head_fk_ns),
        stamp_batch_stamp_ms: ns_ms(w.archive.prep_stamp_ns),
        stamp_batch_finish_ms: ns_ms(w.archive.prep_finish_ns),
        thr_load_recv_wait_ms: ns_ms(w.thr.load_recv_wait_ns),
        thr_load_pack_ms: ns_ms(w.thr.load_pack_ns),
        thr_load_clone_ms: ns_ms(w.thr.load_clone_ns),
        thr_load_stamp_ms: ns_ms(w.thr.load_stamp_ns),
        thr_load_pin_ms: ns_ms(w.thr.load_pin_ns),
        thr_load_asm_ms: ns_ms(w.thr.load_asm_ns),
        thr_load_prune_ms: ns_ms(w.thr.load_prune_ns),
        thr_load_send_wait_ms: ns_ms(w.thr.load_send_wait_ns),
        script_jobs: w.phase.script_jobs,
        script_skip: w.phase.script_skip,
        thr_script_recv_wait_ms: ns_ms(w.thr.script_recv_wait_ns),
        thr_script_work_ms: ns_ms(w.thr.script_work_ns),
        thr_script_send_wait_ms: ns_ms(w.thr.script_send_wait_ns),
        thr_write_recv_wait_ms: ns_ms(w.thr.write_recv_wait_ns),
        thr_write_work_ms: ns_ms(w.thr.write_work_ns),
        plan_blks: w.lookup.blocks,
        plan_ms: ns_ms(w.lookup.total_ns),
        plan_collect_ms: ns_ms(w.lookup.collect_ns),
        plan_head_ms: ns_ms(w.lookup.head_ns),
        plan_cold_io_ms: ns_ms(w.lookup.cold_io_ns),
        lookup_decode_ms: ns_ms(w.lookup.decode_ns),
        lookup_precompute_ms: ns_ms(w.lookup.precompute_ns),
        lookup_wave_head_ms: ns_ms(w.lookup.wave_head_ns),
        lookup_wave_head_probe_ms: ns_ms(w.head.probe_ns),
        lookup_wave_head_io_ms: ns_ms(w.head.body_ns.saturating_add(w.head.idx_ns)),
        lookup_wave_head_preads: w.head.body_lookups,
        lookup_wave_spent_ms: ns_ms(w.lookup.wave_spent_ns),
        plan_parents: w.lookup.parents,
        plan_already: w.lookup.already,
        plan_cold: w.lookup.cold,
        plan_same_batch: w.lookup.unresolved,
        load_hdr_ms: ns_ms(w.load.header_ns),
        load_decode_ms: ns_ms(w.load.body_decode_ns),
        load_thin_ms: ns_ms(w.load.thin_ns),
        load_parent_pin_ms: ns_ms(w.load.parent_pin_ns),
        load_cache_put_ms: ns_ms(w.load.cache_put_ns),
        load_edge_same: w.load.edge_same_batch,
        load_edge_fk: w.load.edge_fk,
        load_edge_cb: w.load.edge_coinbase,
        arch_ext_need: w.archive.ext_need,
        arch_head_need: w.archive.head_need,
        arch_head_hit: w.archive.head_hit,
        leftover_pend: w.archive.leftover_pend,
        leftover_cdf0_pct: w.archive.leftover_cdf0_pct,
        leftover_cdf3_pct: w.archive.leftover_cdf3_pct,
        leftover_age_n: w.archive.leftover_age_n,
        arch_pin_txid: w.archive.pin_txid_n,
        arch_pin_txid_ms: ns_ms(w.archive.pin_txid_ns),
        arch_recent_n: w.archive.recent_n,
        arch_recent_ms: ns_ms(w.archive.recent_ns),
        arch_batch_stamp: w.archive.batch_stamp,
        arch_resolve_ns: w.archive.resolve_ns,
        arch_resolve_blocks: w.archive.blocks,
        arch_prep_assign_ms: ns_ms(w.archive.prep_assign_ns),
        arch_prep_collect_ms: ns_ms(w.archive.prep_collect_ns),
        arch_prep_inflight_ms: ns_ms(w.archive.prep_inflight_ns),
        arch_prep_head_ms: ns_ms(w.archive.prep_head_ns),
        arch_prep_head_fk_ms: ns_ms(w.archive.prep_head_fk_ns),
        arch_prep_probe_ms: ns_ms(w.head.probe_ns),
        arch_prep_idx_ms: ns_ms(w.head.idx_ns),
        arch_prep_body_txid_ms: ns_ms(w.head.body_ns),
        arch_prep_head_keys: w.head.keys,
        arch_prep_head_cands: w.head.cands,
        arch_prep_hit_rank_avg_x100: w.head.hit_rank_avg_x100,
        arch_prep_hit_rank_n: w.head.hit_rank_n,
        arch_prep_miss_peeks: w.head.miss_peeks,
        arch_prep_pending_hits: w.head.pending_hits,
        arch_prep_age_cdf0_pct: w.head.age_cdf0_pct,
        arch_prep_age_cdf3_pct: w.head.age_cdf3_pct,
        arch_prep_age_cdf7_pct: w.head.age_cdf7_pct,
        arch_prep_age_cdf15_pct: w.head.age_cdf15_pct,
        arch_prep_age_cdf31_pct: w.head.age_cdf31_pct,
        arch_prep_age_hit_compact: w.head.age_hit_compact,
        arch_prep_age_hit_n: w.head.age_hit_n,
        arch_prep_body_lookups: w.head.body_lookups,
        arch_prep_stamp_ms: ns_ms(w.archive.prep_stamp_ns),
        arch_prep_finish_ms: ns_ms(w.archive.prep_finish_ns),
        arch_write_total_ms: ns_ms(w.archive.write_total_ns),
        arch_write_reserve_ms: ns_ms(w.archive.write_reserve_ns),
        arch_write_body_ms: ns_ms(w.archive.write_body_ns),
        arch_write_head_ms: ns_ms(w.archive.write_head_ns),
        arch_write_spend_ms: ns_ms(w.archive.write_spend_ns),
        arch_write_htxs_ms: ns_ms(w.archive.write_htxs_ns),
        arch_write_flush_ms: ns_ms(w.archive.write_flush_ns),
        arch_write_blocks: w.archive.write_blocks,
        rss_kb: rss.rss_kb,
        rss_anon_kb: rss.anon_kb,
        rss_file_kb: rss.file_kb,
        vm_hwm_kb: rss.hwm_kb,
        rss_locked_kb: rss.locked_kb,
        work,
        owned,
        conf_pipe,
    }
}

/// Does a sample show no activity: is everything that is counted zero?
pub open spec fn shows_nothing(s: IbdPerfSample) -> bool {
    &&& s.write == WriteStageSample::blank()
    &&& s.confirm_ms == 0
    &&& s.confirm_blocks == 0
    &&& s.confirm_reject_stops == 0
    &&& s.confirm_us_per_block == 0
    &&& s.assign_ms == 0
    &&& s.assign_issued == 0
    &&& s.drain_ms == 0
    &&& s.drain_events == 0
    &&& s.status_scan_ms == 0
    &&& s.phase_blks == 0
    &&& s.recon_ms == 0
    &&& s.wire_ms == 0
    &&& s.connect_ms == 0
    &&& s.script_ms == 0
    &&& s.ensure_res_hit == 0
    &&& s.ensure_cold_n == 0
    &&& s.recent_idx_ms == 0
    &&& s.recent_clone_ms == 0
    &&& s.pins_take_ms == 0
    &&& s.pins_map_ms == 0
    &&& s.asm_prevout_ms == 0
    &&& s.asm_sigop_ms == 0
    &&& s.asm_final_ms == 0
    &&& s.asm_job_ms == 0
    &&& s.asm_in_n == 0
    &&& s.asm_prev_batch_ms == 0
    &&& s.asm_prev_batch_n == 0
    &&& s.asm_prev_same_ms == 0
    &&& s.asm_prev_same_n == 0
    &&& s.asm_prev_cold_ms == 0
    &&& s.asm_prev_cold_n == 0
    &&& s.asm_cold_null_fk_n == 0
    &&& s.asm_cold_not_pin_n == 0
    &&& s.asm_cold_txid_mismatch_n == 0
    &&& s.asm_cold_vout_miss_n == 0
    &&& s.asm_prev_fk_ms == 0
    &&& s.strong_ms == 0
    &&& s.structural_spent_ms == 0
    &&& s.spent_abs_ms == 0
    &&& s.spent_strong_ms == 0
    &&& s.spent_cold_ms == 0
    &&& s.spent_pending_ms == 0
    &&& s.structural_create_h_ms == 0
    &&& s.structural_bip68_ms == 0
    &&& s.spend_ranged == 0
    &&& s.spend_idx == 0
    &&& s.spend_skip == 0
    &&& s.ann_ms == 0
    &&& s.ann_n == 0
    &&& s.ann_pread_skip == 0
    &&& s.ann_pread == 0
    &&& s.meta_ms == 0
    &&& s.meta_n == 0
    &&& s.resolve_ms == 0
    &&& s.load_ms == 0
    &&& s.prep_wire_arc_ms == 0
    &&& s.prep_struct_ms == 0
    &&& s.prep_header_ms == 0
    &&& s.prep_prepare_ms == 0
    &&& s.prep_filter_plan_ms == 0
    &&& s.recon_ns == 0
    &&& s.wire_ns == 0
    &&& s.connect_ns == 0
    &&& s.script_ns == 0
    &&& s.strong_ns == 0
    &&& s.tip_ns == 0
    &&& s.structural_spent_ns == 0
    &&& s.structural_create_h_ns == 0
    &&& s.structural_bip68_ns == 0
    &&& s.resolve_ns == 0
    &&& s.load_ns == 0
    &&& s.wf_body_store == 0
    &&& s.wf_store_body_ms == 0
    &&& s.sh_collect_ms == 0
    &&& s.sh_sort_ms == 0
    &&& s.sh_seed_ms == 0
    &&& s.sh_body_ms == 0
    &&& s.sh_head_ms == 0
    &&& s.sh_collect_pin == 0
    &&& s.sh_collect_cold == 0
    &&& s.load_win_ms == 0
    &&& s.load_blocks == 0
    &&& s.load_utxo_parents == 0
    &&& s.load_creates == 0
    &&& s.load_parent_unique == 0
    &&& s.load_pin_cache_body == 0
    &&& s.load_pin_plan == 0
    &&& s.load_pin_new == 0
    &&& s.load_pin_body_ms == 0
    &&& s.load_pin_new_meta_ms == 0
    &&& s.load_plan_pin_ms == 0
    &&& s.load_pin_adopt_ms == 0
    &&& s.load_pin_range_fill_ms == 0
    &&& s.load_pin_recent_outs_ms == 0
    &&& s.load_pin_contract_ms == 0
    &&& s.load_pin_publish_ms == 0
    &&& s.load_cold_io_ms == 0
    &&& s.load_cold_range_ms == 0
    &&& s.load_cold_range_n == 0
    &&& s.load_cold_range_body_ms == 0
    &&& s.load_cold_range_decode_ms == 0
    &&& s.load_cold_idx_ms == 0
    &&& s.load_cold_idx_n == 0
    &&& s.load_cold_decode_ms == 0
    &&& s.load_body_tx_reads == 0
    &&& s.load_parent_tx_reads == 0
    &&& s.load_missing_parents == 0
    &&& s.thr_lookup_claim_ms == 0
    &&& s.thr_lookup_stamp_ms == 0
    &&& s.thr_lookup_other_ms == 0
    &&& s.thr_lookup_send_wait_ms == 0
    &&& s.stamp_struct_ms == 0
    &&& s.stamp_struct_txid_ms == 0
    &&& s.stamp_struct_walk_ms == 0
    &&& s.stamp_prepare_ms == 0
    &&& s.stamp_filter_ms == 0
    &&& s.stamp_batch_ms == 0
    &&& s.stamp_batch_assign_ms == 0
    &&& s.stamp_batch_collect_ms == 0
    &&& s.stamp_batch_head_ms == 0
    &&& s.stamp_batch_head_fk_ms == 0
    &&& s.stamp_batch_stamp_ms == 0
    &&& s.stamp_batch_finish_ms == 0
    &&& s.thr_load_recv_wait_ms == 0
    &&& s.thr_load_pack_ms == 0
    &&& s.thr_load_clone_ms == 0
    &&& s.thr_load_stamp_ms == 0
    &&& s.thr_load_pin_ms == 0
    &&& s.thr_load_asm_ms == 0
    &&& s.thr_load_prune_ms == 0
    &&& s.thr_load_send_wait_ms == 0
    &&& s.script_jobs == 0
    &&& s.script_skip == 0
    &&& s.thr_script_recv_wait_ms == 0
    &&& s.thr_script_work_ms == 0
    &&& s.thr_script_send_wait_ms == 0
    &&& s.thr_write_recv_wait_ms == 0
    &&& s.thr_write_work_ms == 0
    &&& s.plan_blks == 0
    &&& s.plan_ms == 0
    &&& s.plan_collect_ms == 0
    &&& s.plan_head_ms == 0
    &&& s.plan_cold_io_ms == 0
    &&& s.lookup_decode_ms == 0
    &&& s.lookup_precompute_ms == 0
    &&& s.lookup_wave_head_ms == 0
    &&& s.lookup_wave_head_probe_ms == 0
    &&& s.lookup_wave_head_io_ms == 0
    &&& s.lookup_wave_head_preads == 0
    &&& s.lookup_wave_spent_ms == 0
    &&& s.plan_parents == 0
    &&& s.plan_already == 0
    &&& s.plan_cold == 0
    &&& s.plan_same_batch == 0
    &&& s.load_hdr_ms == 0
    &&& s.load_decode_ms == 0
    &&& s.load_thin_ms == 0
    &&& s.load_parent_pin_ms == 0
    &&& s.load_cache_put_ms == 0
    &&& s.load_edge_same == 0
    &&& s.load_edge_fk == 0
    &&& s.load_edge_cb == 0
    &&& s.arch_ext_need == 0
    &&& s.arch_head_need == 0
    &&& s.arch_head_hit == 0
    &&& s.leftover_pend == 0
    &&& s.leftover_cdf0_pct == 0
    &&& s.leftover_cdf3_pct == 0
    &&& s.leftover_age_n == 0
    &&& s.arch_pin_txid == 0
    &&& s.arch_pin_txid_ms == 0
    &&& s.arch_recent_n == 0
    &&& s.arch_recent_ms == 0
    &&& s.arch_batch_stamp == 0
    &&& s.arch_resolve_ns == 0
    &&& s.arch_resolve_blocks == 0
    &&& s.arch_prep_assign_ms == 0
    &&& s.arch_prep_collect_ms == 0
    &&& s.arch_prep_inflight_ms == 0
    &&& s.arch_prep_head_ms == 0
    &&& s.arch_prep_head_fk_ms == 0
    &&& s.arch_prep_probe_ms == 0
    &&& s.arch_prep_idx_ms == 0
    &&& s.arch_prep_body_txid_ms == 0
    &&& s.arch_prep_head_keys == 0
    &&& s.arch_prep_head_cands == 0
    &&& s.arch_prep_hit_rank_avg_x100 == 0
    &&& s.arch_prep_hit_rank_n == 0
    &&& s.arch_prep_miss_peeks == 0
    &&& s.arch_prep_pending_hits == 0
    &&& s.arch_prep_age_cdf0_pct == 0
    &&& s.arch_prep_age_cdf3_pct == 0
    &&& s.arch_prep_age_cdf7_pct == 0
    &&& s.arch_prep_age_cdf15_pct == 0
    &&& s.arch_prep_age_cdf31_pct == 0
    &&& s.arch_prep_age_hit_compact@ == Seq::<char>::empty()
    &&& s.arch_prep_age_hit_n == 0
    &&& s.arch_prep_body_lookups == 0
    &&& s.arch_prep_stamp_ms == 0
    &&& s.arch_prep_finish_ms == 0
    &&& s.arch_write_total_ms == 0
    &&& s.arch_write_reserve_ms == 0
    &&& s.arch_write_body_ms == 0
    &&& s.arch_write_head_ms == 0
    &&& s.arch_write_spend_ms == 0
    &&& s.arch_write_htxs_ms == 0
    &&& s.arch_write_flush_ms == 0
    &&& s.arch_write_blocks == 0
}

proof fn lemma_total_of_zeros(s: Seq<u64>)
    requires
        forall|i: int| 0 <= i < s.len() ==> #[trigger] s[i] == 0,
    ensures
        sat_total(s) == 0,
    decreases s.len(),
{
    if s.len() > 0 {
        lemma_total_of_zeros(s.drop_last());
    }
}

/// A sample taken right after another one, without activity between them, shows zero
/// in everything that is counted, the whole write stage too. Taking a sample leaves
/// the windows quiet.
pub proof fn law_second_sample_shows_nothing(s: IbdPerfSample, w: PerfWindows)
    requires
        w.quiet(),
        shows_windows(s, w),
    ensures
        shows_nothing(s),
        sat_total(s.write.parts_ms()) == 0,
        sat_total(s.write.parts_ns()) == 0,
{
    lemma_total_of_zeros(s.write.parts_ms());
    lemma_total_of_zeros(s.write.parts_ns());
}

} // verus!

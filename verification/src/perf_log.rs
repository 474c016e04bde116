//! The meter lines of a download: what is shown of one window of counters.
//!
//! Stages overlap on their threads, so work sums alone do not show the long pole
//! while a queue is empty: the thread occupancy and the greatest queue depths do.
//! New work on a stage gets a part of its own in [`WriteStageSample`] or here.
//!
//! [`WriteStageSample`]: crate::perf_sample::WriteStageSample
use vstd::prelude::*;
use crate::confirm_queue::{
    conf_q_text, format_conf_q, load_queue_cap, sat_add_us, LOAD_QUEUE_CAP_DEFAULT,
};
use crate::perf_sample::{sat_total, IbdPerfSample};
use crate::proc_rss::{kb_mib, mib_of_kb};
use crate::text::{append_dec, append_filled, dec, fill_text, filled, has_text, text_at};
use crate::time::{sat_add, sat_mul, sat_sub, saturating_mul_u64};

verus! {

/// The larger of two counts.
pub open spec fn max64(a: u64, b: u64) -> u64 {
    if a >= b {
        a
    } else {
        b
    }
}

fn larger64(a: u64, b: u64) -> (r: u64)
    ensures
        r == max64(a, b),
{
    if a >= b {
        a
    } else {
        b
    }
}

/// `a`, or `b` where `a` is zero.
pub open spec fn or_else64(a: u64, b: u64) -> u64 {
    if a > 0 {
        a
    } else {
        b
    }
}

fn first_nonzero(a: u64, b: u64) -> (r: u64)
    ensures
        r == or_else64(a, b),
{
    if a > 0 {
        a
    } else {
        b
    }
}

/// `a / b`, zero where `b` is zero.
pub open spec fn quot(a: u128, b: u128) -> u128 {
    if b == 0 {
        0
    } else {
        a / b
    }
}

fn div(a: u128, b: u128) -> (q: u128)
    ensures
        q == quot(a, b),
{
    if b == 0 {
        0
    } else {
        a / b
    }
}

/// How many percent `part` is of `whole`; zero of nothing.
pub open spec fn share_of(part: u64, whole: u64) -> u128 {
    quot((100 * part) as u128, whole as u128)
}

fn percent(part: u64, whole: u64) -> (p: u128)
    ensures
        p == share_of(part, whole),
{
    div(100 * part as u128, whole as u128)
}

/// Microseconds per item for `ms` milliseconds over `n` items. The microseconds stop
/// at the largest 64-bit count.
pub open spec fn us_per(ms: u64, n: u64) -> u128 {
    quot(sat_mul(ms, 1000) as u128, n as u128)
}

fn us_each(ms: u64, n: u64) -> (us: u128)
    ensures
        us == us_per(ms, n),
{
    div(saturating_mul_u64(ms, 1000) as u128, n as u128)
}

/// Microseconds per item for `ms` milliseconds over `n` items.
pub open spec fn us_wide(ms: u64, n: u64) -> u128 {
    quot((ms * 1000) as u128, n as u128)
}

fn us_exact(ms: u64, n: u64) -> (us: u128)
    ensures
        us == us_wide(ms, n),
{
    div(ms as u128 * 1000, n as u128)
}

/// Whole mebibytes in bytes.
pub open spec fn mib_of_bytes(b: u64) -> u64 {
    b / 0x10_0000
}

fn bytes_mib(b: u64) -> (mib: u64)
    ensures
        mib == mib_of_bytes(b),
{
    b / 0x10_0000
}

/// Mebibytes in the body queue.
pub open spec fn bq_mib_of(s: IbdPerfSample) -> u64 {
    mib_of_bytes(s.bq_bytes)
}

fn bq_mib(s: &IbdPerfSample) -> (mib: u64)
    ensures
        mib == bq_mib_of(*s),
{
    bytes_mib(s.bq_bytes)
}

/// Pinning and assembling: the load stage, not the whole load thread.
pub open spec fn load_wall_of(s: IbdPerfSample) -> u64 {
    sat_add(s.load_ms, s.connect_ms)
}

/// Pinning and assembling, in milliseconds.
pub fn load_stage_wall_ms(s: &IbdPerfSample) -> (ms: u64)
    ensures
        ms == load_wall_of(*s),
{
    s.load_ms.saturating_add(s.connect_ms)
}

/// The write stage: the sum of its exclusive parts.
pub open spec fn write_of(s: IbdPerfSample) -> u64 {
    sat_total(s.write.parts_ms())
}

/// The write stage, in milliseconds.
pub fn write_stage_ms(s: &IbdPerfSample) -> (ms: u64)
    ensures
        ms == write_of(*s),
{
    s.write.stage_ms()
}

/// The plan step: the sum of its parts.
pub open spec fn plan_batch_of(s: IbdPerfSample) -> u64 {
    sat_add(
        sat_add(
            sat_add(
                sat_add(
                    sat_add(s.arch_prep_assign_ms, s.arch_prep_collect_ms),
                    s.arch_prep_inflight_ms,
                ),
                s.arch_prep_head_ms,
            ),
            s.arch_prep_stamp_ms,
        ),
        s.arch_prep_finish_ms,
    )
}

fn plan_batch_ms(s: &IbdPerfSample) -> (ms: u64)
    ensures
        ms == plan_batch_of(*s),
{
    s.arch_prep_assign_ms
        .saturating_add(s.arch_prep_collect_ms)
        .saturating_add(s.arch_prep_inflight_ms)
        .saturating_add(s.arch_prep_head_ms)
        .saturating_add(s.arch_prep_stamp_ms)
        .saturating_add(s.arch_prep_finish_ms)
}

/// How long the load thread was at work.
pub open spec fn load_busy_of(s: IbdPerfSample) -> u64 {
    sat_add(
        sat_add(
            sat_add(
                sat_add(
                    sat_add(s.thr_load_pack_ms, s.thr_load_clone_ms),
                    s.thr_load_stamp_ms,
                ),
                s.thr_load_pin_ms,
            ),
            s.thr_load_asm_ms,
        ),
        s.thr_load_prune_ms,
    )
}

fn load_busy_ms(s: &IbdPerfSample) -> (ms: u64)
    ensures
        ms == load_busy_of(*s),
{
    s.thr_load_pack_ms
        .saturating_add(s.thr_load_clone_ms)
        .saturating_add(s.thr_load_stamp_ms)
        .saturating_add(s.thr_load_pin_ms)
        .saturating_add(s.thr_load_asm_ms)
        .saturating_add(s.thr_load_prune_ms)
}

/// How many percent of the parents were found among the pins.
pub open spec fn pin_txid_share(s: IbdPerfSample) -> u128 {
    share_of(s.arch_pin_txid, sat_add(s.arch_pin_txid, s.arch_head_need))
}

fn pin_txid_pct(s: &IbdPerfSample) -> (p: u128)
    ensures
        p == pin_txid_share(*s),
{
    percent(s.arch_pin_txid, s.arch_pin_txid.saturating_add(s.arch_head_need))
}

/// What loading cold parents took: by range and by index where either was measured,
/// by io otherwise.
pub open spec fn cold_of(s: IbdPerfSample) -> u64 {
    if s.load_cold_range_ms > 0 || s.load_cold_idx_ms > 0 {
        sat_add(s.load_cold_range_ms, s.load_cold_idx_ms)
    } else {
        or_else64(s.load_cold_io_ms, s.load_pin_new_meta_ms)
    }
}

fn cold_ms(s: &IbdPerfSample) -> (ms: u64)
    ensures
        ms == cold_of(*s),
{
    if s.load_cold_range_ms > 0 || s.load_cold_idx_ms > 0 {
        s.load_cold_range_ms.saturating_add(s.load_cold_idx_ms)
    } else {
        first_nonzero(s.load_cold_io_ms, s.load_pin_new_meta_ms)
    }
}

/// Microseconds per confirmed block.
pub open spec fn us_per_block(s: IbdPerfSample, ns: u64) -> u128 {
    (ns / max64(s.phase_blks, 1) / 1000) as u128
}

fn us_block(s: &IbdPerfSample, ns: u64) -> (us: u128)
    ensures
        us == us_per_block(*s, ns),
{
    let n: u64 = larger64(s.phase_blks, 1);
    (ns / n / 1000) as u128
}

/// Mebibytes of the hash index, at 48 bytes per key.
pub open spec fn h2h_mib_of(s: IbdPerfSample) -> u64 {
    mib_of_bytes(sat_mul(s.owned.h2h_keys as u64, 48))
}

fn h2h_mib(s: &IbdPerfSample) -> (mib: u64)
    ensures
        mib == h2h_mib_of(*s),
{
    bytes_mib(saturating_mul_u64(s.owned.h2h_keys as u64, 48))
}

/// Mebibytes of the fence, at 16 bytes per run.
pub open spec fn fence_mib_of(s: IbdPerfSample) -> u64 {
    mib_of_bytes(sat_mul(s.owned.fence_runs as u64, 16))
}

fn fence_mib(s: &IbdPerfSample) -> (mib: u64)
    ensures
        mib == fence_mib_of(*s),
{
    bytes_mib(saturating_mul_u64(s.owned.fence_runs as u64, 16))
}

/// Mebibytes of wire in the confirm queues.
pub open spec fn conf_wire_of(s: IbdPerfSample) -> u64 {
    sat_add(
        sat_add(
            mib_of_bytes(s.conf_pipe.load_wire_bytes as u64),
            mib_of_bytes(s.conf_pipe.script_wire_bytes as u64),
        ),
        mib_of_bytes(s.conf_pipe.write_wire_bytes as u64),
    )
}

fn conf_wire_mib(s: &IbdPerfSample) -> (mib: u64)
    ensures
        mib == conf_wire_of(*s),
{
    bytes_mib(s.conf_pipe.load_wire_bytes as u64)
        .saturating_add(bytes_mib(s.conf_pipe.script_wire_bytes as u64))
        .saturating_add(bytes_mib(s.conf_pipe.write_wire_bytes as u64))
}

/// The mebibytes that are accounted for, by owner.
pub open spec fn accounted_parts(s: IbdPerfSample) -> Seq<u64> {
    seq![
        bq_mib_of(s),
        mib_of_bytes(s.owned.inflight_bytes),
        mib_of_bytes(s.owned.pstore_bytes),
        mib_of_bytes(s.owned.recent_pin_bytes),
        h2h_mib_of(s),
        fence_mib_of(s),
        conf_wire_of(s),
        mib_of_bytes(s.owned.head.fuse8_bytes),
        mib_of_bytes(s.owned.head.mphf_g_bytes),
        mib_of_bytes(s.owned.head.open_keys_bytes),
        mib_of_bytes(s.owned.head.class_c_l2_bytes),
    ]
}

/// The mebibytes that are accounted for.
pub open spec fn accounted_of(s: IbdPerfSample) -> u64 {
    sat_total(accounted_parts(s))
}

fn accounted_mib(s: &IbdPerfSample) -> (mib: u64)
    ensures
        mib == accounted_of(*s),
{
    let parts: Vec<u64> = vec![
        bq_mib(s),
        bytes_mib(s.owned.inflight_bytes),
        bytes_mib(s.owned.pstore_bytes),
        bytes_mib(s.owned.recent_pin_bytes),
        h2h_mib(s),
        fence_mib(s),
        conf_wire_mib(s),
        bytes_mib(s.owned.head.fuse8_bytes),
        bytes_mib(s.owned.head.mphf_g_bytes),
        bytes_mib(s.owned.head.open_keys_bytes),
        bytes_mib(s.owned.head.class_c_l2_bytes),
    ];
    assert(parts@ =~= accounted_parts(*s));
    let mut sum: u64 = 0;
    let mut i: usize = 0;
    assert(parts@.take(0) =~= Seq::<u64>::empty());
    while i < parts.len()
        invariant
            i <= parts@.len(),
            sum == sat_total(parts@.take(i as int)),
        decreases parts@.len() - i,
    {
        assert(parts@.take(i + 1).drop_last() =~= parts@.take(i as int));
        sum = sum.saturating_add(parts[i]);
        i = i + 1;
    }
    assert(parts@.take(i as int) =~= parts@);
    sum
}

/// ` key=value`, or nothing where the value is zero.
pub open spec fn nz_text(key: Seq<char>, v: u128) -> Seq<char> {
    if v == 0 {
        Seq::empty()
    } else {
        " "@ + key + "="@ + dec(v as nat)
    }
}

fn append_nz(out: &mut String, key: &str, v: u128)
    ensures
        final(out)@ == old(out)@ + nz_text(key@, v),
{
    let ghost start = out@;
    if v != 0 {
        out.append(" ");
        out.append(key);
        out.append("=");
        append_dec(out, v);
    }
    assert(out@ =~= start + nz_text(key@, v));
}

/// `text` where it is to be shown.
pub open spec fn shown_if(show: bool, text: Seq<char>) -> Seq<char> {
    if show {
        text
    } else {
        Seq::empty()
    }
}

/// What the meter line starts with.
pub const INFO_TAG: &'static str = "ibd: perf ";

/// A time of the meter line, in milliseconds.
pub open spec fn ms_text(name: Seq<char>, ms: u64) -> Seq<char> {
    name + dec(ms as nat) + "ms "@
}

fn append_ms(out: &mut String, name: &str, ms: u64)
    ensures
        final(out)@ == old(out)@ + ms_text(name@, ms),
{
    out.append(name);
    append_dec(out, ms as u128);
    out.append("ms ");
    assert(out@ =~= old(out)@ + ms_text(name@, ms));
}

/// The start of the meter line.
pub const INFO_HEAD_LINE: &'static str =
    "inflight={}/{} bq soft={}/{} RAM={}MiB buf_ahead={} hole={} peers={}";

/// The numbers of [`INFO_HEAD_LINE`].
pub open spec fn info_head_nums(s: IbdPerfSample) -> Seq<u128> {
    seq![
        s.inflight as u128,
        s.inflight_cap as u128,
        s.bq_count as u128,
        s.bq_soft_stop as u128,
        bq_mib_of(s) as u128,
        s.arch_ahead as u128,
        s.hole as u128,
        s.peers as u128,
    ]
}

fn append_info_head(out: &mut String, s: &IbdPerfSample)
    ensures
        final(out)@ == old(out)@ + filled(INFO_HEAD_LINE@, info_head_nums(*s)),
{
    let nums: Vec<u128> = vec![
        s.inflight as u128,
        s.inflight_cap as u128,
        s.bq_count as u128,
        s.bq_soft_stop as u128,
        bq_mib(s) as u128,
        s.arch_ahead as u128,
        s.hole as u128,
        s.peers as u128,
    ];
    assert(nums@ =~= info_head_nums(*s));
    append_filled(out, INFO_HEAD_LINE, &nums);
}

/// Stages up to the write.
pub const INFO_CONF_LINE: &'static str =
    " | conf blks={} lookup={}ms load={}ms script={}ms(jobs={} skip={})";

/// The numbers of [`INFO_CONF_LINE`].
pub open spec fn info_conf_nums(s: IbdPerfSample) -> Seq<u128> {
    seq![
        max64(s.phase_blks, s.plan_blks) as u128,
        s.plan_ms as u128,
        load_wall_of(s) as u128,
        s.script_ms as u128,
        s.script_jobs as u128,
        s.script_skip as u128,
    ]
}

fn append_info_conf(out: &mut String, s: &IbdPerfSample)
    ensures
        final(out)@ == old(out)@ + filled(INFO_CONF_LINE@, info_conf_nums(*s)),
{
    let nums: Vec<u128> = vec![
        larger64(s.phase_blks, s.plan_blks) as u128,
        s.plan_ms as u128,
        load_stage_wall_ms(s) as u128,
        s.script_ms as u128,
        s.script_jobs as u128,
        s.script_skip as u128,
    ];
    assert(nums@ =~= info_conf_nums(*s));
    append_filled(out, INFO_CONF_LINE, &nums);
}

/// Threads and queues.
pub const INFO_THREADS_LINE: &'static str =
    "lookup_thr busy={}ms(claim={}ms wave={}ms(decode={}ms precompute={}ms collect={}ms head={}ms(probe={}ms io={}ms preads={}) spent={}ms) other={}ms send_w={}ms) load_thr busy/wait={}/{}ms(pack={}ms clone={}ms stamp={}ms(pack={}ms head={}ms) pin={}ms asm={}ms prune={}ms send_w={}ms) thr script={}/{}ms write={}/{}ms ready={} scriptq_hwm={}/{} writeq_hwm={}/{}";

/// The numbers of [`INFO_THREADS_LINE`].
pub open spec fn info_threads_nums(s: IbdPerfSample) -> Seq<u128> {
    seq![
        sat_add(s.thr_lookup_stamp_ms, s.thr_lookup_other_ms) as u128,
        s.thr_lookup_claim_ms as u128,
        s.thr_lookup_stamp_ms as u128,
        s.lookup_decode_ms as u128,
        s.lookup_precompute_ms as u128,
        s.plan_collect_ms as u128,
        s.lookup_wave_head_ms as u128,
        s.lookup_wave_head_probe_ms as u128,
        s.lookup_wave_head_io_ms as u128,
        s.lookup_wave_head_preads as u128,
        s.lookup_wave_spent_ms as u128,
        s.thr_lookup_other_ms as u128,
        s.thr_lookup_send_wait_ms as u128,
        load_busy_of(s) as u128,
        sat_add(s.thr_load_recv_wait_ms, s.thr_load_send_wait_ms) as u128,
        s.thr_load_pack_ms as u128,
        s.thr_load_clone_ms as u128,
        s.thr_load_stamp_ms as u128,
        sat_sub(s.thr_load_stamp_ms, s.stamp_batch_head_fk_ms) as u128,
        s.stamp_batch_head_fk_ms as u128,
        s.thr_load_pin_ms as u128,
        s.thr_load_asm_ms as u128,
        s.thr_load_prune_ms as u128,
        s.thr_load_send_wait_ms as u128,
        s.thr_script_work_ms as u128,
        sat_add(s.thr_script_recv_wait_ms, s.thr_script_send_wait_ms) as u128,
        s.thr_write_work_ms as u128,
        s.thr_write_recv_wait_ms as u128,
        s.conf_ready as u128,
        s.conf_script_q_hwm as u128,
        s.conf_script_q_cap as u128,
        s.conf_write_q_hwm as u128,
        s.conf_write_q_cap as u128,
    ]
}

fn append_info_threads(out: &mut String, s: &IbdPerfSample)
    ensures
        final(out)@ == old(out)@ + filled(INFO_THREADS_LINE@, info_threads_nums(*s)),
{
    let nums: Vec<u128> = vec![
        s.thr_lookup_stamp_ms.saturating_add(s.thr_lookup_other_ms) as u128,
        s.thr_lookup_claim_ms as u128,
        s.thr_lookup_stamp_ms as u128,
        s.lookup_decode_ms as u128,
        s.lookup_precompute_ms as u128,
        s.plan_collect_ms as u128,
        s.lookup_wave_head_ms as u128,
        s.lookup_wave_head_probe_ms as u128,
        s.lookup_wave_head_io_ms as u128,
        s.lookup_wave_head_preads as u128,
        s.lookup_wave_spent_ms as u128,
        s.thr_lookup_other_ms as u128,
        s.thr_lookup_send_wait_ms as u128,
        load_busy_ms(s) as u128,
        s.thr_load_recv_wait_ms.saturating_add(s.thr_load_send_wait_ms) as u128,
        s.thr_load_pack_ms as u128,
        s.thr_load_clone_ms as u128,
        s.thr_load_stamp_ms as u128,
        s.thr_load_stamp_ms.saturating_sub(s.stamp_batch_head_fk_ms) as u128,
        s.stamp_batch_head_fk_ms as u128,
        s.thr_load_pin_ms as u128,
        s.thr_load_asm_ms as u128,
        s.thr_load_prune_ms as u128,
        s.thr_load_send_wait_ms as u128,
        s.thr_script_work_ms as u128,
        s.thr_script_recv_wait_ms.saturating_add(s.thr_script_send_wait_ms) as u128,
        s.thr_write_work_ms as u128,
        s.thr_write_recv_wait_ms as u128,
        s.conf_ready as u128,
        s.conf_script_q_hwm as u128,
        s.conf_script_q_cap as u128,
        s.conf_write_q_hwm as u128,
        s.conf_write_q_cap as u128,
    ];
    assert(nums@ =~= info_threads_nums(*s));
    append_filled(out, INFO_THREADS_LINE, &nums);
}

/// The stamp step.
pub const INFO_STAMP_LINE: &'static str =
    " stamp_sub(struct={}ms struct_txid={}ms struct_walk={}ms prepare={}ms filter={}ms batch={}ms batch_assign={}ms collect={}ms pin_txid={} pin_txid%={} pin_txid_ms={} leftover_n={} leftover_hit={} leftover_ms={} leftover_pend={} leftover_cdf0={} leftover_cdf3={} leftover_age_n={} recent={} recent_ms={} head={}ms stamp={}ms finish={}ms)";

/// The numbers of [`INFO_STAMP_LINE`].
pub open spec fn info_stamp_nums(s: IbdPerfSample) -> Seq<u128> {
    seq![
        s.stamp_struct_ms as u128,
        s.stamp_struct_txid_ms as u128,
        s.stamp_struct_walk_ms as u128,
        s.stamp_prepare_ms as u128,
        s.stamp_filter_ms as u128,
        s.stamp_batch_ms as u128,
        s.stamp_batch_assign_ms as u128,
        s.stamp_batch_collect_ms as u128,
        s.arch_pin_txid as u128,
        pin_txid_share(s),
        s.arch_pin_txid_ms as u128,
        s.arch_head_need as u128,
        s.arch_head_hit as u128,
        s.stamp_batch_head_fk_ms as u128,
        s.leftover_pend as u128,
        s.leftover_cdf0_pct as u128,
        s.leftover_cdf3_pct as u128,
        s.leftover_age_n as u128,
        s.arch_recent_n as u128,
        s.arch_recent_ms as u128,
        s.stamp_batch_head_ms as u128,
        s.stamp_batch_stamp_ms as u128,
        s.stamp_batch_finish_ms as u128,
    ]
}

fn append_info_stamp(out: &mut String, s: &IbdPerfSample)
    ensures
        final(out)@ == old(out)@ + filled(INFO_STAMP_LINE@, info_stamp_nums(*s)),
{
    let nums: Vec<u128> = vec![
        s.stamp_struct_ms as u128,
        s.stamp_struct_txid_ms as u128,
        s.stamp_struct_walk_ms as u128,
        s.stamp_prepare_ms as u128,
        s.stamp_filter_ms as u128,
        s.stamp_batch_ms as u128,
        s.stamp_batch_assign_ms as u128,
        s.stamp_batch_collect_ms as u128,
        s.arch_pin_txid as u128,
        pin_txid_pct(s),
        s.arch_pin_txid_ms as u128,
        s.arch_head_need as u128,
        s.arch_head_hit as u128,
        s.stamp_batch_head_fk_ms as u128,
        s.leftover_pend as u128,
        s.leftover_cdf0_pct as u128,
        s.leftover_cdf3_pct as u128,
        s.leftover_age_n as u128,
        s.arch_recent_n as u128,
        s.arch_recent_ms as u128,
        s.stamp_batch_head_ms as u128,
        s.stamp_batch_stamp_ms as u128,
        s.stamp_batch_finish_ms as u128,
    ];
    assert(nums@ =~= info_stamp_nums(*s));
    append_filled(out, INFO_STAMP_LINE, &nums);
}

/// Ages of index hits.
pub const INFO_HEAD_AGE_LINE: &'static str =
    " head_loc(cdf0={} cdf3={} cdf7={} cdf15={} cdf31={} n={})";

/// The numbers of [`INFO_HEAD_AGE_LINE`].
pub open spec fn info_head_age_nums(s: IbdPerfSample) -> Seq<u128> {
    seq![
        s.arch_prep_age_cdf0_pct as u128,
        s.arch_prep_age_cdf3_pct as u128,
        s.arch_prep_age_cdf7_pct as u128,
        s.arch_prep_age_cdf15_pct as u128,
        s.arch_prep_age_cdf31_pct as u128,
        s.arch_prep_age_hit_n as u128,
    ]
}

fn append_info_head_age(out: &mut String, s: &IbdPerfSample)
    ensures
        final(out)@ == old(out)@ + filled(INFO_HEAD_AGE_LINE@, info_head_age_nums(*s)),
{
    let nums: Vec<u128> = vec![
        s.arch_prep_age_cdf0_pct as u128,
        s.arch_prep_age_cdf3_pct as u128,
        s.arch_prep_age_cdf7_pct as u128,
        s.arch_prep_age_cdf15_pct as u128,
        s.arch_prep_age_cdf31_pct as u128,
        s.arch_prep_age_hit_n as u128,
    ];
    assert(nums@ =~= info_head_age_nums(*s));
    append_filled(out, INFO_HEAD_AGE_LINE, &nums);
}

/// The lookup stage.
pub const INFO_LOOKUP_LINE: &'static str =
    " lookup_sub(blks={} parents={} already={} cold={} same={} collect={}ms decode={}ms precompute={}ms head={}ms spent={}ms stamp_head={}ms cold_io={}ms)";

/// The numbers of [`INFO_LOOKUP_LINE`].
pub open spec fn info_lookup_nums(s: IbdPerfSample) -> Seq<u128> {
    seq![
        s.plan_blks as u128,
        s.plan_parents as u128,
        s.plan_already as u128,
        s.plan_cold as u128,
        s.plan_same_batch as u128,
        s.plan_collect_ms as u128,
        s.lookup_decode_ms as u128,
        s.lookup_precompute_ms as u128,
        s.lookup_wave_head_ms as u128,
        s.lookup_wave_spent_ms as u128,
        s.plan_head_ms as u128,
        s.plan_cold_io_ms as u128,
    ]
}

fn append_info_lookup(out: &mut String, s: &IbdPerfSample)
    ensures
        final(out)@ == old(out)@ + filled(INFO_LOOKUP_LINE@, info_lookup_nums(*s)),
{
    let nums: Vec<u128> = vec![
        s.plan_blks as u128,
        s.plan_parents as u128,
        s.plan_already as u128,
        s.plan_cold as u128,
        s.plan_same_batch as u128,
        s.plan_collect_ms as u128,
        s.lookup_decode_ms as u128,
        s.lookup_precompute_ms as u128,
        s.lookup_wave_head_ms as u128,
        s.lookup_wave_spent_ms as u128,
        s.plan_head_ms as u128,
        s.plan_cold_io_ms as u128,
    ];
    assert(nums@ =~= info_lookup_nums(*s));
    append_filled(out, INFO_LOOKUP_LINE, &nums);
}

/// Where the load stage goes.
pub const INFO_BUDGET_LINE: &'static str =
    " | load_budget total={}ms pin={}ms asm={}ms other={}ms";

/// The numbers of [`INFO_BUDGET_LINE`].
pub open spec fn info_budget_nums(s: IbdPerfSample) -> Seq<u128> {
    seq![
        load_wall_of(s) as u128,
        s.load_parent_pin_ms as u128,
        s.connect_ms as u128,
        sat_sub(sat_sub(load_wall_of(s), s.load_parent_pin_ms), s.connect_ms) as u128,
    ]
}

fn append_info_budget(out: &mut String, s: &IbdPerfSample)
    ensures
        final(out)@ == old(out)@ + filled(INFO_BUDGET_LINE@, info_budget_nums(*s)),
{
    let nums: Vec<u128> = vec![
        load_stage_wall_ms(s) as u128,
        s.load_parent_pin_ms as u128,
        s.connect_ms as u128,
        load_stage_wall_ms(s).saturating_sub(s.load_parent_pin_ms).saturating_sub(s.connect_ms) as u128,
    ];
    assert(nums@ =~= info_budget_nums(*s));
    append_filled(out, INFO_BUDGET_LINE, &nums);
}

/// The load stage.
pub const INFO_LOAD_LINE: &'static str =
    " | load blks={} total={}ms pre_asm={}ms(wire_arc={}ms struct={}ms header={}ms prepare={}ms filter_plan={}ms plan_batch={}ms pin={}ms) assemble={}ms(prevout={} us/in={} batch={}/n={} same={}/n={} cold={}/n={} cold_why(null_fk={} not_pin={} mismatch={} vout_miss={}) fk={}ms sigop={} final={} job={}) pin(thin={}ms plan={}ms/n={} cold_range={}ms(body={} dec={})/n={} cold_idx={}ms/n={} cold_io={}ms cold_dec={}ms us/new={} adopt={}ms recent_outs={}ms range_fill={}ms contract={}ms publish={}ms) pin_hit%={} pin_plan={} pin_new={} body_io={} parent_io={}";

/// The numbers of [`INFO_LOAD_LINE`].
pub open spec fn info_load_nums(s: IbdPerfSample) -> Seq<u128> {
    seq![
        s.load_blocks as u128,
        load_wall_of(s) as u128,
        s.load_ms as u128,
        s.prep_wire_arc_ms as u128,
        s.prep_struct_ms as u128,
        s.prep_header_ms as u128,
        s.prep_prepare_ms as u128,
        s.prep_filter_plan_ms as u128,
        plan_batch_of(s) as u128,
        s.load_parent_pin_ms as u128,
        s.connect_ms as u128,
        s.asm_prevout_ms as u128,
        us_per(s.asm_prevout_ms, s.asm_in_n),
        s.asm_prev_batch_ms as u128,
        s.asm_prev_batch_n as u128,
        s.asm_prev_same_ms as u128,
        s.asm_prev_same_n as u128,
        s.asm_prev_cold_ms as u128,
        s.asm_prev_cold_n as u128,
        s.asm_cold_null_fk_n as u128,
        s.asm_cold_not_pin_n as u128,
        s.asm_cold_txid_mismatch_n as u128,
        s.asm_cold_vout_miss_n as u128,
        s.asm_prev_fk_ms as u128,
        s.asm_sigop_ms as u128,
        s.asm_final_ms as u128,
        s.asm_job_ms as u128,
        s.load_thin_ms as u128,
        or_else64(s.load_plan_pin_ms, s.load_pin_body_ms) as u128,
        s.load_pin_plan as u128,
        s.load_cold_range_ms as u128,
        s.load_cold_range_body_ms as u128,
        s.load_cold_range_decode_ms as u128,
        s.load_cold_range_n as u128,
        s.load_cold_idx_ms as u128,
        s.load_cold_idx_n as u128,
        or_else64(s.load_cold_io_ms, s.load_pin_new_meta_ms) as u128,
        s.load_cold_decode_ms as u128,
        us_per(cold_of(s), s.load_pin_new),
        s.load_pin_adopt_ms as u128,
        s.load_pin_recent_outs_ms as u128,
        s.load_pin_range_fill_ms as u128,
        s.load_pin_contract_ms as u128,
        s.load_pin_publish_ms as u128,
        share_of(s.load_pin_cache_body, sat_add(s.load_pin_cache_body, s.load_pin_new)),
        s.load_pin_plan as u128,
        s.load_pin_new as u128,
        s.load_body_tx_reads as u128,
        s.load_parent_tx_reads as u128,
    ]
}

fn append_info_load(out: &mut String, s: &IbdPerfSample)
    ensures
        final(out)@ == old(out)@ + filled(INFO_LOAD_LINE@, info_load_nums(*s)),
{
    let nums: Vec<u128> = vec![
        s.load_blocks as u128,
        load_stage_wall_ms(s) as u128,
        s.load_ms as u128,
        s.prep_wire_arc_ms as u128,
        s.prep_struct_ms as u128,
        s.prep_header_ms as u128,
        s.prep_prepare_ms as u128,
        s.prep_filter_plan_ms as u128,
        plan_batch_ms(s) as u128,
        s.load_parent_pin_ms as u128,
        s.connect_ms as u128,
        s.asm_prevout_ms as u128,
        us_each(s.asm_prevout_ms, s.asm_in_n),
        s.asm_prev_batch_ms as u128,
        s.asm_prev_batch_n as u128,
        s.asm_prev_same_ms as u128,
        s.asm_prev_same_n as u128,
        s.asm_prev_cold_ms as u128,
        s.asm_prev_cold_n as u128,
        s.asm_cold_null_fk_n as u128,
        s.asm_cold_not_pin_n as u128,
        s.asm_cold_txid_mismatch_n as u128,
        s.asm_cold_vout_miss_n as u128,
        s.asm_prev_fk_ms as u128,
        s.asm_sigop_ms as u128,
        s.asm_final_ms as u128,
        s.asm_job_ms as u128,
        s.load_thin_ms as u128,
        first_nonzero(s.load_plan_pin_ms, s.load_pin_body_ms) as u128,
        s.load_pin_plan as u128,
        s.load_cold_range_ms as u128,
        s.load_cold_range_body_ms as u128,
        s.load_cold_range_decode_ms as u128,
        s.load_cold_range_n as u128,
        s.load_cold_idx_ms as u128,
        s.load_cold_idx_n as u128,
        first_nonzero(s.load_cold_io_ms, s.load_pin_new_meta_ms) as u128,
        s.load_cold_decode_ms as u128,
        us_each(cold_ms(s), s.load_pin_new),
        s.load_pin_adopt_ms as u128,
        s.load_pin_recent_outs_ms as u128,
        s.load_pin_range_fill_ms as u128,
        s.load_pin_contract_ms as u128,
        s.load_pin_publish_ms as u128,
        percent(s.load_pin_cache_body, s.load_pin_cache_body.saturating_add(s.load_pin_new)),
        s.load_pin_plan as u128,
        s.load_pin_new as u128,
        s.load_body_tx_reads as u128,
        s.load_parent_tx_reads as u128,
    ];
    assert(nums@ =~= info_load_nums(*s));
    append_filled(out, INFO_LOAD_LINE, &nums);
}

/// The pin window.
pub const INFO_PIN_WIN_LINE: &'static str =
    " pin_win={}ms";

/// The numbers of [`INFO_PIN_WIN_LINE`].
pub open spec fn info_pin_win_nums(s: IbdPerfSample) -> Seq<u128> {
    seq![
        s.load_win_ms as u128,
    ]
}

fn append_info_pin_win(out: &mut String, s: &IbdPerfSample)
    ensures
        final(out)@ == old(out)@ + filled(INFO_PIN_WIN_LINE@, info_pin_win_nums(*s)),
{
    let nums: Vec<u128> = vec![
        s.load_win_ms as u128,
    ];
    assert(nums@ =~= info_pin_win_nums(*s));
    append_filled(out, INFO_PIN_WIN_LINE, &nums);
}

/// Edges by kind.
pub const EDGES_LINE: &'static str =
    " edges same={} fk={} cb={}";

/// The numbers of [`EDGES_LINE`].
pub open spec fn edges_nums(s: IbdPerfSample) -> Seq<u128> {
    seq![
        s.load_edge_same as u128,
        s.load_edge_fk as u128,
        s.load_edge_cb as u128,
    ]
}

fn append_edges(out: &mut String, s: &IbdPerfSample)
    ensures
        final(out)@ == old(out)@ + filled(EDGES_LINE@, edges_nums(*s)),
{
    let nums: Vec<u128> = vec![
        s.load_edge_same as u128,
        s.load_edge_fk as u128,
        s.load_edge_cb as u128,
    ];
    assert(nums@ =~= edges_nums(*s));
    append_filled(out, EDGES_LINE, &nums);
}

/// Missing parents.
pub const INFO_MISSING_LINE: &'static str =
    " miss_p={}";

/// The numbers of [`INFO_MISSING_LINE`].
pub open spec fn info_missing_nums(s: IbdPerfSample) -> Seq<u128> {
    seq![
        s.load_missing_parents as u128,
    ]
}

fn append_info_missing(out: &mut String, s: &IbdPerfSample)
    ensures
        final(out)@ == old(out)@ + filled(INFO_MISSING_LINE@, info_missing_nums(*s)),
{
    let nums: Vec<u128> = vec![
        s.load_missing_parents as u128,
    ];
    assert(nums@ =~= info_missing_nums(*s));
    append_filled(out, INFO_MISSING_LINE, &nums);
}

/// The write stage.
pub const INFO_WRITE_LINE: &'static str =
    " | write class_a={}ms ensure={}ms(pin={} cold={}) struct={}ms(spent={} create_h={} bip68={}) spent_sub(abs={} strong={} cold={} pending={}) class_c={}ms class_c_join={}ms sh={}ms spend={}ms tweaks={}ms tip_gc={}ms recent_pub={}ms(idx={} clone={}) pins={}ms(take={} map={}) head_sub={}ms drain_join={}ms dequeue={}ms";

/// The numbers of [`INFO_WRITE_LINE`].
pub open spec fn info_write_nums(s: IbdPerfSample) -> Seq<u128> {
    seq![
        s.write.class_a_ms as u128,
        s.write.ensure_ms as u128,
        s.ensure_res_hit as u128,
        s.ensure_cold_n as u128,
        s.write.structural_ms as u128,
        s.structural_spent_ms as u128,
        s.structural_create_h_ms as u128,
        s.structural_bip68_ms as u128,
        s.spent_abs_ms as u128,
        s.spent_strong_ms as u128,
        s.spent_cold_ms as u128,
        s.spent_pending_ms as u128,
        s.write.class_c_ms as u128,
        s.write.class_c_join_ms as u128,
        s.write.sh_ms as u128,
        s.write.utxo_ms as u128,
        s.write.tweak_ms as u128,
        s.write.cache_tip_ms as u128,
        s.write.recent_pub_ms as u128,
        s.recent_idx_ms as u128,
        s.recent_clone_ms as u128,
        s.write.pins_ms as u128,
        s.pins_take_ms as u128,
        s.pins_map_ms as u128,
        s.write.head_sub_ms as u128,
        s.write.drain_join_ms as u128,
        s.write.dequeue_ms as u128,
    ]
}

fn append_info_write(out: &mut String, s: &IbdPerfSample)
    ensures
        final(out)@ == old(out)@ + filled(INFO_WRITE_LINE@, info_write_nums(*s)),
{
    let nums: Vec<u128> = vec![
        s.write.class_a_ms as u128,
        s.write.ensure_ms as u128,
        s.ensure_res_hit as u128,
        s.ensure_cold_n as u128,
        s.write.structural_ms as u128,
        s.structural_spent_ms as u128,
        s.structural_create_h_ms as u128,
        s.structural_bip68_ms as u128,
        s.spent_abs_ms as u128,
        s.spent_strong_ms as u128,
        s.spent_cold_ms as u128,
        s.spent_pending_ms as u128,
        s.write.class_c_ms as u128,
        s.write.class_c_join_ms as u128,
        s.write.sh_ms as u128,
        s.write.utxo_ms as u128,
        s.write.tweak_ms as u128,
        s.write.cache_tip_ms as u128,
        s.write.recent_pub_ms as u128,
        s.recent_idx_ms as u128,
        s.recent_clone_ms as u128,
        s.write.pins_ms as u128,
        s.pins_take_ms as u128,
        s.pins_map_ms as u128,
        s.write.head_sub_ms as u128,
        s.write.drain_join_ms as u128,
        s.write.dequeue_ms as u128,
    ];
    assert(nums@ =~= info_write_nums(*s));
    append_filled(out, INFO_WRITE_LINE, &nums);
}

/// Annotation and meta reads of the write stage.
pub const INFO_ANN_LINE: &'static str =
    "ann={}ms/n={} pread_skip={} pread={} meta={}ms/n={}";

/// The numbers of [`INFO_ANN_LINE`].
pub open spec fn info_ann_nums(s: IbdPerfSample) -> Seq<u128> {
    seq![
        s.ann_ms as u128,
        s.ann_n as u128,
        s.ann_pread_skip as u128,
        s.ann_pread as u128,
        s.meta_ms as u128,
        s.meta_n as u128,
    ]
}

fn append_info_ann(out: &mut String, s: &IbdPerfSample)
    ensures
        final(out)@ == old(out)@ + filled(INFO_ANN_LINE@, info_ann_nums(*s)),
{
    let nums: Vec<u128> = vec![
        s.ann_ms as u128,
        s.ann_n as u128,
        s.ann_pread_skip as u128,
        s.ann_pread as u128,
        s.meta_ms as u128,
        s.meta_n as u128,
    ];
    assert(nums@ =~= info_ann_nums(*s));
    append_filled(out, INFO_ANN_LINE, &nums);
}

/// The archive write.
pub const INFO_CLASS_A_LINE: &'static str =
    " class_a_sub(body={} head={} htxs={} reserve={})";

/// The numbers of [`INFO_CLASS_A_LINE`].
pub open spec fn info_class_a_nums(s: IbdPerfSample) -> Seq<u128> {
    seq![
        s.arch_write_body_ms as u128,
        s.arch_write_head_ms as u128,
        s.arch_write_htxs_ms as u128,
        s.arch_write_reserve_ms as u128,
    ]
}

fn append_info_class_a(out: &mut String, s: &IbdPerfSample)
    ensures
        final(out)@ == old(out)@ + filled(INFO_CLASS_A_LINE@, info_class_a_nums(*s)),
{
    let nums: Vec<u128> = vec![
        s.arch_write_body_ms as u128,
        s.arch_write_head_ms as u128,
        s.arch_write_htxs_ms as u128,
        s.arch_write_reserve_ms as u128,
    ];
    assert(nums@ =~= info_class_a_nums(*s));
    append_filled(out, INFO_CLASS_A_LINE, &nums);
}

/// Spends by kind.
pub const INFO_SPEND_MIX_LINE: &'static str =
    " spend_mix(r={} i={} skip={})";

/// The numbers of [`INFO_SPEND_MIX_LINE`].
pub open spec fn info_spend_mix_nums(s: IbdPerfSample) -> Seq<u128> {
    seq![
        s.spend_ranged as u128,
        s.spend_idx as u128,
        s.spend_skip as u128,
    ]
}

fn append_info_spend_mix(out: &mut String, s: &IbdPerfSample)
    ensures
        final(out)@ == old(out)@ + filled(INFO_SPEND_MIX_LINE@, info_spend_mix_nums(*s)),
{
    let nums: Vec<u128> = vec![
        s.spend_ranged as u128,
        s.spend_idx as u128,
        s.spend_skip as u128,
    ];
    assert(nums@ =~= info_spend_mix_nums(*s));
    append_filled(out, INFO_SPEND_MIX_LINE, &nums);
}

/// How far load is ready.
pub const INFO_THROUGH_LINE: &'static str =
    " thru={} sh_runs={}";

/// The numbers of [`INFO_THROUGH_LINE`].
pub open spec fn info_through_nums(s: IbdPerfSample) -> Seq<u128> {
    seq![
        s.load_ready_through as u128,
        s.sh_runs as u128,
    ]
}

fn append_info_through(out: &mut String, s: &IbdPerfSample)
    ensures
        final(out)@ == old(out)@ + filled(INFO_THROUGH_LINE@, info_through_nums(*s)),
{
    let nums: Vec<u128> = vec![
        s.load_ready_through as u128,
        s.sh_runs as u128,
    ];
    assert(nums@ =~= info_through_nums(*s));
    append_filled(out, INFO_THROUGH_LINE, &nums);
}

/// The download loop.
pub const INFO_LOOP_LINE: &'static str =
    " conf={}ms assign={}ms";

/// The numbers of [`INFO_LOOP_LINE`].
pub open spec fn info_loop_nums(s: IbdPerfSample) -> Seq<u128> {
    seq![
        s.confirm_ms as u128,
        s.assign_ms as u128,
    ]
}

fn append_info_loop(out: &mut String, s: &IbdPerfSample)
    ensures
        final(out)@ == old(out)@ + filled(INFO_LOOP_LINE@, info_loop_nums(*s)),
{
    let nums: Vec<u128> = vec![
        s.confirm_ms as u128,
        s.assign_ms as u128,
    ];
    assert(nums@ =~= info_loop_nums(*s));
    append_filled(out, INFO_LOOP_LINE, &nums);
}

/// Rejects.
pub const INFO_REJECT_LINE: &'static str =
    " reject={}";

/// The numbers of [`INFO_REJECT_LINE`].
pub open spec fn info_reject_nums(s: IbdPerfSample) -> Seq<u128> {
    seq![
        s.confirm_reject_stops as u128,
    ]
}

fn append_info_reject(out: &mut String, s: &IbdPerfSample)
    ensures
        final(out)@ == old(out)@ + filled(INFO_REJECT_LINE@, info_reject_nums(*s)),
{
    let nums: Vec<u128> = vec![
        s.confirm_reject_stops as u128,
    ];
    assert(nums@ =~= info_reject_nums(*s));
    append_filled(out, INFO_REJECT_LINE, &nums);
}

/// Microseconds per block.
pub const DEBUG_HEAD_LINE: &'static str =
    "ibd: perf_dbg us/blk load={} (pre_asm={} assemble={}) script={} write={} class_a={} ensure={} struct={} spent={} create_h={} bip68={} class_c={} sh={} spend={}(r={} i={} skip={}) tweaks={} tip_gc={} recent_pub={} pins={} head_sub={} drain_join={} dequeue={}";

/// The numbers of [`DEBUG_HEAD_LINE`].
pub open spec fn debug_head_nums(s: IbdPerfSample) -> Seq<u128> {
    seq![
        us_per_block(s, sat_add(s.load_ns, s.connect_ns)),
        us_per_block(s, s.load_ns),
        us_per_block(s, s.connect_ns),
        us_per_block(s, s.script_ns),
        us_per_block(s, sat_total(s.write.parts_ns())),
        us_per_block(s, s.write.class_a_ns),
        us_per_block(s, s.write.ensure_ns),
        us_per_block(s, s.write.structural_ns),
        us_per_block(s, s.structural_spent_ns),
        us_per_block(s, s.structural_create_h_ns),
        us_per_block(s, s.structural_bip68_ns),
        us_per_block(s, s.write.class_c_ns),
        us_per_block(s, s.write.sh_ns),
        us_per_block(s, s.write.utxo_apply_ns),
        s.spend_ranged as u128,
        s.spend_idx as u128,
        s.spend_skip as u128,
        us_per_block(s, s.write.tweak_ns),
        us_per_block(s, s.write.cache_tip_ns),
        us_per_block(s, s.write.recent_pub_ns),
        us_per_block(s, s.write.pins_ns),
        us_per_block(s, s.write.head_sub_ns),
        us_per_block(s, s.write.drain_join_ns),
        us_per_block(s, s.write.dequeue_ns),
    ]
}

fn append_debug_head(out: &mut String, s: &IbdPerfSample)
    ensures
        final(out)@ == old(out)@ + filled(DEBUG_HEAD_LINE@, debug_head_nums(*s)),
{
    let nums: Vec<u128> = vec![
        us_block(s, s.load_ns.saturating_add(s.connect_ns)),
        us_block(s, s.load_ns),
        us_block(s, s.connect_ns),
        us_block(s, s.script_ns),
        us_block(s, s.write.stage_ns()),
        us_block(s, s.write.class_a_ns),
        us_block(s, s.write.ensure_ns),
        us_block(s, s.write.structural_ns),
        us_block(s, s.structural_spent_ns),
        us_block(s, s.structural_create_h_ns),
        us_block(s, s.structural_bip68_ns),
        us_block(s, s.write.class_c_ns),
        us_block(s, s.write.sh_ns),
        us_block(s, s.write.utxo_apply_ns),
        s.spend_ranged as u128,
        s.spend_idx as u128,
        s.spend_skip as u128,
        us_block(s, s.write.tweak_ns),
        us_block(s, s.write.cache_tip_ns),
        us_block(s, s.write.recent_pub_ns),
        us_block(s, s.write.pins_ns),
        us_block(s, s.write.head_sub_ns),
        us_block(s, s.write.drain_join_ns),
        us_block(s, s.write.dequeue_ns),
    ];
    assert(nums@ =~= debug_head_nums(*s));
    append_filled(out, DEBUG_HEAD_LINE, &nums);
}

/// Bodies rebuilt from the store.
pub const DEBUG_WIRE_LINE: &'static str =
    " | wire_body store={} store_ms={}";

/// The numbers of [`DEBUG_WIRE_LINE`].
pub open spec fn debug_wire_nums(s: IbdPerfSample) -> Seq<u128> {
    seq![
        s.wf_body_store as u128,
        s.wf_store_body_ms as u128,
    ]
}

fn append_debug_wire(out: &mut String, s: &IbdPerfSample)
    ensures
        final(out)@ == old(out)@ + filled(DEBUG_WIRE_LINE@, debug_wire_nums(*s)),
{
    let nums: Vec<u128> = vec![
        s.wf_body_store as u128,
        s.wf_store_body_ms as u128,
    ];
    assert(nums@ =~= debug_wire_nums(*s));
    append_filled(out, DEBUG_WIRE_LINE, &nums);
}

/// The script-hash index.
pub const DEBUG_SH_LINE: &'static str =
    " | sh collect={}";

/// The numbers of [`DEBUG_SH_LINE`].
pub open spec fn debug_sh_nums(s: IbdPerfSample) -> Seq<u128> {
    seq![
        s.sh_collect_ms as u128,
    ]
}

fn append_debug_sh(out: &mut String, s: &IbdPerfSample)
    ensures
        final(out)@ == old(out)@ + filled(DEBUG_SH_LINE@, debug_sh_nums(*s)),
{
    let nums: Vec<u128> = vec![
        s.sh_collect_ms as u128,
    ];
    assert(nums@ =~= debug_sh_nums(*s));
    append_filled(out, DEBUG_SH_LINE, &nums);
}

/// Where the script-hash index gets its creates.
pub const DEBUG_SH_SRC_LINE: &'static str =
    " sh_src pin={} cold={}";

/// The numbers of [`DEBUG_SH_SRC_LINE`].
pub open spec fn debug_sh_src_nums(s: IbdPerfSample) -> Seq<u128> {
    seq![
        s.sh_collect_pin as u128,
        s.sh_collect_cold as u128,
    ]
}

fn append_debug_sh_src(out: &mut String, s: &IbdPerfSample)
    ensures
        final(out)@ == old(out)@ + filled(DEBUG_SH_SRC_LINE@, debug_sh_src_nums(*s)),
{
    let nums: Vec<u128> = vec![
        s.sh_collect_pin as u128,
        s.sh_collect_cold as u128,
    ];
    assert(nums@ =~= debug_sh_src_nums(*s));
    append_filled(out, DEBUG_SH_SRC_LINE, &nums);
}

/// The body queue.
pub const DEBUG_QUEUE_LINE: &'static str =
    " | bq soft={}/{} RAM={}MiB | ";

/// The numbers of [`DEBUG_QUEUE_LINE`].
pub open spec fn debug_queue_nums(s: IbdPerfSample) -> Seq<u128> {
    seq![
        s.bq_count as u128,
        s.bq_soft_stop as u128,
        bq_mib_of(s) as u128,
    ]
}

fn append_debug_queue(out: &mut String, s: &IbdPerfSample)
    ensures
        final(out)@ == old(out)@ + filled(DEBUG_QUEUE_LINE@, debug_queue_nums(*s)),
{
    let nums: Vec<u128> = vec![
        s.bq_count as u128,
        s.bq_soft_stop as u128,
        bq_mib(s) as u128,
    ];
    assert(nums@ =~= debug_queue_nums(*s));
    append_filled(out, DEBUG_QUEUE_LINE, &nums);
}

/// The load stage.
pub const DEBUG_LOAD_LINE: &'static str =
    " | load thru={} bodies={} plans={} win_ms={} blks={} utxo_p={} creates={} uniq_p={} pin_cache={} pin_new={} body_io={} parent_io={}";

/// The numbers of [`DEBUG_LOAD_LINE`].
pub open spec fn debug_load_nums(s: IbdPerfSample) -> Seq<u128> {
    seq![
        s.load_ready_through as u128,
        s.cache_bodies as u128,
        s.cache_plans as u128,
        s.load_win_ms as u128,
        s.load_blocks as u128,
        s.load_utxo_parents as u128,
        s.load_creates as u128,
        s.load_parent_unique as u128,
        s.load_pin_cache_body as u128,
        s.load_pin_new as u128,
        s.load_body_tx_reads as u128,
        s.load_parent_tx_reads as u128,
    ]
}

fn append_debug_load(out: &mut String, s: &IbdPerfSample)
    ensures
        final(out)@ == old(out)@ + filled(DEBUG_LOAD_LINE@, debug_load_nums(*s)),
{
    let nums: Vec<u128> = vec![
        s.load_ready_through as u128,
        s.cache_bodies as u128,
        s.cache_plans as u128,
        s.load_win_ms as u128,
        s.load_blocks as u128,
        s.load_utxo_parents as u128,
        s.load_creates as u128,
        s.load_parent_unique as u128,
        s.load_pin_cache_body as u128,
        s.load_pin_new as u128,
        s.load_body_tx_reads as u128,
        s.load_parent_tx_reads as u128,
    ];
    assert(nums@ =~= debug_load_nums(*s));
    append_filled(out, DEBUG_LOAD_LINE, &nums);
}

/// Phases of the load stage.
pub const DEBUG_PHASES_LINE: &'static str =
    " phases hdr={} dec={} thin={} pin={} put={} pin_sub body={} new={}";

/// The numbers of [`DEBUG_PHASES_LINE`].
pub open spec fn debug_phases_nums(s: IbdPerfSample) -> Seq<u128> {
    seq![
        s.load_hdr_ms as u128,
        s.load_decode_ms as u128,
        s.load_thin_ms as u128,
        s.load_parent_pin_ms as u128,
        s.load_cache_put_ms as u128,
        s.load_pin_body_ms as u128,
        s.load_pin_new_meta_ms as u128,
    ]
}

fn append_debug_phases(out: &mut String, s: &IbdPerfSample)
    ensures
        final(out)@ == old(out)@ + filled(DEBUG_PHASES_LINE@, debug_phases_nums(*s)),
{
    let nums: Vec<u128> = vec![
        s.load_hdr_ms as u128,
        s.load_decode_ms as u128,
        s.load_thin_ms as u128,
        s.load_parent_pin_ms as u128,
        s.load_cache_put_ms as u128,
        s.load_pin_body_ms as u128,
        s.load_pin_new_meta_ms as u128,
    ];
    assert(nums@ =~= debug_phases_nums(*s));
    append_filled(out, DEBUG_PHASES_LINE, &nums);
}

/// Script-hash runs.
pub const DEBUG_SH_RUNS_LINE: &'static str =
    " sh_runs={}";

/// The numbers of [`DEBUG_SH_RUNS_LINE`].
pub open spec fn debug_sh_runs_nums(s: IbdPerfSample) -> Seq<u128> {
    seq![
        s.sh_runs as u128,
    ]
}

fn append_debug_sh_runs(out: &mut String, s: &IbdPerfSample)
    ensures
        final(out)@ == old(out)@ + filled(DEBUG_SH_RUNS_LINE@, debug_sh_runs_nums(*s)),
{
    let nums: Vec<u128> = vec![
        s.sh_runs as u128,
    ];
    assert(nums@ =~= debug_sh_runs_nums(*s));
    append_filled(out, DEBUG_SH_RUNS_LINE, &nums);
}

/// The plan step.
pub const DEBUG_PLAN_LINE: &'static str =
    " | plan_batch assign={} collect={} inflight={} pin_txid={}/{} pin_txid_ms={} us/pin_txid={} recent={} recent_ms={} head_fk={} head={} stamp={} finish={} resolve_us/blk={} ext={} head_hit={}/{} stamp_n batch={}";

/// The numbers of [`DEBUG_PLAN_LINE`].
pub open spec fn debug_plan_nums(s: IbdPerfSample) -> Seq<u128> {
    seq![
        s.arch_prep_assign_ms as u128,
        s.arch_prep_collect_ms as u128,
        s.arch_prep_inflight_ms as u128,
        s.arch_pin_txid as u128,
        s.arch_head_need as u128,
        s.arch_pin_txid_ms as u128,
        us_per(s.arch_pin_txid_ms, s.arch_pin_txid),
        s.arch_recent_n as u128,
        s.arch_recent_ms as u128,
        s.arch_prep_head_fk_ms as u128,
        s.arch_prep_head_ms as u128,
        s.arch_prep_stamp_ms as u128,
        s.arch_prep_finish_ms as u128,
        quot(quot(s.arch_resolve_ns as u128, s.arch_resolve_blocks as u128), 1000),
        s.arch_ext_need as u128,
        s.arch_head_hit as u128,
        s.arch_head_need as u128,
        s.arch_batch_stamp as u128,
    ]
}

fn append_debug_plan(out: &mut String, s: &IbdPerfSample)
    ensures
        final(out)@ == old(out)@ + filled(DEBUG_PLAN_LINE@, debug_plan_nums(*s)),
{
    let nums: Vec<u128> = vec![
        s.arch_prep_assign_ms as u128,
        s.arch_prep_collect_ms as u128,
        s.arch_prep_inflight_ms as u128,
        s.arch_pin_txid as u128,
        s.arch_head_need as u128,
        s.arch_pin_txid_ms as u128,
        us_each(s.arch_pin_txid_ms, s.arch_pin_txid),
        s.arch_recent_n as u128,
        s.arch_recent_ms as u128,
        s.arch_prep_head_fk_ms as u128,
        s.arch_prep_head_ms as u128,
        s.arch_prep_stamp_ms as u128,
        s.arch_prep_finish_ms as u128,
        div(div(s.arch_resolve_ns as u128, s.arch_resolve_blocks as u128), 1000),
        s.arch_ext_need as u128,
        s.arch_head_hit as u128,
        s.arch_head_need as u128,
        s.arch_batch_stamp as u128,
    ];
    assert(nums@ =~= debug_plan_nums(*s));
    append_filled(out, DEBUG_PLAN_LINE, &nums);
}

/// Index probes.
pub const DEBUG_PROBE_LINE: &'static str =
    " head_rd(probe={} idx={} body={} keys={} cands={} lookups={} avg_cands={} avg_lookups={} hit_rank_avg=";

/// The numbers of [`DEBUG_PROBE_LINE`].
pub open spec fn debug_probe_nums(s: IbdPerfSample) -> Seq<u128> {
    seq![
        s.arch_prep_probe_ms as u128,
        s.arch_prep_idx_ms as u128,
        s.arch_prep_body_txid_ms as u128,
        s.arch_prep_head_keys as u128,
        s.arch_prep_head_cands as u128,
        s.arch_prep_body_lookups as u128,
        quot(s.arch_prep_head_cands as u128, s.arch_prep_head_keys as u128),
        quot(s.arch_prep_body_lookups as u128, s.arch_prep_head_keys as u128),
    ]
}

fn append_debug_probe(out: &mut String, s: &IbdPerfSample)
    ensures
        final(out)@ == old(out)@ + filled(DEBUG_PROBE_LINE@, debug_probe_nums(*s)),
{
    let nums: Vec<u128> = vec![
        s.arch_prep_probe_ms as u128,
        s.arch_prep_idx_ms as u128,
        s.arch_prep_body_txid_ms as u128,
        s.arch_prep_head_keys as u128,
        s.arch_prep_head_cands as u128,
        s.arch_prep_body_lookups as u128,
        div(s.arch_prep_head_cands as u128, s.arch_prep_head_keys as u128),
        div(s.arch_prep_body_lookups as u128, s.arch_prep_head_keys as u128),
    ];
    assert(nums@ =~= debug_probe_nums(*s));
    append_filled(out, DEBUG_PROBE_LINE, &nums);
}

/// Index hits.
pub const DEBUG_PROBE_HITS_LINE: &'static str =
    " hit_n={} miss_peeks={} pend={} probe_us/key={} idx_us/key={} body_us/key={} age_cdf(0={} 3={} 7={} 15={} 31={}) age_hit=";

/// The numbers of [`DEBUG_PROBE_HITS_LINE`].
pub open spec fn debug_probe_hits_nums(s: IbdPerfSample) -> Seq<u128> {
    seq![
        s.arch_prep_hit_rank_n as u128,
        s.arch_prep_miss_peeks as u128,
        s.arch_prep_pending_hits as u128,
        us_wide(s.arch_prep_probe_ms, s.arch_prep_head_keys),
        us_wide(s.arch_prep_idx_ms, s.arch_prep_head_keys),
        us_wide(s.arch_prep_body_txid_ms, s.arch_prep_head_keys),
        s.arch_prep_age_cdf0_pct as u128,
        s.arch_prep_age_cdf3_pct as u128,
        s.arch_prep_age_cdf7_pct as u128,
        s.arch_prep_age_cdf15_pct as u128,
        s.arch_prep_age_cdf31_pct as u128,
    ]
}

fn append_debug_probe_hits(out: &mut String, s: &IbdPerfSample)
    ensures
        final(out)@ == old(out)@ + filled(DEBUG_PROBE_HITS_LINE@, debug_probe_hits_nums(*s)),
{
    let nums: Vec<u128> = vec![
        s.arch_prep_hit_rank_n as u128,
        s.arch_prep_miss_peeks as u128,
        s.arch_prep_pending_hits as u128,
        us_exact(s.arch_prep_probe_ms, s.arch_prep_head_keys),
        us_exact(s.arch_prep_idx_ms, s.arch_prep_head_keys),
        us_exact(s.arch_prep_body_txid_ms, s.arch_prep_head_keys),
        s.arch_prep_age_cdf0_pct as u128,
        s.arch_prep_age_cdf3_pct as u128,
        s.arch_prep_age_cdf7_pct as u128,
        s.arch_prep_age_cdf15_pct as u128,
        s.arch_prep_age_cdf31_pct as u128,
    ];
    assert(nums@ =~= debug_probe_hits_nums(*s));
    append_filled(out, DEBUG_PROBE_HITS_LINE, &nums);
}

/// Index hits with an age.
pub const DEBUG_PROBE_AGE_LINE: &'static str =
    " age_n={})";

/// The numbers of [`DEBUG_PROBE_AGE_LINE`].
pub open spec fn debug_probe_age_nums(s: IbdPerfSample) -> Seq<u128> {
    seq![
        s.arch_prep_age_hit_n as u128,
    ]
}

fn append_debug_probe_age(out: &mut String, s: &IbdPerfSample)
    ensures
        final(out)@ == old(out)@ + filled(DEBUG_PROBE_AGE_LINE@, debug_probe_age_nums(*s)),
{
    let nums: Vec<u128> = vec![
        s.arch_prep_age_hit_n as u128,
    ];
    assert(nums@ =~= debug_probe_age_nums(*s));
    append_filled(out, DEBUG_PROBE_AGE_LINE, &nums);
}

/// The archive commit.
pub const DEBUG_COMMIT_LINE: &'static str =
    " | class_a_commit total={} body={} head={} htxs={} reserve={} spend={} flush={} blks={} ca_head_us/blk={} ca_body_us/blk={}";

/// The numbers of [`DEBUG_COMMIT_LINE`].
pub open spec fn debug_commit_nums(s: IbdPerfSample) -> Seq<u128> {
    seq![
        s.arch_write_total_ms as u128,
        s.arch_write_body_ms as u128,
        s.arch_write_head_ms as u128,
        s.arch_write_htxs_ms as u128,
        s.arch_write_reserve_ms as u128,
        s.arch_write_spend_ms as u128,
        s.arch_write_flush_ms as u128,
        s.arch_write_blocks as u128,
        us_wide(s.arch_write_head_ms, s.arch_write_blocks),
        us_wide(s.arch_write_body_ms, s.arch_write_blocks),
    ]
}

fn append_debug_commit(out: &mut String, s: &IbdPerfSample)
    ensures
        final(out)@ == old(out)@ + filled(DEBUG_COMMIT_LINE@, debug_commit_nums(*s)),
{
    let nums: Vec<u128> = vec![
        s.arch_write_total_ms as u128,
        s.arch_write_body_ms as u128,
        s.arch_write_head_ms as u128,
        s.arch_write_htxs_ms as u128,
        s.arch_write_reserve_ms as u128,
        s.arch_write_spend_ms as u128,
        s.arch_write_flush_ms as u128,
        s.arch_write_blocks as u128,
        us_exact(s.arch_write_head_ms, s.arch_write_blocks),
        us_exact(s.arch_write_body_ms, s.arch_write_blocks),
    ];
    assert(nums@ =~= debug_commit_nums(*s));
    append_filled(out, DEBUG_COMMIT_LINE, &nums);
}

/// The download loop.
pub const DEBUG_LOOP_LINE: &'static str =
    " | loop confirm_blks={} confirm_us/blk={} events={}";

/// The numbers of [`DEBUG_LOOP_LINE`].
pub open spec fn debug_loop_nums(s: IbdPerfSample) -> Seq<u128> {
    seq![
        s.confirm_blocks as u128,
        s.confirm_us_per_block as u128,
        s.drain_events as u128,
    ]
}

fn append_debug_loop(out: &mut String, s: &IbdPerfSample)
    ensures
        final(out)@ == old(out)@ + filled(DEBUG_LOOP_LINE@, debug_loop_nums(*s)),
{
    let nums: Vec<u128> = vec![
        s.confirm_blocks as u128,
        s.confirm_us_per_block as u128,
        s.drain_events as u128,
    ];
    assert(nums@ =~= debug_loop_nums(*s));
    append_filled(out, DEBUG_LOOP_LINE, &nums);
}

/// What the process holds.
pub const SIZES_LINE: &'static str =
    "ibd: sizes rss={}MiB anon={}MiB file={}MiB({}%) hwm={}MiB locked={}MiB | work ordered={}/set={} hash_h={} h2h={} hdr_fk={} known_hdr={} inflight={}/peer={} cooldown={} | body known={} pend={} miss={} rej={} | bq soft={}/{} RAM={}MiB | conf_plans={} | conf loadq={}/{} blks={} wire={}MiB scriptq={}/{} blks={} wire={}MiB writeq={}/{} blks={} wire={}MiB parents={} feed ready={} inflight={} | heap bq={}MiB iflight={}L/{}pin≈{}MiB recent={}h live={}k/pub={}k/ov={} fifo={}k≈{}MiB h2h={}k≈{}MiB fence={}≈{}MiB pstore weak={}/live={}≈{}MiB wire={}MiB fuse8={}MiB mphf_g={}MiB open_keys={}MiB class_c_l2={}MiB accounted≈{}MiB residual≈{}MiB | txhead bits={} entry={}B slots={} occ={} body={}MiB segs={} sealed={} class_a={} | sh runs={} heads={}";

/// The numbers of [`SIZES_LINE`].
pub open spec fn sizes_nums(s: IbdPerfSample) -> Seq<u128> {
    seq![
        mib_of_kb(s.rss_kb) as u128,
        mib_of_kb(s.rss_anon_kb) as u128,
        mib_of_kb(s.rss_file_kb) as u128,
        share_of(s.rss_file_kb, s.rss_kb),
        mib_of_kb(s.vm_hwm_kb) as u128,
        mib_of_kb(s.rss_locked_kb) as u128,
        s.work.ordered as u128,
        s.work.ordered_set as u128,
        s.work.hash_height as u128,
        s.work.height_to_hash as u128,
        s.work.header_fks as u128,
        s.work.known_headers as u128,
        s.work.inflight as u128,
        s.work.peer_inflight as u128,
        s.work.addr_cooldown as u128,
        s.work.body.known as u128,
        s.work.body.pending as u128,
        s.work.body.missing as u128,
        s.work.body.rejected as u128,
        s.bq_count as u128,
        s.bq_soft_stop as u128,
        bq_mib_of(s) as u128,
        s.owned.conf_plans as u128,
        s.conf_pipe.load_batches as u128,
        LOAD_QUEUE_CAP_DEFAULT as u128,
        s.conf_pipe.load_blocks as u128,
        mib_of_bytes(s.conf_pipe.load_wire_bytes as u64) as u128,
        s.conf_pipe.script_batches as u128,
        s.conf_script_q_cap as u128,
        s.conf_pipe.script_blocks as u128,
        mib_of_bytes(s.conf_pipe.script_wire_bytes as u64) as u128,
        s.conf_pipe.write_batches as u128,
        s.conf_write_q_cap as u128,
        s.conf_pipe.write_blocks as u128,
        mib_of_bytes(s.conf_pipe.write_wire_bytes as u64) as u128,
        sat_add_us(s.conf_pipe.script_parents, s.conf_pipe.write_parents) as u128,
        s.conf_pipe.feed_ready as u128,
        s.conf_pipe.feed_inflight as u128,
        bq_mib_of(s) as u128,
        s.owned.inflight_layers as u128,
        s.owned.inflight_pins as u128,
        mib_of_bytes(s.owned.inflight_bytes) as u128,
        s.owned.recent_heights as u128,
        s.owned.recent_keys as u128,
        s.owned.recent_pub_keys as u128,
        s.owned.recent_overlay_keys as u128,
        s.owned.recent_fifo_keys as u128,
        mib_of_bytes(s.owned.recent_pin_bytes) as u128,
        s.owned.h2h_keys as u128,
        h2h_mib_of(s) as u128,
        s.owned.fence_runs as u128,
        fence_mib_of(s) as u128,
        s.owned.pstore_weak as u128,
        s.owned.pstore_live as u128,
        mib_of_bytes(s.owned.pstore_bytes) as u128,
        conf_wire_of(s) as u128,
        mib_of_bytes(s.owned.head.fuse8_bytes) as u128,
        mib_of_bytes(s.owned.head.mphf_g_bytes) as u128,
        mib_of_bytes(s.owned.head.open_keys_bytes) as u128,
        mib_of_bytes(s.owned.head.class_c_l2_bytes) as u128,
        accounted_of(s) as u128,
        sat_sub(mib_of_kb(s.rss_anon_kb), accounted_of(s)) as u128,
        s.owned.head.primary_bits as u128,
        s.owned.head.primary_entry_b as u128,
        s.owned.head.primary_slots as u128,
        s.owned.head.primary_occupied as u128,
        mib_of_bytes(s.owned.head.primary_body_bytes) as u128,
        s.owned.head.segment_count as u128,
        s.owned.head.sealed_segments as u128,
        s.owned.head.class_a_n as u128,
        s.owned.sh_runs as u128,
        s.owned.sh_heads as u128,
    ]
}

fn append_sizes(out: &mut String, s: &IbdPerfSample)
    ensures
        final(out)@ == old(out)@ + filled(SIZES_LINE@, sizes_nums(*s)),
{
    let nums: Vec<u128> = vec![
        kb_mib(s.rss_kb) as u128,
        kb_mib(s.rss_anon_kb) as u128,
        kb_mib(s.rss_file_kb) as u128,
        percent(s.rss_file_kb, s.rss_kb),
        kb_mib(s.vm_hwm_kb) as u128,
        kb_mib(s.rss_locked_kb) as u128,
        s.work.ordered as u128,
        s.work.ordered_set as u128,
        s.work.hash_height as u128,
        s.work.height_to_hash as u128,
        s.work.header_fks as u128,
        s.work.known_headers as u128,
        s.work.inflight as u128,
        s.work.peer_inflight as u128,
        s.work.addr_cooldown as u128,
        s.work.body.known as u128,
        s.work.body.pending as u128,
        s.work.body.missing as u128,
        s.work.body.rejected as u128,
        s.bq_count as u128,
        s.bq_soft_stop as u128,
        bq_mib(s) as u128,
        s.owned.conf_plans as u128,
        s.conf_pipe.load_batches as u128,
        load_queue_cap() as u128,
        s.conf_pipe.load_blocks as u128,
        bytes_mib(s.conf_pipe.load_wire_bytes as u64) as u128,
        s.conf_pipe.script_batches as u128,
        s.conf_script_q_cap as u128,
        s.conf_pipe.script_blocks as u128,
        bytes_mib(s.conf_pipe.script_wire_bytes as u64) as u128,
        s.conf_pipe.write_batches as u128,
        s.conf_write_q_cap as u128,
        s.conf_pipe.write_blocks as u128,
        bytes_mib(s.conf_pipe.write_wire_bytes as u64) as u128,
        s.conf_pipe.parents_total() as u128,
        s.conf_pipe.feed_ready as u128,
        s.conf_pipe.feed_inflight as u128,
        bq_mib(s) as u128,
        s.owned.inflight_layers as u128,
        s.owned.inflight_pins as u128,
        bytes_mib(s.owned.inflight_bytes) as u128,
        s.owned.recent_heights as u128,
        s.owned.recent_keys as u128,
        s.owned.recent_pub_keys as u128,
        s.owned.recent_overlay_keys as u128,
        s.owned.recent_fifo_keys as u128,
        bytes_mib(s.owned.recent_pin_bytes) as u128,
        s.owned.h2h_keys as u128,
        h2h_mib(s) as u128,
        s.owned.fence_runs as u128,
        fence_mib(s) as u128,
        s.owned.pstore_weak as u128,
        s.owned.pstore_live as u128,
        bytes_mib(s.owned.pstore_bytes) as u128,
        conf_wire_mib(s) as u128,
        bytes_mib(s.owned.head.fuse8_bytes) as u128,
        bytes_mib(s.owned.head.mphf_g_bytes) as u128,
        bytes_mib(s.owned.head.open_keys_bytes) as u128,
        bytes_mib(s.owned.head.class_c_l2_bytes) as u128,
        accounted_mib(s) as u128,
        kb_mib(s.rss_anon_kb).saturating_sub(accounted_mib(s)) as u128,
        s.owned.head.primary_bits as u128,
        s.owned.head.primary_entry_b as u128,
        s.owned.head.primary_slots as u128,
        s.owned.head.primary_occupied as u128,
        bytes_mib(s.owned.head.primary_body_bytes) as u128,
        s.owned.head.segment_count as u128,
        s.owned.head.sealed_segments as u128,
        s.owned.head.class_a_n as u128,
        s.owned.sh_runs as u128,
        s.owned.sh_heads as u128,
    ];
    assert(nums@ =~= sizes_nums(*s));
    append_filled(out, SIZES_LINE, &nums);
}

/// How the three queues are shown.
pub open spec fn queues_text(s: IbdPerfSample) -> Seq<char> {
    conf_q_text(
        s.conf_pipe.load_batches,
        s.conf_script_q,
        s.conf_write_q,
        LOAD_QUEUE_CAP_DEFAULT,
        s.conf_script_q_cap,
        s.conf_write_q_cap,
    )
}

fn append_queues(out: &mut String, s: &IbdPerfSample)
    ensures
        final(out)@ == old(out)@ + queues_text(*s),
{
    let q = format_conf_q(
        s.conf_pipe.load_batches,
        s.conf_script_q,
        s.conf_write_q,
        load_queue_cap(),
        s.conf_script_q_cap,
        s.conf_write_q_cap,
    );
    out.append(q.as_str());
}

/// Is the stamp step shown?
pub open spec fn stamp_shown(s: IbdPerfSample) -> bool {
    s.stamp_struct_ms > 0 || s.stamp_prepare_ms > 0 || s.stamp_batch_ms > 0
        || s.thr_lookup_stamp_ms > 0
}

/// The start of the meter line, with the whole write stage.
pub open spec fn info_stages_text(s: IbdPerfSample) -> Seq<char> {
    INFO_TAG@ + filled(INFO_HEAD_LINE@, info_head_nums(s)) + filled(
        INFO_CONF_LINE@,
        info_conf_nums(s),
    ) + ms_text(" write="@, write_of(s)) + filled(INFO_THREADS_LINE@, info_threads_nums(s))
}

fn append_info_stages_part(out: &mut String, s: &IbdPerfSample)
    requires
        old(out)@.len() == 0,
    ensures
        final(out)@ == info_stages_text(*s),
{
    out.append(INFO_TAG);
    assert(out@ =~= INFO_TAG@);
    append_info_head(out, s);
    append_info_conf(out, s);
    append_ms(out, " write=", write_stage_ms(s));
    append_info_threads(out, s);
}

/// The first part of the meter line: stages, and what led to the load stage.
pub open spec fn info_lookup_text(s: IbdPerfSample) -> Seq<char> {
    info_stages_text(s) + shown_if(stamp_shown(s), filled(INFO_STAMP_LINE@, info_stamp_nums(s))) + shown_if(
        s.arch_prep_age_hit_n > 0,
        filled(INFO_HEAD_AGE_LINE@, info_head_age_nums(s)),
    ) + shown_if(
        s.plan_blks > 0 || s.plan_ms > 0,
        filled(INFO_LOOKUP_LINE@, info_lookup_nums(s)),
    ) + nz_text("recon_ms"@, s.recon_ms as u128) + nz_text("wire_ms"@, s.wire_ms as u128)
        + nz_text("resolve_ms"@, s.resolve_ms as u128)
}

fn append_info_lookup_part(out: &mut String, s: &IbdPerfSample)
    requires
        old(out)@.len() == 0,
    ensures
        final(out)@ == info_lookup_text(*s),
{
    append_info_stages_part(out, s);
    let ghost a = out@;
    if s.stamp_struct_ms > 0 || s.stamp_prepare_ms > 0 || s.stamp_batch_ms > 0
        || s.thr_lookup_stamp_ms > 0 {
        append_info_stamp(out, s);
    } else {
        assert(a + Seq::<char>::empty() =~= a);
    }
    let ghost b = out@;
    if s.arch_prep_age_hit_n > 0 {
        append_info_head_age(out, s);
    } else {
        assert(b + Seq::<char>::empty() =~= b);
    }
    let ghost c = out@;
    if s.plan_blks > 0 || s.plan_ms > 0 {
        append_info_lookup(out, s);
    } else {
        assert(c + Seq::<char>::empty() =~= c);
    }
    append_nz(out, "recon_ms", s.recon_ms as u128);
    append_nz(out, "wire_ms", s.wire_ms as u128);
    append_nz(out, "resolve_ms", s.resolve_ms as u128);
}

/// The part of the meter line on the load stage.
pub open spec fn info_load_text(s: IbdPerfSample) -> Seq<char> {
    filled(INFO_BUDGET_LINE@, info_budget_nums(s)) + filled(INFO_LOAD_LINE@, info_load_nums(s))
        + shown_if(s.load_win_ms > 0, filled(INFO_PIN_WIN_LINE@, info_pin_win_nums(s))) + shown_if(
        s.load_edge_same > 0 || s.load_edge_fk > 0 || s.load_edge_cb > 0,
        filled(EDGES_LINE@, edges_nums(s)),
    ) + shown_if(
        s.load_missing_parents > 0,
        filled(INFO_MISSING_LINE@, info_missing_nums(s)),
    )
}

fn append_info_load_part(out: &mut String, s: &IbdPerfSample)
    requires
        old(out)@.len() == 0,
    ensures
        final(out)@ == info_load_text(*s),
{
    append_info_budget(out, s);
    assert(out@ =~= filled(INFO_BUDGET_LINE@, info_budget_nums(*s)));
    append_info_load(out, s);
    let ghost a = out@;
    if s.load_win_ms > 0 {
        append_info_pin_win(out, s);
    } else {
        assert(a + Seq::<char>::empty() =~= a);
    }
    let ghost b = out@;
    if s.load_edge_same > 0 || s.load_edge_fk > 0 || s.load_edge_cb > 0 {
        append_edges(out, s);
    } else {
        assert(b + Seq::<char>::empty() =~= b);
    }
    let ghost c = out@;
    if s.load_missing_parents > 0 {
        append_info_missing(out, s);
    } else {
        assert(c + Seq::<char>::empty() =~= c);
    }
}

/// Work of the write thread that is no part of the write stage.
pub open spec fn write_other_of(s: IbdPerfSample) -> u64 {
    sat_sub(s.thr_write_work_ms, write_of(s))
}

/// The part of the meter line on the write stage and the queues.
pub open spec fn info_write_text(s: IbdPerfSample) -> Seq<char> {
    filled(INFO_WRITE_LINE@, info_write_nums(s)) + ms_text(" other="@, write_other_of(s)) + filled(
        INFO_ANN_LINE@,
        info_ann_nums(s),
    ) + shown_if(
        s.arch_write_body_ms > 0 || s.arch_write_head_ms > 0 || s.arch_write_htxs_ms > 0,
        filled(INFO_CLASS_A_LINE@, info_class_a_nums(s)),
    ) + nz_text("strong_ms"@, s.strong_ms as u128) + shown_if(
        s.spend_idx > 0 || s.spend_skip > 0,
        filled(INFO_SPEND_MIX_LINE@, info_spend_mix_nums(s)),
    ) + " | "@ + queues_text(s) + filled(INFO_THROUGH_LINE@, info_through_nums(s))
}

fn append_info_write_part(out: &mut String, s: &IbdPerfSample)
    requires
        old(out)@.len() == 0,
    ensures
        final(out)@ == info_write_text(*s),
{
    append_info_write(out, s);
    assert(out@ =~= filled(INFO_WRITE_LINE@, info_write_nums(*s)));
    append_ms(out, " other=", s.thr_write_work_ms.saturating_sub(write_stage_ms(s)));
    append_info_ann(out, s);
    let ghost a = out@;
    if s.arch_write_body_ms > 0 || s.arch_write_head_ms > 0 || s.arch_write_htxs_ms > 0 {
        append_info_class_a(out, s);
    } else {
        assert(a + Seq::<char>::empty() =~= a);
    }
    append_nz(out, "strong_ms", s.strong_ms as u128);
    let ghost b = out@;
    if s.spend_idx > 0 || s.spend_skip > 0 {
        append_info_spend_mix(out, s);
    } else {
        assert(b + Seq::<char>::empty() =~= b);
    }
    out.append(" | ");
    append_queues(out, s);
    append_info_through(out, s);
}

/// How a batch under way is shown.
pub const LIVE_LINE: &'static str = " | live h={} n={} in={} {}ms";

/// How the batch under way is shown, where there is one.
pub open spec fn live_text(live: Option<(u32, u32, u32, u64)>) -> Seq<char> {
    match live {
        Some((first, n, inputs, elapsed_ms)) => filled(
            LIVE_LINE@,
            seq![first as u128, n as u128, inputs as u128, elapsed_ms as u128],
        ),
        None => Seq::empty(),
    }
}

fn append_live(out: &mut String, live: Option<(u32, u32, u32, u64)>)
    ensures
        final(out)@ == old(out)@ + live_text(live),
{
    let ghost start = out@;
    if let Some((first, n, inputs, elapsed_ms)) = live {
        let nums: Vec<u128> = vec![first as u128, n as u128, inputs as u128, elapsed_ms as u128];
        assert(nums@ =~= seq![first as u128, n as u128, inputs as u128, elapsed_ms as u128]);
        append_filled(out, LIVE_LINE, &nums);
    } else {
        assert(start + Seq::<char>::empty() =~= start);
    }
}

/// The part of the meter line on the download loop.
pub open spec fn info_loop_text(s: IbdPerfSample) -> Seq<char> {
    " | loop "@ + s.dominant@ + filled(INFO_LOOP_LINE@, info_loop_nums(s)) + nz_text(
        "getdata"@,
        s.assign_issued as u128,
    ) + nz_text("drain_ms"@, s.drain_ms as u128) + shown_if(
        s.confirm_reject_stops > 0,
        filled(INFO_REJECT_LINE@, info_reject_nums(s)),
    ) + live_text(s.live) + shown_if(s.headers_done, " headers_done"@)
}

fn append_info_loop_part(out: &mut String, s: &IbdPerfSample)
    requires
        old(out)@.len() == 0,
    ensures
        final(out)@ == info_loop_text(*s),
{
    out.append(" | loop ");
    assert(out@ =~= " | loop "@);
    out.append(s.dominant);
    append_info_loop(out, s);
    append_nz(out, "getdata", s.assign_issued as u128);
    append_nz(out, "drain_ms", s.drain_ms as u128);
    let ghost a = out@;
    if s.confirm_reject_stops > 0 {
        append_info_reject(out, s);
    } else {
        assert(a + Seq::<char>::empty() =~= a);
    }
    append_live(out, s.live);
    let ghost b = out@;
    if s.headers_done {
        out.append(" headers_done");
    } else {
        assert(b + Seq::<char>::empty() =~= b);
    }
}

/// The meter line of a window.
pub open spec fn info_text(s: IbdPerfSample) -> Seq<char> {
    info_lookup_text(s) + info_load_text(s) + info_write_text(s) + info_loop_text(s)
}

/// The meter line of a window.
pub fn format_info(s: &IbdPerfSample) -> (r: String)
    ensures
        r@ == info_text(*s),
{
    let mut out: String = String::new();
    append_info_lookup_part(&mut out, s);
    let mut load: String = String::new();
    append_info_load_part(&mut load, s);
    out.append(load.as_str());
    let mut write: String = String::new();
    append_info_write_part(&mut write, s);
    out.append(write.as_str());
    let mut tail: String = String::new();
    append_info_loop_part(&mut tail, s);
    out.append(tail.as_str());
    out
}

/// The first part of the detail line: microseconds per block, and the indexes.
pub open spec fn debug_head_text(s: IbdPerfSample) -> Seq<char> {
    filled(DEBUG_HEAD_LINE@, debug_head_nums(s)) + nz_text("recon_us"@, us_per_block(s, s.recon_ns))
        + nz_text("wire_us"@, us_per_block(s, s.wire_ns)) + nz_text(
        "resolve_us"@,
        us_per_block(s, s.resolve_ns),
    ) + nz_text("strong_us"@, us_per_block(s, s.strong_ns)) + nz_text(
        "tip_us"@,
        us_per_block(s, s.tip_ns),
    ) + shown_if(
        s.wf_body_store > 0 || s.wf_store_body_ms > 0,
        filled(DEBUG_WIRE_LINE@, debug_wire_nums(s)),
    ) + filled(DEBUG_SH_LINE@, debug_sh_nums(s)) + nz_text("sort"@, s.sh_sort_ms as u128) + nz_text(
        "seed"@,
        s.sh_seed_ms as u128,
    ) + nz_text("body"@, s.sh_body_ms as u128) + nz_text("head"@, s.sh_head_ms as u128) + shown_if(
        s.sh_collect_pin > 0 || s.sh_collect_cold > 0,
        filled(DEBUG_SH_SRC_LINE@, debug_sh_src_nums(s)),
    )
}

fn append_debug_head_part(out: &mut String, s: &IbdPerfSample)
    requires
        old(out)@.len() == 0,
    ensures
        final(out)@ == debug_head_text(*s),
{
    append_debug_head(out, s);
    assert(out@ =~= filled(DEBUG_HEAD_LINE@, debug_head_nums(*s)));
    append_nz(out, "recon_us", us_block(s, s.recon_ns));
    append_nz(out, "wire_us", us_block(s, s.wire_ns));
    append_nz(out, "resolve_us", us_block(s, s.resolve_ns));
    append_nz(out, "strong_us", us_block(s, s.strong_ns));
    append_nz(out, "tip_us", us_block(s, s.tip_ns));
    let ghost a = out@;
    if s.wf_body_store > 0 || s.wf_store_body_ms > 0 {
        append_debug_wire(out, s);
    } else {
        assert(a + Seq::<char>::empty() =~= a);
    }
    append_debug_sh(out, s);
    append_nz(out, "sort", s.sh_sort_ms as u128);
    append_nz(out, "seed", s.sh_seed_ms as u128);
    append_nz(out, "body", s.sh_body_ms as u128);
    append_nz(out, "head", s.sh_head_ms as u128);
    let ghost b = out@;
    if s.sh_collect_pin > 0 || s.sh_collect_cold > 0 {
        append_debug_sh_src(out, s);
    } else {
        assert(b + Seq::<char>::empty() =~= b);
    }
}

/// The part of the detail line on the queues and the load stage.
pub open spec fn debug_load_text(s: IbdPerfSample) -> Seq<char> {
    filled(DEBUG_QUEUE_LINE@, debug_queue_nums(s)) + queues_text(s) + filled(
        DEBUG_LOAD_LINE@,
        debug_load_nums(s),
    ) + nz_text("miss_p"@, s.load_missing_parents as u128) + filled(
        DEBUG_PHASES_LINE@,
        debug_phases_nums(s),
    ) + filled(EDGES_LINE@, edges_nums(s)) + filled(DEBUG_SH_RUNS_LINE@, debug_sh_runs_nums(s))
}

fn append_debug_load_part(out: &mut String, s: &IbdPerfSample)
    requires
        old(out)@.len() == 0,
    ensures
        final(out)@ == debug_load_text(*s),
{
    append_debug_queue(out, s);
    assert(out@ =~= filled(DEBUG_QUEUE_LINE@, debug_queue_nums(*s)));
    append_queues(out, s);
    append_debug_load(out, s);
    append_nz(out, "miss_p", s.load_missing_parents as u128);
    append_debug_phases(out, s);
    append_edges(out, s);
    append_debug_sh_runs(out, s);
}

/// Hundredths with two decimals.
pub open spec fn hundredths_text(n: u64) -> Seq<char> {
    dec((n / 100) as nat) + "."@ + dec((n / 10 % 10) as nat) + dec((n % 10) as nat)
}

fn append_hundredths(out: &mut String, n: u64)
    ensures
        final(out)@ == old(out)@ + hundredths_text(n),
{
    let ghost start = out@;
    append_dec(out, (n / 100) as u128);
    out.append(".");
    append_dec(out, (n / 10 % 10) as u128);
    append_dec(out, (n % 10) as u128);
    assert(out@ =~= start + hundredths_text(n));
}

/// Hits per age as text; zeros where there is none.
pub open spec fn age_text(s: IbdPerfSample) -> Seq<char> {
    if s.arch_prep_age_hit_compact@.len() == 0 {
        "0:0:0:0:0:0:0:0:0"@
    } else {
        s.arch_prep_age_hit_compact@
    }
}

/// Are index probes shown?
pub open spec fn probe_shown(s: IbdPerfSample) -> bool {
    s.arch_prep_probe_ms > 0 || s.arch_prep_idx_ms > 0 || s.arch_prep_body_txid_ms > 0
        || s.arch_prep_head_keys > 0
}

/// How index probes are shown.
pub open spec fn probe_text(s: IbdPerfSample) -> Seq<char> {
    filled(DEBUG_PROBE_LINE@, debug_probe_nums(s)) + hundredths_text(s.arch_prep_hit_rank_avg_x100)
        + filled(DEBUG_PROBE_HITS_LINE@, debug_probe_hits_nums(s)) + age_text(s) + filled(
        DEBUG_PROBE_AGE_LINE@,
        debug_probe_age_nums(s),
    )
}

fn append_probe(out: &mut String, s: &IbdPerfSample)
    requires
        old(out)@.len() == 0,
    ensures
        final(out)@ == probe_text(*s),
{
    append_debug_probe(out, s);
    assert(out@ =~= filled(DEBUG_PROBE_LINE@, debug_probe_nums(*s)));
    append_hundredths(out, s.arch_prep_hit_rank_avg_x100);
    append_debug_probe_hits(out, s);
    if s.arch_prep_age_hit_compact.as_str().unicode_len() == 0 {
        out.append("0:0:0:0:0:0:0:0:0");
    } else {
        out.append(s.arch_prep_age_hit_compact.as_str());
    }
    append_debug_probe_age(out, s);
}

/// The part of the detail line on planning and the archive.
pub open spec fn debug_plan_text(s: IbdPerfSample) -> Seq<char> {
    shown_if(
        s.arch_ext_need > 0 || s.arch_prep_assign_ms > 0,
        filled(DEBUG_PLAN_LINE@, debug_plan_nums(s)) + shown_if(probe_shown(s), probe_text(s)),
    ) + shown_if(
        s.arch_write_blocks > 0 || s.arch_write_total_ms > 0,
        filled(DEBUG_COMMIT_LINE@, debug_commit_nums(s)),
    ) + filled(DEBUG_LOOP_LINE@, debug_loop_nums(s)) + nz_text(
        "reject_stops"@,
        s.confirm_reject_stops as u128,
    ) + nz_text("status_scan_ms"@, s.status_scan_ms as u128)
}

fn append_debug_plan_part(out: &mut String, s: &IbdPerfSample)
    requires
        old(out)@.len() == 0,
    ensures
        final(out)@ == debug_plan_text(*s),
{
    if s.arch_ext_need > 0 || s.arch_prep_assign_ms > 0 {
        append_debug_plan(out, s);
        assert(out@ =~= filled(DEBUG_PLAN_LINE@, debug_plan_nums(*s)));
        if s.arch_prep_probe_ms > 0 || s.arch_prep_idx_ms > 0 || s.arch_prep_body_txid_ms > 0
            || s.arch_prep_head_keys > 0 {
            let mut probe: String = String::new();
            append_probe(&mut probe, s);
            out.append(probe.as_str());
        } else {
            assert(out@ + Seq::<char>::empty() =~= out@);
        }
    } else {
        assert(out@ =~= Seq::<char>::empty());
    }
    let ghost a = out@;
    if s.arch_write_blocks > 0 || s.arch_write_total_ms > 0 {
        append_debug_commit(out, s);
    } else {
        assert(a + Seq::<char>::empty() =~= a);
    }
    append_debug_loop(out, s);
    append_nz(out, "reject_stops", s.confirm_reject_stops as u128);
    append_nz(out, "status_scan_ms", s.status_scan_ms as u128);
}

/// The detail line of a window.
pub open spec fn debug_text(s: IbdPerfSample) -> Seq<char> {
    debug_head_text(s) + debug_load_text(s) + debug_plan_text(s)
}

/// The detail line of a window: microseconds per block, pins and edges, the archive
/// commit.
pub fn format_debug(s: &IbdPerfSample) -> (r: String)
    ensures
        r@ == debug_text(*s),
{
    let mut out: String = String::new();
    append_debug_head_part(&mut out, s);
    let mut load: String = String::new();
    append_debug_load_part(&mut load, s);
    out.append(load.as_str());
    let mut plan: String = String::new();
    append_debug_plan_part(&mut plan, s);
    out.append(plan.as_str());
    out
}

/// What the process holds, as one line: memory, then every structure that keeps
/// something, and what of the heap is left unexplained.
pub fn format_sizes(s: &IbdPerfSample) -> (r: String)
    ensures
        r@ == filled(SIZES_LINE@, sizes_nums(*s)),
{
    let mut out: String = String::new();
    append_sizes(&mut out, s);
    assert(out@ =~= filled(SIZES_LINE@, sizes_nums(*s)));
    out
}

/// Milliseconds per confirmed block.
pub open spec fn ms_per_block(s: IbdPerfSample, ms: u64) -> u64 {
    ms / max64(s.phase_blks, 1)
}

/// Is a confirm phase slow enough to warn of?
pub open spec fn phase_slow(s: IbdPerfSample) -> bool {
    s.phase_blks > 0 && (ms_per_block(s, s.write.class_c_ms) >= 1000 || ms_per_block(
        s,
        s.write.sh_ms,
    ) >= 1000 || ms_per_block(s, load_wall_of(s)) >= 5000 || ms_per_block(s, write_of(s)) >= 5000)
}

/// How a slow confirm phase is warned of.
pub const SLOW_LINE: &'static str =
    "ibd: slow confirm phase ms/blk load={} script={} write={} class_a={} class_c={} sh={} (sh_collect={}ms window) store_body={}ms blks={}";

/// The numbers of [`SLOW_LINE`].
pub open spec fn slow_nums(s: IbdPerfSample) -> Seq<u128> {
    seq![
        ms_per_block(s, load_wall_of(s)) as u128,
        ms_per_block(s, s.script_ms) as u128,
        ms_per_block(s, write_of(s)) as u128,
        ms_per_block(s, s.write.class_a_ms) as u128,
        ms_per_block(s, s.write.class_c_ms) as u128,
        ms_per_block(s, s.write.sh_ms) as u128,
        s.sh_collect_ms as u128,
        s.wf_store_body_ms as u128,
        s.phase_blks as u128,
    ]
}

/// The warning of a slow confirm phase, where there is one.
pub fn slow_phase_warning(s: &IbdPerfSample) -> (r: Option<String>)
    ensures
        match r {
            Some(t) => phase_slow(*s) && t@ == filled(SLOW_LINE@, slow_nums(*s)),
            None => !phase_slow(*s),
        },
{
    if s.phase_blks == 0 {
        return None;
    }
    let n: u64 = larger64(s.phase_blks, 1);
    let load: u64 = load_stage_wall_ms(s) / n;
    let write: u64 = write_stage_ms(s) / n;
    let class_c: u64 = s.write.class_c_ms / n;
    let sh: u64 = s.write.sh_ms / n;
    if class_c < 1000 && sh < 1000 && load < 5000 && write < 5000 {
        return None;
    }
    let nums: Vec<u128> = vec![
        load as u128,
        (s.script_ms / n) as u128,
        write as u128,
        (s.write.class_a_ms / n) as u128,
        class_c as u128,
        sh as u128,
        s.sh_collect_ms as u128,
        s.wf_store_body_ms as u128,
        s.phase_blks as u128,
    ];
    assert(nums@ =~= slow_nums(*s));
    Some(fill_text(SLOW_LINE, &nums))
}

/// The write thread's time splits into the exclusive parts of the write stage and
/// the rest that is shown as other, as long as the parts do not exceed it.
pub proof fn law_write_parts_and_other_make_up_the_thread(s: IbdPerfSample)
    requires
        write_of(s) <= s.thr_write_work_ms,
    ensures
        write_of(s) + write_other_of(s) == s.thr_write_work_ms,
{
}

/// A text that is there stays there when more stands before or behind it.
broadcast proof fn lemma_text_stays(a: Seq<char>, b: Seq<char>, m: Seq<char>)
    ensures
        #![trigger has_text(a + b, m)]
        has_text(a, m) ==> has_text(a + b, m),
        has_text(b, m) ==> has_text(a + b, m),
{
    if has_text(a, m) {
        let i = choose|i: int| #[trigger] text_at(a, m, i);
        assert((a + b).subrange(i, (i + m.len()) as int) =~= a.subrange(i, (i + m.len()) as int));
        assert(text_at(a + b, m, i));
    }
    if has_text(b, m) {
        let i = choose|i: int| #[trigger] text_at(b, m, i);
        let j = a.len() + i;
        assert((a + b).subrange(j, (j + m.len()) as int) =~= b.subrange(i, (i + m.len()) as int));
        assert(text_at(a + b, m, j));
    }
}

/// A text stays at the start when more is appended.
broadcast proof fn lemma_start_stays(a: Seq<char>, b: Seq<char>, m: Seq<char>)
    requires
        text_at(a, m, 0),
    ensures
        #[trigger] text_at(a + b, m, 0),
{
    assert((a + b).subrange(0, m.len() as int) =~= a.subrange(0, m.len() as int));
}

proof fn lemma_text_is_in_itself(m: Seq<char>)
    ensures
        has_text(m, m),
        text_at(m, m, 0),
{
    assert(m.subrange(0, m.len() as int) =~= m);
    assert(text_at(m, m, 0));
}

proof fn lemma_stages_show_the_write(s: IbdPerfSample)
    ensures
        has_text(info_lookup_text(s), ms_text(" write="@, write_of(s))),
{
    broadcast use lemma_text_stays;

    let write = ms_text(" write="@, write_of(s));
    lemma_text_is_in_itself(write);
    assert(has_text(info_stages_text(s), write));
}

proof fn lemma_stages_start_with_the_tag(s: IbdPerfSample)
    ensures
        text_at(info_lookup_text(s), INFO_TAG@, 0),
{
    broadcast use lemma_start_stays;

    lemma_text_is_in_itself(INFO_TAG@);
    assert(text_at(info_stages_text(s), INFO_TAG@, 0));
}

proof fn lemma_write_part_shows_the_other(s: IbdPerfSample)
    ensures
        has_text(info_write_text(s), ms_text(" other="@, write_other_of(s))),
{
    broadcast use lemma_text_stays;

    lemma_text_is_in_itself(ms_text(" other="@, write_other_of(s)));
}

proof fn lemma_parts_are_shown(
    a: Seq<char>,
    b: Seq<char>,
    c: Seq<char>,
    d: Seq<char>,
    tag: Seq<char>,
    first: Seq<char>,
    third: Seq<char>,
)
    requires
        text_at(a, tag, 0),
        has_text(a, first),
        has_text(c, third),
    ensures
        text_at(a + b + c + d, tag, 0),
        has_text(a + b + c + d, first),
        has_text(a + b + c + d, third),
{
    lemma_start_stays(a, b, tag);
    lemma_start_stays(a + b, c, tag);
    lemma_start_stays(a + b + c, d, tag);
    lemma_text_stays(a, b, first);
    lemma_text_stays(a + b, c, first);
    lemma_text_stays(a + b + c, d, first);
    lemma_text_stays(a + b, c, third);
    lemma_text_stays(a + b + c, d, third);
}

/// Every meter line starts with its tag, shows the whole write stage as its write
/// token, and shows the rest of the write thread's work as its other token.
pub proof fn law_meter_line_shows_the_write_stage(s: IbdPerfSample)
    ensures
        text_at(info_text(s), "ibd: perf "@, 0),
        has_text(info_text(s), " write="@ + dec(write_of(s) as nat) + "ms "@),
        has_text(
            info_text(s),
            " other="@ + dec(sat_sub(s.thr_write_work_ms, write_of(s)) as nat) + "ms "@,
        ),
{
    lemma_stages_start_with_the_tag(s);
    lemma_stages_show_the_write(s);
    lemma_write_part_shows_the_other(s);
    lemma_parts_are_shown(
        info_lookup_text(s),
        info_load_text(s),
        info_write_text(s),
        info_loop_text(s),
        INFO_TAG@,
        ms_text(" write="@, write_of(s)),
        ms_text(" other="@, write_other_of(s)),
    );
}

/// What is accounted for and the residual make up the anonymous memory, as long as
/// the first does not exceed it.
pub proof fn law_accounted_and_residual_make_up_the_heap(s: IbdPerfSample)
    requires
        accounted_of(s) <= mib_of_kb(s.rss_anon_kb),
    ensures
        accounted_of(s) + sat_sub(mib_of_kb(s.rss_anon_kb), accounted_of(s)) == mib_of_kb(
            s.rss_anon_kb,
        ),
{
}

} // verus!

//! How busy the confirm threads are, waiting included.
//!
//! Work sums alone rank the stages wrongly while a queue is empty; these timers
//! show who is busy and who waits.
use vstd::prelude::*;
use crate::time::{wrap_add, Duration};

verus! {

/// Nanoseconds per thread and occupation since the last sample.
#[derive(Clone, Copy, Debug, PartialEq, Eq, Structural)]
pub struct ConfirmThrStats {
    pub lookup_claim_ns: u64,
    pub lookup_stamp_ns: u64,
    pub lookup_other_ns: u64,
    pub lookup_send_wait_ns: u64,
    pub load_recv_wait_ns: u64,
    pub load_pack_ns: u64,
    pub load_clone_ns: u64,
    pub load_stamp_ns: u64,
    pub load_pin_ns: u64,
    pub load_asm_ns: u64,
    pub load_prune_ns: u64,
    pub load_send_wait_ns: u64,
    pub script_recv_wait_ns: u64,
    pub script_work_ns: u64,
    pub script_send_wait_ns: u64,
    pub write_recv_wait_ns: u64,
    pub write_work_ns: u64,
}

impl ConfirmThrStats {
    /// Nothing measured.
    pub open spec fn blank() -> ConfirmThrStats {
        ConfirmThrStats {
            lookup_claim_ns: 0,
            lookup_stamp_ns: 0,
            lookup_other_ns: 0,
            lookup_send_wait_ns: 0,
            load_recv_wait_ns: 0,
            load_pack_ns: 0,
            load_clone_ns: 0,
            load_stamp_ns: 0,
            load_pin_ns: 0,
            load_asm_ns: 0,
            load_prune_ns: 0,
            load_send_wait_ns: 0,
            script_recv_wait_ns: 0,
            script_work_ns: 0,
            script_send_wait_ns: 0,
            write_recv_wait_ns: 0,
            write_work_ns: 0,
        }
    }

    /// Nothing measured yet.
    pub fn new() -> (s: Self)
        ensures
            s == ConfirmThrStats::blank(),
    {
        ConfirmThrStats {
            lookup_claim_ns: 0,
            lookup_stamp_ns: 0,
            lookup_other_ns: 0,
            lookup_send_wait_ns: 0,
            load_recv_wait_ns: 0,
            load_pack_ns: 0,
            load_clone_ns: 0,
            load_stamp_ns: 0,
            load_pin_ns: 0,
            load_asm_ns: 0,
            load_prune_ns: 0,
            load_send_wait_ns: 0,
            script_recv_wait_ns: 0,
            script_work_ns: 0,
            script_send_wait_ns: 0,
            write_recv_wait_ns: 0,
            write_work_ns: 0,
        }
    }
}

/// Add a span to a timer, which counts round. No span changes nothing.
pub fn add(timer: &mut u64, d: Duration)
    ensures
        *final(timer) == wrap_add(*old(timer), d.ns),
{
    if d.ns > 0 {
        *timer = timer.wrapping_add(d.ns);
    }
}

/// The lookup thread spent `d` claiming work.
pub fn add_lookup_claim(stats: &mut ConfirmThrStats, d: Duration)
    ensures
        *final(stats) == (ConfirmThrStats {
            lookup_claim_ns: wrap_add(old(stats).lookup_claim_ns, d.ns),
            ..*old(stats)
        }),
{
    self::add(&mut stats.lookup_claim_ns, d);
}

/// The lookup thread spent `d` resolving waves.
pub fn add_lookup_stamp(stats: &mut ConfirmThrStats, d: Duration)
    ensures
        *final(stats) == (ConfirmThrStats {
            lookup_stamp_ns: wrap_add(old(stats).lookup_stamp_ns, d.ns),
            ..*old(stats)
        }),
{
    self::add(&mut stats.lookup_stamp_ns, d);
}

/// The lookup thread spent `d` anything else.
pub fn add_lookup_other(stats: &mut ConfirmThrStats, d: Duration)
    ensures
        *final(stats) == (ConfirmThrStats {
            lookup_other_ns: wrap_add(old(stats).lookup_other_ns, d.ns),
            ..*old(stats)
        }),
{
    self::add(&mut stats.lookup_other_ns, d);
}

/// The lookup thread spent `d` waiting for room in the load queue.
pub fn add_lookup_send_wait(stats: &mut ConfirmThrStats, d: Duration)
    ensures
        *final(stats) == (ConfirmThrStats {
            lookup_send_wait_ns: wrap_add(old(stats).lookup_send_wait_ns, d.ns),
            ..*old(stats)
        }),
{
    self::add(&mut stats.lookup_send_wait_ns, d);
}

/// The load thread spent `d` waiting for a batch.
pub fn add_load_recv_wait(stats: &mut ConfirmThrStats, d: Duration)
    ensures
        *final(stats) == (ConfirmThrStats {
            load_recv_wait_ns: wrap_add(old(stats).load_recv_wait_ns, d.ns),
            ..*old(stats)
        }),
{
    self::add(&mut stats.load_recv_wait_ns, d);
}

/// The load thread spent `d` taking a batch in.
pub fn add_load_pack(stats: &mut ConfirmThrStats, d: Duration)
    ensures
        *final(stats) == (ConfirmThrStats {
            load_pack_ns: wrap_add(old(stats).load_pack_ns, d.ns),
            ..*old(stats)
        }),
{
    self::add(&mut stats.load_pack_ns, d);
}

/// The load thread spent `d` preparing stamp inputs.
pub fn add_load_clone(stats: &mut ConfirmThrStats, d: Duration)
    ensures
        *final(stats) == (ConfirmThrStats {
            load_clone_ns: wrap_add(old(stats).load_clone_ns, d.ns),
            ..*old(stats)
        }),
{
    self::add(&mut stats.load_clone_ns, d);
}

/// The load thread spent `d` stamping.
pub fn add_load_stamp(stats: &mut ConfirmThrStats, d: Duration)
    ensures
        *final(stats) == (ConfirmThrStats {
            load_stamp_ns: wrap_add(old(stats).load_stamp_ns, d.ns),
            ..*old(stats)
        }),
{
    self::add(&mut stats.load_stamp_ns, d);
}

/// The load thread spent `d` pinning parents.
pub fn add_load_pin(stats: &mut ConfirmThrStats, d: Duration)
    ensures
        *final(stats) == (ConfirmThrStats {
            load_pin_ns: wrap_add(old(stats).load_pin_ns, d.ns),
            ..*old(stats)
        }),
{
    self::add(&mut stats.load_pin_ns, d);
}

/// The load thread spent `d` assembling.
pub fn add_load_asm(stats: &mut ConfirmThrStats, d: Duration)
    ensures
        *final(stats) == (ConfirmThrStats {
            load_asm_ns: wrap_add(old(stats).load_asm_ns, d.ns),
            ..*old(stats)
        }),
{
    self::add(&mut stats.load_asm_ns, d);
}

/// The load thread spent `d` dropping what is no longer in flight.
pub fn add_load_prune(stats: &mut ConfirmThrStats, d: Duration)
    ensures
        *final(stats) == (ConfirmThrStats {
            load_prune_ns: wrap_add(old(stats).load_prune_ns, d.ns),
            ..*old(stats)
        }),
{
    self::add(&mut stats.load_prune_ns, d);
}

/// The load thread spent `d` waiting for room in the script queue.
pub fn add_load_send_wait(stats: &mut ConfirmThrStats, d: Duration)
    ensures
        *final(stats) == (ConfirmThrStats {
            load_send_wait_ns: wrap_add(old(stats).load_send_wait_ns, d.ns),
            ..*old(stats)
        }),
{
    self::add(&mut stats.load_send_wait_ns, d);
}

/// How long a script batch took: the wall time of its wave.
pub fn script_work_from_verify_ns(work_ns: u64) -> (d: Duration)
    ensures
        d.ns == work_ns,
{
    Duration::from_nanos(work_ns)
}

/// The script thread spent `d` waiting for a batch.
pub fn add_script_recv_wait(stats: &mut ConfirmThrStats, d: Duration)
    ensures
        *final(stats) == (ConfirmThrStats {
            script_recv_wait_ns: wrap_add(old(stats).script_recv_wait_ns, d.ns),
            ..*old(stats)
        }),
{
    self::add(&mut stats.script_recv_wait_ns, d);
}

/// The script thread spent `d` verifying.
pub fn add_script_work(stats: &mut ConfirmThrStats, d: Duration)
    ensures
        *final(stats) == (ConfirmThrStats {
            script_work_ns: wrap_add(old(stats).script_work_ns, d.ns),
            ..*old(stats)
        }),
{
    self::add(&mut stats.script_work_ns, d);
}

/// The script thread spent `d` waiting for room in the write queue.
pub fn add_script_send_wait(stats: &mut ConfirmThrStats, d: Duration)
    ensures
        *final(stats) == (ConfirmThrStats {
            script_send_wait_ns: wrap_add(old(stats).script_send_wait_ns, d.ns),
            ..*old(stats)
        }),
{
    self::add(&mut stats.script_send_wait_ns, d);
}

/// The write thread spent `d` waiting for a batch.
pub fn add_write_recv_wait(stats: &mut ConfirmThrStats, d: Duration)
    ensures
        *final(stats) == (ConfirmThrStats {
            write_recv_wait_ns: wrap_add(old(stats).write_recv_wait_ns, d.ns),
            ..*old(stats)
        }),
{
    self::add(&mut stats.write_recv_wait_ns, d);
}

/// The write thread spent `d` writing.
pub fn add_write_work(stats: &mut ConfirmThrStats, d: Duration)
    ensures
        *final(stats) == (ConfirmThrStats {
            write_work_ns: wrap_add(old(stats).write_work_ns, d.ns),
            ..*old(stats)
        }),
{
    self::add(&mut stats.write_work_ns, d);
}

} // verus!

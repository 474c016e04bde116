//! How the confirm queues are drained and metered.
use vstd::prelude::*;
use crate::confirm_queue::{drained_from, Drained, QueueMeter, WriteView};
use crate::perf_sample::{shows_write, PerfWindows, WriteStageSample};

verus! {

/// Do the rows follow one another by height?
pub open spec fn climbs(w: WriteView) -> bool {
    &&& w.rows.len() > 0
    &&& forall|i: int| 0 <= i < w.rows.len() ==> (#[trigger] w.rows[i]).0 == w.rows[0].0 + i
}

/// A drained batch still climbs by one block a height and keeps its kind; every part that
/// goes on is taken as long as parts are allowed, and a part that was taken out and does not
/// go on is handed back.
pub proof fn law_drained_batch_climbs(d: Drained, left: nat)
    requires
        d.leftover is None,
        climbs(d.batch),
        forall|i: int| 0 <= i < d.queue.len() ==> climbs(#[trigger] d.queue[i]),
        d.meter.depth >= d.queue.len(),
    ensures
        ({
            let e = drained_from(d, left);
            let taken = d.queue.len() - e.queue.len();
            &&& climbs(e.batch)
            &&& e.batch.has_plan == d.batch.has_plan
            &&& e.batch.rows[0] == d.batch.rows[0]
            &&& d.parts <= e.parts <= d.parts + left
            &&& e.leftover is None && e.parts < d.parts + left ==> e.queue.len() == 0
            &&& e.leftover matches Some(l) ==> l.has_plan != e.batch.has_plan || l.rows[0].0
                != e.batch.rows.last().0 + 1
            &&& e.meter.depth == d.meter.depth - taken
            &&& taken == e.parts - d.parts + (if e.leftover is Some {
                1int
            } else {
                0
            })
        }),
    decreases left,
{
    if left == 0 || d.queue.len() == 0 {
    } else {
        let more = d.queue[0];
        let rest = d.queue.drop_first();
        let meter = d.meter.after_recv(more.rows.len() as usize, more.wire_bytes, more.parents);
        assert(climbs(more));
        if d.batch.continues(more) {
            let next = Drained {
                batch: d.batch.joined(more),
                parts: d.parts + 1,
                leftover: None,
                queue: rest,
                meter,
            };
            let a = d.batch.rows;
            let b = more.rows;
            assert(a.last().0 == a[0].0 + (a.len() - 1));
            assert forall|i: int| 0 <= i < next.batch.rows.len() implies (
            #[trigger] next.batch.rows[i]).0 == next.batch.rows[0].0 + i by {
                if i < a.len() {
                    assert(next.batch.rows[i] == a[i]);
                } else {
                    assert(next.batch.rows[i] == b[i - a.len()]);
                    assert(b[i - a.len()].0 == b[0].0 + (i - a.len()));
                }
            }
            assert forall|i: int| 0 <= i < rest.len() implies climbs(#[trigger] rest[i]) by {
                assert(rest[i] == d.queue[i + 1]);
            }
            law_drained_batch_climbs(next, (left - 1) as nat);
        }
    }
}

/// A queue's meter counts what went in and not out: each send adds one batch and what it
/// holds, each receipt takes the same away, and the greatest depth is never below the depth.
pub proof fn law_meter_counts_what_is_queued(
    m: QueueMeter,
    blocks: usize,
    bytes: usize,
    parents: usize,
)
    requires
        m.depth < usize::MAX,
        m.blocks + blocks <= usize::MAX,
        m.wire_bytes + bytes <= usize::MAX,
        m.parents + parents <= usize::MAX,
    ensures
        ({
            let s = m.after_send(blocks, bytes, parents);
            &&& s.depth == m.depth + 1
            &&& s.blocks == m.blocks + blocks
            &&& s.wire_bytes == m.wire_bytes + bytes
            &&& s.parents == m.parents + parents
            &&& s.hwm >= m.hwm && s.hwm >= s.depth && (s.hwm == m.hwm || s.hwm == s.depth)
            &&& s.after_recv(blocks, bytes, parents).depth == m.depth
            &&& s.after_recv(blocks, bytes, parents).blocks == m.blocks
            &&& s.after_recv(blocks, bytes, parents).wire_bytes == m.wire_bytes
            &&& s.after_recv(blocks, bytes, parents).parents == m.parents
            &&& s.after_recv(blocks, bytes, parents).hwm == s.hwm
        }),
{
}

/// Each part of the write stage is shown alike in both units: its milliseconds are its
/// nanoseconds over a million, and pins are taking and mapping them.
pub proof fn law_write_parts_agree_in_both_units(s: WriteStageSample, w: PerfWindows)
    requires
        shows_write(s, w),
        w.phase.pins_take_ns + w.phase.pins_map_ns <= u64::MAX,
    ensures
        s.class_a_ms == s.class_a_ns / 1_000_000,
        s.ensure_ms == s.ensure_ns / 1_000_000,
        s.structural_ms == s.structural_ns / 1_000_000,
        s.class_c_ms == s.class_c_ns / 1_000_000,
        s.sh_ms == s.sh_ns / 1_000_000,
        s.utxo_ms == s.utxo_apply_ns / 1_000_000,
        s.tweak_ms == s.tweak_ns / 1_000_000,
        s.cache_tip_ms == s.cache_tip_ns / 1_000_000,
        s.recent_pub_ms == s.recent_pub_ns / 1_000_000,
        s.pins_ms == s.pins_ns / 1_000_000,
        s.pins_ns == w.phase.pins_take_ns + w.phase.pins_map_ns,
        s.head_sub_ms == s.head_sub_ns / 1_000_000,
        s.class_c_join_ms == s.class_c_join_ns / 1_000_000,
        s.drain_join_ms == s.drain_join_ns / 1_000_000,
        s.dequeue_ms == s.dequeue_ns / 1_000_000,
{
}

} // verus!

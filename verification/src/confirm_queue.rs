//! The bounded queues of the confirm pipeline: capacities, depths, log text.
use vstd::prelude::*;
use crate::confirm_wave::{CONFIRM_RUN_MAX_BLOCKS, TxId};
use crate::hash::BlockHash;
use crate::text::{append_dec, append_hex_reversed, dec, hex_reversed, same_text};
use std::collections::VecDeque;

verus! {

/// Depth of the queue from lookup to load.
pub const LOAD_QUEUE_CAP_DEFAULT: usize = 14;

/// Depth of the queue from load to scripts. Scripts are the long pole; a modest
/// buffer is enough.
pub const SCRIPT_QUEUE_CAP_DEFAULT: usize = 4;

/// Depth of the queue from scripts to write. Writing is bursty, and a full queue
/// would stall scripts.
pub const WRITE_QUEUE_CAP_DEFAULT: usize = 14;

/// Capacities of the three queues.
#[derive(Clone, Copy, Debug, PartialEq, Eq, Structural)]
pub struct ConfirmQueueCaps {
    pub load: usize,
    pub script: usize,
    pub write: usize,
}

/// Capacities of the three queues.
pub fn confirm_queue_caps() -> (c: ConfirmQueueCaps)
    ensures
        c == (ConfirmQueueCaps {
            load: LOAD_QUEUE_CAP_DEFAULT,
            script: SCRIPT_QUEUE_CAP_DEFAULT,
            write: WRITE_QUEUE_CAP_DEFAULT,
        }),
{
    ConfirmQueueCaps {
        load: LOAD_QUEUE_CAP_DEFAULT,
        script: SCRIPT_QUEUE_CAP_DEFAULT,
        write: WRITE_QUEUE_CAP_DEFAULT,
    }
}

/// Capacity of the queue from lookup to load.
pub fn load_queue_cap() -> (n: usize)
    ensures
        n == LOAD_QUEUE_CAP_DEFAULT,
{
    confirm_queue_caps().load
}

/// Capacity of the queue from load to scripts.
pub fn script_queue_cap() -> (n: usize)
    ensures
        n == SCRIPT_QUEUE_CAP_DEFAULT,
{
    confirm_queue_caps().script
}

/// Capacity of the queue from scripts to write.
pub fn write_queue_cap() -> (n: usize)
    ensures
        n == WRITE_QUEUE_CAP_DEFAULT,
{
    confirm_queue_caps().write
}

/// How many script-checked parts one write may merge: all that are queued when it
/// starts, and at least one.
pub fn write_drain_max_parts(writeq_cap: usize) -> (n: usize)
    ensures
        n == (if writeq_cap == 0 {
            1
        } else {
            writeq_cap
        }),
{
    if writeq_cap == 0 {
        1
    } else {
        writeq_cap
    }
}

/// How many heights above the tip may be claimed: the depth of the pipeline, so
/// that a stuck height is not passed by thousands of far ones.
pub fn max_claim_ahead() -> (n: u32)
    ensures
        n == (3 * (LOAD_QUEUE_CAP_DEFAULT + SCRIPT_QUEUE_CAP_DEFAULT + WRITE_QUEUE_CAP_DEFAULT) + 1)
            * CONFIRM_RUN_MAX_BLOCKS,
{
    let c = confirm_queue_caps();
    let q: usize = c.load + c.script + c.write;
    let depth: u32 = (q * 3 + 1) as u32;
    let run: u32 = CONFIRM_RUN_MAX_BLOCKS as u32;
    assert(depth == 97 && run == 144);
    depth * run
}

/// `a + b`, or the largest value where that does not fit.
pub open spec fn sat_add_us(a: usize, b: usize) -> usize {
    if a + b > usize::MAX {
        usize::MAX
    } else {
        (a + b) as usize
    }
}

/// `a - b`, or zero where `b` is larger.
pub open spec fn sat_sub_us(a: usize, b: usize) -> usize {
    if a < b {
        0
    } else {
        (a - b) as usize
    }
}

/// The larger of two counts.
pub open spec fn max_us(a: usize, b: usize) -> usize {
    if a >= b {
        a
    } else {
        b
    }
}

/// One queue: how many batches sit in it, the most that did since the last sample,
/// and what the batches hold.
#[derive(Clone, Copy, Debug, PartialEq, Eq, Structural)]
pub struct QueueMeter {
    pub depth: usize,
    pub hwm: usize,
    pub blocks: usize,
    pub wire_bytes: usize,
    pub parents: usize,
}

impl QueueMeter {
    /// An empty queue.
    pub open spec fn blank() -> QueueMeter {
        QueueMeter { depth: 0, hwm: 0, blocks: 0, wire_bytes: 0, parents: 0 }
    }

    /// One batch more.
    pub open spec fn after_send(self, blocks: usize, wire_bytes: usize, parents: usize) -> QueueMeter {
        QueueMeter {
            depth: sat_add_us(self.depth, 1),
            hwm: max_us(self.hwm, sat_add_us(self.depth, 1)),
            blocks: sat_add_us(self.blocks, blocks),
            wire_bytes: sat_add_us(self.wire_bytes, wire_bytes),
            parents: sat_add_us(self.parents, parents),
        }
    }

    /// One batch less.
    pub open spec fn after_recv(self, blocks: usize, wire_bytes: usize, parents: usize) -> QueueMeter {
        QueueMeter {
            depth: sat_sub_us(self.depth, 1),
            hwm: self.hwm,
            blocks: sat_sub_us(self.blocks, blocks),
            wire_bytes: sat_sub_us(self.wire_bytes, wire_bytes),
            parents: sat_sub_us(self.parents, parents),
        }
    }

    fn new() -> (m: QueueMeter)
        ensures
            m == QueueMeter::blank(),
    {
        QueueMeter { depth: 0, hwm: 0, blocks: 0, wire_bytes: 0, parents: 0 }
    }

    fn sent(&mut self, blocks: usize, wire_bytes: usize, parents: usize)
        ensures
            *final(self) == old(self).after_send(blocks, wire_bytes, parents),
    {
        self.depth = self.depth.saturating_add(1);
        if self.depth > self.hwm {
            self.hwm = self.depth;
        }
        self.blocks = self.blocks.saturating_add(blocks);
        self.wire_bytes = self.wire_bytes.saturating_add(wire_bytes);
        self.parents = self.parents.saturating_add(parents);
    }

    fn received(&mut self, blocks: usize, wire_bytes: usize, parents: usize)
        ensures
            *final(self) == old(self).after_recv(blocks, wire_bytes, parents),
    {
        self.depth = self.depth.saturating_sub(1);
        self.blocks = self.blocks.saturating_sub(blocks);
        self.wire_bytes = self.wire_bytes.saturating_sub(wire_bytes);
        self.parents = self.parents.saturating_sub(parents);
    }
}

/// Depths and contents of the three queues. Counts stop at zero and at the largest
/// value, so that a second receive at shutdown cannot turn them over.
#[derive(Clone, Copy, Debug, PartialEq, Eq, Structural)]
pub struct ConfirmQueueDepths {
    pub load: QueueMeter,
    pub script: QueueMeter,
    pub write: QueueMeter,
}

/// What the pipeline holds: queue depths, batch contents, feed.
#[derive(Clone, Copy, Debug, PartialEq, Eq, Structural)]
pub struct ConfirmPipelineSizes {
    pub load_batches: usize,
    pub load_blocks: usize,
    pub load_wire_bytes: usize,
    /// Resolved bodies left in the body queue; no queue of the pipeline.
    pub ready: usize,
    pub script_batches: usize,
    pub script_blocks: usize,
    pub script_wire_bytes: usize,
    pub script_parents: usize,
    pub write_batches: usize,
    pub write_blocks: usize,
    pub write_wire_bytes: usize,
    pub write_parents: usize,
    pub feed_ready: usize,
    pub feed_inflight: usize,
}

impl ConfirmPipelineSizes {
    /// Parent entries in the script and write queues.
    pub fn parents_total(&self) -> (n: usize)
        ensures
            n == sat_add_us(self.script_parents, self.write_parents),
    {
        self.script_parents.saturating_add(self.write_parents)
    }
}

impl ConfirmPipelineSizes {
    /// Nothing held.
    pub open spec fn blank() -> ConfirmPipelineSizes {
        ConfirmPipelineSizes {
            load_batches: 0,
            load_blocks: 0,
            load_wire_bytes: 0,
            ready: 0,
            script_batches: 0,
            script_blocks: 0,
            script_wire_bytes: 0,
            script_parents: 0,
            write_batches: 0,
            write_blocks: 0,
            write_wire_bytes: 0,
            write_parents: 0,
            feed_ready: 0,
            feed_inflight: 0,
        }
    }
}

impl Default for ConfirmPipelineSizes {
    fn default() -> (s: Self)
        ensures
            s == ConfirmPipelineSizes::blank(),
    {
        ConfirmPipelineSizes {
            load_batches: 0,
            load_blocks: 0,
            load_wire_bytes: 0,
            ready: 0,
            script_batches: 0,
            script_blocks: 0,
            script_wire_bytes: 0,
            script_parents: 0,
            write_batches: 0,
            write_blocks: 0,
            write_wire_bytes: 0,
            write_parents: 0,
            feed_ready: 0,
            feed_inflight: 0,
        }
    }
}

impl ConfirmQueueDepths {
    /// Three empty queues.
    pub fn new() -> (q: Self)
        ensures
            q == (ConfirmQueueDepths {
                load: QueueMeter::blank(),
                script: QueueMeter::blank(),
                write: QueueMeter::blank(),
            }),
    {
        ConfirmQueueDepths {
            load: QueueMeter::new(),
            script: QueueMeter::new(),
            write: QueueMeter::new(),
        }
    }

    /// Depths of the load, script and write queues.
    pub fn snap(&self) -> (r: (usize, usize, usize))
        ensures
            r == (self.load.depth, self.script.depth, self.write.depth),
    {
        (self.load.depth, self.script.depth, self.write.depth)
    }

    /// Depth of the load queue.
    pub fn load_depth(&self) -> (n: usize)
        ensures
            n == self.load.depth,
    {
        self.load.depth
    }

    /// The greatest depths since the last call, which start over from zero.
    pub fn sample_hwm_and_reset(&mut self) -> (r: (usize, usize, usize))
        ensures
            r == (old(self).load.hwm, old(self).script.hwm, old(self).write.hwm),
            *final(self) == (ConfirmQueueDepths {
                load: QueueMeter { hwm: 0, ..old(self).load },
                script: QueueMeter { hwm: 0, ..old(self).script },
                write: QueueMeter { hwm: 0, ..old(self).write },
            }),
    {
        let r = (self.load.hwm, self.script.hwm, self.write.hwm);
        self.load.hwm = 0;
        self.script.hwm = 0;
        self.write.hwm = 0;
        r
    }

    /// Depths and contents of the queues.
    pub fn content_snap(&self) -> (s: ConfirmPipelineSizes)
        ensures
            s == (ConfirmPipelineSizes {
                load_batches: self.load.depth,
                load_blocks: self.load.blocks,
                load_wire_bytes: self.load.wire_bytes,
                ready: 0,
                script_batches: self.script.depth,
                script_blocks: self.script.blocks,
                script_wire_bytes: self.script.wire_bytes,
                script_parents: self.script.parents,
                write_batches: self.write.depth,
                write_blocks: self.write.blocks,
                write_wire_bytes: self.write.wire_bytes,
                write_parents: self.write.parents,
                feed_ready: 0,
                feed_inflight: 0,
            }),
    {
        ConfirmPipelineSizes {
            load_batches: self.load.depth,
            load_blocks: self.load.blocks,
            load_wire_bytes: self.load.wire_bytes,
            ready: 0,
            script_batches: self.script.depth,
            script_blocks: self.script.blocks,
            script_wire_bytes: self.script.wire_bytes,
            script_parents: self.script.parents,
            write_batches: self.write.depth,
            write_blocks: self.write.blocks,
            write_wire_bytes: self.write.wire_bytes,
            write_parents: self.write.parents,
            feed_ready: 0,
            feed_inflight: 0,
        }
    }

    /// A batch went into the load queue.
    pub fn note_load_send(&mut self, blocks: usize, wire_bytes: usize)
        ensures
            *final(self) == (ConfirmQueueDepths {
                load: old(self).load.after_send(blocks, wire_bytes, 0),
                ..*old(self)
            }),
    {
        self.load.sent(blocks, wire_bytes, 0);
    }

    /// A batch came out of the load queue.
    pub fn note_load_recv(&mut self, blocks: usize, wire_bytes: usize)
        ensures
            *final(self) == (ConfirmQueueDepths {
                load: old(self).load.after_recv(blocks, wire_bytes, 0),
                ..*old(self)
            }),
    {
        self.load.received(blocks, wire_bytes, 0);
    }

    /// A batch went into the script queue.
    pub fn note_script_send(&mut self, blocks: usize, wire_bytes: usize, parents: usize)
        ensures
            *final(self) == (ConfirmQueueDepths {
                script: old(self).script.after_send(blocks, wire_bytes, parents),
                ..*old(self)
            }),
    {
        self.script.sent(blocks, wire_bytes, parents);
    }

    /// A batch came out of the script queue.
    pub fn note_script_recv(&mut self, blocks: usize, wire_bytes: usize, parents: usize)
        ensures
            *final(self) == (ConfirmQueueDepths {
                script: old(self).script.after_recv(blocks, wire_bytes, parents),
                ..*old(self)
            }),
    {
        self.script.received(blocks, wire_bytes, parents);
    }

    /// A batch went into the write queue.
    pub fn note_write_send(&mut self, blocks: usize, wire_bytes: usize, parents: usize)
        ensures
            *final(self) == (ConfirmQueueDepths {
                write: old(self).write.after_send(blocks, wire_bytes, parents),
                ..*old(self)
            }),
    {
        self.write.sent(blocks, wire_bytes, parents);
    }

    /// A batch came out of the write queue.
    pub fn note_write_recv(&mut self, blocks: usize, wire_bytes: usize, parents: usize)
        ensures
            *final(self) == (ConfirmQueueDepths {
                write: old(self).write.after_recv(blocks, wire_bytes, parents),
                ..*old(self)
            }),
    {
        self.write.received(blocks, wire_bytes, parents);
    }
}

/// What went into a queue and came out again leaves its depth and contents as they
/// were, unless a count stopped at the largest value.
pub proof fn law_recv_undoes_send(m: QueueMeter, blocks: usize, wire_bytes: usize, parents: usize)
    requires
        m.depth < usize::MAX,
        m.blocks + blocks <= usize::MAX,
        m.wire_bytes + wire_bytes <= usize::MAX,
        m.parents + parents <= usize::MAX,
    ensures
        m.after_send(blocks, wire_bytes, parents).after_recv(blocks, wire_bytes, parents) == (
        QueueMeter { hwm: max_us(m.hwm, sat_add_us(m.depth, 1)), ..m }),
{
}

/// The greatest depth stays at or above the depth, through sends and receives.
pub proof fn law_high_water_covers_depth(
    m: QueueMeter,
    blocks: usize,
    wire_bytes: usize,
    parents: usize,
)
    requires
        m.depth <= m.hwm,
    ensures
        m.after_send(blocks, wire_bytes, parents).depth <= m.after_send(
            blocks,
            wire_bytes,
            parents,
        ).hwm,
        m.after_recv(blocks, wire_bytes, parents).depth <= m.after_recv(
            blocks,
            wire_bytes,
            parents,
        ).hwm,
{
}

/// How a queue is shown: `name<0/cap` where it is empty and the next stage waits,
/// `name=n/cap` otherwise.
pub open spec fn depth_text(name: Seq<char>, depth: usize, cap: usize) -> Seq<char> {
    if depth == 0 {
        name + "<0/"@ + dec(cap as nat)
    } else {
        name + "="@ + dec(depth as nat) + "/"@ + dec(cap as nat)
    }
}

fn append_depth(out: &mut String, name: &str, depth: usize, cap: usize)
    ensures
        final(out)@ == old(out)@ + depth_text(name@, depth, cap),
{
    let ghost start = out@;
    out.append(name);
    if depth == 0 {
        out.append("<0/");
    } else {
        out.append("=");
        append_dec(out, depth as u128);
        out.append("/");
    }
    append_dec(out, cap as u128);
    assert(out@ =~= start + depth_text(name@, depth, cap));
}

/// How one queue is shown.
pub fn format_queue_depth(name: &str, depth: usize, cap: usize) -> (r: String)
    ensures
        r@ == depth_text(name@, depth, cap),
{
    let mut out: String = String::new();
    append_depth(&mut out, name, depth, cap);
    assert(out@ =~= depth_text(name@, depth, cap));
    out
}

/// How the three queues are shown.
pub open spec fn conf_q_text(
    load: usize,
    script: usize,
    write: usize,
    load_cap: usize,
    script_cap: usize,
    write_cap: usize,
) -> Seq<char> {
    depth_text("loadq"@, load, load_cap) + " "@ + depth_text("scriptq"@, script, script_cap) + " "@
        + depth_text("writeq"@, write, write_cap)
}

/// How the three queues are shown.
pub fn format_conf_q(
    load: usize,
    script: usize,
    write: usize,
    load_cap: usize,
    script_cap: usize,
    write_cap: usize,
) -> (r: String)
    ensures
        r@ == conf_q_text(load, script, write, load_cap, script_cap, write_cap),
{
    let mut out: String = String::new();
    append_depth(&mut out, "loadq", load, load_cap);
    out.append(" ");
    append_depth(&mut out, "scriptq", script, script_cap);
    out.append(" ");
    append_depth(&mut out, "writeq", write, write_cap);
    assert(out@ =~= conf_q_text(load, script, write, load_cap, script_cap, write_cap));
    out
}

/// What the last stamp said of the parents it did not find.
pub struct StampMisses {
    /// How many parents were left to find, and how many of them were found.
    pub leftover_n: u64,
    pub leftover_hit: u64,
    pub miss_n: u64,
    pub miss_txid: Option<TxId>,
    /// Is the missing row still waiting to be written?
    pub pending: bool,
    pub miss_on: Option<String>,
    pub miss_cands: u64,
    pub diag: bool,
}

/// How the missing parent is named.
pub open spec fn miss_txid_text(t: Option<TxId>) -> Seq<char> {
    match t {
        Some(t) => " miss_txid="@ + hex_reversed(t.bytes()),
        None => Seq::empty(),
    }
}

/// Where the parent was looked for, and among how many rows.
pub open spec fn miss_on_text(on: Option<Seq<char>>, cands: u64) -> Seq<char> {
    match on {
        Some(on) => " miss_on="@ + on + " miss_cands="@ + dec(cands as nat),
        None => Seq::empty(),
    }
}

impl StampMisses {
    /// Where the parent was looked for.
    pub open spec fn looked_on(self) -> Option<Seq<char>> {
        match self.miss_on {
            Some(on) => Some(on@),
            None => None,
        }
    }
}

/// The part of a stamp reject that names the missing parent.
pub open spec fn miss_text(m: StampMisses) -> Seq<char> {
    " miss_n="@ + dec(m.miss_n as nat) + miss_txid_text(m.miss_txid) + (if m.pending {
        " pending=1"@
    } else {
        " pending=0"@
    }) + miss_on_text(m.looked_on(), m.miss_cands) + (if m.diag {
        " diag=1"@
    } else {
        Seq::empty()
    })
}

/// The operator line of a stamp that did not find a parent.
pub open spec fn stamp_reject_text(m: StampMisses) -> Seq<char> {
    "missing prevout (leftover parent create_fk unresolved leftover_n="@ + dec(m.leftover_n as nat)
        + " leftover_hit="@ + dec(m.leftover_hit as nat) + (if m.miss_n > 0 {
        miss_text(m)
    } else {
        Seq::empty()
    }) + ")"@
}

fn append_miss_txid(s: &mut String, t: Option<TxId>)
    ensures
        final(s)@ == old(s)@ + miss_txid_text(t),
{
    let ghost start = s@;
    if let Some(t) = t {
        s.append(" miss_txid=");
        let raw = t.to_byte_array();
        append_hex_reversed(s, &raw);
    }
    assert(s@ =~= start + miss_txid_text(t));
}

fn append_miss_on(s: &mut String, m: &StampMisses)
    ensures
        final(s)@ == old(s)@ + miss_on_text(m.looked_on(), m.miss_cands),
{
    let ghost start = s@;
    if let Some(on) = &m.miss_on {
        s.append(" miss_on=");
        s.append(on.as_str());
        s.append(" miss_cands=");
        append_dec(s, m.miss_cands as u128);
    }
    assert(s@ =~= start + miss_on_text(m.looked_on(), m.miss_cands));
}

fn append_miss(s: &mut String, m: &StampMisses)
    ensures
        final(s)@ == old(s)@ + miss_text(*m),
{
    let ghost start = s@;
    s.append(" miss_n=");
    append_dec(s, m.miss_n as u128);
    append_miss_txid(s, m.miss_txid);
    if m.pending {
        s.append(" pending=1");
    } else {
        s.append(" pending=0");
    }
    append_miss_on(s, m);
    if m.diag {
        s.append(" diag=1");
    }
    assert(s@ =~= start + miss_text(*m));
}

/// The operator line of a stamp that did not find a parent. It names the parent
/// and says that its row is unresolved, so that a race does not look like an
/// invalid block.
pub fn format_stamp_reject_missing_prevout(m: &StampMisses) -> (s: String)
    ensures
        s@ == stamp_reject_text(*m),
{
    let mut s: String = String::new();
    s.append("missing prevout (leftover parent create_fk unresolved leftover_n=");
    append_dec(&mut s, m.leftover_n as u128);
    s.append(" leftover_hit=");
    append_dec(&mut s, m.leftover_hit as u128);
    if m.miss_n > 0 {
        append_miss(&mut s, m);
    }
    s.append(")");
    assert(s@ =~= stamp_reject_text(*m));
    s
}

/// The operator line of a rejected stamp: a missing parent is spelled out, any other
/// error is shown as it is.
pub open spec fn operator_text(err: Seq<char>, m: StampMisses) -> Seq<char> {
    if err == "missing prevout"@ {
        stamp_reject_text(m)
    } else {
        err
    }
}

/// The operator line of a rejected stamp.
pub fn stamp_reject_operator_msg(err: &str, misses: &StampMisses) -> (s: String)
    ensures
        s@ == operator_text(err@, *misses),
{
    if same_text(err, "missing prevout") {
        format_stamp_reject_missing_prevout(misses)
    } else {
        err.to_string()
    }
}

/// Script-checked blocks on their way to the writer.
pub struct WriteBatch {
    /// Heights and hashes, in order.
    pub rows: Vec<(u32, BlockHash)>,
    /// Does it come with an archive plan?
    pub has_plan: bool,
    pub wire_bytes: usize,
    pub parents: usize,
}

/// [`WriteBatch`] as values.
#[verifier::ext_equal]
pub struct WriteView {
    pub rows: Seq<(u32, BlockHash)>,
    pub has_plan: bool,
    pub wire_bytes: usize,
    pub parents: usize,
}

impl View for WriteBatch {
    type V = WriteView;

    open spec fn view(&self) -> WriteView {
        WriteView {
            rows: self.rows@,
            has_plan: self.has_plan,
            wire_bytes: self.wire_bytes,
            parents: self.parents,
        }
    }
}

/// The values of queued batches.
pub open spec fn write_views(s: Seq<WriteBatch>) -> Seq<WriteView> {
    Seq::new(s.len(), |i: int| s[i]@)
}

impl WriteView {
    /// Does `more` go on at the next height, with a plan exactly where this has one?
    pub open spec fn continues(self, more: WriteView) -> bool {
        &&& self.has_plan == more.has_plan
        &&& self.rows.len() > 0
        &&& more.rows.len() > 0
        &&& more.rows[0].0 == self.rows.last().0 + 1
    }

    /// Both batches as one.
    pub open spec fn joined(self, more: WriteView) -> WriteView {
        WriteView {
            rows: self.rows + more.rows,
            has_plan: self.has_plan,
            wire_bytes: sat_add_us(self.wire_bytes, more.wire_bytes),
            parents: sat_add_us(self.parents, more.parents),
        }
    }
}

/// What draining the write queue comes to.
#[verifier::ext_equal]
pub struct Drained {
    pub batch: WriteView,
    /// How many parts the batch is made of.
    pub parts: nat,
    /// A part that was taken out and does not go on where the batch ends.
    pub leftover: Option<WriteView>,
    pub queue: Seq<WriteView>,
    pub meter: QueueMeter,
}

/// Drain at most `left` more parts into the batch.
pub open spec fn drained_from(d: Drained, left: nat) -> Drained
    decreases left,
{
    if left == 0 || d.queue.len() == 0 {
        d
    } else {
        let more = d.queue[0];
        let rest = d.queue.drop_first();
        let meter = d.meter.after_recv(more.rows.len() as usize, more.wire_bytes, more.parents);
        if d.batch.continues(more) {
            drained_from(
                Drained {
                    batch: d.batch.joined(more),
                    parts: d.parts + 1,
                    leftover: None,
                    queue: rest,
                    meter,
                },
                (left - 1) as nat,
            )
        } else {
            Drained { leftover: Some(more), queue: rest, meter, ..d }
        }
    }
}

impl WriteBatch {
    /// Does `more` go on at the next height, with a plan exactly where this has one?
    pub fn continues(&self, more: &WriteBatch) -> (b: bool)
        ensures
            b == self@.continues(more@),
    {
        let n: usize = self.rows.len();
        self.has_plan == more.has_plan && n > 0 && more.rows.len() > 0 && self.rows[n - 1].0
            < u32::MAX && more.rows[0].0 == self.rows[n - 1].0 + 1
    }

    /// Take the blocks of `more` in.
    pub fn join(&mut self, more: WriteBatch)
        ensures
            final(self)@ == old(self)@.joined(more@),
    {
        let ghost start = self@;
        let mut i: usize = 0;
        while i < more.rows.len()
            invariant
                i <= more.rows@.len(),
                self.rows@ == start.rows + more.rows@.take(i as int),
                self.has_plan == start.has_plan,
                self.wire_bytes == start.wire_bytes,
                self.parents == start.parents,
            decreases more.rows@.len() - i,
        {
            self.rows.push(more.rows[i]);
            i = i + 1;
            assert(self.rows@ =~= start.rows + more.rows@.take(i as int));
        }
        assert(more.rows@.take(i as int) =~= more.rows@);
        self.wire_bytes = self.wire_bytes.saturating_add(more.wire_bytes);
        self.parents = self.parents.saturating_add(more.parents);
    }
}

/// Take out what the write queue holds, `first` being out already, and merge it
/// into one batch of at most `max_parts` parts. A part that does not go on where the
/// batch ends is handed back for the next write; each part taken out is noted.
pub fn drain_script_ok_write_queue(
    first: WriteBatch,
    queue: &mut VecDeque<WriteBatch>,
    max_parts: usize,
    depths: &mut ConfirmQueueDepths,
) -> (r: (WriteBatch, usize, Option<WriteBatch>))
    ensures
        ({
            let d = drained_from(
                Drained {
                    batch: first@,
                    parts: 1,
                    leftover: None,
                    queue: write_views(old(queue)@),
                    meter: old(depths).write,
                },
                if max_parts == 0 {
                    0
                } else {
                    (max_parts - 1) as nat
                },
            );
            &&& r.0@ == d.batch
            &&& r.1 == d.parts
            &&& (match r.2 {
                Some(l) => d.leftover == Some(l@),
                None => d.leftover is None,
            })
            &&& write_views(final(queue)@) == d.queue
            &&& *final(depths) == (ConfirmQueueDepths { write: d.meter, ..*old(depths) })
        }),
{
    let mut batch = first;
    let mut parts: usize = 1;
    let max: usize = if max_parts == 0 {
        1
    } else {
        max_parts
    };
    let ghost all = drained_from(
        Drained {
            batch: first@,
            parts: 1,
            leftover: None,
            queue: write_views(queue@),
            meter: depths.write,
        },
        (max - 1) as nat,
    );
    let ghost start = *depths;
    let mut going = true;
    while going
        invariant
            1 <= parts <= max,
            max == (if max_parts == 0 {
                1
            } else {
                max_parts
            }),
            start == *old(depths),
            *depths == (ConfirmQueueDepths { write: depths.write, ..start }),
            all == drained_from(
                Drained {
                    batch: first@,
                    parts: 1,
                    leftover: None,
                    queue: write_views(old(queue)@),
                    meter: start.write,
                },
                (max - 1) as nat,
            ),
            going ==> drained_from(
                Drained {
                    batch: batch@,
                    parts: parts as nat,
                    leftover: None,
                    queue: write_views(queue@),
                    meter: depths.write,
                },
                (max - parts) as nat,
            ) == all,
            !going ==> (Drained {
                batch: batch@,
                parts: parts as nat,
                leftover: None,
                queue: write_views(queue@),
                meter: depths.write,
            }) == all,
        decreases max - parts, (if going { 1int } else { 0int }),
    {
        if parts >= max {
            going = false;
            continue ;
        }
        let ghost before = queue@;
        match queue.pop_front() {
            Some(more) => {
                assert(write_views(queue@) =~= write_views(before).drop_first());
                depths.note_write_recv(more.rows.len(), more.wire_bytes, more.parents);
                if batch.continues(&more) {
                    batch.join(more);
                    parts = parts + 1;
                } else {
                    return (batch, parts, Some(more));
                }
            },
            None => {
                assert(write_views(queue@) =~= write_views(before));
                going = false;
            },
        }
    }
    (batch, parts, None)
}

/// Draining takes parts in order and loses none: the merged rows, then a leftover,
/// then what is still queued, are the first rows and then the queued ones.
pub proof fn law_drain_loses_nothing(d: Drained, left: nat)
    requires
        d.leftover is None,
    ensures
        ({
            let e = drained_from(d, left);
            e.batch.rows + (match e.leftover {
                Some(l) => l.rows,
                None => Seq::empty(),
            }) + all_rows(e.queue) == d.batch.rows + all_rows(d.queue)
        }),
    decreases left,
{
    let e = drained_from(d, left);
    if left == 0 || d.queue.len() == 0 {
        assert(e.batch.rows + Seq::<(u32, BlockHash)>::empty() + all_rows(e.queue) =~= d.batch.rows
            + all_rows(d.queue));
    } else {
        let more = d.queue[0];
        let rest = d.queue.drop_first();
        if d.batch.continues(more) {
            let meter = d.meter.after_recv(more.rows.len() as usize, more.wire_bytes, more.parents);
            law_drain_loses_nothing(
                Drained {
                    batch: d.batch.joined(more),
                    parts: d.parts + 1,
                    leftover: None,
                    queue: rest,
                    meter,
                },
                (left - 1) as nat,
            );
            assert(d.batch.rows + more.rows + all_rows(rest) =~= d.batch.rows + (more.rows
                + all_rows(rest)));
        } else {
            assert(d.batch.rows + more.rows + all_rows(rest) =~= d.batch.rows + (more.rows
                + all_rows(rest)));
        }
    }
}

/// The rows of all batches, in order.
pub open spec fn all_rows(s: Seq<WriteView>) -> Seq<(u32, BlockHash)>
    decreases s.len(),
{
    if s.len() == 0 {
        Seq::empty()
    } else {
        s[0].rows + all_rows(s.drop_first())
    }
}

} // verus!

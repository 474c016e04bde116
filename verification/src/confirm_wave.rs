//! Lookup waves and the load-sized batches they are cut into.
use vstd::prelude::*;
use crate::chain::sat_add32;
use crate::hash::BlockHash;
use crate::keyed::KeyMap;
use std::collections::{HashMap, HashSet};
use std::sync::Arc;

verus! {

/// Hard cap on consecutive ready heights in one confirm wave. The soft input
/// budget is the primary bound; this one caps how many thin blocks pack together.
pub const CONFIRM_RUN_MAX_BLOCKS: usize = 144;

/// Soft cap on transaction inputs in one packed run.
pub const CONFIRM_BATCH_INPUTS_DEFAULT: u32 = 8000;

/// A 32-byte transaction id.
pub type TxId = BlockHash;

/// The output that an input spends.
#[derive(Clone, Copy, Debug, PartialEq, Eq, Structural)]
pub struct OutPoint {
    pub txid: TxId,
    pub vout: u32,
}

impl OutPoint {
    /// The coinbase marker: no output at all.
    pub open spec fn null(self) -> bool {
        self.txid == BlockHash::spec_zero() && self.vout == u32::MAX
    }

    /// Is this the coinbase marker?
    pub fn is_null(&self) -> (b: bool)
        ensures
            b == self.null(),
    {
        self.vout == u32::MAX && self.txid.is_zero()
    }
}

/// What confirm reads of a transaction: the outputs it spends, in order.
pub struct WireTx {
    pub inputs: Vec<OutPoint>,
}

/// A decoded block with its wire bytes.
pub struct WireBlock {
    pub payload: Vec<u8>,
    pub txs: Vec<WireTx>,
}

/// Ids of a transaction that lookup has worked out.
#[derive(Clone, Copy, Debug, PartialEq, Eq, Structural)]
pub struct TxPrecompute {
    pub txid: TxId,
    pub wtxid: TxId,
}

/// A block as lookup hands it on.
pub struct ResolvedWire {
    pub block: Arc<WireBlock>,
    pub pres: Arc<Vec<TxPrecompute>>,
}

/// One height of a wave.
pub type LoadItem = (u32, BlockHash, ResolvedWire);

/// What the stamp step takes for one height.
pub type StampItem = (u32, Arc<WireBlock>, Option<Arc<Vec<TxPrecompute>>>);

/// Another handle on the same value, by [`Arc::clone`], which makes another pointer
/// to the same allocation.
#[verifier::external_body]
fn share<T>(a: &Arc<T>) -> (r: Arc<T>)
    ensures
        r == *a,
{
    Arc::clone(a)
}

fn share_item(item: &LoadItem) -> (r: LoadItem)
    ensures
        r == *item,
{
    (item.0, item.1, ResolvedWire { block: share(&item.2.block), pres: share(&item.2.pres) })
}

/// Soft cap on inputs of one batch.
pub fn confirm_batch_max_inputs() -> (n: u32)
    ensures
        n == CONFIRM_BATCH_INPUTS_DEFAULT,
{
    CONFIRM_BATCH_INPUTS_DEFAULT
}

/// Inputs over transactions, stopping at the largest count.
pub open spec fn inputs_in(txs: Seq<WireTx>) -> u32
    decreases txs.len(),
{
    if txs.len() == 0 {
        0
    } else {
        sat_add32(inputs_in(txs.drop_last()), txs.last().inputs@.len() as u32)
    }
}

/// Inputs of a block: what a packed run is metered by.
pub fn block_input_count(block: &WireBlock) -> (n: u32)
    ensures
        n == inputs_in(block.txs@),
{
    let mut n: u32 = 0;
    let mut i: usize = 0;
    assert(block.txs@.take(0) =~= Seq::<WireTx>::empty());
    while i < block.txs.len()
        invariant
            i <= block.txs@.len(),
            n == inputs_in(block.txs@.take(i as int)),
        decreases block.txs@.len() - i,
    {
        n = n.saturating_add(block.txs[i].inputs.len() as u32);
        assert(block.txs@.take(i + 1).drop_last() =~= block.txs@.take(i as int));
        i = i + 1;
    }
    assert(block.txs@.take(i as int) =~= block.txs@);
    n
}

/// Does a packed run end after a block that left it at these sums?
pub open spec fn run_full(sum_inputs: u32, n_blocks: int, soft_max_inputs: u32, hard_max_blocks: int) -> bool {
    n_blocks >= hard_max_blocks || sum_inputs > soft_max_inputs
}

/// Does a packed run end after a block that left it at these sums? The block that
/// goes over the soft cap is still part of the run.
pub fn pack_stop_after(
    sum_inputs: u32,
    n_blocks: usize,
    soft_max_inputs: u32,
    hard_max_blocks: usize,
) -> (b: bool)
    ensures
        b == run_full(sum_inputs, n_blocks as int, soft_max_inputs, hard_max_blocks as int),
{
    n_blocks >= hard_max_blocks || sum_inputs > soft_max_inputs
}

/// The sum of `n` counts from `i` on, stopping at the largest count.
pub open spec fn packed_sum(counts: Seq<u32>, i: int, n: int) -> u32
    decreases n,
{
    if n <= 0 {
        0
    } else {
        sat_add32(packed_sum(counts, i, n - 1), counts[i + n - 1])
    }
}

/// Does a batch that starts at `i` end after `n` blocks? At the end of the wave, at
/// a cap, and where the next block is of the other kind.
pub open spec fn part_ends(
    counts: Seq<u32>,
    kinds: Seq<bool>,
    soft: u32,
    hard: usize,
    i: int,
    n: int,
) -> bool {
    ||| i + n >= counts.len()
    ||| run_full(packed_sum(counts, i, n), n, soft, hard as int)
    ||| kinds.len() > 0 && kinds[i + n] != kinds[i]
}

/// Is `n` the length of the batch that starts at `i`: the first length at which it
/// ends?
pub open spec fn is_part(
    counts: Seq<u32>,
    kinds: Seq<bool>,
    soft: u32,
    hard: usize,
    i: int,
    n: int,
) -> bool {
    &&& 0 < n && i + n <= counts.len()
    &&& part_ends(counts, kinds, soft, hard, i, n)
    &&& forall|m: int| 0 < m < n ==> !(#[trigger] part_ends(counts, kinds, soft, hard, i, m))
}

/// The sum of the first `j` lengths.
pub open spec fn start_of(parts: Seq<usize>, j: int) -> int
    decreases j,
{
    if j <= 0 {
        0
    } else {
        start_of(parts, j - 1) + parts[j - 1]
    }
}

/// Is `parts[j]` the length of the batch that starts where the earlier ones end?
pub open spec fn part_at(
    counts: Seq<u32>,
    kinds: Seq<bool>,
    soft: u32,
    hard: usize,
    parts: Seq<usize>,
    j: int,
) -> bool {
    is_part(counts, kinds, soft, hard, start_of(parts, j), parts[j] as int)
}

/// Are `parts` the batch lengths of a whole wave, in order?
pub open spec fn is_split(
    counts: Seq<u32>,
    kinds: Seq<bool>,
    soft: u32,
    hard: usize,
    parts: Seq<usize>,
) -> bool {
    &&& start_of(parts, parts.len() as int) == counts.len()
    &&& forall|j: int|
        0 <= j < parts.len() ==> #[trigger] part_at(counts, kinds, soft, hard, parts, j)
}

proof fn lemma_start_same(a: Seq<usize>, b: Seq<usize>, j: int)
    requires
        0 <= j <= a.len(),
        j <= b.len(),
        forall|k: int| 0 <= k < j ==> a[k] == b[k],
    ensures
        start_of(a, j) == start_of(b, j),
    decreases j,
{
    if j > 0 {
        lemma_start_same(a, b, j - 1);
    }
}

/// Cut a wave into batch lengths: the soft input cap, the hard block cap, and every
/// change of `has_body` end a batch. `has_body` goes with `input_counts` height by
/// height; an empty one leaves the kinds out of it.
pub fn split_wave_into_load_batches_kind(
    input_counts: &[u32],
    has_body: &[bool],
    soft_max_inputs: u32,
    hard_max_blocks: usize,
) -> (out: Vec<usize>)
    requires
        has_body@.len() == 0 || has_body@.len() == input_counts@.len(),
    ensures
        is_split(input_counts@, has_body@, soft_max_inputs, hard_max_blocks, out@),
{
    let total: usize = input_counts.len();
    let kinds: usize = has_body.len();
    let mut out: Vec<usize> = Vec::new();
    let mut i: usize = 0;
    while i < total
        invariant
            total == input_counts@.len(),
            kinds == has_body@.len(),
            kinds == 0 || kinds == total,
            i <= total,
            start_of(out@, out@.len() as int) == i,
            forall|j: int|
                0 <= j < out@.len() ==> #[trigger] part_at(
                    input_counts@,
                    has_body@,
                    soft_max_inputs,
                    hard_max_blocks,
                    out@,
                    j,
                ),
        decreases total - i,
    {
        let mut sum: u32 = 0u32.saturating_add(input_counts[i]);
        let mut n: usize = 1;
        assert(packed_sum(input_counts@, i as int, 1) == sum) by {
            assert(packed_sum(input_counts@, i as int, 0) == 0);
        }
        let mut going = true;
        while going
            invariant
                total == input_counts@.len(),
                kinds == has_body@.len(),
                kinds == 0 || kinds == total,
                i < total,
                0 < n,
                i + n <= total,
                sum == packed_sum(input_counts@, i as int, n as int),
                forall|m: int|
                    0 < m < n ==> !(#[trigger] part_ends(
                        input_counts@,
                        has_body@,
                        soft_max_inputs,
                        hard_max_blocks,
                        i as int,
                        m,
                    )),
                !going ==> part_ends(
                    input_counts@,
                    has_body@,
                    soft_max_inputs,
                    hard_max_blocks,
                    i as int,
                    n as int,
                ),
            decreases total - i - n + (if going { 1int } else { 0int }),
        {
            if pack_stop_after(sum, n, soft_max_inputs, hard_max_blocks) || i + n >= total || (kinds
                > 0 && has_body[i + n] != has_body[i]) {
                going = false;
            } else {
                sum = sum.saturating_add(input_counts[i + n]);
                n = n + 1;
            }
        }
        let ghost was = out@;
        out.push(n);
        proof {
            assert forall|j: int| 0 <= j < out@.len() implies #[trigger] part_at(
                input_counts@,
                has_body@,
                soft_max_inputs,
                hard_max_blocks,
                out@,
                j,
            ) by {
                lemma_start_same(was, out@, j);
                if j < was.len() {
                    assert(part_at(
                        input_counts@,
                        has_body@,
                        soft_max_inputs,
                        hard_max_blocks,
                        was,
                        j,
                    ));
                }
            }
            lemma_start_same(was, out@, was.len() as int);
        }
        i = i + n;
    }
    out
}

/// Every batch of a split wave is of one kind, has no more blocks than the hard cap
/// (or one), and is within the soft cap but for its last block.
pub proof fn law_batches_respect_caps_and_kind(
    counts: Seq<u32>,
    kinds: Seq<bool>,
    soft: u32,
    hard: usize,
    parts: Seq<usize>,
    j: int,
)
    requires
        kinds.len() == 0 || kinds.len() == counts.len(),
        is_split(counts, kinds, soft, hard, parts),
        0 <= j < parts.len(),
    ensures
        parts[j] <= hard || parts[j] == 1,
        packed_sum(counts, start_of(parts, j), parts[j] - 1) <= soft,
        kinds.len() > 0 ==> forall|k: int|
            start_of(parts, j) <= k < start_of(parts, j) + parts[j] ==> #[trigger] kinds[k]
                == kinds[start_of(parts, j)],
{
    let i = start_of(parts, j);
    let n = parts[j] as int;
    assert(part_at(counts, kinds, soft, hard, parts, j));
    if n > 1 {
        assert(!part_ends(counts, kinds, soft, hard, i, n - 1));
    }
    if kinds.len() > 0 {
        assert forall|k: int| i <= k < i + n implies #[trigger] kinds[k] == kinds[i] by {
            if k > i {
                assert(!part_ends(counts, kinds, soft, hard, i, k - i));
            }
        }
    }
}

/// A wave is split in one way only.
pub proof fn law_split_is_unique(
    counts: Seq<u32>,
    kinds: Seq<bool>,
    soft: u32,
    hard: usize,
    a: Seq<usize>,
    b: Seq<usize>,
)
    requires
        is_split(counts, kinds, soft, hard, a),
        is_split(counts, kinds, soft, hard, b),
    ensures
        a == b,
{
    let n = if a.len() < b.len() {
        a.len() as int
    } else {
        b.len() as int
    };
    lemma_split_prefix(counts, kinds, soft, hard, a, b, n);
    if a.len() < b.len() {
        lemma_start_same(a, b, a.len() as int);
        assert(part_at(counts, kinds, soft, hard, b, a.len() as int));
    }
    if b.len() < a.len() {
        lemma_start_same(a, b, b.len() as int);
        assert(part_at(counts, kinds, soft, hard, a, b.len() as int));
    }
    assert(a =~= b);
}

proof fn lemma_split_prefix(
    counts: Seq<u32>,
    kinds: Seq<bool>,
    soft: u32,
    hard: usize,
    a: Seq<usize>,
    b: Seq<usize>,
    n: int,
)
    requires
        is_split(counts, kinds, soft, hard, a),
        is_split(counts, kinds, soft, hard, b),
        0 <= n <= a.len(),
        n <= b.len(),
    ensures
        forall|k: int| 0 <= k < n ==> a[k] == b[k],
    decreases n,
{
    if n > 0 {
        lemma_split_prefix(counts, kinds, soft, hard, a, b, n - 1);
        lemma_start_same(a, b, n - 1);
        assert(part_at(counts, kinds, soft, hard, a, n - 1));
        assert(part_at(counts, kinds, soft, hard, b, n - 1));
        lemma_part_unique(
            counts,
            kinds,
            soft,
            hard,
            start_of(a, n - 1),
            a[n - 1] as int,
            b[n - 1] as int,
        );
    }
}

proof fn lemma_part_unique(
    counts: Seq<u32>,
    kinds: Seq<bool>,
    soft: u32,
    hard: usize,
    i: int,
    n: int,
    m: int,
)
    requires
        is_part(counts, kinds, soft, hard, i, n),
        is_part(counts, kinds, soft, hard, i, m),
    ensures
        n == m,
{
    if n < m {
        assert(!part_ends(counts, kinds, soft, hard, i, n));
    }
    if m < n {
        assert(!part_ends(counts, kinds, soft, hard, i, m));
    }
}

/// Where a parent transaction sits: its row, and the place of its outputs.
pub type ParentRow = (Option<u64>, (u64, u32));

/// What a wave knows of the parents it spends.
pub struct BatchParentIds {
    /// Row of each parent, shared by all batches of the wave.
    pub ids: Arc<KeyMap<TxId, ParentRow>>,
    /// Spent outputs per row, shared by all batches of the wave.
    pub spent: Arc<HashMap<u64, Vec<u32>>>,
    /// Outputs that this batch needs, per row, in ascending order.
    pub need_vouts: HashMap<u64, Vec<u32>>,
}

/// The row and output that `op` spends, where the wave knows the parent's row.
pub open spec fn spend_of(op: OutPoint, ids: Map<TxId, ParentRow>) -> Option<(u64, u32)> {
    if op.null() || !ids.contains_key(op.txid) {
        None
    } else {
        match ids[op.txid].0 {
            Some(id) => Some((id, op.vout)),
            None => None,
        }
    }
}

/// What a transaction's inputs spend, in order.
pub open spec fn tx_spends(inputs: Seq<OutPoint>, ids: Map<TxId, ParentRow>) -> Seq<(u64, u32)>
    decreases inputs.len(),
{
    if inputs.len() == 0 {
        Seq::empty()
    } else {
        let before = tx_spends(inputs.drop_last(), ids);
        match spend_of(inputs.last(), ids) {
            Some(p) => before.push(p),
            None => before,
        }
    }
}

/// What a block's transactions spend, in order.
pub open spec fn block_spends(txs: Seq<WireTx>, ids: Map<TxId, ParentRow>) -> Seq<(u64, u32)>
    decreases txs.len(),
{
    if txs.len() == 0 {
        Seq::empty()
    } else {
        block_spends(txs.drop_last(), ids) + tx_spends(txs.last().inputs@, ids)
    }
}

/// What a run of blocks spends, in order.
pub open spec fn run_spends(items: Seq<LoadItem>, ids: Map<TxId, ParentRow>) -> Seq<(u64, u32)>
    decreases items.len(),
{
    if items.len() == 0 {
        Seq::empty()
    } else {
        run_spends(items.drop_last(), ids) + block_spends(items.last().2.block.txs@, ids)
    }
}

/// Does `s` go up, with nothing twice?
pub open spec fn rising(s: Seq<u32>) -> bool {
    forall|i: int, j: int| 0 <= i < j < s.len() ==> s[i] < s[j]
}

/// Does `need` list exactly the spends of `pairs`: per row the outputs, ascending,
/// each once?
pub open spec fn lists_spends(need: Map<u64, Vec<u32>>, pairs: Seq<(u64, u32)>) -> bool {
    &&& forall|id: u64| #[trigger] need.contains_key(id) ==> rising(need[id]@) && need[id]@.len() > 0
    &&& forall|id: u64, v: u32| #[trigger]
        pairs.contains((id, v)) <==> need.contains_key(id) && need[id]@.contains(v)
}

/// Is `p` what a batch of `items` needs to know of its wave's parents?
pub open spec fn is_chunk_of(p: BatchParentIds, wave: BatchParentIds, items: Seq<LoadItem>) -> bool {
    &&& p.ids == wave.ids
    &&& p.spent == wave.spent
    &&& lists_spends(p.need_vouts@, run_spends(items, wave.ids@))
}

fn insert_rising(list: &mut Vec<u32>, v: u32)
    requires
        rising(old(list)@),
    ensures
        rising(final(list)@),
        final(list)@.len() > 0,
        forall|x: u32| #[trigger] final(list)@.contains(x) <==> old(list)@.contains(x) || x == v,
{
    let n: usize = list.len();
    let mut at: usize = 0;
    while at < n && list[at] < v
        invariant
            n == list@.len(),
            at <= n,
            list@ == old(list)@,
            rising(list@),
            forall|j: int| 0 <= j < at ==> list@[j] < v,
        decreases n - at,
    {
        at = at + 1;
    }
    if at < n && list[at] == v {
        assert(list@[at as int] == v);
        return;
    }
    let ghost was = list@;
    list.insert(at, v);
    proof {
        assert(list@ =~= was.insert(at as int, v));
        assert(rising(list@)) by {
            assert forall|i: int, j: int| 0 <= i < j < list@.len() implies list@[i] < list@[j] by {
                let i2 = if i < at { i } else { i - 1 };
                let j2 = if j < at { j } else { j - 1 };
                if i == at {
                    if j2 != at {
                        assert(was[at as int] < was[j2]);
                    }
                } else if j != at {
                    assert(was[i2] < was[j2]);
                }
            }
        }
        assert forall|x: u32| #[trigger] list@.contains(x) <==> was.contains(x) || x == v by {
            if list@.contains(x) && x != v {
                let j = choose|j: int| 0 <= j < list@.len() && list@[j] == x;
                let j2 = if j < at { j } else { j - 1 };
                assert(was[j2] == x);
            }
            if was.contains(x) {
                let j = choose|j: int| 0 <= j < was.len() && was[j] == x;
                let j2 = if j < at { j } else { j + 1 };
                assert(list@[j2] == x);
            }
            if x == v {
                assert(list@[at as int] == v);
            }
        }
    }
}

fn gather_tx(inputs: &Vec<OutPoint>, ids: &KeyMap<TxId, ParentRow>, out: &mut Vec<(u64, u32)>)
    ensures
        final(out)@ == old(out)@ + tx_spends(inputs@, ids@),
{
    let ghost start = out@;
    let mut i: usize = 0;
    assert(inputs@.take(0) =~= Seq::<OutPoint>::empty());
    assert(out@ =~= start + tx_spends(inputs@.take(0), ids@));
    while i < inputs.len()
        invariant
            i <= inputs@.len(),
            out@ == start + tx_spends(inputs@.take(i as int), ids@),
        decreases inputs@.len() - i,
    {
        let op: OutPoint = inputs[i];
        assert(inputs@.take(i + 1).drop_last() =~= inputs@.take(i as int));
        if !op.is_null() {
            if let Some(row) = ids.get(&op.txid) {
                if let Some(id) = row.0 {
                    out.push((id, op.vout));
                }
            }
        }
        i = i + 1;
        assert(out@ =~= start + tx_spends(inputs@.take(i as int), ids@));
    }
    assert(inputs@.take(i as int) =~= inputs@);
}

fn gather_block(txs: &Vec<WireTx>, ids: &KeyMap<TxId, ParentRow>, out: &mut Vec<(u64, u32)>)
    ensures
        final(out)@ == old(out)@ + block_spends(txs@, ids@),
{
    let ghost start = out@;
    let mut i: usize = 0;
    assert(txs@.take(0) =~= Seq::<WireTx>::empty());
    assert(out@ =~= start + block_spends(txs@.take(0), ids@));
    while i < txs.len()
        invariant
            i <= txs@.len(),
            out@ == start + block_spends(txs@.take(i as int), ids@),
        decreases txs@.len() - i,
    {
        assert(txs@.take(i + 1).drop_last() =~= txs@.take(i as int));
        gather_tx(&txs[i].inputs, ids, out);
        i = i + 1;
        assert(out@ =~= start + block_spends(txs@.take(i as int), ids@));
    }
    assert(txs@.take(i as int) =~= txs@);
}

fn gather_run(items: &Vec<LoadItem>, ids: &KeyMap<TxId, ParentRow>) -> (out: Vec<(u64, u32)>)
    ensures
        out@ == run_spends(items@, ids@),
{
    let mut out: Vec<(u64, u32)> = Vec::new();
    let mut i: usize = 0;
    assert(items@.take(0) =~= Seq::<LoadItem>::empty());
    while i < items.len()
        invariant
            i <= items@.len(),
            out@ == run_spends(items@.take(i as int), ids@),
        decreases items@.len() - i,
    {
        assert(items@.take(i + 1).drop_last() =~= items@.take(i as int));
        gather_block(&items[i].2.block.txs, ids, &mut out);
        i = i + 1;
    }
    assert(items@.take(i as int) =~= items@);
    out
}

fn list_spends(pairs: &Vec<(u64, u32)>) -> (need: HashMap<u64, Vec<u32>>)
    ensures
        lists_spends(need@, pairs@),
{
    let mut need: HashMap<u64, Vec<u32>> = HashMap::new();
    let mut i: usize = 0;
    while i < pairs.len()
        invariant
            i <= pairs@.len(),
            lists_spends(need@, pairs@.take(i as int)),
        decreases pairs@.len() - i,
    {
        let id: u64 = pairs[i].0;
        let v: u32 = pairs[i].1;
        let ghost before = need@;
        let ghost seen = pairs@.take(i as int);
        let mut list: Vec<u32> = match need.remove(&id) {
            Some(l) => l,
            None => Vec::new(),
        };
        let ghost had = list@;
        insert_rising(&mut list, v);
        let ghost now = list@;
        need.insert(id, list);
        proof {
            let next = pairs@.take(i + 1);
            assert(next =~= seen.push((id, v)));
            assert forall|d: u64, x: u32| #[trigger]
                next.contains((d, x)) <==> need@.contains_key(d) && need@[d]@.contains(x) by {
                if seen.contains((d, x)) {
                    let j = choose|j: int| 0 <= j < seen.len() && seen[j] == (d, x);
                    assert(next[j] == (d, x));
                }
                if next.contains((d, x)) && (d, x) != (id, v) {
                    let j = choose|j: int| 0 <= j < next.len() && next[j] == (d, x);
                    assert(seen[j] == (d, x));
                }
                assert(next[i as int] == (id, v));
                if d == id {
                    assert(now.contains(x) <==> had.contains(x) || x == v);
                    if !before.contains_key(id) {
                        assert(!had.contains(x));
                    }
                }
            }
        }
        i = i + 1;
    }
    assert(pairs@.take(i as int) =~= pairs@);
    need
}

/// What a load batch needs to know of its wave's parents: the wave's own maps, and
/// the outputs that this batch spends.
pub fn chunk_parent_ids(wave: &BatchParentIds, items: &Vec<LoadItem>) -> (p: BatchParentIds)
    ensures
        is_chunk_of(p, *wave, items@),
{
    let pairs = gather_run(items, &wave.ids);
    let need_vouts = list_spends(&pairs);
    BatchParentIds { ids: share(&wave.ids), spent: share(&wave.spent), need_vouts }
}

/// One load-sized run of a wave, in height order.
pub struct LoadBatch {
    pub items: Vec<LoadItem>,
    pub parent_ids: Option<BatchParentIds>,
    /// Set on the last batch of a wave: after this batch has read them, in-flight
    /// layers below this height are dropped.
    pub drop_inflight_below: Option<u32>,
    /// The feed's epoch when the batch was made.
    pub epoch: u64,
}

/// The ranges of at most `left` batches: the lengths from `k` on, from `i` on, cut
/// off at the end of the wave. An empty range ends it.
pub open spec fn cuts_from(parts: Seq<usize>, k: int, i: int, total: int, left: int) -> Seq<(int, int)>
    decreases parts.len() - k,
{
    if k < 0 || k >= parts.len() || left <= 0 {
        Seq::empty()
    } else {
        let end = if i + parts[k] < total {
            i + parts[k]
        } else {
            total
        };
        if i >= end {
            Seq::empty()
        } else {
            seq![(i, end)] + cuts_from(parts, k + 1, end, total, left - 1)
        }
    }
}

/// Is `b` the batch of `items` between the ends of `cut`?
pub open spec fn is_batch(
    b: LoadBatch,
    items: Seq<LoadItem>,
    cut: (int, int),
    wave: BatchParentIds,
    below: Option<u32>,
    epoch: u64,
) -> bool {
    &&& b.items@ == items.subrange(cut.0, cut.1)
    &&& b.parent_ids is Some
    &&& is_chunk_of(b.parent_ids->0, wave, items.subrange(cut.0, cut.1))
    &&& b.drop_inflight_below == below
    &&& b.epoch == epoch
}

/// Are `out` the batches of `cuts`, the last of them with `drop_below`?
pub open spec fn are_batches(
    out: Seq<LoadBatch>,
    items: Seq<LoadItem>,
    cuts: Seq<(int, int)>,
    wave: BatchParentIds,
    drop_below: Option<u32>,
    epoch: u64,
) -> bool {
    &&& out.len() == cuts.len()
    &&& forall|j: int|
        0 <= j < out.len() ==> is_batch(
            #[trigger] out[j],
            items,
            cuts[j],
            wave,
            if j == out.len() - 1 {
                drop_below
            } else {
                None
            },
            epoch,
        )
}

/// Cut a wave into at most `remaining` load batches of the given lengths. The last
/// one sent carries `drop_below`.
pub fn load_batches_from_wave(
    items: &Vec<LoadItem>,
    parts: &Vec<usize>,
    remaining: usize,
    wave_ids: &BatchParentIds,
    drop_below: Option<u32>,
) -> (out: Vec<LoadBatch>)
    ensures
        are_batches(
            out@,
            items@,
            cuts_from(parts@, 0, 0, items@.len() as int, remaining as int),
            *wave_ids,
            drop_below,
            0,
        ),
{
    let total: usize = items.len();
    let mut out: Vec<LoadBatch> = Vec::new();
    let mut i: usize = 0;
    let mut k: usize = 0;
    let mut going = true;
    let ghost all = cuts_from(parts@, 0, 0, total as int, remaining as int);
    let ghost mut done: Seq<(int, int)> = Seq::empty();
    assert(done + all =~= all);
    while going && k < parts.len()
        invariant
            total == items@.len(),
            i <= total,
            k <= parts@.len(),
            out@.len() == done.len(),
            out@.len() <= remaining,
            going ==> done + cuts_from(
                parts@,
                k as int,
                i as int,
                total as int,
                remaining - out@.len(),
            ) == all,
            !going ==> done == all,
            forall|j: int|
                0 <= j < out@.len() ==> is_batch(
                    #[trigger] out@[j],
                    items@,
                    done[j],
                    *wave_ids,
                    None,
                    0,
                ),
        decreases parts@.len() - k, (if going { 1int } else { 0int }),
    {
        if out.len() >= remaining {
            going = false;
            assert(done + Seq::<(int, int)>::empty() =~= done);
            continue ;
        }
        let n: usize = parts[k];
        let end: usize = if n < total - i {
            i + n
        } else {
            total
        };
        if i >= end {
            going = false;
            assert(done + Seq::<(int, int)>::empty() =~= done);
            continue ;
        }
        let mut chunk: Vec<LoadItem> = Vec::new();
        let mut c: usize = i;
        while c < end
            invariant
                i <= c <= end,
                end <= items@.len(),
                chunk@ == items@.subrange(i as int, c as int),
            decreases end - c,
        {
            chunk.push(share_item(&items[c]));
            c = c + 1;
            assert(chunk@ =~= items@.subrange(i as int, c as int));
        }
        let ids = chunk_parent_ids(wave_ids, &chunk);
        out.push(
            LoadBatch { items: chunk, parent_ids: Some(ids), drop_inflight_below: None, epoch: 0 },
        );
        proof {
            let cut = (i as int, end as int);
            let rest = cuts_from(
                parts@,
                k + 1,
                end as int,
                total as int,
                remaining - (out@.len() - 1) - 1,
            );
            assert(done + (seq![cut] + rest) =~= done.push(cut) + rest);
            done = done.push(cut);
        }
        i = end;
        k = k + 1;
    }
    proof {
        if going {
            assert(done + Seq::<(int, int)>::empty() =~= done);
        }
    }
    let n: usize = out.len();
    if n > 0 {
        out[n - 1].drop_inflight_below = drop_below;
    }
    out
}

/// Wire bytes of a run, stopping at the largest count.
pub open spec fn run_bytes(items: Seq<LoadItem>) -> usize
    decreases items.len(),
{
    if items.len() == 0 {
        0
    } else {
        let sum = run_bytes(items.drop_last()) + items.last().2.block.payload@.len();
        if sum > usize::MAX {
            usize::MAX
        } else {
            sum as usize
        }
    }
}

/// Wire bytes of a run.
pub fn batch_wire_bytes(items: &Vec<LoadItem>) -> (n: usize)
    ensures
        n == run_bytes(items@),
{
    let mut n: usize = 0;
    let mut i: usize = 0;
    assert(items@.take(0) =~= Seq::<LoadItem>::empty());
    while i < items.len()
        invariant
            i <= items@.len(),
            n == run_bytes(items@.take(i as int)),
        decreases items@.len() - i,
    {
        assert(items@.take(i + 1).drop_last() =~= items@.take(i as int));
        n = n.saturating_add(items[i].2.block.payload.len());
        i = i + 1;
    }
    assert(items@.take(i as int) =~= items@);
    n
}

/// What the stamp step takes for a run: each block with what lookup worked out for
/// it, so that load does not work it out again.
pub fn load_stamp_items(items: &Vec<LoadItem>) -> (r: Vec<StampItem>)
    ensures
        r@.len() == items@.len(),
        forall|i: int|
            0 <= i < r@.len() ==> #[trigger] r@[i] == (
                items@[i].0,
                items@[i].2.block,
                Some(items@[i].2.pres),
            ),
{
    let mut r: Vec<StampItem> = Vec::new();
    let mut i: usize = 0;
    while i < items.len()
        invariant
            i <= items@.len(),
            r@.len() == i,
            forall|j: int|
                0 <= j < i ==> #[trigger] r@[j] == (
                    items@[j].0,
                    items@[j].2.block,
                    Some(items@[j].2.pres),
                ),
        decreases items@.len() - i,
    {
        r.push((items[i].0, share(&items[i].2.block), Some(share(&items[i].2.pres))));
        i = i + 1;
    }
    r
}

/// What the body queue says of one height.
#[derive(Clone, Copy, Debug, PartialEq, Eq, Structural)]
pub struct QueueMeta {
    pub height: u32,
    /// Every parent that lookup had to find is found.
    pub resolve_complete: bool,
}

/// Is this height resolved, above the tip, and not claimed?
pub open spec fn counts_as_ready(m: QueueMeta, path_lo: u32, inflight: Set<u32>) -> bool {
    m.height >= path_lo && !inflight.contains(m.height) && m.resolve_complete
}

/// How many of the rows count as ready.
pub open spec fn ready_in(rows: Seq<QueueMeta>, path_lo: u32, inflight: Set<u32>) -> nat
    decreases rows.len(),
{
    if rows.len() == 0 {
        0
    } else {
        ready_in(rows.drop_last(), path_lo, inflight) + (if counts_as_ready(
            rows.last(),
            path_lo,
            inflight,
        ) {
            1nat
        } else {
            0
        })
    }
}

/// How many queued heights from `path_lo` on are resolved and not claimed.
pub fn confirm_ready_count(rows: &Vec<QueueMeta>, path_lo: u32, inflight: &HashSet<u32>) -> (n: usize)
    ensures
        n == ready_in(rows@, path_lo, inflight@),
{
    let mut n: usize = 0;
    let mut i: usize = 0;
    assert(rows@.take(0) =~= Seq::<QueueMeta>::empty());
    while i < rows.len()
        invariant
            i <= rows@.len(),
            n <= i,
            n == ready_in(rows@.take(i as int), path_lo, inflight@),
        decreases rows@.len() - i,
    {
        let m: QueueMeta = rows[i];
        assert(rows@.take(i + 1).drop_last() =~= rows@.take(i as int));
        if m.height >= path_lo && !inflight.contains(&m.height) && m.resolve_complete {
            n = n + 1;
        }
        i = i + 1;
    }
    assert(rows@.take(i as int) =~= rows@);
    n
}

} // verus!

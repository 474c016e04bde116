//! A load batch knows exactly the outputs that its blocks spend.
use vstd::prelude::*;
use crate::confirm_wave::{
    block_spends, is_chunk_of, run_spends, tx_spends, BatchParentIds, LoadItem, OutPoint, ParentRow,
    TxId, WireTx,
};

verus! {

/// Does this input spend output `vout` of the parent in row `id`? The coinbase marker spends
/// nothing.
pub open spec fn input_spends(op: OutPoint, ids: Map<TxId, ParentRow>, id: u64, vout: u32) -> bool {
    &&& !(op.vout == 0xffff_ffff && op.txid.w0 == 0 && op.txid.w1 == 0 && op.txid.w2 == 0
        && op.txid.w3 == 0)
    &&& ids.contains_key(op.txid)
    &&& ids[op.txid].0 == Some(id)
    &&& op.vout == vout
}

/// Does some input of some transaction of some block of `items` spend output `vout` of the
/// parent in row `id`?
pub open spec fn items_spend(items: Seq<LoadItem>, ids: Map<TxId, ParentRow>, id: u64, vout: u32) -> bool {
    exists|b: int, t: int, i: int| #[trigger] spends_at(items, ids, id, vout, b, t, i)
}

/// Is it input `i` of transaction `t` of block `b`?
pub open spec fn spends_at(
    items: Seq<LoadItem>,
    ids: Map<TxId, ParentRow>,
    id: u64,
    vout: u32,
    b: int,
    t: int,
    i: int,
) -> bool {
    &&& 0 <= b < items.len()
    &&& 0 <= t < items[b].2.block.txs@.len()
    &&& 0 <= i < items[b].2.block.txs@[t].inputs@.len()
    &&& input_spends(items[b].2.block.txs@[t].inputs@[i], ids, id, vout)
}

proof fn lemma_pushed<A>(s: Seq<A>, x: A, y: A)
    ensures
        s.push(x).contains(y) <==> s.contains(y) || y == x,
{
    assert(s.push(x)[s.len() as int] == x);
    if s.contains(y) {
        let j = choose|j: int| 0 <= j < s.len() && s[j] == y;
        assert(s.push(x)[j] == y);
    }
    if s.push(x).contains(y) {
        let j = choose|j: int| 0 <= j < s.push(x).len() && s.push(x)[j] == y;
        if j < s.len() {
            assert(s[j] == y);
        }
    }
}

proof fn lemma_joined<A>(a: Seq<A>, b: Seq<A>, y: A)
    ensures
        (a + b).contains(y) <==> a.contains(y) || b.contains(y),
{
    if a.contains(y) {
        let j = choose|j: int| 0 <= j < a.len() && a[j] == y;
        assert((a + b)[j] == y);
    }
    if b.contains(y) {
        let j = choose|j: int| 0 <= j < b.len() && b[j] == y;
        assert((a + b)[a.len() + j] == y);
    }
    if (a + b).contains(y) {
        let j = choose|j: int| 0 <= j < (a + b).len() && (a + b)[j] == y;
        if j < a.len() {
            assert(a[j] == y);
        } else {
            assert(b[j - a.len()] == y);
        }
    }
}

proof fn lemma_tx(inputs: Seq<OutPoint>, ids: Map<TxId, ParentRow>, id: u64, vout: u32)
    ensures
        tx_spends(inputs, ids).contains((id, vout)) <==> exists|i: int|
            0 <= i < inputs.len() && input_spends(#[trigger] inputs[i], ids, id, vout),
    decreases inputs.len(),
{
    if inputs.len() > 0 {
        let before = inputs.drop_last();
        let last = inputs.last();
        lemma_tx(before, ids, id, vout);
        assert(inputs[inputs.len() - 1] == last);
        assert forall|i: int| 0 <= i < before.len() implies before[i] == #[trigger] inputs[i] by {}
        if let Some(p) = crate::confirm_wave::spend_of(last, ids) {
            lemma_pushed(tx_spends(before, ids), p, (id, vout));
        }
        if tx_spends(before, ids).contains((id, vout)) {
            let i = choose|i: int|
                0 <= i < before.len() && input_spends(#[trigger] before[i], ids, id, vout);
            assert(input_spends(inputs[i], ids, id, vout));
        }
        if exists|i: int| 0 <= i < inputs.len() && input_spends(#[trigger] inputs[i], ids, id, vout) {
            let i = choose|i: int|
                0 <= i < inputs.len() && input_spends(#[trigger] inputs[i], ids, id, vout);
            if i < before.len() {
                assert(input_spends(before[i], ids, id, vout));
            }
        }
    }
}

proof fn lemma_block(txs: Seq<WireTx>, ids: Map<TxId, ParentRow>, id: u64, vout: u32)
    ensures
        block_spends(txs, ids).contains((id, vout)) <==> exists|t: int, i: int|
            0 <= t < txs.len() && 0 <= i < (#[trigger] txs[t]).inputs@.len() && input_spends(
                #[trigger] txs[t].inputs@[i],
                ids,
                id,
                vout,
            ),
    decreases txs.len(),
{
    if txs.len() > 0 {
        let before = txs.drop_last();
        let last = txs.last();
        lemma_block(before, ids, id, vout);
        lemma_tx(last.inputs@, ids, id, vout);
        lemma_joined(block_spends(before, ids), tx_spends(last.inputs@, ids), (id, vout));
        assert(txs[txs.len() - 1] == last);
        assert forall|t: int| 0 <= t < before.len() implies before[t] == #[trigger] txs[t] by {}
        if block_spends(before, ids).contains((id, vout)) {
            let (t, i) = choose|t: int, i: int|
                0 <= t < before.len() && 0 <= i < (#[trigger] before[t]).inputs@.len()
                    && input_spends(#[trigger] before[t].inputs@[i], ids, id, vout);
            assert(input_spends(txs[t].inputs@[i], ids, id, vout));
        }
        if tx_spends(last.inputs@, ids).contains((id, vout)) {
            let i = choose|i: int|
                0 <= i < last.inputs@.len() && input_spends(
                    #[trigger] last.inputs@[i],
                    ids,
                    id,
                    vout,
                );
            assert(input_spends(txs[txs.len() - 1].inputs@[i], ids, id, vout));
        }
        if exists|t: int, i: int|
            0 <= t < txs.len() && 0 <= i < (#[trigger] txs[t]).inputs@.len() && input_spends(
                #[trigger] txs[t].inputs@[i],
                ids,
                id,
                vout,
            ) {
            let (t, i) = choose|t: int, i: int|
                0 <= t < txs.len() && 0 <= i < (#[trigger] txs[t]).inputs@.len() && input_spends(
                    #[trigger] txs[t].inputs@[i],
                    ids,
                    id,
                    vout,
                );
            if t < before.len() {
                assert(input_spends(before[t].inputs@[i], ids, id, vout));
            } else {
                assert(input_spends(last.inputs@[i], ids, id, vout));
            }
        }
    }
}

proof fn lemma_run(items: Seq<LoadItem>, ids: Map<TxId, ParentRow>, id: u64, vout: u32)
    ensures
        run_spends(items, ids).contains((id, vout)) <==> items_spend(items, ids, id, vout),
    decreases items.len(),
{
    if items.len() > 0 {
        let before = items.drop_last();
        let last = items.last();
        let txs = last.2.block.txs@;
        lemma_run(before, ids, id, vout);
        lemma_block(txs, ids, id, vout);
        lemma_joined(run_spends(before, ids), block_spends(txs, ids), (id, vout));
        assert(items[items.len() - 1] == last);
        if items_spend(before, ids, id, vout) {
            let (b, t, i) = choose|b: int, t: int, i: int| #[trigger]
                spends_at(before, ids, id, vout, b, t, i);
            assert(spends_at(items, ids, id, vout, b, t, i));
        }
        if block_spends(txs, ids).contains((id, vout)) {
            let (t, i) = choose|t: int, i: int|
                0 <= t < txs.len() && 0 <= i < (#[trigger] txs[t]).inputs@.len() && input_spends(
                    #[trigger] txs[t].inputs@[i],
                    ids,
                    id,
                    vout,
                );
            assert(spends_at(items, ids, id, vout, items.len() - 1, t, i));
        }
        if items_spend(items, ids, id, vout) {
            let (b, t, i) = choose|b: int, t: int, i: int| #[trigger]
                spends_at(items, ids, id, vout, b, t, i);
            if b < before.len() {
                assert(spends_at(before, ids, id, vout, b, t, i));
            } else {
                assert(input_spends(txs[t].inputs@[i], ids, id, vout));
            }
        }
    } else {
        assert(!items_spend(items, ids, id, vout));
    }
}

/// What a batch needs of a parent is exactly what its blocks spend of it: an output is listed
/// under a row if and only if some input of the batch spends that very output of the parent
/// in that row. Each list goes up, with nothing twice, and what the wave knows is shared.
pub proof fn law_batch_needs_what_it_spends(
    p: BatchParentIds,
    wave: BatchParentIds,
    items: Seq<LoadItem>,
    id: u64,
    vout: u32,
)
    requires
        is_chunk_of(p, wave, items),
    ensures
        p.need_vouts@.contains_key(id) && p.need_vouts@[id]@.contains(vout) <==> items_spend(
            items,
            wave.ids@,
            id,
            vout,
        ),
        p.need_vouts@.contains_key(id) ==> forall|i: int, j: int|
            0 <= i < j < p.need_vouts@[id]@.len() ==> p.need_vouts@[id]@[i]
                < p.need_vouts@[id]@[j],
        p.ids == wave.ids,
        p.spent == wave.spent,
{
    lemma_run(items, wave.ids@, id, vout);
}

} // verus!

//! What the load thread remembers so that it can run ahead of the writer.
use vstd::prelude::*;
use crate::confirm_wave::TxId;
use crate::hash::BlockHash;
use crate::time::sat_add;

verus! {

/// The load thread's own high-water marks. The creates that are in flight stand in a
/// map beside it; its methods say what is to be noted there.
#[derive(Clone, Copy, Debug, PartialEq, Eq)]
pub struct LoadAheadState {
    /// The row that the next created transaction will get.
    pub next_tx_start: u64,
    /// Last block that was loaded, still in the pipeline or already committed.
    pub last_loaded: Option<(u32, BlockHash)>,
}

/// What one load starts from.
#[derive(Clone, Copy, Debug, PartialEq, Eq, Structural)]
pub struct LoadPipeline {
    pub path_lo: u32,
    /// Parent of the first block, where it is not the tip but a block in the
    /// pipeline.
    pub parent_hash: Option<BlockHash>,
    pub next_tx_start: u64,
}

/// An archived block with its creates: the row and the id of each transaction, as
/// far as the store could tell them.
pub struct ArchivedBlock {
    pub height: u32,
    pub hash: BlockHash,
    pub creates: Vec<(Option<u64>, Option<TxId>)>,
}

/// The id and row of a create, where both are known and the id is not blank.
pub open spec fn known_create(c: (Option<u64>, Option<TxId>)) -> Option<(TxId, u64)> {
    match c {
        (Some(id), Some(t)) => if t == BlockHash::spec_zero() {
            None
        } else {
            Some((t, id))
        },
        _ => None,
    }
}

/// The known creates of a list, in order.
pub open spec fn known_in(s: Seq<(Option<u64>, Option<TxId>)>) -> Seq<(TxId, u64)>
    decreases s.len(),
{
    if s.len() == 0 {
        Seq::empty()
    } else {
        match known_create(s.last()) {
            Some(p) => known_in(s.drop_last()).push(p),
            None => known_in(s.drop_last()),
        }
    }
}

/// The known creates of blocks, in order.
pub open spec fn creates_in(blocks: Seq<ArchivedBlock>) -> Seq<(TxId, u64)>
    decreases blocks.len(),
{
    if blocks.len() == 0 {
        Seq::empty()
    } else {
        creates_in(blocks.drop_last()) + known_in(blocks.last().creates@)
    }
}

/// The largest row of creates, zero where there are none.
pub open spec fn top_row(s: Seq<(TxId, u64)>) -> u64
    decreases s.len(),
{
    if s.len() == 0 {
        0
    } else if s.last().1 > top_row(s.drop_last()) {
        s.last().1
    } else {
        top_row(s.drop_last())
    }
}

/// The greatest height of blocks.
pub open spec fn top_height(s: Seq<ArchivedBlock>) -> Option<u32>
    decreases s.len(),
{
    if s.len() == 0 {
        None
    } else {
        match top_height(s.drop_last()) {
            Some(h) if h >= s.last().height => Some(h),
            _ => Some(s.last().height),
        }
    }
}

impl LoadAheadState {
    /// The state when nothing is in flight.
    pub open spec fn fresh(body_count: u64) -> LoadAheadState {
        LoadAheadState { next_tx_start: sat_add(body_count, 1), last_loaded: None }
    }

    /// The parent that a load from `path_lo` on builds on, where it is not the tip.
    pub open spec fn parent_for(self, path_lo: u32, store_path_lo: u32) -> Option<BlockHash> {
        match self.last_loaded {
            Some((h, hash)) => if path_lo != store_path_lo && h + 1 == path_lo {
                Some(hash)
            } else {
                None
            },
            None => None,
        }
    }

    /// The state once it was held against the stored rows and the tip.
    pub open spec fn synced(self, body_count: u64, tip_or_zero: u32) -> LoadAheadState {
        LoadAheadState {
            next_tx_start: if self.next_tx_start >= sat_add(body_count, 1) {
                self.next_tx_start
            } else {
                sat_add(body_count, 1)
            },
            last_loaded: match self.last_loaded {
                Some((h, hash)) => if h <= tip_or_zero {
                    None
                } else {
                    Some((h, hash))
                },
                None => None,
            },
        }
    }

    /// The state once a run with these planned rows was stamped.
    pub open spec fn stamped(self, planned: Seq<Option<u64>>, height: u32, hash: BlockHash) -> LoadAheadState {
        LoadAheadState {
            next_tx_start: if planned.len() > 0 && planned.last() is Some {
                sat_add(planned.last()->0, 1)
            } else {
                self.next_tx_start
            },
            last_loaded: Some((height, hash)),
        }
    }

    /// The state once a run of archived blocks was stamped.
    pub open spec fn archived(self, blocks: Seq<ArchivedBlock>) -> LoadAheadState {
        if creates_in(blocks).len() == 0 {
            self
        } else {
            LoadAheadState {
                next_tx_start: sat_add(top_row(creates_in(blocks)), 1),
                last_loaded: Some((blocks.last().height, blocks.last().hash)),
            }
        }
    }

    /// Nothing in flight; rows go on after the stored ones.
    pub fn new(body_count: u64) -> (s: Self)
        ensures
            s == LoadAheadState::fresh(body_count),
    {
        LoadAheadState { next_tx_start: body_count.saturating_add(1), last_loaded: None }
    }

    /// Rows go on after the stored ones where those have passed the mark; a last
    /// block that the tip has reached is forgotten.
    pub fn sync_body_hwm(&mut self, body_count: u64, tip_or_zero: u32)
        ensures
            *final(self) == old(self).synced(body_count, tip_or_zero),
    {
        let body_next: u64 = body_count.saturating_add(1);
        if self.next_tx_start < body_next {
            self.next_tx_start = body_next;
        }
        if let Some((h, _)) = self.last_loaded {
            if h <= tip_or_zero {
                self.last_loaded = None;
            }
        }
    }

    /// What a load from `path_lo` on starts from. `store_path_lo` is the height above
    /// the tip.
    pub fn pipeline_for(&self, path_lo: u32, store_path_lo: u32) -> (p: LoadPipeline)
        ensures
            p == (LoadPipeline {
                path_lo,
                parent_hash: self.parent_for(path_lo, store_path_lo),
                next_tx_start: self.next_tx_start,
            }),
    {
        let parent_hash = match self.last_loaded {
            Some((h, hash)) => if path_lo != store_path_lo && h < u32::MAX && h + 1 == path_lo {
                Some(hash)
            } else {
                None
            },
            None => None,
        };
        LoadPipeline { path_lo, parent_hash, next_tx_start: self.next_tx_start }
    }

    /// What stamping a run from `path_lo` on starts from: nothing where the run is below
    /// the height above the tip.
    pub fn stamp_pipeline(&self, path_lo: u32, store_path_lo: u32) -> (p: Option<LoadPipeline>)
        ensures
            p == (if path_lo < store_path_lo {
                None
            } else {
                Some(
                    LoadPipeline {
                        path_lo,
                        parent_hash: self.parent_for(path_lo, store_path_lo),
                        next_tx_start: self.next_tx_start,
                    },
                )
            }),
    {
        if path_lo < store_path_lo {
            None
        } else {
            Some(self.pipeline_for(path_lo, store_path_lo))
        }
    }

    /// A run was stamped. Rows go on after the last planned one. Tells whether the
    /// creates to note are the batch's own pins, one per planned row.
    pub fn note_lookup_ok(
        &mut self,
        planned_fks: &Vec<Option<u64>>,
        batch_pins: usize,
        last_height: u32,
        last_hash: BlockHash,
    ) -> (own_pins: bool)
        ensures
            own_pins == (batch_pins == planned_fks@.len()),
            *final(self) == old(self).stamped(planned_fks@, last_height, last_hash),
    {
        let n: usize = planned_fks.len();
        if n > 0 {
            if let Some(last) = planned_fks[n - 1] {
                self.next_tx_start = last.saturating_add(1);
            }
        }
        self.last_loaded = Some((last_height, last_hash));
        batch_pins == n
    }

    /// A run of archived blocks was stamped. Gives the creates to note and the
    /// height to note them at, so that later blocks find their parents in it. A run
    /// without known creates changes nothing.
    pub fn note_archived_creates(&mut self, blocks: &Vec<ArchivedBlock>) -> (r: (
        Vec<(TxId, u64)>,
        Option<u32>,
    ))
        ensures
            r.0@ == creates_in(blocks@),
            r.1 == top_height(blocks@),
            *final(self) == old(self).archived(blocks@),
    {
        let mut pairs: Vec<(TxId, u64)> = Vec::new();
        let mut top: Option<u32> = None;
        let mut i: usize = 0;
        assert(blocks@.take(0) =~= Seq::<ArchivedBlock>::empty());
        while i < blocks.len()
            invariant
                i <= blocks@.len(),
                pairs@ == creates_in(blocks@.take(i as int)),
                top == top_height(blocks@.take(i as int)),
            decreases blocks@.len() - i,
        {
            assert(blocks@.take(i + 1).drop_last() =~= blocks@.take(i as int));
            let height: u32 = blocks[i].height;
            top = match top {
                Some(h) if h >= height => Some(h),
                _ => Some(height),
            };
            append_known(&mut pairs, &blocks[i].creates);
            i = i + 1;
        }
        assert(blocks@.take(i as int) =~= blocks@);
        if pairs.len() == 0 {
            return (pairs, top);
        }
        let mut row: u64 = 0;
        let mut k: usize = 0;
        assert(pairs@.take(0) =~= Seq::<(TxId, u64)>::empty());
        while k < pairs.len()
            invariant
                k <= pairs@.len(),
                row == top_row(pairs@.take(k as int)),
            decreases pairs@.len() - k,
        {
            assert(pairs@.take(k + 1).drop_last() =~= pairs@.take(k as int));
            if pairs[k].1 > row {
                row = pairs[k].1;
            }
            k = k + 1;
        }
        assert(pairs@.take(k as int) =~= pairs@);
        self.next_tx_start = row.saturating_add(1);
        let n: usize = blocks.len();
        self.last_loaded = Some((blocks[n - 1].height, blocks[n - 1].hash));
        (pairs, top)
    }

    /// Start over after the stored rows; nothing is in flight any more.
    pub fn clear_all(&mut self, body_count: u64)
        ensures
            *final(self) == LoadAheadState::fresh(body_count),
    {
        self.next_tx_start = body_count.saturating_add(1);
        self.last_loaded = None;
    }

    /// The io session was recovered: rows that were planned ahead are void.
    pub fn on_uring_recover(&mut self, body_count: u64)
        ensures
            *final(self) == LoadAheadState::fresh(body_count),
    {
        self.clear_all(body_count);
    }
}

fn append_known(out: &mut Vec<(TxId, u64)>, creates: &Vec<(Option<u64>, Option<TxId>)>)
    ensures
        final(out)@ == old(out)@ + known_in(creates@),
{
    let ghost start = out@;
    let mut i: usize = 0;
    assert(creates@.take(0) =~= Seq::<(Option<u64>, Option<TxId>)>::empty());
    assert(out@ =~= start + known_in(creates@.take(0)));
    while i < creates.len()
        invariant
            i <= creates@.len(),
            out@ == start + known_in(creates@.take(i as int)),
        decreases creates@.len() - i,
    {
        assert(creates@.take(i + 1).drop_last() =~= creates@.take(i as int));
        if let (Some(id), Some(t)) = creates[i] {
            if !t.is_zero() {
                out.push((t, id));
            }
        }
        i = i + 1;
        assert(out@ =~= start + known_in(creates@.take(i as int)));
    }
    assert(creates@.take(i as int) =~= creates@);
}

} // verus!

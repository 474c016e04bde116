//! What the download side reads of the confirmed chain and of the body queue.
use vstd::prelude::*;
use crate::hash::BlockHash;
use crate::keyed::{keys_of, KeyMap, KeySet};
use std::collections::HashMap;

verus! {

/// Height and hash of the confirmed tip.
#[derive(Clone, Copy, Debug, PartialEq, Eq, Structural)]
pub struct ChainTip {
    pub height: u32,
    pub hash: BlockHash,
}

/// One queued body: whose it is, its header row, and the wire bytes.
pub struct QueuedBody {
    pub hash: BlockHash,
    pub header_fk: u64,
    pub payload: Vec<u8>,
}

/// [`QueuedBody`] as values.
#[verifier::ext_equal]
pub struct QueuedView {
    pub hash: BlockHash,
    pub header_fk: u64,
    pub payload: Seq<u8>,
}

impl View for QueuedBody {
    type V = QueuedView;

    open spec fn view(&self) -> QueuedView {
        QueuedView { hash: self.hash, header_fk: self.header_fk, payload: self.payload@ }
    }
}

/// The in-RAM body queue: at most one body per height, first come first kept.
pub struct BodyQueue {
    rows: HashMap<u32, QueuedBody>,
}

spec fn row_views(m: Map<u32, QueuedBody>) -> Map<u32, QueuedView> {
    Map::new(|h: u32| m.contains_key(h), |h: u32| m[h]@)
}

impl View for BodyQueue {
    type V = Map<u32, QueuedView>;

    closed spec fn view(&self) -> Map<u32, QueuedView> {
        row_views(self.rows@)
    }
}

/// The queue after offering a body at `height`: an occupied height keeps its body.
pub open spec fn offered(
    q: Map<u32, QueuedView>,
    height: u32,
    body: QueuedView,
) -> Map<u32, QueuedView> {
    if q.contains_key(height) {
        q
    } else {
        q.insert(height, body)
    }
}

/// Does the queue hold `hash` at some height?
pub open spec fn queue_has_hash(q: Map<u32, QueuedView>, hash: BlockHash) -> bool {
    exists|h: u32| q.contains_key(h) && #[trigger] q[h].hash == hash
}

impl BodyQueue {
    /// The empty queue.
    pub fn new() -> (r: Self)
        ensures
            r@ == Map::<u32, QueuedView>::empty(),
    {
        let r = BodyQueue { rows: HashMap::new() };
        assert(r@ =~= Map::<u32, QueuedView>::empty());
        r
    }

    /// Number of queued bodies.
    pub fn len(&self) -> (n: usize)
        ensures
            n == self@.dom().len(),
    {
        assert(self@.dom() =~= self.rows@.dom());
        self.rows.len()
    }

    /// Offer a body at `height`; true when it was taken in.
    pub fn offer(&mut self, height: u32, hash: BlockHash, header_fk: u64, payload: Vec<u8>) -> (taken: bool)
        ensures
            final(self)@ == offered(
                old(self)@,
                height,
                (QueuedView { hash, header_fk, payload: payload@ }),
            ),
            taken == !old(self)@.contains_key(height),
    {
        if self.rows.contains_key(&height) {
            return false;
        }
        let body = QueuedBody { hash, header_fk, payload };
        self.rows.insert(height, body);
        assert(self@ =~= old(self)@.insert(height, body@));
        true
    }

    /// Is `height` occupied?
    pub fn has_height(&self, height: u32) -> (b: bool)
        ensures
            b == self@.contains_key(height),
    {
        self.rows.contains_key(&height)
    }

    /// Whose body sits at `height`?
    pub fn hash_at_height(&self, height: u32) -> (r: Option<BlockHash>)
        ensures
            r == (if self@.contains_key(height) {
                Some(self@[height].hash)
            } else {
                None
            }),
    {
        match self.rows.get(&height) {
            Some(b) => Some(b.hash),
            None => None,
        }
    }

    /// Is a body of `hash` queued at any height?
    pub fn has_hash(&self, hash: &BlockHash) -> (b: bool)
        ensures
            b == queue_has_hash(self@, *hash),
    {
        let keys = keys_of(&self.rows);
        let mut i: usize = 0;
        while i < keys.len()
            invariant
                i <= keys@.len(),
                keys@.to_set() == self.rows@.dom(),
                forall|j: int| 0 <= j < i ==> self@[#[trigger] keys@[j]].hash != *hash,
            decreases keys@.len() - i,
        {
            let h: u32 = keys[i];
            assert(keys@.to_set().contains(keys@[i as int]));
            if let Some(b) = self.rows.get(&h) {
                if b.hash == *hash {
                    assert(self@.contains_key(h) && self@[h].hash == *hash);
                    return true;
                }
            }
            i = i + 1;
        }
        proof {
            if queue_has_hash(self@, *hash) {
                let h = choose|h: u32| self@.contains_key(h) && #[trigger] self@[h].hash == *hash;
                assert(keys@.to_set().contains(h));
                let j = choose|j: int| 0 <= j < keys@.len() && keys@[j] == h;
                assert(self@[keys@[j]].hash != *hash);
            }
        }
        false
    }

    /// Drop the body at `height`; true when there was one.
    pub fn dequeue_height(&mut self, height: u32) -> (was: bool)
        ensures
            final(self)@ == old(self)@.remove(height),
            was == old(self)@.contains_key(height),
    {
        let r = self.rows.remove(&height);
        assert(self@ =~= old(self)@.remove(height));
        r.is_some()
    }

    /// Highest occupied height.
    pub fn max_height(&self) -> (r: Option<u32>)
        ensures
            match r {
                Some(m) => self@.contains_key(m) && forall|h: u32|
                    #[trigger] self@.contains_key(h) ==> h <= m,
                None => self@.dom() == Set::<u32>::empty(),
            },
    {
        let keys = keys_of(&self.rows);
        assert(self@.dom() =~= self.rows@.dom());
        let mut best: Option<u32> = None;
        let mut i: usize = 0;
        while i < keys.len()
            invariant
                i <= keys@.len(),
                keys@.to_set() == self@.dom(),
                match best {
                    Some(m) => self@.contains_key(m) && forall|j: int|
                        0 <= j < i ==> #[trigger] keys@[j] <= m,
                    None => i == 0,
                },
            decreases keys@.len() - i,
        {
            let h: u32 = keys[i];
            assert(keys@.to_set().contains(keys@[i as int]));
            best = match best {
                Some(m) if m >= h => Some(m),
                _ => Some(h),
            };
            i = i + 1;
        }
        proof {
            if let Some(m) = best {
                assert forall|h: u32| #[trigger] self@.contains_key(h) implies h <= m by {
                    assert(keys@.to_set().contains(h));
                    let j = choose|j: int| 0 <= j < keys@.len() && keys@[j] == h;
                    assert(keys@[j] <= m);
                }
            } else {
                assert(keys@.to_set() =~= Set::<u32>::empty());
            }
        }
        best
    }
}

/// The chain as the download side sees it.
pub struct ChainHub {
    /// Confirmed tip, absent before the first block.
    pub tip: Option<ChainTip>,
    /// Hashes of confirmed blocks.
    pub blocks: KeySet<BlockHash>,
    /// Height of each best-chain hash.
    pub heights: KeyMap<BlockHash, u32>,
    /// Parent of each hash that has a header row.
    pub parents: KeyMap<BlockHash, BlockHash>,
    /// Hashes without an entry in `parents` because the store failed to read their
    /// header row.
    pub unreadable: KeySet<BlockHash>,
    /// Bodies waiting for confirm.
    pub queue: BodyQueue,
    /// Highest height that lookup has taken out of the queue.
    pub taken_hi: Option<u32>,
    /// Locator hashes of the confirmed chain, newest first, or why the store could
    /// not give them.
    pub locator: Result<Vec<BlockHash>, String>,
}

/// [`ChainHub`] as values.
#[verifier::ext_equal]
pub struct HubView {
    pub tip: Option<ChainTip>,
    pub blocks: Set<BlockHash>,
    pub heights: Map<BlockHash, u32>,
    pub parents: Map<BlockHash, BlockHash>,
    pub unreadable: Set<BlockHash>,
    pub queue: Map<u32, QueuedView>,
    pub taken_hi: Option<u32>,
    pub locator: Result<Seq<BlockHash>, Seq<char>>,
}

impl View for ChainHub {
    type V = HubView;

    open spec fn view(&self) -> HubView {
        HubView {
            tip: self.tip,
            blocks: self.blocks@,
            heights: self.heights@,
            parents: self.parents@,
            unreadable: self.unreadable@,
            queue: self.queue@,
            taken_hi: self.taken_hi,
            locator: match self.locator {
                Ok(l) => Ok(l@),
                Err(e) => Err(e@),
            },
        }
    }
}

impl HubView {
    /// Tip height, zero before the first block.
    pub open spec fn tip_or_zero(self) -> u32 {
        match self.tip {
            Some(t) => t.height,
            None => 0,
        }
    }

    /// Hash of the tip.
    pub open spec fn tip_hash(self) -> Option<BlockHash> {
        match self.tip {
            Some(t) => Some(t.hash),
            None => None,
        }
    }

    /// First height above the tip.
    pub open spec fn path_lo(self) -> u32 {
        match self.tip {
            Some(t) => sat_add32(t.height, 1),
            None => 0,
        }
    }

    /// Has lookup already taken `height` out of the queue?
    pub open spec fn taken_covers(self, height: u32) -> bool {
        self.taken_hi is Some && height <= self.taken_hi->0
    }

    /// Is the body of `hash` at `height` there for confirm? Queued wire of this
    /// very hash, a confirmed block, or a height that lookup has taken.
    pub open spec fn claim_ready(self, height: u32, hash: BlockHash) -> bool {
        ||| self.taken_covers(height)
        ||| self.blocks.contains(hash)
        ||| self.queue.contains_key(height) && self.queue[height].hash == hash
    }
}

/// `a + b`, or the largest value where that does not fit.
pub open spec fn sat_add32(a: u32, b: u32) -> u32 {
    if a + b > u32::MAX {
        u32::MAX
    } else {
        (a + b) as u32
    }
}

/// `a - b`, or zero where `b` is larger.
pub open spec fn sat_sub32(a: u32, b: u32) -> u32 {
    if a < b {
        0
    } else {
        (a - b) as u32
    }
}

/// The larger of two heights.
pub open spec fn max32(a: u32, b: u32) -> u32 {
    if a >= b {
        a
    } else {
        b
    }
}

/// The larger of two heights.
pub fn larger(a: u32, b: u32) -> (r: u32)
    ensures
        r == max32(a, b),
{
    if a >= b {
        a
    } else {
        b
    }
}

impl ChainHub {
    /// A chain with no block yet.
    pub fn new() -> (r: Self)
        ensures
            r@.tip is None,
            r@.blocks == Set::<BlockHash>::empty(),
            r@.heights == Map::<BlockHash, u32>::empty(),
            r@.parents == Map::<BlockHash, BlockHash>::empty(),
            r@.unreadable == Set::<BlockHash>::empty(),
            r@.queue == Map::<u32, QueuedView>::empty(),
            r@.taken_hi is None,
            r@.locator == Ok::<Seq<BlockHash>, Seq<char>>(Seq::empty()),
    {
        ChainHub {
            tip: None,
            blocks: KeySet::new(),
            heights: KeyMap::new(),
            parents: KeyMap::new(),
            unreadable: KeySet::new(),
            queue: BodyQueue::new(),
            taken_hi: None,
            locator: Ok(Vec::new()),
        }
    }

    /// Height of the tip.
    pub fn tip_height(&self) -> (r: Option<u32>)
        ensures
            r == (match self@.tip {
                Some(t) => Some(t.height),
                None => None,
            }),
    {
        match self.tip {
            Some(t) => Some(t.height),
            None => None,
        }
    }

    /// Tip height, zero before the first block.
    pub fn tip_or_zero(&self) -> (r: u32)
        ensures
            r == self@.tip_or_zero(),
    {
        match self.tip {
            Some(t) => t.height,
            None => 0,
        }
    }

    /// Hash of the tip.
    pub fn tip_hash(&self) -> (r: Option<BlockHash>)
        ensures
            r == self@.tip_hash(),
    {
        match self.tip {
            Some(t) => Some(t.hash),
            None => None,
        }
    }

    /// First height above the tip.
    pub fn path_lo(&self) -> (r: u32)
        ensures
            r == self@.path_lo(),
    {
        match self.tip {
            Some(t) => t.height.saturating_add(1),
            None => 0,
        }
    }

    /// Is `h` a confirmed block?
    pub fn has_block(&self, h: &BlockHash) -> (b: bool)
        ensures
            b == self@.blocks.contains(*h),
    {
        self.blocks.contains(h)
    }

    /// Parent of `h`, where `h` has a header row.
    pub fn parent_hash_of(&self, h: &BlockHash) -> (r: Option<BlockHash>)
        ensures
            r == (if self@.parents.contains_key(*h) {
                Some(self@.parents[*h])
            } else {
                None
            }),
    {
        match self.parents.get(h) {
            Some(p) => Some(*p),
            None => None,
        }
    }

    /// Has lookup already taken `height` out of the queue?
    pub fn lookup_taken_covers(height: u32, taken_hi: Option<u32>) -> (b: bool)
        ensures
            b == (taken_hi is Some && height <= taken_hi->0),
    {
        match taken_hi {
            Some(x) => height <= x,
            None => false,
        }
    }

    /// Is the body of `hash` at `height` there for confirm?
    ///
    /// An archived body or a pending mark alone is not enough.
    pub fn claim_ready(&self, height: u32, hash: &BlockHash) -> (b: bool)
        ensures
            b == self@.claim_ready(height, *hash),
    {
        if ChainHub::lookup_taken_covers(height, self.taken_hi) || self.blocks.contains(hash) {
            return true;
        }
        match self.queue.hash_at_height(height) {
            Some(q) => q == *hash,
            None => false,
        }
    }
}

/// A body that was offered first keeps its height: a second offer changes
/// nothing.
pub proof fn law_first_body_keeps_height(
    q: Map<u32, QueuedView>,
    height: u32,
    first: QueuedView,
    second: QueuedView,
)
    ensures
        offered(offered(q, height, first), height, second) == offered(q, height, first),
{
}

/// A queued body is there for confirm: one that is offered to a free height, or to a height
/// that holds the same hash, is claim-ready.
pub proof fn law_offered_body_is_claim_ready(hub: HubView, height: u32, body: QueuedView)
    requires
        hub.queue.contains_key(height) ==> hub.queue[height].hash == body.hash,
    ensures
        (HubView { queue: offered(hub.queue, height, body), ..hub }).claim_ready(height, body.hash),
{
}

} // verus!

//! The download work state.
use vstd::prelude::*;
use crate::body::{BodyPresence, BodyView};
use crate::chain::ChainTip;
use crate::hash::BlockHash;
use crate::keyed::{KeyMap, KeySet};
use crate::peers::{slot_views, CmdView, PeerAddr, PeerCmd, PeerSlot, SlotView};
use crate::reorg::{ReorgState, ReorgView};
use std::collections::{HashMap, VecDeque};

verus! {

/// One requested hash: who was asked, in order, and when the first request went out.
pub struct InflightReq {
    pub peers: Vec<usize>,
    pub started_ms: u64,
}

/// Anybody but `peer`.
pub open spec fn other_than(peer: usize) -> spec_fn(usize) -> bool {
    |p: usize| p != peer
}

/// [`InflightReq`] as values.
#[verifier::ext_equal]
pub struct ReqView {
    pub peers: Seq<usize>,
    pub started_ms: u64,
}

impl View for InflightReq {
    type V = ReqView;

    open spec fn view(&self) -> ReqView {
        ReqView { peers: self.peers@, started_ms: self.started_ms }
    }
}

impl ReqView {
    /// Requested from `peer` too; nobody is listed twice.
    pub open spec fn with_peer(self, peer: usize) -> ReqView {
        if self.peers.contains(peer) {
            self
        } else {
            ReqView { peers: self.peers.push(peer), ..self }
        }
    }

    /// No longer requested from `peer`.
    pub open spec fn without_peer(self, peer: usize) -> ReqView {
        ReqView { peers: self.peers.filter(other_than(peer)), ..self }
    }
}

impl InflightReq {
    /// Requested from `peer` alone at `now_ms`.
    pub fn new(peer: usize, now_ms: u64) -> (r: Self)
        ensures
            r@ == (ReqView { peers: seq![peer], started_ms: now_ms }),
    {
        let mut peers: Vec<usize> = Vec::new();
        peers.push(peer);
        assert(peers@ =~= seq![peer]);
        InflightReq { peers, started_ms: now_ms }
    }

    /// Requested from `peer` too.
    pub fn add_peer(&mut self, peer: usize)
        ensures
            final(self)@ == old(self)@.with_peer(peer),
    {
        if !self.contains_peer(peer) {
            self.peers.push(peer);
        }
    }

    /// No longer requested from `peer`; true when nobody is left.
    pub fn remove_peer(&mut self, peer: usize) -> (empty: bool)
        ensures
            final(self)@ == old(self)@.without_peer(peer),
            empty == (final(self)@.peers.len() == 0),
    {
        let mut next: Vec<usize> = Vec::new();
        let mut i: usize = 0;
        let ghost p = other_than(peer);
        while i < self.peers.len()
            invariant
                i <= self.peers@.len(),
                self.peers@ == old(self).peers@,
                self.started_ms == old(self).started_ms,
                p == other_than(peer),
                next@ == self.peers@.take(i as int).filter(p),
            decreases self.peers@.len() - i,
        {
            let x: usize = self.peers[i];
            proof {
                assert(self.peers@.take(i + 1) =~= self.peers@.take(i as int).push(x));
                self.peers@.take(i as int).lemma_filter_push(x, p);
            }
            if x != peer {
                next.push(x);
            }
            i = i + 1;
        }
        assert(self.peers@.take(i as int) =~= self.peers@);
        self.peers = next;
        self.peers.len() == 0
    }

    /// How many peers were asked.
    pub fn len(&self) -> (n: usize)
        ensures
            n == self@.peers.len(),
    {
        self.peers.len()
    }

    /// Was `peer` asked?
    pub fn contains_peer(&self, peer: usize) -> (b: bool)
        ensures
            b == self@.peers.contains(peer),
    {
        let mut i: usize = 0;
        while i < self.peers.len()
            invariant
                i <= self.peers@.len(),
                forall|j: int| 0 <= j < i ==> #[trigger] self.peers@[j] != peer,
            decreases self.peers@.len() - i,
        {
            if self.peers[i] == peer {
                assert(self.peers@[i as int] == peer);
                return true;
            }
            i = i + 1;
        }
        false
    }
}

/// The values of a request map.
pub open spec fn req_views(m: Map<BlockHash, InflightReq>) -> Map<BlockHash, ReqView> {
    Map::new(|h: BlockHash| m.contains_key(h), |h: BlockHash| m[h]@)
}

/// The values of an outbox.
pub open spec fn cmd_views(s: Seq<(usize, PeerCmd)>) -> Seq<(usize, CmdView)> {
    Seq::new(s.len(), |i: int| (s[i].0, s[i].1@))
}

/// Everything the download loop keeps between turns.
pub struct IbdWorkState {
    pub slots: Vec<PeerSlot>,
    /// Requested hashes.
    pub inflight: KeyMap<BlockHash, InflightReq>,
    /// Work path from the tip outward. May hold ghosts: hashes that have left
    /// `ordered_set`.
    pub ordered: VecDeque<BlockHash>,
    pub ordered_set: KeySet<BlockHash>,
    pub known_headers: KeySet<BlockHash>,
    /// Height of each known header, competitors too.
    pub hash_height: KeyMap<BlockHash, u32>,
    /// The connected path: one hash per height.
    pub height_to_hash: HashMap<u32, BlockHash>,
    pub header_fks: KeyMap<BlockHash, u64>,
    pub body: BodyPresence,
    pub reorg: ReorgState,
    pub max_ordered_height: u32,
    pub max_ready_height: u32,
    pub max_peer_height: u32,
    pub headers_done: bool,
    pub empty_header_streak: u32,
    pub header_req_seq: u32,
    pub assign_rot: usize,
    pub assign_path_lo: u32,
    pub densify_scan_lo: u32,
    /// Addresses not to dial before the given time.
    pub addr_cooldown: KeyMap<PeerAddr, u64>,
    pub confirm_stuck_since: Option<u64>,
    /// Last cascade: hash, tip hash, and how often in a row.
    pub cascade_at: Option<(BlockHash, BlockHash, u8)>,
    pub halt: Option<String>,
    pub engine_fault_seen: KeySet<BlockHash>,
    pub confirm_quiesce: bool,
    /// Commands for the socket tasks, in issue order.
    pub outbox: Vec<(usize, PeerCmd)>,
}

/// [`IbdWorkState`] as values.
#[verifier::ext_equal]
pub struct WorkView {
    pub slots: Seq<SlotView>,
    pub inflight: Map<BlockHash, ReqView>,
    pub ordered: Seq<BlockHash>,
    pub ordered_set: Set<BlockHash>,
    pub known_headers: Set<BlockHash>,
    pub hash_height: Map<BlockHash, u32>,
    pub height_to_hash: Map<u32, BlockHash>,
    pub header_fks: Map<BlockHash, u64>,
    pub body: BodyView,
    pub reorg: ReorgView,
    pub max_ordered_height: u32,
    pub max_ready_height: u32,
    pub max_peer_height: u32,
    pub headers_done: bool,
    pub empty_header_streak: u32,
    pub header_req_seq: u32,
    pub assign_rot: usize,
    pub assign_path_lo: u32,
    pub densify_scan_lo: u32,
    pub addr_cooldown: Map<PeerAddr, u64>,
    pub confirm_stuck_since: Option<u64>,
    pub cascade_at: Option<(BlockHash, BlockHash, u8)>,
    pub halt: Option<Seq<char>>,
    pub engine_fault_seen: Set<BlockHash>,
    pub confirm_quiesce: bool,
    pub outbox: Seq<(usize, CmdView)>,
}

impl View for IbdWorkState {
    type V = WorkView;

    open spec fn view(&self) -> WorkView {
        WorkView {
            slots: slot_views(self.slots@),
            inflight: req_views(self.inflight@),
            ordered: self.ordered@,
            ordered_set: self.ordered_set@,
            known_headers: self.known_headers@,
            hash_height: self.hash_height@,
            height_to_hash: self.height_to_hash@,
            header_fks: self.header_fks@,
            body: self.body@,
            reorg: self.reorg@,
            max_ordered_height: self.max_ordered_height,
            max_ready_height: self.max_ready_height,
            max_peer_height: self.max_peer_height,
            headers_done: self.headers_done,
            empty_header_streak: self.empty_header_streak,
            header_req_seq: self.header_req_seq,
            assign_rot: self.assign_rot,
            assign_path_lo: self.assign_path_lo,
            densify_scan_lo: self.densify_scan_lo,
            addr_cooldown: self.addr_cooldown@,
            confirm_stuck_since: self.confirm_stuck_since,
            cascade_at: self.cascade_at,
            halt: match self.halt {
                Some(s) => Some(s@),
                None => None,
            },
            engine_fault_seen: self.engine_fault_seen@,
            confirm_quiesce: self.confirm_quiesce,
            outbox: cmd_views(self.outbox@),
        }
    }
}

impl WorkView {
    /// Is `h` the occupant of the connected path at `height`?
    pub open spec fn on_path(self, h: BlockHash, height: u32) -> bool {
        self.height_to_hash.contains_key(height) && self.height_to_hash[height] == h
    }

    /// Does a header at `height` with parent `prev` extend the path or the tip?
    pub open spec fn connects(self, height: u32, prev: BlockHash, tip: Option<ChainTip>) -> bool {
        ||| match tip {
            Some(t) => t.height < u32::MAX && height == t.height + 1 && prev == t.hash,
            None => height == 0 && prev == BlockHash::spec_zero(),
        }
        ||| height > 0 && self.on_path(prev, (height - 1) as u32)
    }

    /// Does `hash` hold the path slot at `height` once it has been tried?
    pub open spec fn takes_slot(self, hash: BlockHash, height: u32, prev: BlockHash, tip: Option<ChainTip>) -> bool {
        self.connects(height, prev, tip) && (!self.height_to_hash.contains_key(height)
            || self.height_to_hash[height] == hash)
    }

    /// Effect of trying `hash` for the path slot at `height`.
    pub open spec fn with_slot_try(self, hash: BlockHash, height: u32, prev: BlockHash, tip: Option<ChainTip>) -> WorkView {
        WorkView {
            hash_height: self.hash_height.insert(hash, height),
            height_to_hash: if self.takes_slot(hash, height, prev, tip) {
                self.height_to_hash.insert(height, hash)
            } else {
                self.height_to_hash
            },
            ..self
        }
    }
}

impl IbdWorkState {
    /// Fresh state at a tip. The tip, where known, counts as a known header.
    pub fn new(slots: Vec<PeerSlot>, tip_hash: Option<BlockHash>, tip_h: Option<u32>) -> (r: Self)
        ensures
            r@ == (WorkView {
                slots: slot_views(slots@),
                inflight: Map::empty(),
                ordered: Seq::empty(),
                ordered_set: Set::empty(),
                known_headers: match tip_hash {
                    Some(h) => Set::<BlockHash>::empty().insert(h),
                    None => Set::empty(),
                },
                hash_height: match (tip_hash, tip_h) {
                    (Some(h), Some(t)) => Map::<BlockHash, u32>::empty().insert(h, t),
                    _ => Map::empty(),
                },
                height_to_hash: Map::empty(),
                header_fks: Map::empty(),
                body: BodyView::blank(),
                reorg: ReorgView::blank(),
                max_ordered_height: match tip_h {
                    Some(t) => t,
                    None => 0,
                },
                max_ready_height: match tip_h {
                    Some(t) => t,
                    None => 0,
                },
                max_peer_height: 0,
                headers_done: false,
                empty_header_streak: 0,
                header_req_seq: 0,
                assign_rot: 0,
                assign_path_lo: 0,
                densify_scan_lo: 0,
                addr_cooldown: Map::empty(),
                confirm_stuck_since: None,
                cascade_at: None,
                halt: None,
                engine_fault_seen: Set::empty(),
                confirm_quiesce: false,
                outbox: Seq::empty(),
            }),
    {
        let mut known_headers: KeySet<BlockHash> = KeySet::new();
        let mut hash_height: KeyMap<BlockHash, u32> = KeyMap::new();
        if let Some(h) = tip_hash {
            known_headers.insert(h);
            if let Some(t) = tip_h {
                hash_height.insert(h, t);
            }
        }
        let t: u32 = match tip_h {
            Some(t) => t,
            None => 0,
        };
        let r = IbdWorkState {
            slots,
            inflight: KeyMap::new(),
            ordered: VecDeque::new(),
            ordered_set: KeySet::new(),
            known_headers,
            hash_height,
            height_to_hash: HashMap::new(),
            header_fks: KeyMap::new(),
            body: BodyPresence::new(),
            reorg: ReorgState::new(),
            max_ordered_height: t,
            max_ready_height: t,
            max_peer_height: 0,
            headers_done: false,
            empty_header_streak: 0,
            header_req_seq: 0,
            assign_rot: 0,
            assign_path_lo: 0,
            densify_scan_lo: 0,
            addr_cooldown: KeyMap::new(),
            confirm_stuck_since: None,
            cascade_at: None,
            halt: None,
            engine_fault_seen: KeySet::new(),
            confirm_quiesce: false,
            outbox: Vec::new(),
        };
        assert(r@.inflight =~= Map::empty());
        assert(r@.outbox =~= Seq::empty());
        r
    }

    /// Put `hash` on the path at `height`.
    pub fn record_height(&mut self, hash: BlockHash, height: u32)
        ensures
            final(self)@ == (WorkView {
                hash_height: old(self)@.hash_height.insert(hash, height),
                height_to_hash: old(self)@.height_to_hash.insert(height, hash),
                ..old(self)@
            }),
    {
        self.hash_height.insert(hash, height);
        self.height_to_hash.insert(height, hash);
    }

    /// Is `h` the occupant of the connected path at `height`?
    pub fn is_on_path(&self, h: &BlockHash, height: u32) -> (b: bool)
        ensures
            b == self@.on_path(*h, height),
    {
        match self.height_to_hash.get(&height) {
            Some(x) => *x == *h,
            None => false,
        }
    }

    /// Record the height of `hash` and, where it extends the path or the tip and
    /// the slot is free, let it take the slot. The first occupant stays.
    pub fn try_set_path_slot(
        &mut self,
        hash: BlockHash,
        height: u32,
        prev: BlockHash,
        tip: Option<ChainTip>,
    ) -> (on_path: bool)
        ensures
            final(self)@ == old(self)@.with_slot_try(hash, height, prev, tip),
            on_path == old(self)@.takes_slot(hash, height, prev, tip),
    {
        self.hash_height.insert(hash, height);
        let on_tip = match tip {
            Some(t) => t.height < u32::MAX && height == t.height + 1 && prev == t.hash,
            None => height == 0 && prev.is_zero(),
        };
        let connected = on_tip || (height > 0 && self.is_on_path(&prev, height - 1));
        if !connected {
            return false;
        }
        match self.height_to_hash.get(&height) {
            Some(cur) => {
                let same = *cur == hash;
                assert(same ==> self.height_to_hash@.insert(height, hash)
                    =~= self.height_to_hash@);
                same
            },
            None => {
                self.height_to_hash.insert(height, hash);
                true
            },
        }
    }
}

/// The first connected header of a height keeps the path slot: trying another
/// one changes no occupant.
pub proof fn law_path_slot_first_wins(
    st: WorkView,
    a: BlockHash,
    b: BlockHash,
    height: u32,
    prev: BlockHash,
    tip: Option<ChainTip>,
)
    requires
        st.takes_slot(a, height, prev, tip),
        a != b,
    ensures
        st.with_slot_try(a, height, prev, tip).on_path(a, height),
        !st.with_slot_try(a, height, prev, tip).takes_slot(b, height, prev, tip),
        st.with_slot_try(a, height, prev, tip).with_slot_try(b, height, prev, tip).on_path(
            a,
            height,
        ),
{
}

} // verus!

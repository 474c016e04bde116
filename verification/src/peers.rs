//! Download peers as plain values: addresses, slots, commands.
use vstd::prelude::*;
use crate::hash::BlockHash;
use crate::keyed::{Key, KeySet};
use crate::rate::PeerRate;

verus! {

/// An IP address.
#[derive(Clone, Copy, Debug, PartialEq, Eq, Structural)]
pub enum PeerIp {
    V4 { a: u8, b: u8, c: u8, d: u8 },
    /// The upper and lower half of the 128 bits.
    V6 { hi: u64, lo: u64 },
}

/// Where a peer listens.
#[derive(Clone, Copy, Debug, PartialEq, Eq, Structural)]
pub struct PeerAddr {
    pub ip: PeerIp,
    pub port: u16,
}

impl Key for PeerAddr {
    fn same(&self, other: &Self) -> (b: bool) {
        *self == *other
    }
}

/// A command for one peer's socket task.
#[derive(Debug)]
pub enum PeerCmd {
    GetHeaders { locator: Vec<BlockHash> },
    GetData { hashes: Vec<BlockHash> },
    Shutdown,
}

/// [`PeerCmd`] as values.
#[verifier::ext_equal]
pub enum CmdView {
    GetHeaders { locator: Seq<BlockHash> },
    GetData { hashes: Seq<BlockHash> },
    Shutdown,
}

impl View for PeerCmd {
    type V = CmdView;

    open spec fn view(&self) -> CmdView {
        match self {
            PeerCmd::GetHeaders { locator } => CmdView::GetHeaders { locator: locator@ },
            PeerCmd::GetData { hashes } => CmdView::GetData { hashes: hashes@ },
            PeerCmd::Shutdown => CmdView::Shutdown,
        }
    }
}

/// One connected download peer. Times are milliseconds on the download clock.
pub struct PeerSlot {
    pub id: usize,
    pub addr: PeerAddr,
    /// Hashes currently requested from this peer.
    pub in_flight: KeySet<BlockHash>,
    /// Height the peer advertised at handshake.
    pub peer_height: u32,
    /// When the slot became live.
    pub connected_ms: u64,
    /// When the first block payload came in; zero for none yet.
    pub first_data_ms: u64,
    /// Block payload bytes received so far.
    pub bytes_rx: u64,
    /// All streamed wire bytes received so far.
    pub bytes_rx_total: u64,
    pub rate: PeerRate,
    pub alive: bool,
}

/// [`PeerSlot`] as values.
#[verifier::ext_equal]
pub struct SlotView {
    pub id: usize,
    pub addr: PeerAddr,
    pub in_flight: Set<BlockHash>,
    pub peer_height: u32,
    pub connected_ms: u64,
    pub first_data_ms: u64,
    pub bytes_rx: u64,
    pub bytes_rx_total: u64,
    pub rate: PeerRate,
    pub alive: bool,
}

impl View for PeerSlot {
    type V = SlotView;

    open spec fn view(&self) -> SlotView {
        SlotView {
            id: self.id,
            addr: self.addr,
            in_flight: self.in_flight@,
            peer_height: self.peer_height,
            connected_ms: self.connected_ms,
            first_data_ms: self.first_data_ms,
            bytes_rx: self.bytes_rx,
            bytes_rx_total: self.bytes_rx_total,
            rate: self.rate,
            alive: self.alive,
        }
    }
}

/// The values of a row of slots.
pub open spec fn slot_views(s: Seq<PeerSlot>) -> Seq<SlotView> {
    Seq::new(s.len(), |i: int| s[i]@)
}

/// Index of the first slot from `from` on with this id (and alive, where asked).
pub open spec fn slot_from(s: Seq<SlotView>, pid: usize, live: bool, from: int) -> Option<int>
    decreases s.len() - from,
{
    if from < 0 || from >= s.len() {
        None
    } else if s[from].id == pid && (s[from].alive || !live) {
        Some(from)
    } else {
        slot_from(s, pid, live, from + 1)
    }
}

/// The alive slot of peer `pid`.
pub open spec fn live_slot(s: Seq<SlotView>, pid: usize) -> Option<int> {
    slot_from(s, pid, true, 0)
}

/// The slot of peer `pid`, alive or not.
pub open spec fn any_slot(s: Seq<SlotView>, pid: usize) -> Option<int> {
    slot_from(s, pid, false, 0)
}

/// What [`slot_from`] finds is in range, matches, and nothing before it does.
pub proof fn lemma_slot_from(s: Seq<SlotView>, pid: usize, live: bool, from: int)
    requires
        0 <= from,
    ensures
        match slot_from(s, pid, live, from) {
            Some(i) => from <= i < s.len() && s[i].id == pid && (s[i].alive || !live) && (forall|
                j: int,
            |
                from <= j < i ==> #[trigger] s[j].id != pid || (live && !s[j].alive)),
            None => forall|j: int|
                from <= j < s.len() ==> #[trigger] s[j].id != pid || (live && !s[j].alive),
        },
    decreases s.len() - from,
{
    if from < s.len() && !(s[from].id == pid && (s[from].alive || !live)) {
        lemma_slot_from(s, pid, live, from + 1);
    }
}

/// The slot of peer `pid` (alive, where asked).
pub fn find_slot(slots: &Vec<PeerSlot>, pid: usize, live: bool) -> (r: Option<usize>)
    ensures
        match r {
            Some(i) => slot_from(slot_views(slots@), pid, live, 0) == Some(i as int),
            None => slot_from(slot_views(slots@), pid, live, 0) is None,
        },
        r is Some ==> r->0 < slots@.len() && slots@[r->0 as int].id == pid && (
        slots@[r->0 as int].alive || !live),
{
    let mut i: usize = 0;
    while i < slots.len()
        invariant
            i <= slots@.len(),
            slot_from(slot_views(slots@), pid, live, i as int) == slot_from(
                slot_views(slots@),
                pid,
                live,
                0,
            ),
        decreases slots@.len() - i,
    {
        if slots[i].id == pid && (slots[i].alive || !live) {
            return Some(i);
        }
        i = i + 1;
    }
    None
}

/// Ids of the alive slots, in slot order.
pub open spec fn live_ids(s: Seq<SlotView>) -> Seq<usize>
    decreases s.len(),
{
    if s.len() == 0 {
        Seq::empty()
    } else if s.last().alive {
        live_ids(s.drop_last()).push(s.last().id)
    } else {
        live_ids(s.drop_last())
    }
}

/// Ids of the alive slots, in slot order.
pub fn alive_ids(slots: &Vec<PeerSlot>) -> (r: Vec<usize>)
    ensures
        r@ == live_ids(slot_views(slots@)),
{
    let mut out: Vec<usize> = Vec::new();
    let mut i: usize = 0;
    let ghost v = slot_views(slots@);
    while i < slots.len()
        invariant
            i <= slots@.len(),
            v == slot_views(slots@),
            out@ == live_ids(v.take(i as int)),
        decreases slots@.len() - i,
    {
        assert(v.take(i + 1).drop_last() =~= v.take(i as int));
        if slots[i].alive {
            out.push(slots[i].id);
        }
        i = i + 1;
    }
    assert(v.take(i as int) =~= v);
    out
}

} // verus!

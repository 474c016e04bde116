//! What one download peer's socket tasks report and are told.
use vstd::prelude::*;
use crate::hash::BlockHash;
use crate::peers::{any_slot, find_slot, slot_views, PeerAddr, PeerSlot, SlotView};
use crate::rate::PeerRate;
use crate::time::{sat_mul, sat_sub, saturating_mul_u64, wrap_add};
use crate::wire::{
    dial_gains, dial_gains_v2, socket_addrs_from_addr, socket_addrs_from_addrv2, BlockHeader,
    WireAddr, WireAddrV2,
};
use std::collections::VecDeque;

verus! {

/// Longest locator on the wire.
pub const MAX_LOCATOR_SZ: usize = 101;

/// Most inventory entries in one message.
pub const MAX_INV_SIZE: usize = 50_000;

/// Bytes of block data before a speed sample counts.
pub const SPEED_SAMPLE_MIN_BYTES: u64 = 65_536;

/// What a peer's socket tasks report.
#[derive(Debug)]
pub enum PeerEvent {
    Headers { peer: usize, headers: Vec<BlockHeader> },
    /// A whole block frame: its hash from the header bytes and the raw payload,
    /// not decoded.
    BlockFramed { peer: usize, hash: BlockHash, payload: Vec<u8> },
    /// Framed as a block but unusable: to be requested again.
    BlockDecodeFailed { peer: usize, hash: BlockHash },
    /// The peer does not have these blocks.
    NotFound { peer: usize, hashes: Vec<BlockHash> },
    /// Addresses that the peer advertises.
    Addrs { peer: usize, addrs: Vec<PeerAddr> },
    /// The peer failed or closed.
    Dead { peer: usize, reason: String },
}

/// Two queues, so that bodies never wait behind a flood of headers.
pub struct PeerEventSinks {
    /// Framed blocks, failures, not-founds, deaths: drained first.
    pub body: VecDeque<PeerEvent>,
    /// Headers and addresses: drained within a budget.
    pub ctrl: VecDeque<PeerEvent>,
}

impl PeerEventSinks {
    /// Both queues empty.
    pub fn new() -> (r: Self)
        ensures
            r.body@ == Seq::<PeerEvent>::empty(),
            r.ctrl@ == Seq::<PeerEvent>::empty(),
    {
        PeerEventSinks { body: VecDeque::new(), ctrl: VecDeque::new() }
    }

    /// Queue on the body side.
    pub fn send_body(&mut self, ev: PeerEvent)
        ensures
            final(self).body@ == old(self).body@.push(ev),
            final(self).ctrl@ == old(self).ctrl@,
    {
        self.body.push_back(ev);
    }

    /// Queue on the control side.
    pub fn send_ctrl(&mut self, ev: PeerEvent)
        ensures
            final(self).ctrl@ == old(self).ctrl@.push(ev),
            final(self).body@ == old(self).body@,
    {
        self.ctrl.push_back(ev);
    }
}

impl SlotView {
    /// `n` bytes of block payload noted; the first ones start the clock.
    pub open spec fn with_rx(self, n: u64, now_ms: u64) -> SlotView {
        if n == 0 {
            self
        } else {
            SlotView {
                first_data_ms: if self.first_data_ms == 0 {
                    now_ms
                } else {
                    self.first_data_ms
                },
                bytes_rx: wrap_add(self.bytes_rx, n),
                ..self
            }
        }
    }

    /// Block progress noted.
    pub open spec fn with_progress(self, now_ms: u64) -> SlotView {
        SlotView { rate: PeerRate { progress_ms: now_ms, ..self.rate }, ..self }
    }

    /// Latency to the first block data and bytes per second since, once enough
    /// data came in.
    pub open spec fn speed(self, now_ms: u64) -> Option<(u64, u64)> {
        if self.first_data_ms == 0 || self.bytes_rx < SPEED_SAMPLE_MIN_BYTES {
            None
        } else {
            let age = sat_sub(now_ms, self.first_data_ms);
            Some(
                (
                    sat_sub(self.first_data_ms, self.connected_ms),
                    sat_mul(self.bytes_rx, 1000) / (if age > 1 {
                        age
                    } else {
                        1
                    }),
                ),
            )
        }
    }
}

impl PeerSlot {
    /// Note received block payload bytes. Nothing for none.
    pub fn note_rx_bytes(&mut self, n: u64, now_ms: u64)
        ensures
            final(self)@ == old(self)@.with_rx(n, now_ms),
    {
        if n == 0 {
            return;
        }
        if self.first_data_ms == 0 {
            self.first_data_ms = now_ms;
        }
        self.bytes_rx = self.bytes_rx.wrapping_add(n);
    }

    /// `(latency in milliseconds, bytes per second)` once there are 64 KiB of
    /// block data.
    pub fn speed_sample(&self, now_ms: u64) -> (r: Option<(u64, u64)>)
        ensures
            r == self@.speed(now_ms),
    {
        if self.first_data_ms == 0 || self.bytes_rx < SPEED_SAMPLE_MIN_BYTES {
            return None;
        }
        let latency: u64 = self.first_data_ms.saturating_sub(self.connected_ms);
        let age: u64 = now_ms.saturating_sub(self.first_data_ms);
        let elapsed: u64 = if age > 1 {
            age
        } else {
            1
        };
        Some((latency, saturating_mul_u64(self.bytes_rx, 1000) / elapsed))
    }
}

/// Block progress at `now_ms`.
pub fn touch_block_progress(ms: &mut u64, now_ms: u64)
    ensures
        *final(ms) == now_ms,
{
    *ms = now_ms;
}

/// Count streamed bytes; the counter wraps.
pub fn note_stream_bytes(counter: &mut u64, n: u64)
    ensures
        *final(counter) == wrap_add(*old(counter), n),
{
    if n == 0 {
        return;
    }
    *counter = counter.wrapping_add(n);
}

/// Slots once block progress of `peer` is noted.
pub open spec fn progress_noted(s: Seq<SlotView>, peer: usize, now_ms: u64) -> Seq<SlotView> {
    match any_slot(s, peer) {
        Some(i) => s.update(i, s[i].with_progress(now_ms)),
        None => s,
    }
}

/// Slots once a received block of `peer` is noted.
pub open spec fn rx_noted(s: Seq<SlotView>, peer: usize, bytes: u64, now_ms: u64) -> Seq<SlotView> {
    match any_slot(s, peer) {
        Some(i) => s.update(i, s[i].with_progress(now_ms).with_rx(bytes, now_ms)),
        None => s,
    }
}

/// Note block progress of `peer`. Nothing for an unknown peer.
pub fn note_block_progress(slots: &mut Vec<PeerSlot>, peer: usize, now_ms: u64)
    ensures
        slot_views(final(slots)@) == progress_noted(slot_views(old(slots)@), peer, now_ms),
{
    let ghost v = slot_views(slots@);
    if let Some(i) = find_slot(slots, peer, false) {
        touch_block_progress(&mut slots[i].rate.progress_ms, now_ms);
        assert(slot_views(slots@) =~= v.update(i as int, v[i as int].with_progress(now_ms)));
    }
}

/// Note a block of `wire_bytes` received from `peer`. Nothing for an unknown peer.
pub fn note_block_rx(slots: &mut Vec<PeerSlot>, peer: usize, wire_bytes: usize, now_ms: u64)
    ensures
        slot_views(final(slots)@) == rx_noted(
            slot_views(old(slots)@),
            peer,
            wire_bytes as u64,
            now_ms,
        ),
{
    let ghost v = slot_views(slots@);
    if let Some(i) = find_slot(slots, peer, false) {
        touch_block_progress(&mut slots[i].rate.progress_ms, now_ms);
        slots[i].note_rx_bytes(wire_bytes as u64, now_ms);
        assert(slot_views(slots@) =~= v.update(
            i as int,
            v[i as int].with_progress(now_ms).with_rx(wire_bytes as u64, now_ms),
        ));
    }
}

/// The height a peer advertised; a negative one counts as zero.
pub fn advertised_height(start_height: i32) -> (h: u32)
    ensures
        h == (if start_height < 0 {
            0
        } else {
            start_height as int
        }),
{
    if start_height < 0 {
        0
    } else {
        start_height as u32
    }
}

/// One frame off the wire, as far as the reader looks at it.
pub struct Frame {
    pub is_ping: bool,
    pub ping_nonce: Option<u64>,
    pub is_block: bool,
    /// Hash of the header bytes, where there are enough.
    pub header_hash: Option<BlockHash>,
    pub payload: Vec<u8>,
}

/// What the reader does with a frame.
#[derive(Debug)]
pub enum FrameAction {
    /// Answer a ping.
    Pong(u64),
    /// Report on the body side.
    Body(PeerEvent),
    /// Neither answer nor report.
    Ignore,
    /// Any other message: decode it outside the reader.
    Decode,
}

/// What the reader of peer `id` does with a frame.
pub open spec fn frame_action(id: usize, frame: Frame) -> FrameAction {
    if frame.is_ping {
        match frame.ping_nonce {
            Some(n) => FrameAction::Pong(n),
            None => FrameAction::Ignore,
        }
    } else if frame.is_block {
        match frame.header_hash {
            Some(hash) => if frame.payload@.len() >= 80 {
                FrameAction::Body(PeerEvent::BlockFramed { peer: id, hash, payload: frame.payload })
            } else {
                FrameAction::Body(PeerEvent::BlockDecodeFailed { peer: id, hash })
            },
            None => FrameAction::Ignore,
        }
    } else {
        FrameAction::Decode
    }
}

/// Decide on a frame. Pings are answered where they carry a nonce; a block is
/// reported with its payload from 80 bytes on, as failed below that, and not at
/// all without a header hash.
pub fn on_frame(id: usize, frame: Frame) -> (r: FrameAction)
    ensures
        r == frame_action(id, frame),
{
    if frame.is_ping {
        return match frame.ping_nonce {
            Some(n) => FrameAction::Pong(n),
            None => FrameAction::Ignore,
        };
    }
    if frame.is_block {
        return match frame.header_hash {
            Some(hash) => {
                if frame.payload.len() >= 80 {
                    FrameAction::Body(
                        PeerEvent::BlockFramed { peer: id, hash, payload: frame.payload },
                    )
                } else {
                    FrameAction::Body(PeerEvent::BlockDecodeFailed { peer: id, hash })
                }
            },
            None => FrameAction::Ignore,
        };
    }
    FrameAction::Decode
}

/// An inventory entry, as far as it matters here.
#[derive(Clone, Copy, Debug, PartialEq, Eq, Structural)]
pub enum InvItem {
    /// A block, with or without witness data asked for.
    Block(BlockHash),
    Other,
}

/// The block hashes of an inventory, in order.
pub open spec fn inv_blocks(s: Seq<InvItem>) -> Seq<BlockHash>
    decreases s.len(),
{
    if s.len() == 0 {
        Seq::empty()
    } else {
        match s.last() {
            InvItem::Block(h) => inv_blocks(s.drop_last()).push(h),
            InvItem::Other => inv_blocks(s.drop_last()),
        }
    }
}

fn blocks_of(inv: &Vec<InvItem>) -> (r: Vec<BlockHash>)
    ensures
        r@ == inv_blocks(inv@),
{
    let mut out: Vec<BlockHash> = Vec::new();
    let mut i: usize = 0;
    while i < inv.len()
        invariant
            i <= inv@.len(),
            out@ == inv_blocks(inv@.take(i as int)),
        decreases inv@.len() - i,
    {
        assert(inv@.take(i + 1).drop_last() =~= inv@.take(i as int));
        if let InvItem::Block(h) = inv[i] {
            out.push(h);
        }
        i = i + 1;
    }
    assert(inv@.take(i as int) =~= inv@);
    out
}

/// A decoded message, as far as it matters here.
pub enum DecodedMsg {
    Headers(Vec<BlockHeader>),
    NotFound(Vec<InvItem>),
    Addr(Vec<WireAddr>),
    AddrV2(Vec<WireAddrV2>),
    Other,
}

/// Is this what `msg` from `id` is to be reported as? Headers always are, empty
/// ones too; not-founds and addresses only where something is left of them.
pub open spec fn reported(id: usize, msg: DecodedMsg, r: Option<PeerEvent>) -> bool {
    match msg {
        DecodedMsg::Headers(h) => r == Some(PeerEvent::Headers { peer: id, headers: h }),
        DecodedMsg::NotFound(inv) => match r {
            Some(PeerEvent::NotFound { peer, hashes }) => peer == id && hashes@ == inv_blocks(inv@)
                && hashes@.len() > 0,
            Some(_) => false,
            None => inv_blocks(inv@).len() == 0,
        },
        DecodedMsg::Addr(list) => match r {
            Some(PeerEvent::Addrs { peer, addrs }) => peer == id && addrs@ == dial_gains(list@)
                && addrs@.len() > 0,
            Some(_) => false,
            None => dial_gains(list@).len() == 0,
        },
        DecodedMsg::AddrV2(list) => match r {
            Some(PeerEvent::Addrs { peer, addrs }) => peer == id && addrs@ == dial_gains_v2(list@)
                && addrs@.len() > 0,
            Some(_) => false,
            None => dial_gains_v2(list@).len() == 0,
        },
        DecodedMsg::Other => r is None,
    }
}

/// Turn a decoded message into a report.
pub fn on_decoded(id: usize, msg: DecodedMsg) -> (r: Option<PeerEvent>)
    ensures
        reported(id, msg, r),
{
    match msg {
        DecodedMsg::Headers(headers) => Some(PeerEvent::Headers { peer: id, headers }),
        DecodedMsg::NotFound(inv) => {
            let hashes = blocks_of(&inv);
            if hashes.len() == 0 {
                None
            } else {
                Some(PeerEvent::NotFound { peer: id, hashes })
            }
        },
        DecodedMsg::Addr(list) => {
            let addrs = socket_addrs_from_addr(&list);
            if addrs.len() == 0 {
                None
            } else {
                Some(PeerEvent::Addrs { peer: id, addrs })
            }
        },
        DecodedMsg::AddrV2(list) => {
            let addrs = socket_addrs_from_addrv2(&list);
            if addrs.len() == 0 {
                None
            } else {
                Some(PeerEvent::Addrs { peer: id, addrs })
            }
        },
        DecodedMsg::Other => None,
    }
}

/// Does an event go to the body side? All do but headers and addresses.
pub open spec fn body_side(ev: PeerEvent) -> bool {
    !(ev is Headers) && !(ev is Addrs)
}

/// Queue a report on its side.
pub fn deliver(sinks: &mut PeerEventSinks, ev: PeerEvent)
    ensures
        body_side(ev) ==> final(sinks).body@ == old(sinks).body@.push(ev) && final(sinks).ctrl@
            == old(sinks).ctrl@,
        !body_side(ev) ==> final(sinks).ctrl@ == old(sinks).ctrl@.push(ev) && final(sinks).body@
            == old(sinks).body@,
{
    let body = match &ev {
        PeerEvent::Headers { .. } => false,
        PeerEvent::Addrs { .. } => false,
        _ => true,
    };
    if body {
        sinks.send_body(ev);
    } else {
        sinks.send_ctrl(ev);
    }
}

/// How a read failed, as far as it matters here.
#[derive(Clone, Copy, Debug, PartialEq, Eq, Structural)]
pub enum ReadFault {
    /// A message type the transport does not know.
    InvalidType,
    /// The other side closed or reset.
    Closed,
    Other,
}

/// Does the reader go on after a fault? Only an unknown message type is passed
/// over.
pub fn reader_goes_on(fault: ReadFault) -> (b: bool)
    ensures
        b == (fault == ReadFault::InvalidType),
{
    match fault {
        ReadFault::InvalidType => true,
        ReadFault::Closed => false,
        ReadFault::Other => false,
    }
}

/// A locator cut to what the wire takes.
pub fn wire_locator(locator: Vec<BlockHash>) -> (r: Vec<BlockHash>)
    ensures
        r@ == (if locator@.len() > MAX_LOCATOR_SZ {
            locator@.take(MAX_LOCATOR_SZ as int)
        } else {
            locator@
        }),
{
    let mut out = locator;
    if out.len() > MAX_LOCATOR_SZ {
        out.truncate(MAX_LOCATOR_SZ);
    }
    out
}

/// Joined chunks.
pub open spec fn joined_chunks(c: Seq<Vec<BlockHash>>) -> Seq<BlockHash>
    decreases c.len(),
{
    if c.len() == 0 {
        Seq::empty()
    } else {
        joined_chunks(c.drop_last()) + c.last()@
    }
}

/// Are `r` the messages of `hashes`: each within the wire limit and none empty, all but
/// the last full, and together the hashes in order?
pub open spec fn are_chunks(hashes: Seq<BlockHash>, r: Seq<Vec<BlockHash>>) -> bool {
    &&& joined_chunks(r) == hashes
    &&& forall|i: int| 0 <= i < r.len() ==> 0 < (#[trigger] r[i])@.len() <= MAX_INV_SIZE
    &&& forall|i: int| 0 <= i < r.len() - 1 ==> (#[trigger] r[i])@.len() == MAX_INV_SIZE
}

/// Requests cut into messages: each within the wire limit and none empty, all but
/// the last full, and together the requests in order.
pub fn getdata_chunks(hashes: &Vec<BlockHash>) -> (r: Vec<Vec<BlockHash>>)
    ensures
        are_chunks(hashes@, r@),
{
    let mut out: Vec<Vec<BlockHash>> = Vec::new();
    let mut i: usize = 0;
    assert(hashes@.take(0) =~= Seq::<BlockHash>::empty());
    while i < hashes.len()
        invariant
            i <= hashes@.len(),
            joined_chunks(out@) == hashes@.take(i as int),
            forall|k: int| 0 <= k < out@.len() ==> 0 < (#[trigger] out@[k])@.len() <= MAX_INV_SIZE,
            forall|k: int| 0 <= k < out@.len() - 1 ==> (#[trigger] out@[k])@.len() == MAX_INV_SIZE,
            i < hashes@.len() && out@.len() > 0 ==> out@.last()@.len() == MAX_INV_SIZE,
        decreases hashes@.len() - i,
    {
        let mut one: Vec<BlockHash> = Vec::new();
        let ghost start = i as int;
        while i < hashes.len() && one.len() < MAX_INV_SIZE
            invariant
                0 <= start <= i <= hashes@.len(),
                i == start + one@.len(),
                one@.len() <= MAX_INV_SIZE,
                one@ == hashes@.subrange(start, i as int),
            decreases hashes@.len() - i,
        {
            one.push(hashes[i]);
            i = i + 1;
            assert(hashes@.subrange(start, i as int) =~= hashes@.subrange(start, i - 1).push(
                hashes@[i - 1],
            ));
        }
        let ghost was = out@;
        out.push(one);
        assert(out@.drop_last() =~= was);
        assert(hashes@.take(start) + hashes@.subrange(start, i as int) =~= hashes@.take(i as int));
    }
    assert(hashes@.take(i as int) =~= hashes@);
    out
}

} // verus!

//! What comes off the wire, and the calls into the bitcoin crate that read it.
use vstd::prelude::*;
use bitcoin::consensus::Decodable;
use crate::hash::{le_word, BlockHash};
use crate::peers::{PeerAddr, PeerIp};

verus! {

/// Service bit: serves the full chain.
pub const SERVICE_NETWORK: u64 = 1;

/// Service bit: serves recent blocks.
pub const SERVICE_NETWORK_LIMITED: u64 = 1024;

/// Service bit: speaks the encrypted transport.
pub const SERVICE_P2P_V2: u64 = 2048;

/// A block header as plain values.
#[derive(Clone, Copy, Debug, PartialEq, Eq, Structural)]
pub struct BlockHeader {
    pub version: i32,
    pub prev: BlockHash,
    /// Root of the transaction tree, held like a hash.
    pub merkle_root: BlockHash,
    pub time: u32,
    pub bits: u32,
    pub nonce: u32,
}

/// The number that four bytes spell, lowest byte first.
pub open spec fn le_half(b: Seq<u8>) -> int
    recommends
        b.len() == 4,
{
    b[0] + 0x100 * b[1] + 0x1_0000 * b[2] + 0x100_0000 * b[3]
}

/// The same, read as a signed number.
pub open spec fn le_signed(b: Seq<u8>) -> int {
    if le_half(b) < 0x8000_0000 {
        le_half(b)
    } else {
        le_half(b) - 0x1_0000_0000
    }
}

impl BlockHeader {
    /// Do these 80 bytes spell the header? Version, parent, root, time, bits and
    /// nonce, in this order.
    pub open spec fn spelled_by(self, b: Seq<u8>) -> bool {
        &&& self.version == le_signed(b.subrange(0, 4))
        &&& self.prev.spells(b.subrange(4, 36))
        &&& self.merkle_root.spells(b.subrange(36, 68))
        &&& self.time == le_half(b.subrange(68, 72))
        &&& self.bits == le_half(b.subrange(72, 76))
        &&& self.nonce == le_half(b.subrange(76, 80))
    }

    /// The 32 bytes of the header's hash.
    pub open spec fn digest(self) -> Seq<u8> {
        header_digest(
            self.version,
            self.prev.bytes(),
            self.merkle_root.bytes(),
            self.time,
            self.bits,
            self.nonce,
        )
    }
}

/// What `bitcoin::block::Header::block_hash` returns, as bytes, for a header of
/// these fields.
pub uninterp spec fn header_digest(
    version: i32,
    prev: Seq<u8>,
    root: Seq<u8>,
    time: u32,
    bits: u32,
    nonce: u32,
) -> Seq<u8>;

/// `bitcoin::block::Header::block_hash`: the hash of a header. It depends on the
/// fields alone; what it computes (a double digest of the header bytes) is not
/// said.
#[verifier::external_body]
pub(crate) fn hash_header(h: &BlockHeader) -> (r: BlockHash)
    ensures
        r.bytes() == header_digest(
            h.version,
            h.prev.bytes(),
            h.merkle_root.bytes(),
            h.time,
            h.bits,
            h.nonce,
        ),
{
    let header = bitcoin::block::Header {
        version: bitcoin::block::Version::from_consensus(h.version),
        prev_blockhash: bitcoin::hashes::Hash::from_byte_array(h.prev.to_byte_array()),
        merkle_root: bitcoin::hashes::Hash::from_byte_array(h.merkle_root.to_byte_array()),
        time: h.time,
        bits: bitcoin::CompactTarget::from_consensus(h.bits),
        nonce: h.nonce,
    };
    BlockHash::from_byte_array(bitcoin::hashes::Hash::to_byte_array(header.block_hash()))
}

/// `bitcoin::block::Header::consensus_decode` on 80 bytes: the fields stand one
/// after the other, numbers lowest byte first. Any 80 bytes are a header.
#[verifier::external_body]
fn decode_header(b: &[u8]) -> (r: Option<BlockHeader>)
    requires
        b@.len() == 80,
    ensures
        r is Some,
        r->0.spelled_by(b@),
{
    let mut cur = b;
    let h = bitcoin::block::Header::consensus_decode(&mut cur).ok()?;
    Some(
        BlockHeader {
            version: h.version.to_consensus(),
            prev: BlockHash::from_byte_array(bitcoin::hashes::Hash::to_byte_array(h.prev_blockhash)),
            merkle_root: BlockHash::from_byte_array(bitcoin::hashes::Hash::to_byte_array(h.merkle_root)),
            time: h.time,
            bits: h.bits.to_consensus(),
            nonce: h.nonce,
        },
    )
}

/// The header in the first 80 bytes of a serialized block, without decoding the
/// rest; none where there are fewer.
pub fn decode_block_header_prefix(payload: &Vec<u8>) -> (r: Option<BlockHeader>)
    ensures
        r is Some <==> payload@.len() >= 80,
        r is Some ==> r->0.spelled_by(payload@.subrange(0, 80)),
{
    if payload.len() < 80 {
        return None;
    }
    let head = vstd::slice::slice_subrange(payload.as_slice(), 0, 80);
    decode_header(head)
}

/// The hash of the header in the first 80 bytes of a serialized block; none where there
/// are fewer.
pub fn framed_hash(payload: &Vec<u8>) -> (r: Option<BlockHash>)
    ensures
        r is Some <==> payload@.len() >= 80,
        r is Some ==> exists|h: BlockHeader| #[trigger]
            h.spelled_by(payload@.subrange(0, 80)) && r->0.bytes() == h.digest(),
{
    match decode_block_header_prefix(payload) {
        Some(h) => Some(hash_header(&h)),
        None => None,
    }
}

/// The nonce in the first eight bytes of a ping, lowest byte first; none where there are
/// fewer.
pub fn framed_nonce(payload: &Vec<u8>) -> (r: Option<u64>)
    ensures
        r is Some <==> payload@.len() >= 8,
        r is Some ==> r->0 == le_word(payload@.subrange(0, 8)),
{
    if payload.len() < 8 {
        return None;
    }
    let low: u64 = payload[0] as u64 + 0x100 * (payload[1] as u64) + 0x1_0000 * (payload[2] as u64)
        + 0x100_0000 * (payload[3] as u64);
    let high: u64 = payload[4] as u64 + 0x100 * (payload[5] as u64) + 0x1_0000 * (payload[6] as u64)
        + 0x100_0000 * (payload[7] as u64);
    Some(low + 0x1_0000_0000 * high)
}

/// Does `bitcoin::consensus::deserialize` take these bytes for a whole block?
pub uninterp spec fn parses_as_block(b: Seq<u8>) -> bool;

/// `bitcoin::consensus::deserialize` into a `bitcoin::Block`: whether it succeeds.
/// That depends on the bytes alone; which bytes make a block is not said.
#[verifier::external_body]
pub(crate) fn block_parses(b: &Vec<u8>) -> (ok: bool)
    ensures
        ok == parses_as_block(b@),
{
    bitcoin::consensus::deserialize::<bitcoin::Block>(b).is_ok()
}

/// `bitcoin::p2p::ServiceFlags::has`: whether every bit of `mask` is set in
/// `bits`.
#[verifier::external_body]
fn services_have(bits: u64, mask: u64) -> (b: bool)
    ensures
        b == (bits & mask == mask),
{
    bitcoin::p2p::ServiceFlags::from(bits).has(bitcoin::p2p::ServiceFlags::from(mask))
}

/// Is this a peer worth dialing: full or recent blocks, and the encrypted
/// transport?
pub open spec fn useful_services(bits: u64) -> bool {
    (bits & SERVICE_NETWORK == SERVICE_NETWORK || bits & SERVICE_NETWORK_LIMITED
        == SERVICE_NETWORK_LIMITED) && bits & SERVICE_P2P_V2 == SERVICE_P2P_V2
}

/// Full or limited network service together with the encrypted transport?
pub fn services_useful_for_ibd(bits: u64) -> (b: bool)
    ensures
        b == useful_services(bits),
{
    (services_have(bits, SERVICE_NETWORK) || services_have(bits, SERVICE_NETWORK_LIMITED))
        && services_have(bits, SERVICE_P2P_V2)
}

/// Can this address be dialed? It has a port, and its host is neither unspecified
/// nor multicast (nor, for four bytes, broadcast).
pub open spec fn dialable(a: PeerAddr) -> bool {
    a.port != 0 && (match a.ip {
        PeerIp::V4 { a: w, b: x, c: y, d: z } => !(w == 0 && x == 0 && y == 0 && z == 0) && !(w
            == 255 && x == 255 && y == 255 && z == 255) && !(224 <= w <= 239),
        PeerIp::V6 { hi, lo } => !(hi == 0 && lo == 0) && hi / 0x100_0000_0000_0000 != 255,
    })
}

/// Can this address be dialed?
pub fn usable_dial_addr(sa: &PeerAddr) -> (b: bool)
    ensures
        b == dialable(*sa),
{
    if sa.port == 0 {
        return false;
    }
    match sa.ip {
        PeerIp::V4 { a: w, b: x, c: y, d: z } => {
            let unspecified = w == 0 && x == 0 && y == 0 && z == 0;
            let broadcast = w == 255 && x == 255 && y == 255 && z == 255;
            let multicast = 224 <= w && w <= 239;
            !unspecified && !broadcast && !multicast
        },
        PeerIp::V6 { hi, lo } => {
            let unspecified = hi == 0 && lo == 0;
            let multicast = hi / 0x100_0000_0000_0000 == 255;
            !unspecified && !multicast
        },
    }
}

/// An address as `addr` carries it: eight words, in which four-byte addresses are
/// embedded.
#[derive(Clone, Copy, Debug)]
pub struct WireAddr {
    pub services: u64,
    pub words: [u16; 8],
    pub port: u16,
}

/// The host part of an `addrv2` entry.
#[derive(Clone, Copy, Debug)]
pub enum WireHost {
    V4 { a: u8, b: u8, c: u8, d: u8 },
    V6 { words: [u16; 8] },
    /// A network that sockets cannot reach.
    Other,
}

/// An address as `addrv2` carries it.
#[derive(Clone, Copy, Debug)]
pub struct WireAddrV2 {
    pub services: u64,
    pub host: WireHost,
    pub port: u16,
}

/// Is this an onion address in words?
pub open spec fn is_onion(w: Seq<u16>) -> bool {
    w[0] == 0xFD87 && w[1] == 0xD87E && w[2] == 0xEB43
}

/// Do the words embed a four-byte address: five zero words, then zero or all
/// ones?
pub open spec fn embeds_v4(w: Seq<u16>) -> bool {
    w[0] == 0 && w[1] == 0 && w[2] == 0 && w[3] == 0 && w[4] == 0 && (w[5] == 0 || w[5] == 0xFFFF)
}

/// Eight words as an address of two halves.
pub open spec fn ip_of_words(w: Seq<u16>) -> PeerIp {
    PeerIp::V6 {
        hi: (w[0] * 0x1_0000_0000_0000 + w[1] * 0x1_0000_0000 + w[2] * 0x1_0000 + w[3]) as u64,
        lo: (w[4] * 0x1_0000_0000_0000 + w[5] * 0x1_0000_0000 + w[6] * 0x1_0000 + w[7]) as u64,
    }
}

/// The socket address of eight words: none for an onion address.
pub open spec fn socket_of_words(w: Seq<u16>, port: u16) -> Option<PeerAddr> {
    if is_onion(w) {
        None
    } else if embeds_v4(w) {
        Some(
            PeerAddr {
                ip: PeerIp::V4 {
                    a: (w[6] / 256) as u8,
                    b: (w[6] % 256) as u8,
                    c: (w[7] / 256) as u8,
                    d: (w[7] % 256) as u8,
                },
                port,
            },
        )
    } else {
        Some(PeerAddr { ip: ip_of_words(w), port })
    }
}

/// `bitcoin::p2p::address::Address::socket_addr`: none for an onion address, else
/// whether the host is a four-byte one, its words (a four-byte host mapped into
/// the last two), and the port.
#[verifier::external_body]
fn socket_parts(words: [u16; 8], port: u16) -> (r: Option<(bool, [u16; 8], u16)>)
    ensures
        match r {
            Some((v4, w, p)) => !is_onion(words@) && v4 == embeds_v4(words@) && p == port && w@[6]
                == words@[6] && w@[7] == words@[7] && (v4 || w@ == words@),
            None => is_onion(words@),
        },
{
    let none = bitcoin::p2p::ServiceFlags::NONE;
    let a = bitcoin::p2p::address::Address { services: none, address: words, port };
    match a.socket_addr() {
        Ok(sa) => {
            let back = bitcoin::p2p::address::Address::new(&sa, none);
            Some((sa.is_ipv4(), back.address, back.port))
        },
        Err(_) => None,
    }
}

fn join_words(a: u16, b: u16, c: u16, d: u16) -> (r: u64)
    ensures
        r == a * 0x1_0000_0000_0000 + b * 0x1_0000_0000 + c * 0x1_0000 + d,
{
    (a as u64) * 0x1_0000_0000_0000 + (b as u64) * 0x1_0000_0000 + (c as u64) * 0x1_0000 + (d
        as u64)
}

fn words_ip(w: &[u16; 8]) -> (r: PeerIp)
    ensures
        r == ip_of_words(w@),
{
    PeerIp::V6 { hi: join_words(w[0], w[1], w[2], w[3]), lo: join_words(w[4], w[5], w[6], w[7]) }
}

/// The socket address of an `addr` entry.
pub fn wire_socket(words: [u16; 8], port: u16) -> (r: Option<PeerAddr>)
    ensures
        r == socket_of_words(words@, port),
{
    match socket_parts(words, port) {
        Some(parts) => {
            let (v4, w, p) = parts;
            let ip = if v4 {
                PeerIp::V4 {
                    a: (w[6] / 256) as u8,
                    b: (w[6] % 256) as u8,
                    c: (w[7] / 256) as u8,
                    d: (w[7] % 256) as u8,
                }
            } else {
                words_ip(&w)
            };
            Some(PeerAddr { ip, port: p })
        },
        None => None,
    }
}

/// The socket address of an `addrv2` entry.
pub open spec fn socket_of_host(h: WireHost, port: u16) -> Option<PeerAddr> {
    match h {
        WireHost::V4 { a, b, c, d } => Some(PeerAddr { ip: PeerIp::V4 { a, b, c, d }, port }),
        WireHost::V6 { words } => Some(PeerAddr { ip: ip_of_words(words@), port }),
        WireHost::Other => None,
    }
}

/// What an `addr` entry adds to the dial pool: its socket address, where the
/// services are useful and it can be dialed.
pub open spec fn dial_gain(e: WireAddr) -> Seq<PeerAddr> {
    match socket_of_words(e.words@, e.port) {
        Some(a) => if useful_services(e.services) && dialable(a) {
            seq![a]
        } else {
            Seq::empty()
        },
        None => Seq::empty(),
    }
}

/// What a row of `addr` entries adds to the dial pool, in order.
pub open spec fn dial_gains(s: Seq<WireAddr>) -> Seq<PeerAddr>
    decreases s.len(),
{
    if s.len() == 0 {
        Seq::empty()
    } else {
        dial_gains(s.drop_last()) + dial_gain(s.last())
    }
}

/// What an `addrv2` entry adds to the dial pool.
pub open spec fn dial_gain_v2(e: WireAddrV2) -> Seq<PeerAddr> {
    match socket_of_host(e.host, e.port) {
        Some(a) => if useful_services(e.services) && dialable(a) {
            seq![a]
        } else {
            Seq::empty()
        },
        None => Seq::empty(),
    }
}

/// What a row of `addrv2` entries adds to the dial pool, in order.
pub open spec fn dial_gains_v2(s: Seq<WireAddrV2>) -> Seq<PeerAddr>
    decreases s.len(),
{
    if s.len() == 0 {
        Seq::empty()
    } else {
        dial_gains_v2(s.drop_last()) + dial_gain_v2(s.last())
    }
}

/// Sockets of an `addr` list that are worth dialing.
pub fn socket_addrs_from_addr(list: &Vec<WireAddr>) -> (r: Vec<PeerAddr>)
    ensures
        r@ == dial_gains(list@),
{
    let mut out: Vec<PeerAddr> = Vec::new();
    let mut i: usize = 0;
    while i < list.len()
        invariant
            i <= list@.len(),
            out@ == dial_gains(list@.take(i as int)),
        decreases list@.len() - i,
    {
        let e = list[i];
        let ghost was = out@;
        assert(list@.take(i + 1).drop_last() =~= list@.take(i as int));
        if services_useful_for_ibd(e.services) {
            if let Some(a) = wire_socket(e.words, e.port) {
                if usable_dial_addr(&a) {
                    out.push(a);
                    assert(was.push(a) =~= was + seq![a]);
                }
            }
        }
        assert(out@ =~= was + dial_gain(e));
        i = i + 1;
    }
    assert(list@.take(i as int) =~= list@);
    out
}

/// Sockets of an `addrv2` list that are worth dialing.
pub fn socket_addrs_from_addrv2(list: &Vec<WireAddrV2>) -> (r: Vec<PeerAddr>)
    ensures
        r@ == dial_gains_v2(list@),
{
    let mut out: Vec<PeerAddr> = Vec::new();
    let mut i: usize = 0;
    while i < list.len()
        invariant
            i <= list@.len(),
            out@ == dial_gains_v2(list@.take(i as int)),
        decreases list@.len() - i,
    {
        let e = list[i];
        let ghost was = out@;
        assert(list@.take(i + 1).drop_last() =~= list@.take(i as int));
        let sa = match e.host {
            WireHost::V4 { a, b, c, d } => Some(
                PeerAddr { ip: PeerIp::V4 { a, b, c, d }, port: e.port },
            ),
            WireHost::V6 { words } => Some(PeerAddr { ip: words_ip(&words), port: e.port }),
            WireHost::Other => None,
        };
        if let Some(a) = sa {
            if services_useful_for_ibd(e.services) && usable_dial_addr(&a) {
                out.push(a);
            }
        }
        assert(out@ =~= was + dial_gain_v2(e));
        i = i + 1;
    }
    assert(list@.take(i as int) =~= list@);
    out
}

/// Whatever an `addr` list adds to the dial pool can be dialed, and is the socket of an
/// entry whose services are useful.
pub proof fn law_learned_addresses_are_worth_dialing(s: Seq<WireAddr>, i: int)
    requires
        0 <= i < dial_gains(s).len(),
    ensures
        dialable(dial_gains(s)[i]),
        exists|k: int|
            0 <= k < s.len() && useful_services((#[trigger] s[k]).services) && socket_of_words(
                s[k].words@,
                s[k].port,
            ) == Some(dial_gains(s)[i]),
    decreases s.len(),
{
    let front = s.drop_last();
    if i < dial_gains(front).len() {
        law_learned_addresses_are_worth_dialing(front, i);
        let k = choose|k: int|
            0 <= k < front.len() && useful_services((#[trigger] front[k]).services)
                && socket_of_words(front[k].words@, front[k].port) == Some(dial_gains(front)[i]);
        assert(s[k] == front[k]);
    } else {
        assert(s[s.len() - 1] == s.last());
    }
}

/// Whatever an `addrv2` list adds to the dial pool can be dialed, and is the socket of an
/// entry whose services are useful.
pub proof fn law_learned_v2_addresses_are_worth_dialing(s: Seq<WireAddrV2>, i: int)
    requires
        0 <= i < dial_gains_v2(s).len(),
    ensures
        dialable(dial_gains_v2(s)[i]),
        exists|k: int|
            0 <= k < s.len() && useful_services((#[trigger] s[k]).services) && socket_of_host(
                s[k].host,
                s[k].port,
            ) == Some(dial_gains_v2(s)[i]),
    decreases s.len(),
{
    let front = s.drop_last();
    if i < dial_gains_v2(front).len() {
        law_learned_v2_addresses_are_worth_dialing(front, i);
        let k = choose|k: int|
            0 <= k < front.len() && useful_services((#[trigger] front[k]).services)
                && socket_of_host(front[k].host, front[k].port) == Some(dial_gains_v2(front)[i]);
        assert(s[k] == front[k]);
    } else {
        assert(s[s.len() - 1] == s.last());
    }
}

} // verus!

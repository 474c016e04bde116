//! What comes off the wire, and what is told of it.
use bitcoin::p2p::ServiceFlags;
use rbitcoin_ibd::hash::BlockHash;
use rbitcoin_ibd::keyed::KeySet;
use rbitcoin_ibd::peer_io::{
    advertised_height, deliver, getdata_chunks, note_block_progress, note_block_rx,
    note_stream_bytes, on_decoded, on_frame, reader_goes_on, touch_block_progress, wire_locator,
    DecodedMsg, Frame, FrameAction, InvItem, PeerEvent, PeerEventSinks, ReadFault, MAX_INV_SIZE,
    MAX_LOCATOR_SZ,
};
use rbitcoin_ibd::peers::{PeerAddr, PeerIp, PeerSlot};
use rbitcoin_ibd::rate::PeerRate;
use rbitcoin_ibd::wire::{
    decode_block_header_prefix, framed_hash, framed_nonce, services_useful_for_ibd, socket_addrs_from_addr,
    socket_addrs_from_addrv2, usable_dial_addr, WireAddr, WireAddrV2, WireHost,
};

fn dummy_slot(id: usize) -> PeerSlot {
    PeerSlot {
        id,
        addr: v4(127, 0, 0, 1, 18444),
        in_flight: KeySet::new(),
        peer_height: 100,
        connected_ms: 1,
        first_data_ms: 0,
        bytes_rx: 0,
        bytes_rx_total: 0,
        rate: PeerRate::idle(),
        alive: true,
    }
}

fn v4(a: u8, b: u8, c: u8, d: u8, port: u16) -> PeerAddr {
    PeerAddr { ip: PeerIp::V4 { a, b, c, d }, port }
}

fn v6(hi: u64, lo: u64, port: u16) -> PeerAddr {
    PeerAddr { ip: PeerIp::V6 { hi, lo }, port }
}

/// An IPv4 address as `addr` messages carry it: mapped into IPv6.
fn wire(a: u16, b: u16, services: ServiceFlags) -> WireAddr {
    let words = [0, 0, 0, 0, 0, 0xffff, a, b];
    WireAddr { services: services.to_u64(), words, port: 8333 }
}

#[test]
fn usable_dial_and_services_filters() {
    assert!(!services_useful_for_ibd(ServiceFlags::NETWORK.to_u64()));
    assert!(!services_useful_for_ibd(ServiceFlags::NETWORK_LIMITED.to_u64()));
    assert!(!services_useful_for_ibd(ServiceFlags::P2P_V2.to_u64()));
    assert!(!services_useful_for_ibd(ServiceFlags::NONE.to_u64()));
    assert!(services_useful_for_ibd((ServiceFlags::NETWORK | ServiceFlags::P2P_V2).to_u64()));
    assert!(services_useful_for_ibd(
        (ServiceFlags::NETWORK_LIMITED | ServiceFlags::P2P_V2).to_u64()
    ));

    assert!(usable_dial_addr(&v4(1, 2, 3, 4, 8333)));
    assert!(!usable_dial_addr(&v4(1, 2, 3, 4, 0)));
    assert!(!usable_dial_addr(&v4(0, 0, 0, 0, 8333)));
    assert!(!usable_dial_addr(&v4(255, 255, 255, 255, 8333)));
    assert!(!usable_dial_addr(&v4(224, 0, 0, 1, 8333)));
    assert!(usable_dial_addr(&v6(0, 1, 8333)));
    assert!(!usable_dial_addr(&v6(0, 0, 8333)));
}

#[test]
fn speed_sample_and_progress_helpers() {
    let mut s = dummy_slot(7);
    assert!(s.speed_sample(10).is_none());
    s.note_rx_bytes(0, 10);
    assert_eq!(s.first_data_ms, 0);
    s.note_rx_bytes(32 * 1024, 1_001);
    assert!(s.speed_sample(2_001).is_none());
    s.note_rx_bytes(64 * 1024, 1_500);
    assert!(s.first_data_ms > 0);
    let sample = s.speed_sample(3_001).expect("bps after 64 KiB");
    assert!(sample.1 > 0);
    assert_eq!(sample, (1_000, 96 * 1024 * 1000 / 2_000));

    note_stream_bytes(&mut s.bytes_rx_total, 0);
    assert_eq!(s.bytes_rx_total, 0);
    note_stream_bytes(&mut s.bytes_rx_total, 100);
    note_stream_bytes(&mut s.bytes_rx_total, 50);
    assert_eq!(s.bytes_rx_total, 150);

    let mut progress = 0u64;
    touch_block_progress(&mut progress, 77);
    assert!(progress > 0);
    let mut slots = vec![s];
    note_block_progress(&mut slots, 7, 5_000);
    assert_eq!(slots[0].rate.progress_ms, 5_000);
    note_block_rx(&mut slots, 7, 1000, 6_000);
    assert_eq!((slots[0].rate.progress_ms, slots[0].bytes_rx), (6_000, 97 * 1024 - 24));
    note_block_progress(&mut slots, 99, 9_000);
    note_block_rx(&mut slots, 99, 1, 9_000);
    assert_eq!(slots[0].rate.progress_ms, 6_000);
}

#[test]
fn event_sinks_send_body_and_ctrl() {
    let mut sinks = PeerEventSinks::new();
    sinks.send_body(PeerEvent::Dead { peer: 1, reason: "x".to_string() });
    sinks.send_ctrl(PeerEvent::Headers { peer: 1, headers: vec![] });
    assert!(matches!(sinks.body.pop_front().unwrap(), PeerEvent::Dead { .. }));
    assert!(matches!(sinks.ctrl.pop_front().unwrap(), PeerEvent::Headers { .. }));
    deliver(&mut sinks, PeerEvent::Addrs { peer: 2, addrs: vec![] });
    deliver(&mut sinks, PeerEvent::NotFound { peer: 2, hashes: vec![] });
    assert_eq!((sinks.body.len(), sinks.ctrl.len()), (1, 1));
}

#[test]
fn socket_addrs_from_addr_and_addrv2_filter() {
    let v2_net = ServiceFlags::NETWORK | ServiceFlags::P2P_V2;
    let v2_limited = ServiceFlags::NETWORK_LIMITED | ServiceFlags::P2P_V2;
    let out = socket_addrs_from_addr(&vec![
        wire(0x0102, 0x0304, ServiceFlags::NONE),
        wire(0x0102, 0x0304, ServiceFlags::NETWORK),
        wire(0x0102, 0x0304, v2_net),
        wire(0x0506, 0x0708, ServiceFlags::NETWORK_LIMITED),
        wire(0x0506, 0x0708, v2_limited),
        wire(0, 0, v2_net),
    ]);
    assert_eq!(out, vec![v4(1, 2, 3, 4, 8333), v4(5, 6, 7, 8, 8333)]);

    let host = |d: u8| WireHost::V4 { a: 9, b: 9, c: 9, d };
    let out2 = socket_addrs_from_addrv2(&vec![
        WireAddrV2 { services: v2_net.to_u64(), host: host(9), port: 18444 },
        WireAddrV2 { services: ServiceFlags::NETWORK.to_u64(), host: host(8), port: 18444 },
        WireAddrV2 { services: ServiceFlags::NONE.to_u64(), host: host(10), port: 18444 },
        WireAddrV2 { services: v2_net.to_u64(), host: host(11), port: 0 },
        WireAddrV2 { services: v2_net.to_u64(), host: WireHost::Other, port: 18444 },
    ]);
    assert_eq!(out2, vec![v4(9, 9, 9, 9, 18444)]);

    assert!(!usable_dial_addr(&v6(0xff02_0000_0000_0000, 1, 8333)));
    let loopback = [0, 0, 0, 0, 0, 0, 0, 1];
    let out3 = socket_addrs_from_addrv2(&vec![WireAddrV2 {
        services: v2_limited.to_u64(),
        host: WireHost::V6 { words: loopback },
        port: 8333,
    }]);
    assert_eq!(out3, vec![v6(0, 1, 8333)]);
}

#[test]
fn addr_words_are_read_as_sockets() {
    let v2 = ServiceFlags::NETWORK | ServiceFlags::P2P_V2;
    let six = WireAddr {
        services: v2.to_u64(),
        words: [0x2001, 0xdb8, 0, 0, 0, 0, 0, 7],
        port: 8333,
    };
    let onion = WireAddr {
        services: v2.to_u64(),
        words: [0xFD87, 0xD87E, 0xEB43, 1, 2, 3, 4, 5],
        port: 8333,
    };
    let out = socket_addrs_from_addr(&vec![six, onion]);
    assert_eq!(out, vec![v6(0x2001_0db8_0000_0000, 7, 8333)]);
}

#[test]
fn header_prefix_is_decoded_without_the_rest() {
    let mut bytes = vec![0u8; 100];
    bytes[0..4].copy_from_slice(&(-2i32).to_le_bytes());
    bytes[4] = 0xaa;
    bytes[36] = 0xbb;
    bytes[68..72].copy_from_slice(&1_300_000_001u32.to_le_bytes());
    bytes[72..76].copy_from_slice(&0x207fffffu32.to_le_bytes());
    bytes[76..80].copy_from_slice(&9u32.to_le_bytes());
    let h = decode_block_header_prefix(&bytes).unwrap();
    assert_eq!((h.version, h.time, h.bits, h.nonce), (-2, 1_300_000_001, 0x207fffff, 9));
    assert_eq!(h.prev.to_byte_array()[0], 0xaa);
    assert_eq!(h.merkle_root.to_byte_array()[0], 0xbb);
    assert!(decode_block_header_prefix(&vec![0u8; 79]).is_none());
}

#[test]
fn frame_is_known_by_its_header_hash_and_its_nonce() {
    let genesis = bitcoin::constants::genesis_block(bitcoin::Network::Bitcoin);
    let bytes = bitcoin::consensus::serialize(&genesis);
    let want: [u8; 32] = bitcoin::hashes::Hash::to_byte_array(genesis.block_hash());
    assert_eq!(framed_hash(&bytes), Some(BlockHash::from_byte_array(want)));
    assert_eq!(framed_hash(&bytes[..80].to_vec()), framed_hash(&bytes), "the rest does not matter");
    assert_eq!(framed_hash(&bytes[..79].to_vec()), None);

    let mut ping = 0x0102_0304_fffe_fdfcu64.to_le_bytes().to_vec();
    assert_eq!(framed_nonce(&ping), Some(0x0102_0304_fffe_fdfc));
    assert_eq!(framed_nonce(&vec![0xff; 9]), Some(u64::MAX));
    ping.pop();
    assert_eq!(framed_nonce(&ping), None);
}

fn frame(is_ping: bool, is_block: bool, len: usize) -> Frame {
    Frame {
        is_ping,
        ping_nonce: Some(6),
        is_block,
        header_hash: Some(BlockHash::from_byte_array([4; 32])),
        payload: vec![0u8; len],
    }
}

#[test]
fn frames_are_answered_reported_or_decoded() {
    assert!(matches!(on_frame(3, frame(true, false, 8)), FrameAction::Pong(6)));
    assert!(matches!(on_frame(3, frame(false, false, 8)), FrameAction::Decode));
    match on_frame(3, frame(false, true, 80)) {
        FrameAction::Body(PeerEvent::BlockFramed { peer: 3, payload, .. }) => {
            assert_eq!(payload.len(), 80)
        }
        _ => panic!("expected a body"),
    }
    assert!(matches!(
        on_frame(3, frame(false, true, 79)),
        FrameAction::Body(PeerEvent::BlockDecodeFailed { peer: 3, .. })
    ));
    let mut blank = frame(false, true, 200);
    blank.header_hash = None;
    assert!(matches!(on_frame(3, blank), FrameAction::Ignore));
    let mut mute = frame(true, false, 0);
    mute.ping_nonce = None;
    assert!(matches!(on_frame(3, mute), FrameAction::Ignore));
}

#[test]
fn decoded_messages_are_reported_where_something_is_left() {
    let b = BlockHash::from_byte_array([5; 32]);
    assert!(matches!(
        on_decoded(1, DecodedMsg::Headers(vec![])),
        Some(PeerEvent::Headers { peer: 1, .. })
    ));
    match on_decoded(1, DecodedMsg::NotFound(vec![InvItem::Other, InvItem::Block(b)])) {
        Some(PeerEvent::NotFound { hashes, .. }) => assert_eq!(hashes, vec![b]),
        _ => panic!("expected not-found"),
    }
    assert!(on_decoded(1, DecodedMsg::NotFound(vec![InvItem::Other])).is_none());
    assert!(on_decoded(1, DecodedMsg::Addr(vec![])).is_none());
    assert!(on_decoded(1, DecodedMsg::AddrV2(vec![])).is_none());
    assert!(on_decoded(1, DecodedMsg::Other).is_none());
}

#[test]
fn commands_fit_the_wire() {
    let many: Vec<BlockHash> = (0..MAX_INV_SIZE + 3)
        .map(|i| BlockHash::from_byte_array([(i % 251) as u8; 32]))
        .collect();
    let chunks = getdata_chunks(&many);
    assert_eq!(chunks.len(), 2);
    assert_eq!(chunks[0].len(), MAX_INV_SIZE);
    assert_eq!(chunks[1], many[MAX_INV_SIZE..].to_vec());
    assert!(getdata_chunks(&vec![]).is_empty());
    let long = vec![BlockHash::zero(); MAX_LOCATOR_SZ + 1];
    assert_eq!(wire_locator(long).len(), MAX_LOCATOR_SZ);
    assert_eq!(advertised_height(-4), 0);
    assert_eq!(advertised_height(4), 4);
    assert!(reader_goes_on(ReadFault::InvalidType));
    assert!(!reader_goes_on(ReadFault::Closed));
}

#[test]
fn hash_bytes_come_back() {
    let mut b = [0u8; 32];
    for (i, x) in b.iter_mut().enumerate() {
        *x = i as u8 * 7;
    }
    assert_eq!(BlockHash::from_byte_array(b).to_byte_array(), b);
    assert!(BlockHash::zero().is_zero());
}

//! What is read off the wire and what is put on it.
use vstd::prelude::*;
use crate::dial::{gathered, law_locator_is_well_formed, locator_of};
use crate::hash::BlockHash;
use crate::peer_io::{
    are_chunks, frame_action, inv_blocks, joined_chunks, Frame, FrameAction, InvItem, PeerEvent,
};
use crate::peers::{PeerAddr, PeerIp, SlotView};
use crate::wire::{
    dial_gains, dialable, ip_of_words, le_half, socket_of_words, useful_services, BlockHeader, WireAddr,
};

verus! {

proof fn lemma_chunks(r: Seq<Vec<BlockHash>>, n: int)
    requires
        0 <= n <= r.len(),
        forall|i: int| 0 <= i < n ==> (#[trigger] r[i])@.len() == 50_000,
    ensures
        joined_chunks(r.take(n)).len() == 50_000 * n,
    decreases n,
{
    if n > 0 {
        lemma_chunks(r, n - 1);
        assert(r.take(n).drop_last() =~= r.take(n - 1));
        assert(r.take(n).last() == r[n - 1]);
    }
}

/// Requests go out in as few messages of at most 50 000 hashes as they fit in.
pub proof fn law_requests_take_the_fewest_messages(hashes: Seq<BlockHash>, r: Seq<Vec<BlockHash>>)
    requires
        are_chunks(hashes, r),
    ensures
        hashes.len() == 0 ==> r.len() == 0,
        r.len() > 0 ==> 50_000 * (r.len() - 1) < hashes.len() <= 50_000 * r.len(),
        joined_chunks(r) == hashes,
{
    if r.len() > 0 {
        let n = r.len() - 1;
        lemma_chunks(r, n);
        assert(r.drop_last() =~= r.take(n));
        assert(r[n] == r.last());
    }
}

proof fn lemma_gathered_all(acc: Seq<BlockHash>, s: Seq<BlockHash>, i: int, cap: int, h: BlockHash)
    requires
        0 <= i,
        acc.len() + s.len() - i <= cap,
    ensures
        acc.contains(h) ==> gathered(acc, s, i, cap).contains(h),
        (exists|k: int| i <= k < s.len() && #[trigger] s[k] == h) ==> gathered(
            acc,
            s,
            i,
            cap,
        ).contains(h),
        gathered(acc, s, i, cap).len() <= acc.len() + (if i < s.len() {
            s.len() - i
        } else {
            0
        }),
    decreases s.len() - i,
{
    if i < s.len() {
        let next = if acc.contains(s[i]) {
            acc
        } else {
            acc.push(s[i])
        };
        assert(next.contains(s[i])) by {
            if !acc.contains(s[i]) {
                assert(next[acc.len() as int] == s[i]);
            }
        }
        if acc.contains(h) {
            let k = choose|k: int| 0 <= k < acc.len() && acc[k] == h;
            assert(next[k] == h);
        }
        if next.len() < cap {
            lemma_gathered_all(next, s, i + 1, cap, h);
        }
        if exists|k: int| i <= k < s.len() && #[trigger] s[k] == h {
            let k = choose|k: int| i <= k < s.len() && #[trigger] s[k] == h;
            if k > i {
                assert(exists|m: int| i + 1 <= m < s.len() && #[trigger] s[m] == h);
            }
        }
    }
}

/// A locator holds at most 101 hashes. It names up to eight tips, the confirmed tip and, as
/// far as there is room for all of it, the store's whole locator.
pub proof fn law_locator_names_tips_and_store(
    tips: Seq<BlockHash>,
    tip: Option<BlockHash>,
    rest: Seq<BlockHash>,
    h: BlockHash,
)
    requires
        tips.len() <= 8,
        rest.len() <= 92,
    ensures
        locator_of(tips, tip, rest).len() <= 101,
        tips.contains(h) || tip == Some(h) || rest.contains(h) ==> locator_of(
            tips,
            tip,
            rest,
        ).contains(h),
{
    law_locator_is_well_formed(tips, tip, rest);
    let none = Seq::<BlockHash>::empty();
    let a = gathered(none, tips, 0, 8);
    lemma_gathered_all(none, tips, 0, 8, h);
    let b = match tip {
        Some(t) => if a.contains(t) {
            a
        } else {
            a.push(t)
        },
        None => a,
    };
    if a.contains(h) {
        let k = choose|k: int| 0 <= k < a.len() && a[k] == h;
        assert(b[k] == h);
    }
    lemma_gathered_all(b, rest, 0, 101, h);
}

/// A block frame is reported with its bytes from 80 bytes on, as failed below that, and not
/// at all without a header hash; a ping is answered with its own nonce; anything else is
/// decoded elsewhere.
pub proof fn law_frames_are_told_apart(id: usize, f: Frame)
    ensures
        f.is_ping && f.ping_nonce is Some ==> frame_action(id, f) == FrameAction::Pong(
            f.ping_nonce->0,
        ),
        f.is_ping && f.ping_nonce is None ==> frame_action(id, f) == FrameAction::Ignore,
        !f.is_ping && f.is_block && f.header_hash is None ==> frame_action(id, f)
            == FrameAction::Ignore,
        !f.is_ping && f.is_block && f.header_hash is Some && f.payload@.len() >= 80
            ==> (frame_action(id, f) matches FrameAction::Body(
            PeerEvent::BlockFramed { peer, hash, payload },
        ) && peer == id && hash == f.header_hash->0 && payload@ == f.payload@),
        !f.is_ping && f.is_block && f.header_hash is Some && f.payload@.len() < 80
            ==> (frame_action(id, f) matches FrameAction::Body(
            PeerEvent::BlockDecodeFailed { peer, hash },
        ) && peer == id && hash == f.header_hash->0),
        !f.is_ping && !f.is_block ==> frame_action(id, f) == FrameAction::Decode,
{
}

/// The blocks of an inventory are exactly those that it lists as blocks.
pub proof fn law_inventory_keeps_its_blocks(s: Seq<InvItem>, h: BlockHash)
    ensures
        inv_blocks(s).contains(h) <==> s.contains(InvItem::Block(h)),
        inv_blocks(s).len() <= s.len(),
    decreases s.len(),
{
    if s.len() > 0 {
        let t = s.drop_last();
        law_inventory_keeps_its_blocks(t, h);
        let all = inv_blocks(s);
        let rest = inv_blocks(t);
        if all.contains(h) {
            let k = choose|k: int| 0 <= k < all.len() && all[k] == h;
            if k < rest.len() {
                assert(rest[k] == h);
                assert(rest.contains(h));
                let m = choose|m: int| 0 <= m < t.len() && t[m] == InvItem::Block(h);
                assert(s[m] == InvItem::Block(h));
            } else {
                assert(s[s.len() - 1] == InvItem::Block(h));
            }
        }
        if s.contains(InvItem::Block(h)) {
            let m = choose|m: int| 0 <= m < s.len() && s[m] == InvItem::Block(h);
            if m < t.len() {
                assert(t[m] == InvItem::Block(h));
                assert(rest.contains(h));
                let k = choose|k: int| 0 <= k < rest.len() && rest[k] == h;
                assert(all[k] == h);
            } else {
                assert(all[rest.len() as int] == h);
            }
        }
    }
}

/// A peer is worth dialing with full or recent blocks and the encrypted transport, and more
/// services never make it less so.
pub proof fn law_useful_services(bits: u64, more: u64)
    ensures
        useful_services(bits) <==> (bits & 1 == 1 || bits & 1024 == 1024) && bits & 2048 == 2048,
        useful_services(bits) ==> useful_services(bits | more),
{
    assert(bits & 1 == 1 ==> (bits | more) & 1 == 1) by (bit_vector);
    assert(bits & 1024 == 1024 ==> (bits | more) & 1024 == 1024) by (bit_vector);
    assert(bits & 2048 == 2048 ==> (bits | more) & 2048 == 2048) by (bit_vector);
}

/// No address without a port, unspecified, broadcast or multicast is dialed; every other one
/// may be.
pub proof fn law_dialable_hosts(w: u8, x: u8, y: u8, z: u8, hi: u64, lo: u64, port: u16)
    requires
        port > 0,
    ensures
        !dialable(PeerAddr { ip: PeerIp::V4 { a: w, b: x, c: y, d: z }, port: 0 }),
        !dialable(PeerAddr { ip: PeerIp::V6 { hi, lo }, port: 0 }),
        dialable(PeerAddr { ip: PeerIp::V4 { a: w, b: x, c: y, d: z }, port }) <==> (w < 224 || w
            > 239) && w + x + y + z > 0 && w + x + y + z < 4 * 255,
        dialable(PeerAddr { ip: PeerIp::V6 { hi, lo }, port }) <==> hi < 0xFF00_0000_0000_0000
            && hi + lo > 0,
{
}

proof fn lemma_word_parts(a: u64, b: u64, c: u64, d: u64, x: u64)
    by (nonlinear_arith)
    requires
        a < 0x1_0000 && b < 0x1_0000 && c < 0x1_0000 && d < 0x1_0000,
        x == a * 0x1_0000_0000_0000 + b * 0x1_0000_0000 + c * 0x1_0000 + d,
    ensures
        x / 0x1_0000_0000_0000 == a,
        (x / 0x1_0000_0000) % 0x1_0000 == b,
        (x / 0x1_0000) % 0x1_0000 == c,
        x % 0x1_0000 == d,
{
}

/// A host of eight words that is neither an onion nor a mapped one keeps its words: each
/// can be read back off the address, and so can the port.
pub proof fn law_long_hosts_keep_their_words(w: Seq<u16>, port: u16)
    requires
        w.len() == 8,
        !(w[0] == 0xFD87 && w[1] == 0xD87E && w[2] == 0xEB43),
        w[0] != 0,
    ensures
        socket_of_words(w, port) matches Some(PeerAddr { ip: PeerIp::V6 { hi, lo }, port: p }) && p
            == port && hi / 0x1_0000_0000_0000 == w[0] && (hi / 0x1_0000_0000) % 0x1_0000 == w[1]
            && (hi / 0x1_0000) % 0x1_0000 == w[2] && hi % 0x1_0000 == w[3] && lo
            / 0x1_0000_0000_0000 == w[4] && (lo / 0x1_0000_0000) % 0x1_0000 == w[5] && (lo
            / 0x1_0000) % 0x1_0000 == w[6] && lo % 0x1_0000 == w[7],
{
    let ip = ip_of_words(w);
    lemma_word_parts(w[0] as u64, w[1] as u64, w[2] as u64, w[3] as u64, ip->hi);
    lemma_word_parts(w[4] as u64, w[5] as u64, w[6] as u64, w[7] as u64, ip->lo);
}

/// A four-byte host mapped into words comes back as its four bytes.
pub proof fn law_mapped_hosts_come_back(w: Seq<u16>, port: u16, a: u8, b: u8, c: u8, d: u8)
    requires
        w.len() == 8,
        w[0] == 0 && w[1] == 0 && w[2] == 0 && w[3] == 0 && w[4] == 0 && w[5] == 0xFFFF,
        w[6] == a * 256 + b,
        w[7] == c * 256 + d,
    ensures
        socket_of_words(w, port) == Some(PeerAddr { ip: PeerIp::V4 { a, b, c, d }, port }),
{
}

/// What an address list adds to the dial pool is the address of each entry that is useful
/// and can be dialed, and nothing else.
pub proof fn law_address_list_gives_its_useful_entries(s: Seq<WireAddr>, a: PeerAddr)
    ensures
        dial_gains(s).contains(a) <==> exists|i: int|
            0 <= i < s.len() && useful_services((#[trigger] s[i]).services) && dialable(a)
                && socket_of_words(s[i].words@, s[i].port) == Some(a),
    decreases s.len(),
{
    if s.len() > 0 {
        let t = s.drop_last();
        law_address_list_gives_its_useful_entries(t, a);
        let x = dial_gains(t);
        let y = crate::wire::dial_gain(s.last());
        let all = x + y;
        let last = s.len() - 1;
        assert(s[last] == s.last());
        if all.contains(a) {
            let k = choose|k: int| 0 <= k < all.len() && all[k] == a;
            if k < x.len() {
                assert(x[k] == a);
                assert(x.contains(a));
                let i = choose|i: int|
                    0 <= i < t.len() && useful_services((#[trigger] t[i]).services) && dialable(a)
                        && socket_of_words(t[i].words@, t[i].port) == Some(a);
                assert(s[i] == t[i]);
            } else {
                assert(y[k - x.len()] == a);
            }
        }
        if exists|i: int|
            0 <= i < s.len() && useful_services((#[trigger] s[i]).services) && dialable(a)
                && socket_of_words(s[i].words@, s[i].port) == Some(a) {
            let i = choose|i: int|
                0 <= i < s.len() && useful_services((#[trigger] s[i]).services) && dialable(a)
                    && socket_of_words(s[i].words@, s[i].port) == Some(a);
            if i < last {
                assert(t[i] == s[i]);
                assert(x.contains(a));
                let k = choose|k: int| 0 <= k < x.len() && x[k] == a;
                assert(all[k] == a);
            } else {
                assert(y[0] == a);
                assert(all[x.len() as int] == a);
            }
        }
    }
}

/// A speed sample is there once 64 KiB came in: the wait for the first data, and the bytes
/// per second since, rounded down.
pub proof fn law_speed_is_bytes_over_time(s: SlotView, now_ms: u64)
    requires
        s.bytes_rx <= u64::MAX / 1000,
        s.first_data_ms >= s.connected_ms,
        now_ms > s.first_data_ms,
    ensures
        s.speed(now_ms) is Some <==> s.first_data_ms > 0 && s.bytes_rx >= 64 * 1024,
        s.speed(now_ms) matches Some((wait, bps)) ==> wait == s.first_data_ms - s.connected_ms
            && bps * (now_ms - s.first_data_ms) <= s.bytes_rx * 1000 < (bps + 1) * (now_ms
            - s.first_data_ms),
{
    if let Some((wait, bps)) = s.speed(now_ms) {
        let age = now_ms - s.first_data_ms;
        let bytes = s.bytes_rx * 1000;
        vstd::arithmetic::div_mod::lemma_fundamental_div_mod(bytes, age);
        vstd::arithmetic::div_mod::lemma_mod_bound(bytes, age);
        assert(bps == bytes / age);
        assert(age * (bytes / age) == bps * age) by (nonlinear_arith)
            requires
                bps == bytes / age,
        ;
        assert((bps + 1) * age == bps * age + age) by (nonlinear_arith);
    }
}

/// Received bytes add up; the first ones start the clock, and later ones leave it.
pub proof fn law_received_bytes_add_up(s: SlotView, n: u64, now_ms: u64)
    requires
        s.bytes_rx + n <= u64::MAX,
    ensures
        s.with_rx(n, now_ms).bytes_rx == s.bytes_rx + n,
        n > 0 && s.first_data_ms == 0 ==> s.with_rx(n, now_ms).first_data_ms == now_ms,
        s.first_data_ms > 0 || n == 0 ==> s.with_rx(n, now_ms).first_data_ms == s.first_data_ms,
        s.with_rx(n, now_ms).in_flight == s.in_flight && s.with_rx(n, now_ms).alive == s.alive,
        s.with_progress(now_ms).rate.progress_ms == now_ms,
        s.with_progress(now_ms).rate.ewma_bps == s.rate.ewma_bps,
        s.with_progress(now_ms).rate.work_started_ms == s.rate.work_started_ms,
{
}

proof fn lemma_half_bytes(a: Seq<u8>, b: Seq<u8>, i: int)
    requires
        a.len() == 4,
        b.len() == 4,
        le_half(a) == le_half(b),
        0 <= i < 4,
    ensures
        a[i] == b[i],
{
}

/// A header leaves no byte of its eighty unread: two rows of bytes that spell the same
/// header are the same in every field, and one row spells one header's version, time, bits
/// and nonce.
pub proof fn law_header_reads_every_byte(
    g: BlockHeader,
    h: BlockHeader,
    a: Seq<u8>,
    b: Seq<u8>,
    i: int,
)
    requires
        a.len() == 80,
        b.len() == 80,
        h.spelled_by(a),
        0 <= i < 4,
    ensures
        h.spelled_by(b) ==> a[i] == b[i] && a[68 + i] == b[68 + i] && a[72 + i] == b[72 + i] && a[76
            + i] == b[76 + i],
        g.spelled_by(a) ==> g.version == h.version && g.time == h.time && g.bits == h.bits
            && g.nonce == h.nonce,
        h.prev.spells(a.subrange(4, 36)) && h.merkle_root.spells(a.subrange(36, 68)),
{
    if h.spelled_by(b) {
        lemma_half_bytes(a.subrange(0, 4), b.subrange(0, 4), i);
        lemma_half_bytes(a.subrange(68, 72), b.subrange(68, 72), i);
        lemma_half_bytes(a.subrange(72, 76), b.subrange(72, 76), i);
        lemma_half_bytes(a.subrange(76, 80), b.subrange(76, 80), i);
        assert(a.subrange(0, 4)[i] == a[i] && b.subrange(0, 4)[i] == b[i]);
        assert(a.subrange(68, 72)[i] == a[68 + i] && b.subrange(68, 72)[i] == b[68 + i]);
        assert(a.subrange(72, 76)[i] == a[72 + i] && b.subrange(72, 76)[i] == b[72 + i]);
        assert(a.subrange(76, 80)[i] == a[76 + i] && b.subrange(76, 80)[i] == b[76 + i]);
    }
}

} // verus!

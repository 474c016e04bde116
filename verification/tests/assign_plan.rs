//! Assignment policy: slots, headroom, header admission, the ordered path.
use rbitcoin_ibd::assign_plan::{
    compact_ordered, densify_slots_for_peer, far_slots_per_peer, remove_from_ordered,
    should_enqueue_header, want_headers_beyond_soft_cap,
};
use rbitcoin_ibd::hash::BlockHash;
use rbitcoin_ibd::keyed::KeySet;
use std::collections::VecDeque;

fn h(n: u16) -> BlockHash {
    let mut b = [0u8; 32];
    b[0] = (n & 0xff) as u8;
    b[1] = (n >> 8) as u8;
    BlockHash::from_byte_array(b)
}

fn live(ordered: &VecDeque<BlockHash>) -> KeySet<BlockHash> {
    let mut set = KeySet::new();
    for x in ordered {
        set.insert(*x);
    }
    set
}

/// far_slots / feed_cap scale / soft-cap density (pure policy helpers).
#[test]
fn assign_policy_helpers_surface() {
    assert_eq!(far_slots_per_peer(16, true), 2);
    assert_eq!(far_slots_per_peer(16, false), 8);
    assert_eq!(far_slots_per_peer(8, false), 4);

    // Sparse: 4k claim-ready of 120k live → no bypass
    assert!(!want_headers_beyond_soft_cap(120_000, 4_000, 100, 2048));
    // Dense + short ready_gap → bypass
    assert!(want_headers_beyond_soft_cap(64_000, 50_000, 100, 2048));
    // Dense but long ready_gap → no need
    assert!(!want_headers_beyond_soft_cap(64_000, 50_000, 10_000, 2048));
    // Empty path is not soft-cap headroom (tip 1-header storm).
    assert!(!want_headers_beyond_soft_cap(0, 0, 0, 2048));
}

#[test]
fn densify_slots_tip_hole_is_two_for_all() {
    assert_eq!(
        densify_slots_for_peer(16, true, Some(10_000_000), Some(1_000_000), false),
        2
    );
    assert_eq!(densify_slots_for_peer(16, true, None, None, true), 2);
}

#[test]
fn densify_slots_tight_pack_stays_half() {
    assert_eq!(
        densify_slots_for_peer(16, false, Some(1_500_000), Some(1_000_000), true),
        8
    );
    assert_eq!(
        densify_slots_for_peer(16, false, Some(2_000_000), Some(1_000_000), true),
        8
    );
}

#[test]
fn densify_slots_fast_outlier_gets_full() {
    assert_eq!(
        densify_slots_for_peer(16, false, Some(2_000_000), Some(1_000_000), false),
        16
    );
    assert_eq!(
        densify_slots_for_peer(16, false, Some(1_500_000), Some(1_000_000), false),
        8
    );
    assert_eq!(
        densify_slots_for_peer(16, false, None, Some(1_000_000), false),
        8
    );
    assert_eq!(
        densify_slots_for_peer(16, false, Some(2_000_000), None, false),
        8
    );
}

/// 292k re-admit vs tip-chatter skip.
#[test]
fn enqueue_header_readmit_skips_inflight_pending_and_past_tip() {
    // Known, drained, still needed above tip.
    assert!(should_enqueue_header(
        false,
        false,
        false,
        false,
        false,
        Some(1),
        Some(0),
    ));
    assert!(!should_enqueue_header(
        true,
        false,
        false,
        false,
        false,
        Some(1),
        Some(0),
    ));
    assert!(!should_enqueue_header(
        false,
        true,
        false,
        false,
        false,
        Some(1),
        Some(0),
    ));
    assert!(!should_enqueue_header(
        false,
        false,
        true,
        false,
        false,
        Some(1),
        Some(0),
    ));
    assert!(!should_enqueue_header(
        false,
        false,
        false,
        true,
        false,
        Some(1),
        Some(0),
    ));
    assert!(!should_enqueue_header(
        false,
        false,
        false,
        false,
        true,
        Some(1),
        Some(0),
    ));
    assert!(!should_enqueue_header(
        false,
        false,
        false,
        false,
        false,
        Some(5),
        Some(5),
    ));
    assert!(!should_enqueue_header(
        false,
        false,
        false,
        false,
        false,
        Some(4),
        Some(5),
    ));
}

/// ordered set remove + compact ghosts (one surface).
#[test]
fn ordered_set_remove_and_compact_surface() {
    let mut ordered: VecDeque<_> = [h(1), h(2), h(3)].into_iter().collect();
    let mut set = live(&ordered);
    remove_from_ordered(&mut ordered, &mut set, h(1));
    assert_eq!(ordered.front().copied(), Some(h(2)));
    assert!(!set.contains(&h(1)));

    let mut ordered: VecDeque<_> = [h(1), h(2), h(3)].into_iter().collect();
    let mut set = live(&ordered);
    remove_from_ordered(&mut ordered, &mut set, h(2));
    assert_eq!(ordered.len(), 3);
    assert!(!set.contains(&h(2)));
    remove_from_ordered(&mut ordered, &mut set, h(1));
    assert_eq!(ordered.front().copied(), Some(h(3)));
    assert_eq!(ordered.len(), 1);

    let mut ordered = VecDeque::new();
    let mut set = KeySet::new();
    for i in 1u16..=100 {
        ordered.push_back(h(i));
        set.insert(h(i));
        ordered.push_back(h(1000 + i));
    }
    assert_eq!(ordered.len(), 200);
    compact_ordered(&mut ordered, &set);
    assert_eq!(ordered.len(), 100);
    for x in &ordered {
        assert!(set.contains(x));
    }

    // Small deques are left alone (compact threshold).
    let mut ordered: VecDeque<_> = [h(1), h(2)].into_iter().collect();
    let set = live(&[h(1)].into_iter().collect());
    compact_ordered(&mut ordered, &set);
    assert_eq!(ordered.len(), 2);

    // Ghost budget: live=80, len=100 → within budget, no compact.
    let mut ordered = VecDeque::new();
    let mut set = KeySet::new();
    for i in 1u16..=80 {
        ordered.push_back(h(i));
        set.insert(h(i));
    }
    for i in 1u16..=20 {
        ordered.push_back(h(2000 + i)); // ghosts
    }
    let before = ordered.len();
    compact_ordered(&mut ordered, &set);
    assert_eq!(ordered.len(), before);

    // remove front chain of ghosts after middle remove already did set.
    let mut ordered: VecDeque<_> = [h(1), h(2), h(3), h(4)].into_iter().collect();
    let mut set = live(&[h(3), h(4)].into_iter().collect());
    remove_from_ordered(&mut ordered, &mut set, h(3));
    // Front 1,2 not in set → popped; 3 removed; 4 remains.
    assert_eq!(ordered.front().copied(), Some(h(4)));
    assert_eq!(ordered.len(), 1);

    assert_eq!(far_slots_per_peer(1, false), 1); // max(0,1)=1
    assert_eq!(far_slots_per_peer(3, false), 1);
}

#[test]
fn far_slots_of_small_peers() {
    assert_eq!(far_slots_per_peer(1, false), 1);
    assert_eq!(far_slots_per_peer(0, false), 1);
    assert_eq!(far_slots_per_peer(1, true), 2);
    assert_eq!(densify_slots_for_peer(16, false, Some(5), Some(0), false), 8);
    assert_eq!(densify_slots_for_peer(16, false, Some(u64::MAX), Some(u64::MAX), false), 16);
}

#[test]
fn header_without_height_or_tip_is_admitted() {
    assert!(should_enqueue_header(false, false, false, false, false, None, Some(5)));
    assert!(should_enqueue_header(false, false, false, false, false, Some(5), None));
}

#[test]
fn front_of_the_ordered_path_is_live() {
    let mut ordered: VecDeque<_> = [h(1), h(2), h(3)].into_iter().collect();
    let mut set = live(&[h(3)].into_iter().collect());
    remove_from_ordered(&mut ordered, &mut set, h(9));
    assert_eq!(ordered.front().copied(), Some(h(3)));
    remove_from_ordered(&mut ordered, &mut set, h(3));
    assert!(ordered.is_empty() && set.is_empty());
}

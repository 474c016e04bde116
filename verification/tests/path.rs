//! The work path: seeding it from stored headers, its tips, its heights.
use rbitcoin_ibd::chain::{ChainHub, ChainTip};
use rbitcoin_ibd::hash::BlockHash;
use rbitcoin_ibd::path::{
    path_hashes_above_tip, plant_valid_tip_child, push_ordered, resume_seed,
    seed_work_path_from_store, work_path_tips, PathEntry, SeedStep,
};
use rbitcoin_ibd::state::IbdWorkState;

fn h(n: u8) -> BlockHash {
    let mut b = [0u8; 32];
    b[0] = n;
    BlockHash::from_byte_array(b)
}

fn hub_at(height: u32, hash: BlockHash) -> ChainHub {
    let mut hub = ChainHub::new();
    hub.tip = Some(ChainTip { height, hash });
    hub.blocks.insert(hash);
    hub.heights.insert(hash, height);
    hub.locator = Ok(vec![hash]);
    hub
}

fn entry(n: u8, height: u32, has_body: bool) -> PathEntry {
    PathEntry { hash: h(n), height, header_fk: 100 + n as u64, has_body }
}

#[test]
fn work_path_tips_from_ordered_newest_first() {
    let mut st = IbdWorkState::new(Vec::new(), None, Some(10));
    // ordered is tip→far (front near tip); tips take from the back (highest).
    for n in 1u8..=6 {
        let hash = h(n);
        st.ordered.push_back(hash);
        st.ordered_set.insert(hash);
        st.record_height(hash, 10 + u32::from(n));
    }
    let tips = work_path_tips(&st);
    assert_eq!(tips.len(), 4);
    assert_eq!(tips[0], h(6));
    assert_eq!(tips[1], h(5));
    assert_eq!(tips[2], h(4));
    assert_eq!(tips[3], h(3));
}

#[test]
fn work_path_tips_skips_ghosts_and_falls_back_to_hash_height() {
    let mut st = IbdWorkState::new(Vec::new(), None, Some(0));
    // Ghost: in deque but not ordered_set.
    st.ordered.push_back(h(1));
    st.ordered.push_back(h(2));
    // No live ordered members → fall back to max height in hash_height.
    st.record_height(h(9), 99);
    st.record_height(h(8), 50);
    let tips = work_path_tips(&st);
    assert_eq!(tips, vec![h(9)]);

    // Empty everything → empty tips.
    let empty = IbdWorkState::new(Vec::new(), None, None);
    assert!(work_path_tips(&empty).is_empty());
}

#[test]
fn work_path_tips_respects_live_set_only() {
    let mut st = IbdWorkState::new(Vec::new(), None, Some(1));
    st.ordered.push_back(h(1));
    st.ordered.push_back(h(2));
    st.ordered.push_back(h(3));
    st.ordered_set.insert(h(1));
    st.ordered_set.insert(h(3)); // h(2) is a middle ghost
    let tips = work_path_tips(&st);
    // rev walk: 3 (live), 2 (ghost skip), 1 (live) — only set members.
    assert_eq!(tips, vec![h(3), h(1)]);
}

#[test]
fn path_hashes_above_tip_skips_competing_hash_height() {
    let mut st = IbdWorkState::new(Vec::new(), None, Some(10));
    let occupant = h(1);
    st.record_height(occupant, 11);
    st.hash_height.insert(h(9), 12);
    assert_eq!(path_hashes_above_tip(&st, 10), vec![(11, occupant)]);
    assert!(path_hashes_above_tip(&st, 11).is_empty());
}

#[test]
fn work_path_tips_skips_invalid_and_rejected() {
    let mut st = IbdWorkState::new(Vec::new(), None, Some(10));
    for n in 1u8..=4 {
        let hash = h(n);
        st.ordered.push_back(hash);
        st.ordered_set.insert(hash);
        st.record_height(hash, 10 + u32::from(n));
    }
    st.reorg.invalid.insert(h(4));
    st.body.mark_rejected(h(3));
    let tips = work_path_tips(&st);
    assert!(!tips.contains(&h(4)), "invalid tip must not be a locator");
    assert!(!tips.contains(&h(3)), "rejected tip must not be a locator");
    assert!(tips.contains(&h(2)));
}

/// Exploration tips merge into locator tips (cap 8, dedupe ordered members).
#[test]
fn work_path_tips_includes_explore_tips_capped() {
    let mut st = IbdWorkState::new(Vec::new(), None, Some(10));
    for n in 1u8..=3 {
        let hash = h(n);
        st.ordered.push_back(hash);
        st.ordered_set.insert(hash);
    }
    // Explore tips: one already on ordered (dedupe), plus many unique.
    let mut need = Vec::new();
    for n in 10u8..=20 {
        need.push(h(n));
    }
    st.reorg.register_explore(&need, Some(h(20)));
    let tips = work_path_tips(&st);
    assert!(tips.contains(&h(3))); // ordered newest
    assert!(tips.contains(&h(20))); // explore tip
    assert!(tips.len() <= 8);
    // h(1) is on ordered (taken in first 4) so not re-added as explore.
    assert_eq!(tips.iter().filter(|x| **x == h(1)).count(), 1);
}

#[test]
fn seed_work_path_from_empty_and_genesis_store() {
    let empty = ChainHub::new();
    let mut st = IbdWorkState::new(Vec::new(), None, None);
    assert_eq!(seed_work_path_from_store(&mut st, &empty, &vec![], 1000), SeedStep::Done);
    assert!(st.ordered.is_empty());

    let hub = hub_at(0, h(100));
    let mut st2 = IbdWorkState::new(Vec::new(), hub.tip_hash(), hub.tip_height());
    assert_eq!(seed_work_path_from_store(&mut st2, &hub, &vec![], 1000), SeedStep::Done);
    assert!(!st2.headers_done);
}

#[test]
fn seed_work_path_archives_ahead_of_tip() {
    let mut hub = hub_at(0, h(100));
    hub.parents.insert(h(1), h(100));
    hub.parents.insert(h(2), h(1));
    hub.parents.insert(h(3), h(2));
    let path = vec![entry(1, 1, true), entry(2, 2, true), entry(3, 3, false)];
    let mut st = IbdWorkState::new(Vec::new(), hub.tip_hash(), hub.tip_height());
    assert_eq!(seed_work_path_from_store(&mut st, &hub, &path, 1000), SeedStep::Done);
    assert!(st.ordered.len() >= 2, "resume should seed work path after tip");
    assert_eq!(st.ordered.len(), 3);
    assert!(st.max_ordered_height >= 2);
    assert!(st.max_ready_height >= 2);
    assert_eq!(st.max_ready_height, 2, "the archived prefix ends at the first gap");
    assert!(!st.headers_done);
    assert!(st.body.is_known_archived(&h(2)) && !st.body.is_known_archived(&h(3)));
    assert_eq!(st.header_fks.get(&h(3)), Some(&103));
    let n = st.ordered.len();
    seed_work_path_from_store(&mut st, &hub, &path, 1000);
    assert_eq!(st.ordered.len(), n);
}

#[test]
fn seeding_again_leaves_the_ordered_path() {
    let mut hub = hub_at(4, h(100));
    hub.parents.insert(h(1), h(100));
    hub.parents.insert(h(2), h(1));
    let path = vec![entry(1, 5, true), entry(2, 6, false), entry(3, 7, false)];

    // Another header holds a slot of the path; the last one is invalid.
    let mut st = IbdWorkState::new(Vec::new(), hub.tip_hash(), hub.tip_height());
    st.height_to_hash.insert(6, h(60));
    st.reorg.invalid.insert(h(3));
    seed_work_path_from_store(&mut st, &hub, &path, 1000);
    let once: Vec<BlockHash> = st.ordered.iter().copied().collect();
    assert_eq!(once, vec![h(1)]);
    seed_work_path_from_store(&mut st, &hub, &path, 1000);
    assert_eq!(st.ordered.iter().copied().collect::<Vec<_>>(), once);
    assert_eq!(st.ordered_set.len(), 1);

    // The stored path starts with an invalid header: a known child of the tip is planted.
    let mut st = IbdWorkState::new(Vec::new(), hub.tip_hash(), hub.tip_height());
    st.reorg.invalid.insert(h(9));
    st.hash_height.insert(h(1), 5);
    let path = vec![entry(9, 5, false), entry(8, 6, false)];
    seed_work_path_from_store(&mut st, &hub, &path, 1000);
    let once: Vec<BlockHash> = st.ordered.iter().copied().collect();
    assert_eq!(once, vec![h(1)]);
    seed_work_path_from_store(&mut st, &hub, &path, 1000);
    assert_eq!(st.ordered.iter().copied().collect::<Vec<_>>(), once);
}

#[test]
fn seeding_again_above_an_unsound_slot_orders_nothing_more() {
    // An unsound header holds the slot above the tip, and no sound child is known.
    let mut hub = hub_at(4, h(100));
    let path = vec![entry(1, 5, false), entry(2, 6, false)];
    let mut st = IbdWorkState::new(Vec::new(), hub.tip_hash(), hub.tip_height());
    st.reorg.invalid.insert(h(50));
    st.height_to_hash.insert(5, h(50));
    seed_work_path_from_store(&mut st, &hub, &path, 1000);
    let once: Vec<BlockHash> = st.ordered.iter().copied().collect();
    assert_eq!(once, vec![h(2)], "the slot of the first is taken");
    seed_work_path_from_store(&mut st, &hub, &path, 1000);
    assert_eq!(st.ordered.iter().copied().collect::<Vec<_>>(), once);

    // One sound child is known, and above it the path goes on in one way.
    hub.parents.insert(h(1), h(100));
    hub.parents.insert(h(2), h(1));
    hub.parents.insert(h(3), h(2));
    let mut st = IbdWorkState::new(Vec::new(), hub.tip_hash(), hub.tip_height());
    st.reorg.invalid.insert(h(50));
    st.height_to_hash.insert(5, h(50));
    st.hash_height.insert(h(3), 7);
    seed_work_path_from_store(&mut st, &hub, &path, 1000);
    let once: Vec<BlockHash> = st.ordered.iter().copied().collect();
    assert_eq!(once, vec![h(2), h(3)]);
    assert_eq!(st.height_to_hash.get(&7), Some(&h(3)));
    seed_work_path_from_store(&mut st, &hub, &path, 1000);
    assert_eq!(st.ordered.iter().copied().collect::<Vec<_>>(), once);
    assert_eq!(st.ordered_set.len(), 2);
}

#[test]
fn seed_rewinds_tip_to_lca_on_heavier_sibling() {
    let gen = h(100);
    let lose = h(50);
    let mut hub = hub_at(1, lose);
    hub.parents.insert(lose, gen);
    hub.parents.insert(h(1), gen);
    hub.parents.insert(h(2), h(1));
    let path = vec![entry(1, 1, false), entry(2, 2, false)];
    let mut st = IbdWorkState::new(Vec::new(), hub.tip_hash(), hub.tip_height());
    assert_eq!(
        seed_work_path_from_store(&mut st, &hub, &path, 1000),
        SeedStep::AskRewind,
        "a path that forks off below the tip asks for the tip to be weighed"
    );
    assert_eq!(st.reorg.explore_tips, vec![h(2)]);
    assert_eq!(st.reorg.need_getdata(), vec![h(1), h(2)]);

    hub.tip = Some(ChainTip { height: 0, hash: gen });
    let mut st = IbdWorkState::new(Vec::new(), hub.tip_hash(), hub.tip_height());
    resume_seed(&mut st, &hub, &path, 1000, true);
    assert!(st.ordered.is_empty(), "the rewind planted the winner already");
    resume_seed(&mut st, &hub, &path, 1000, false);
    assert_eq!(st.height_to_hash.get(&1), Some(&h(1)));
    assert_eq!(st.height_to_hash.get(&2), Some(&h(2)));
    assert!(st.ordered_set.contains(&h(1)));
    assert!(st.ordered_set.contains(&h(2)));
    let tips = work_path_tips(&st);
    assert!(tips.contains(&h(2)) || tips.contains(&h(1)));
}

#[test]
fn valid_child_of_the_tip_is_planted() {
    let mut hub = hub_at(5, h(100));
    hub.parents.insert(h(1), h(100));
    hub.parents.insert(h(2), h(1));
    let mut st = IbdWorkState::new(Vec::new(), hub.tip_hash(), hub.tip_height());
    st.hash_height.insert(h(1), 6);
    st.hash_height.insert(h(2), 7);
    plant_valid_tip_child(&mut st, &hub, 1000);
    assert_eq!(st.height_to_hash.get(&6), Some(&h(1)));
    assert_eq!(st.height_to_hash.get(&7), Some(&h(2)));
    assert!(st.ordered_set.contains(&h(2)));

    let mut bad = IbdWorkState::new(Vec::new(), hub.tip_hash(), hub.tip_height());
    bad.hash_height.insert(h(1), 6);
    bad.body.mark_rejected(h(1));
    plant_valid_tip_child(&mut bad, &hub, 1000);
    assert!(bad.height_to_hash.get(&6).is_none());
}

#[test]
fn ordered_path_lists_a_hash_once() {
    let mut st = IbdWorkState::new(Vec::new(), None, Some(0));
    push_ordered(&mut st, h(1));
    push_ordered(&mut st, h(1));
    assert_eq!(st.ordered.len(), 1);
}

#[test]
fn first_connected_header_keeps_its_slot() {
    let tip = Some(ChainTip { height: 5, hash: h(100) });
    let mut st = IbdWorkState::new(Vec::new(), Some(h(100)), Some(5));
    assert!(st.try_set_path_slot(h(1), 6, h(100), tip));
    assert!(!st.try_set_path_slot(h(2), 6, h(100), tip));
    assert!(st.try_set_path_slot(h(1), 6, h(100), tip));
    assert!(!st.try_set_path_slot(h(3), 7, h(2), tip), "a child of the loser is off the path");
    assert!(st.try_set_path_slot(h(4), 7, h(1), tip));
    assert_eq!(st.height_to_hash.get(&6), Some(&h(1)));
    assert_eq!(st.hash_height.get(&h(2)), Some(&6));
    assert_eq!(path_hashes_above_tip(&st, 5), vec![(6, h(1)), (7, h(4))]);
}

//! When a download is over, and when it is not.
use rbitcoin_ibd::exit;
use rbitcoin_ibd::exit::{
    all_peers_dead_action, best_chain_remainder, empty_path_header_fan, has_tip_plus_one,
    header_lag_behind_peers, ibd_caught_up, on_path_inflight, path_drained, path_high_water,
    should_advance_locator_after_known_batch, should_log_empty_headers_lag,
    should_rerequest_headers_on_empty_lag, should_reseed_work_path_on_empty_lag, AllPeersDead,
    MAX_DARK_EMPTY_REDIALS,
};
use rbitcoin_ibd::hash::BlockHash;
use rbitcoin_ibd::inflight::prune_off_path_inflight;
use rbitcoin_ibd::state::{IbdWorkState, InflightReq};

fn h(b: u8) -> BlockHash {
    BlockHash::from_byte_array([b; 32])
}

/// all_peers_dead + catchup_complete edge matrix (mid-chain / caught-up / tip-0).
#[test]
fn exit_and_catchup_complete_surface() {
    // Mid-chain, all dead, no redial → give up.
    let mut mid = IbdWorkState::new(Vec::new(), None, Some(161_249));
    mid.max_peer_height = 958_820;
    mid.max_ready_height = 161_000;
    assert_eq!(
        all_peers_dead_action(&mid, 161_249, false, 0),
        AllPeersDead::GiveUpMidCatchup
    );
    assert_eq!(
        all_peers_dead_action(&mid, 161_249, true, 0),
        AllPeersDead::WaitRedial
    );

    // Caught up with no peers → complete.
    let mut done = IbdWorkState::new(Vec::new(), None, Some(100));
    done.max_peer_height = 100;
    done.max_ready_height = 100;
    done.headers_done = true;
    assert_eq!(
        all_peers_dead_action(&done, 100, false, 0),
        AllPeersDead::CatchupComplete
    );

    // Path drain complete requires near peer tip (headers_done alone is not enough).
    let mut path = IbdWorkState::new(Vec::new(), None, Some(2000));
    path.max_peer_height = 313_000;
    path.max_ready_height = 2000;
    path.headers_done = true;
    assert!(!ibd_caught_up(&path, 2000));
    path.max_peer_height = 2001;
    assert!(ibd_caught_up(&path, 2000));

    // Regression: tip=0 + peer horizon must not look complete (false tip mode).
    let mut zero = IbdWorkState::new(Vec::new(), None, Some(0));
    zero.max_peer_height = 958_900;
    zero.max_ready_height = 0;
    zero.headers_done = false;
    assert!(!ibd_caught_up(&zero, 0));
    assert!(!ibd_caught_up(&zero, 0));
    assert_eq!(
        all_peers_dead_action(&zero, 0, false, 0),
        AllPeersDead::GiveUpMidCatchup
    );

    // Dark redial budget exhausted while redial still marked in-flight.
    assert_eq!(
        all_peers_dead_action(&mid, 161_249, true, MAX_DARK_EMPTY_REDIALS),
        AllPeersDead::GiveUpMidCatchup
    );

    // path_drained false when ordered is non-empty.
    let mut busy = IbdWorkState::new(Vec::new(), None, Some(10));
    busy.max_peer_height = 10;
    busy.max_ready_height = 10;
    busy.headers_done = true;
    assert!(path_drained(&busy));
    busy.ordered
        .push_back(BlockHash::from_byte_array([1u8; 32]));
    assert!(!path_drained(&busy));
    assert!(!ibd_caught_up(&busy, 10));

    // ibd_caught_up: tip at/within 1 of horizon and not behind archive.
    let mut near = IbdWorkState::new(Vec::new(), None, Some(100));
    near.max_peer_height = 101;
    near.max_ready_height = 100;
    near.headers_done = true;
    assert!(ibd_caught_up(&near, 100));
    near.max_ready_height = 105;
    assert!(!ibd_caught_up(&near, 100));
    assert_eq!(header_lag_behind_peers(&near, 100), 0); // archived ≥ peer

    // Mainnet 08:16:23: ordered empty, headers_done, tip=horizon, 7 off-path
    // inflight. Remainder ignores leftover getdata — prune is hygiene only.
    let mut at_horizon = IbdWorkState::new(Vec::new(), None, Some(964_108));
    at_horizon.max_peer_height = 964_108;
    at_horizon.max_ready_height = 964_108;
    at_horizon.headers_done = true;
    for i in 1u8..=7 {
        at_horizon
            .inflight
            .insert(BlockHash::from_byte_array([i; 32]), InflightReq::new(0, 0));
    }
    assert!(path_drained(&at_horizon));
    assert!(ibd_caught_up(&at_horizon, 964_108));
    prune_off_path_inflight(&mut at_horizon);
    assert!(at_horizon.inflight.is_empty());
    assert!(path_drained(&at_horizon));
    assert!(ibd_caught_up(&at_horizon, 964_108));

    // Mid-chain on-path inflight (tip+1 in h2h) must not complete after prune.
    let mut mid_inf = IbdWorkState::new(Vec::new(), None, Some(161_249));
    mid_inf.max_peer_height = 958_820;
    mid_inf.max_ready_height = 161_000;
    mid_inf.headers_done = true;
    let on_path = BlockHash::from_byte_array([0x2a; 32]);
    mid_inf.record_height(on_path, 161_250);
    mid_inf.inflight.insert(on_path, InflightReq::new(0, 0));
    prune_off_path_inflight(&mut mid_inf);
    assert!(mid_inf.inflight.contains_key(&on_path));
    assert!(!path_drained(&mid_inf));
    assert!(!ibd_caught_up(&mid_inf, 161_249));
}

/// Empty-headers lag WARN/reget cadence (mainnet log flood regression).
#[test]
fn empty_headers_lag_rate_limits() {
    assert!(should_log_empty_headers_lag(1));
    assert!(!should_log_empty_headers_lag(2));
    assert!(!should_log_empty_headers_lag(8));
    assert!(!should_log_empty_headers_lag(16));
    assert!(should_log_empty_headers_lag(64));
    assert!(should_log_empty_headers_lag(128));
    // 21 peers × 8 empties would have logged ~5× if streak reset every 8.
    let logs: u32 = (1..=200)
        .filter(|&s| should_log_empty_headers_lag(s))
        .count() as u32;
    assert!(logs <= 5, "expected sparse logs in 200 empties, got {logs}");

    assert!(should_rerequest_headers_on_empty_lag(1));
    assert!(!should_rerequest_headers_on_empty_lag(2));
    assert!(should_rerequest_headers_on_empty_lag(8));
    assert!(should_rerequest_headers_on_empty_lag(16));
    let regets: u32 = (1..=64)
        .filter(|&s| should_rerequest_headers_on_empty_lag(s))
        .count() as u32;
    assert_eq!(regets, 9); // 1,8,16,...,64

    // Full store reseed is sparser than getheaders (O(headers) walk).
    assert!(should_reseed_work_path_on_empty_lag(1, true));
    assert!(!should_reseed_work_path_on_empty_lag(8, true));
    assert!(should_reseed_work_path_on_empty_lag(64, true));
    let reseeds: u32 = (1..=64)
        .filter(|&s| should_reseed_work_path_on_empty_lag(s, true))
        .count() as u32;
    assert!(
        reseeds < regets,
        "reseed={reseeds} must be rarer than reget={regets}"
    );

    // Live ordered path already has locator tips — do not walk the header graph.
    assert!(!should_reseed_work_path_on_empty_lag(1, false));
    assert!(!should_reseed_work_path_on_empty_lag(64, false));
    assert!(!should_reseed_work_path_on_empty_lag(128, false));

    // Already-known 1-header at tip must not re-getheaders (storm).
    assert!(!should_advance_locator_after_known_batch(0, 0, false, true));
    assert!(!should_advance_locator_after_known_batch(
        0, 0, false, false
    ));
    // Live path + full window still advances.
    assert!(should_advance_locator_after_known_batch(
        8_000, 0, true, false
    ));
    assert!(should_advance_locator_after_known_batch(
        8_000, 10, false, false
    ));

    // Empty path at horizon: no fan (finish sync / SH / tip follow).
    let mut at = IbdWorkState::new(Vec::new(), None, Some(100));
    at.max_peer_height = 100;
    at.max_ready_height = 100;
    assert_eq!(empty_path_header_fan(&at, 100, 29), 0);
    // Near tip with connecting header on path: getdata, not locators.
    let mut near = IbdWorkState::new(Vec::new(), None, Some(100));
    near.max_peer_height = 102;
    near.max_ready_height = 100;
    near.record_height(h(0x2a), 101);
    near.inflight
        .insert(h(0x2a), InflightReq::new(0, 0));
    assert_eq!(empty_path_header_fan(&near, 100, 29), 0);
    // Mid-sync empty: fan (cap 4); one peer if on-path getdata already inflight.
    let mut mid = IbdWorkState::new(Vec::new(), None, Some(100));
    mid.max_peer_height = 200;
    mid.max_ready_height = 100;
    assert_eq!(empty_path_header_fan(&mid, 100, 29), 4);
    mid.record_height(h(0x2a), 101);
    mid.inflight
        .insert(h(0x2a), InflightReq::new(0, 0));
    assert_eq!(empty_path_header_fan(&mid, 100, 29), 1);
    let mut few = IbdWorkState::new(Vec::new(), None, Some(100));
    few.max_peer_height = 200;
    few.max_ready_height = 100;
    assert_eq!(empty_path_header_fan(&few, 100, 2), 2);
}



/// IBD → tip-follow catch-up matrix (competing headers, explore leftovers, holes).
#[test]
fn ibd_caught_up_transition_matrix() {

    // Explore-need inflight at advertised horizon is not best-chain remainder.
    let tip = 964_243;
    let mut explore = IbdWorkState::new(Vec::new(), None, Some(tip));
    explore.max_peer_height = tip;
    explore.max_ready_height = tip;
    explore.headers_done = true;
    for i in 1u8..=7 {
        let hash = h(i);
        explore.inflight.insert(hash, InflightReq::new(0, 0));
        explore
            .reorg
            .register_explore(&vec![hash], Some(hash));
    }
    assert!(
        ibd_caught_up(&explore, tip),
        "explore inflight at horizon must not block catch-up"
    );

    // Orphan getdata at horizon is not remainder (no prune required).
    let mut orphans = IbdWorkState::new(Vec::new(), None, Some(tip));
    orphans.max_peer_height = tip;
    orphans.max_ready_height = tip;
    orphans.headers_done = true;
    for i in 1u8..=7 {
        orphans.inflight.insert(h(i), InflightReq::new(0, 0));
    }
    assert!(
        ibd_caught_up(&orphans, tip),
        "orphan inflight at horizon must not block catch-up"
    );

    // Competing hash_height above tip must not zero lag or complete two short.
    let mut fork = IbdWorkState::new(Vec::new(), None, Some(100));
    fork.max_peer_height = 102;
    fork.max_ready_height = 100;
    fork.headers_done = true;
    fork.hash_height.insert(h(0xee), 110);
    assert_eq!(
        header_lag_behind_peers(&fork, 100),
        2,
        "lag from path high water, not competing hash_height"
    );
    assert!(
        !ibd_caught_up(&fork, 100),
        "empty h2h two short of peers is a header hole, not catch-up"
    );

    // Version LastBlock chatter: one ahead, empty headers, no tip+1 → complete.
    let mut chatter = IbdWorkState::new(Vec::new(), None, Some(100));
    chatter.max_peer_height = 101;
    chatter.max_ready_height = 100;
    chatter.headers_done = true;
    assert!(ibd_caught_up(&chatter, 100));

    // Live awaiting-reorg gather blocks exit even with empty ordered/inflight.
    let mut await_st = IbdWorkState::new(Vec::new(), None, Some(100));
    await_st.max_peer_height = 100;
    await_st.max_ready_height = 100;
    await_st.headers_done = true;
    await_st.reorg.set_awaiting(h(0x77), vec![h(0xcc)]);
    assert!(
        !ibd_caught_up(&await_st, 100),
        "awaiting reorg gather is remainder"
    );

    // tip+1 sitting in h2h (not yet ordered) is remainder.
    let mut hole = IbdWorkState::new(Vec::new(), None, Some(100));
    hole.max_peer_height = 100;
    hole.max_ready_height = 100;
    hole.headers_done = true;
    hole.record_height(h(0x2a), 101);
    assert!(!ibd_caught_up(&hole, 100));

    // Mid-chain on-path inflight.
    let mut mid_inf = IbdWorkState::new(Vec::new(), None, Some(161_249));
    mid_inf.max_peer_height = 958_820;
    mid_inf.max_ready_height = 161_000;
    mid_inf.headers_done = true;
    mid_inf.record_height(h(0x2a), 161_250);
    mid_inf.inflight.insert(h(0x2a), InflightReq::new(0, 0));
    assert!(!ibd_caught_up(&mid_inf, 161_249));

    // tip=0 never complete; dead peers give up.
    let mut zero = IbdWorkState::new(Vec::new(), None, Some(0));
    zero.max_peer_height = 958_900;
    zero.max_ready_height = 0;
    assert!(!ibd_caught_up(&zero, 0));
    assert_eq!(
        all_peers_dead_action(&zero, 0, false, 0),
        AllPeersDead::GiveUpMidCatchup
    );

    // Dead peers at horizon with empty remainder → complete.
    let mut done = IbdWorkState::new(Vec::new(), None, Some(100));
    done.max_peer_height = 100;
    done.max_ready_height = 100;
    done.headers_done = true;
    assert_eq!(
        all_peers_dead_action(&done, 100, false, 0),
        AllPeersDead::CatchupComplete
    );

    // Signet false headers_done at h≈2000 with peers at ~313k.
    let mut signet = IbdWorkState::new(Vec::new(), None, Some(2000));
    signet.max_peer_height = 313_000;
    signet.max_ready_height = 2000;
    signet.headers_done = true;
    assert!(!ibd_caught_up(&signet, 2000));
    assert!(exit::should_unlatch_headers_done(&signet, 2000));
}

/// Empty path with a connecting-header hole must keep getheaders, not latch.
#[test]
fn header_fan_unlatch_at_path_hole() {
    let mut hole = IbdWorkState::new(Vec::new(), None, Some(100));
    hole.max_peer_height = 102;
    hole.max_ready_height = 100;
    hole.headers_done = true;
    hole.hash_height.insert(h(0xee), 110);
    let lag = header_lag_behind_peers(&hole, 100);
    assert_eq!(lag, 2, "competing hash_height must not hide a 2-block hole");
    assert!(
        empty_path_header_fan(&hole, 100, 29) >= 1,
        "empty h2h with peers ahead must fan getheaders"
    );
    assert!(
        exit::should_unlatch_headers_done(&hole, 100),
        "headers_done must unlatch while the connecting header is missing"
    );

    // True horizon, no hole: do not storm locators.
    let mut at = IbdWorkState::new(Vec::new(), None, Some(100));
    at.max_peer_height = 100;
    at.max_ready_height = 100;
    assert_eq!(empty_path_header_fan(&at, 100, 29), 0);
    at.headers_done = true;
    assert!(!exit::should_unlatch_headers_done(&at, 100));
}

/// Unlatch `headers_done` on lag>2 even with leftover inflight; never at lag≤2.
#[test]
fn should_unlatch_headers_done() {

    let mut st = IbdWorkState::new(Vec::new(), None, Some(100));
    st.max_peer_height = 105;
    st.max_ready_height = 100;
    st.headers_done = true;
    for i in 1u8..=7 {
        st.inflight
            .insert(BlockHash::from_byte_array([i; 32]), InflightReq::new(0, 0));
    }
    assert_eq!(header_lag_behind_peers(&st, 100), 5);
    assert!(exit::should_unlatch_headers_done(&st, 100));

    st.max_peer_height = 100;
    assert_eq!(header_lag_behind_peers(&st, 100), 0);
    assert!(!exit::should_unlatch_headers_done(&st, 100));

    st.max_peer_height = 105;
    st.ordered.push_back(BlockHash::from_byte_array([0xab; 32]));
    assert!(!exit::should_unlatch_headers_done(&st, 100));
}

#[test]
fn path_high_water_is_the_best_of_tip_ready_and_path() {
    let mut st = IbdWorkState::new(Vec::new(), None, Some(5));
    assert_eq!(path_high_water(&st, 5), 5);
    st.max_ready_height = 7;
    assert_eq!(path_high_water(&st, 5), 7);
    st.record_height(h(1), 9);
    assert_eq!(path_high_water(&st, 5), 9);
    assert!(!has_tip_plus_one(&st, 5));
    assert!(has_tip_plus_one(&st, 8));
}

#[test]
fn remainder_is_path_work_only() {
    let mut st = IbdWorkState::new(Vec::new(), None, Some(5));
    st.inflight.insert(h(9), InflightReq::new(0, 0));
    assert!(!on_path_inflight(&st));
    assert!(!best_chain_remainder(&st, 5));
    st.record_height(h(9), 40);
    assert!(on_path_inflight(&st));
    assert!(best_chain_remainder(&st, 5));
}

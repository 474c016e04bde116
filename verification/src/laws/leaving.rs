//! When the download may end, and when it goes on asking.
use vstd::prelude::*;
use crate::exit::{dead_action, AllPeersDead};
use crate::hash::BlockHash;
use crate::laws::headers::{lemma_ahead, peers_are_ahead};
use crate::state::WorkView;

verus! {

/// Is nothing above the tip left to do: no ordered hash, no path or ready height, no awaited
/// branch, and no request for a hash that is ordered or on the path?
pub open spec fn nothing_owed(v: WorkView, tip_h: u32) -> bool {
    &&& v.ordered.len() == 0
    &&& forall|h: u32| #[trigger] v.height_to_hash.contains_key(h) ==> h <= tip_h
    &&& v.max_ready_height <= tip_h
    &&& v.reorg.awaiting is None
    &&& forall|h: BlockHash| #[trigger]
        v.inflight.contains_key(h) ==> !v.ordered_set.contains(h) && !(v.hash_height.contains_key(
            h,
        ) && v.height_to_hash.contains_key(v.hash_height[h])
            && v.height_to_hash[v.hash_height[h]] == h)
}

/// The download has caught up exactly when there is a chain, nothing is owed to it, and no
/// peer is ahead of it, or by one block with headers complete.
pub proof fn law_caught_up_owes_nothing(v: WorkView, tip_h: u32)
    requires
        v.height_to_hash.dom().finite(),
    ensures
        v.caught_up(tip_h) <==> tip_h > 0 && nothing_owed(v, tip_h) && (!peers_are_ahead(
            v,
            tip_h,
            0,
        ) || v.headers_done && !peers_are_ahead(v, tip_h, 1)),
{
    lemma_ahead(v, tip_h, 0);
    lemma_ahead(v, tip_h, 1);
    if nothing_owed(v, tip_h) {
        assert(!v.remainder(tip_h));
    }
    if !v.remainder(tip_h) {
        assert(nothing_owed(v, tip_h));
    }
}

/// Without alive peers the download goes on while a redial is under way and fewer than four
/// came back empty; otherwise it fails unless it has caught up.
pub proof fn law_dark_download_waits_for_redials(v: WorkView, tip_h: u32, redial: bool, empty: u32)
    ensures
        v.caught_up(tip_h) ==> dead_action(v, tip_h, redial, empty)
            == AllPeersDead::CatchupComplete,
        !v.caught_up(tip_h) && redial && empty < 4 ==> dead_action(v, tip_h, redial, empty)
            == AllPeersDead::WaitRedial,
        !v.caught_up(tip_h) && (!redial || empty >= 4) ==> dead_action(v, tip_h, redial, empty)
            == AllPeersDead::GiveUpMidCatchup,
{
}

/// On an empty path nobody is asked for headers at the peers' height, nor within two of it
/// with the next header known; while path work is out one peer is asked, and otherwise all
/// alive ones up to four.
pub proof fn law_header_fan(v: WorkView, tip_h: u32, alive: usize)
    requires
        v.height_to_hash.dom().finite(),
        alive > 0,
        tip_h < u32::MAX,
    ensures
        !peers_are_ahead(v, tip_h, 0) ==> v.header_fan(tip_h, alive) == 0,
        !peers_are_ahead(v, tip_h, 2) && v.height_to_hash.contains_key((tip_h + 1) as u32)
            ==> v.header_fan(tip_h, alive) == 0,
        peers_are_ahead(v, tip_h, 2) || peers_are_ahead(v, tip_h, 0)
            && !v.height_to_hash.contains_key((tip_h + 1) as u32) ==> v.header_fan(tip_h, alive)
            == (if v.path_requested() {
            1
        } else if alive < 4 {
            alive as int
        } else {
            4
        }),
        v.header_fan(tip_h, alive) <= alive,
{
    lemma_ahead(v, tip_h, 0);
    lemma_ahead(v, tip_h, 2);
}

/// The headers-done latch opens on an empty path once peers are more than one ahead, or one
/// ahead with the next header missing, and never otherwise.
pub proof fn law_latch_opens_behind_peers(v: WorkView, tip_h: u32)
    requires
        v.height_to_hash.dom().finite(),
        tip_h < u32::MAX,
    ensures
        v.unlatches(tip_h) <==> v.headers_done && v.ordered.len() == 0 && (peers_are_ahead(
            v,
            tip_h,
            1,
        ) || peers_are_ahead(v, tip_h, 0) && !v.height_to_hash.contains_key((tip_h + 1) as u32)),
{
    lemma_ahead(v, tip_h, 0);
    lemma_ahead(v, tip_h, 1);
}

} // verus!

//! How often the recurring steps run.
use vstd::prelude::*;
use crate::cadence::{
    is_due, ASSIGN_PERIOD_NS, HEADERS_PERIOD_NS, HYGIENE_PERIOD_NS, PEER_SLOW_PERIOD_NS,
};
use crate::chain::HubView;
use crate::exit::{advances_locator, logs_at, rerequests_at};
use crate::header_events::{empty_action, EmptyAction};
use crate::hash::BlockHash;
use crate::laws::headers::{lemma_ahead, peers_are_ahead};
use crate::state::WorkView;
use crate::time::Instant;

verus! {

/// Assignment is due every 50 ms, the header poll every 500 ms, the slow-peer checks and
/// hygiene every second; a first run is due at once.
pub proof fn law_steps_keep_their_periods(ran: Instant, now: Instant)
    requires
        ran.ns <= now.ns,
    ensures
        is_due(Some(ran), now, ASSIGN_PERIOD_NS) <==> now.ns - ran.ns >= 50_000_000,
        is_due(Some(ran), now, HEADERS_PERIOD_NS) <==> now.ns - ran.ns >= 500_000_000,
        is_due(Some(ran), now, PEER_SLOW_PERIOD_NS) <==> now.ns - ran.ns >= 1_000_000_000,
        is_due(Some(ran), now, HYGIENE_PERIOD_NS) <==> now.ns - ran.ns >= 1_000_000_000,
        is_due(None, now, ASSIGN_PERIOD_NS) && is_due(None, now, HEADERS_PERIOD_NS),
{
}

/// Over any eight empty replies in a row one is followed by a request, and over any 64 one
/// is reported.
pub proof fn law_streaks_are_answered_in_time(streak: u32) -> (r: (u32, u32))
    requires
        0 < streak <= u32::MAX - 64,
    ensures
        streak <= r.0 < streak + 8 && rerequests_at(r.0),
        streak <= r.1 < streak + 64 && logs_at(r.1),
        rerequests_at(1) && logs_at(1),
        1 < streak < 8 ==> !rerequests_at(streak),
        1 < streak < 64 ==> !logs_at(streak),
{
    let a = if streak % 8 == 0 {
        streak as int
    } else {
        streak - streak % 8 + 8
    };
    let b = if streak % 64 == 0 {
        streak as int
    } else {
        streak - streak % 64 + 64
    };
    assert(a % 8 == 0);
    assert(b % 64 == 0);
    (a as u32, b as u32)
}

/// Headers that were all known are followed up on a path with blocks on it after a full
/// reply, with a lag of more than two, or for headroom; on an empty path never.
pub proof fn law_known_headers_are_followed_up(live: usize, lag: u32, full: bool, headroom: bool)
    ensures
        live == 0 ==> !advances_locator(live, lag, full, headroom),
        live > 0 ==> (advances_locator(live, lag, full, headroom) <==> full || headroom || lag
            >= 3),
{
}

/// While peers are more than two ahead and nothing is ordered but requests are out, the
/// stored headers are walked again on the first empty reply and on every 64th, and peers are
/// asked again on every eighth between.
pub proof fn law_empty_path_is_reseeded(v: WorkView, hub: HubView, soft_cap: usize, out: BlockHash)
    requires
        v.height_to_hash.dom().finite(),
        peers_are_ahead(v, hub.tip_or_zero(), 2),
        v.inflight.contains_key(out),
        forall|h: BlockHash| !(#[trigger] v.ordered_set.contains(h)),
        v.empty_header_streak > 0,
    ensures
        v.empty_header_streak == 1 || v.empty_header_streak % 64 == 0 ==> empty_action(
            v,
            hub,
            soft_cap,
        ) == EmptyAction::Reseed,
        v.empty_header_streak % 8 == 0 && v.empty_header_streak % 64 != 0 ==> empty_action(
            v,
            hub,
            soft_cap,
        ) == EmptyAction::Poll,
        v.empty_header_streak > 1 && v.empty_header_streak % 8 != 0 ==> empty_action(
            v,
            hub,
            soft_cap,
        ) == EmptyAction::Wait,
{
    lemma_ahead(v, hub.tip_or_zero(), 2);
    assert(v.inflight.dom().contains(out));
    assert(v.ordered_set =~= Set::<BlockHash>::empty());
}

} // verus!

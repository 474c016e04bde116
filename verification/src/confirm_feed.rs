//! Readiness of tip extensions: what the confirm engine may take next.
//!
//! The wire of a block lives in the body queue; the feed normally holds heights
//! and hashes only. Once a run is claimed, its heights stay in flight until they
//! are written or put back, so that the same run is not claimed twice.
use vstd::prelude::*;
use crate::chain::{sat_add32, max32, ChainHub, HubView, larger};
use crate::body::{BodyPresence, BodyView};
use crate::hash::BlockHash;
use crate::keyed::members_of;
use std::collections::{BTreeMap, HashMap, HashSet};

verus! {

/// How far above the tip ready bodies are noted ahead.
pub const OFFER_AHEAD: u32 = 192;

/// A height that is ready for confirm.
pub struct ReadyBody {
    pub hash: BlockHash,
    /// Normally absent: the body queue holds the wire.
    pub wire: Option<Vec<u8>>,
}

/// [`ReadyBody`] as values.
#[verifier::ext_equal]
pub struct ReadyView {
    pub hash: BlockHash,
    pub wire: Option<Seq<u8>>,
}

/// The bytes of optional wire.
pub open spec fn wire_view(w: Option<Vec<u8>>) -> Option<Seq<u8>> {
    match w {
        Some(b) => Some(b@),
        None => None,
    }
}

impl View for ReadyBody {
    type V = ReadyView;

    open spec fn view(&self) -> ReadyView {
        ReadyView { hash: self.hash, wire: wire_view(self.wire) }
    }
}

/// The values of a ready map.
pub open spec fn ready_views(m: Map<u32, ReadyBody>) -> Map<u32, ReadyView> {
    Map::new(|h: u32| m.contains_key(h), |h: u32| m[h]@)
}

/// Shared feed of tip-extension readiness.
pub struct ConfirmFeed {
    /// Ready heights.
    pub ready: BTreeMap<u32, ReadyBody>,
    /// Claimed heights that are neither written nor put back.
    pub inflight: HashSet<u32>,
    /// The lookup epoch of each claim. Outlives [`ConfirmFeed::clear`].
    pub claimed_epoch: HashMap<u32, u64>,
    stop: bool,
    epoch: u64,
    force_single: bool,
}

/// [`ConfirmFeed`] as values.
#[verifier::ext_equal]
pub struct FeedView {
    pub ready: Map<u32, ReadyView>,
    pub inflight: Set<u32>,
    pub claimed_epoch: Map<u32, u64>,
    pub stop: bool,
    pub epoch: u64,
    pub single: bool,
}

impl View for ConfirmFeed {
    type V = FeedView;

    closed spec fn view(&self) -> FeedView {
        FeedView {
            ready: ready_views(self.ready@),
            inflight: self.inflight@,
            claimed_epoch: self.claimed_epoch@,
            stop: self.stop,
            epoch: self.epoch,
            single: self.force_single,
        }
    }
}

/// The next epoch; counts round.
pub open spec fn next_epoch(e: u64) -> u64 {
    if e == u64::MAX {
        0
    } else {
        (e + 1) as u64
    }
}

/// One height with its hash and optional wire.
pub type FeedRow = (u32, BlockHash, Option<Vec<u8>>);

/// [`FeedRow`]s as values.
pub open spec fn row_views(s: Seq<FeedRow>) -> Seq<(u32, BlockHash, Option<Seq<u8>>)> {
    Seq::new(s.len(), |i: int| (s[i].0, s[i].1, wire_view(s[i].2)))
}

/// Rows without wire.
pub open spec fn bare_rows(s: Seq<(u32, BlockHash)>) -> Seq<(u32, BlockHash, Option<Seq<u8>>)> {
    Seq::new(s.len(), |i: int| (s[i].0, s[i].1, None::<Seq<u8>>))
}

/// The heights of rows.
pub open spec fn heights_in(s: Seq<(u32, BlockHash)>) -> Seq<u32> {
    Seq::new(s.len(), |i: int| s[i].0)
}

impl FeedView {
    /// Nothing noted.
    pub open spec fn blank() -> FeedView {
        FeedView {
            ready: Map::empty(),
            inflight: Set::empty(),
            claimed_epoch: Map::empty(),
            stop: false,
            epoch: 0,
            single: false,
        }
    }

    /// `height` is ready. A height that was ready keeps its hash, and its wire
    /// where it has one.
    pub open spec fn with_ready(self, height: u32, hash: BlockHash, wire: Option<Seq<u8>>) -> FeedView {
        FeedView {
            ready: if !self.ready.contains_key(height) {
                self.ready.insert(height, ReadyView { hash, wire })
            } else if self.ready[height].wire is None {
                self.ready.insert(height, ReadyView { hash: self.ready[height].hash, wire })
            } else {
                self.ready
            },
            ..self
        }
    }

    /// `height` is noted as ready, unless it is in flight.
    pub open spec fn noted(self, height: u32, hash: BlockHash, wire: Option<Seq<u8>>) -> FeedView {
        if self.inflight.contains(height) {
            self
        } else {
            self.with_ready(height, hash, wire)
        }
    }

    /// One height is put back.
    pub open spec fn put_back(self, row: (u32, BlockHash, Option<Seq<u8>>)) -> FeedView {
        FeedView { inflight: self.inflight.remove(row.0), ..self }.with_ready(row.0, row.1, row.2)
    }

    /// The heights from `i` on are put back, in order.
    pub open spec fn requeued_from(self, rows: Seq<(u32, BlockHash, Option<Seq<u8>>)>, i: int) -> FeedView
        decreases rows.len() - i,
    {
        if i < 0 || i >= rows.len() {
            self
        } else {
            self.put_back(rows[i]).requeued_from(rows, i + 1)
        }
    }

    /// The heights are put back, in order.
    pub open spec fn requeued(self, rows: Seq<(u32, BlockHash, Option<Seq<u8>>)>) -> FeedView {
        self.requeued_from(rows, 0)
    }

    /// The heights are done with.
    pub open spec fn finished(self, heights: Seq<u32>) -> FeedView {
        FeedView {
            inflight: self.inflight.difference(heights.to_set()),
            claimed_epoch: self.claimed_epoch.remove_keys(heights.to_set()),
            ..self
        }
    }

    /// Nothing ready, nothing in flight, and every earlier claim out of date.
    pub open spec fn cleared(self) -> FeedView {
        FeedView {
            ready: Map::empty(),
            inflight: Set::empty(),
            epoch: next_epoch(self.epoch),
            single: false,
            ..self
        }
    }

    /// Was the claim of `first_h` made before a later clear?
    pub open spec fn claim_stale(self, first_h: u32) -> bool {
        self.claimed_epoch.contains_key(first_h) && self.claimed_epoch[first_h] != self.epoch
    }

    /// `height` is claimed at `epoch`.
    pub open spec fn claimed(self, height: u32, epoch: u64) -> FeedView {
        FeedView {
            ready: self.ready.remove(height),
            inflight: self.inflight.insert(height),
            claimed_epoch: self.claimed_epoch.insert(height, epoch),
            ..self
        }
    }

    /// No height is both ready and in flight.
    pub open spec fn apart(self) -> bool {
        self.ready.dom().disjoint(self.inflight)
    }
}

/// A copy of optional wire.
pub(crate) fn copy_wire(w: &Option<Vec<u8>>) -> (r: Option<Vec<u8>>)
    ensures
        wire_view(r) == wire_view(*w),
{
    match w {
        Some(b) => {
            let c = b.clone();
            assert(c@ =~= b@);
            Some(c)
        },
        None => None,
    }
}

/// The heights of rows.
pub fn heights_of(rows: &Vec<(u32, BlockHash)>) -> (r: Vec<u32>)
    ensures
        r@ == heights_in(rows@),
{
    let mut r: Vec<u32> = Vec::new();
    let mut i: usize = 0;
    while i < rows.len()
        invariant
            i <= rows@.len(),
            r@ == heights_in(rows@).take(i as int),
        decreases rows@.len() - i,
    {
        r.push(rows[i].0);
        i = i + 1;
        assert(r@ =~= heights_in(rows@).take(i as int));
    }
    assert(r@ =~= heights_in(rows@));
    r
}

impl ConfirmFeed {
    /// An empty feed.
    pub fn new() -> (r: Self)
        ensures
            r@ == FeedView::blank(),
    {
        let r = ConfirmFeed {
            ready: BTreeMap::new(),
            inflight: HashSet::new(),
            claimed_epoch: HashMap::new(),
            stop: false,
            epoch: 0,
            force_single: false,
        };
        assert(r@ =~= FeedView::blank());
        r
    }

    /// The live epoch.
    pub fn epoch(&self) -> (e: u64)
        ensures
            e == self@.epoch,
    {
        self.epoch
    }

    /// Was the claim of `first_h` made before a later [`ConfirmFeed::clear`]?
    pub fn plan_epoch_stale(&self, first_h: u32) -> (b: bool)
        ensures
            b == self@.claim_stale(first_h),
    {
        match self.claimed_epoch.get(&first_h) {
            Some(e) => *e != self.epoch,
            None => false,
        }
    }

    /// Let the next lookup wave claim one height only.
    pub fn request_single_block(&mut self)
        ensures
            final(self)@ == (FeedView { single: true, ..old(self)@ }),
    {
        self.force_single = true;
    }

    /// Is the next lookup wave to claim one height only?
    pub fn single_block(&self) -> (b: bool)
        ensures
            b == self@.single,
    {
        self.force_single
    }

    fn put_ready(&mut self, height: u32, hash: BlockHash, wire: Option<Vec<u8>>)
        ensures
            final(self)@ == old(self)@.with_ready(height, hash, wire_view(wire)),
    {
        let ghost before = self@;
        match self.ready.remove(&height) {
            Some(e) => {
                let kept = if e.wire.is_none() {
                    ReadyBody { hash: e.hash, wire }
                } else {
                    e
                };
                self.ready.insert(height, kept);
                assert(self@ =~= before.with_ready(height, hash, wire_view(wire)));
            },
            None => {
                self.ready.insert(height, ReadyBody { hash, wire });
                assert(self@ =~= before.with_ready(height, hash, wire_view(wire)));
            },
        }
    }

    /// Note a ready height whose wire is in the body queue.
    pub fn note(&mut self, height: u32, hash: BlockHash)
        ensures
            final(self)@ == old(self)@.noted(height, hash, None),
    {
        self.note_wire(height, hash, None);
    }

    /// Note a ready height, with wire where there is some. A height in flight stays
    /// as it is.
    pub fn note_wire(&mut self, height: u32, hash: BlockHash, block: Option<Vec<u8>>)
        ensures
            final(self)@ == old(self)@.noted(height, hash, wire_view(block)),
    {
        if self.inflight.contains(&height) {
            return;
        }
        self.put_ready(height, hash, block);
    }

    /// Put heights back, with their wire where it is given.
    pub fn requeue_wire(&mut self, batch: &Vec<FeedRow>)
        ensures
            final(self)@ == old(self)@.requeued(row_views(batch@)),
    {
        let ghost all = self@.requeued(row_views(batch@));
        let mut i: usize = 0;
        while i < batch.len()
            invariant
                i <= batch@.len(),
                self@.requeued_from(row_views(batch@), i as int) == all,
            decreases batch@.len() - i,
        {
            let ghost before = self@;
            let h: u32 = batch[i].0;
            self.inflight.remove(&h);
            assert(self@ =~= (FeedView { inflight: before.inflight.remove(h), ..before }));
            let w = copy_wire(&batch[i].2);
            self.put_ready(h, batch[i].1, w);
            assert(self@ == before.put_back(row_views(batch@)[i as int]));
            i = i + 1;
        }
    }

    /// Put heights back without wire.
    pub fn requeue_hashes(&mut self, rows: &Vec<(u32, BlockHash)>)
        ensures
            final(self)@ == old(self)@.requeued(bare_rows(rows@)),
    {
        let mut batch: Vec<FeedRow> = Vec::new();
        let mut i: usize = 0;
        while i < rows.len()
            invariant
                i <= rows@.len(),
                row_views(batch@) == bare_rows(rows@).take(i as int),
            decreases rows@.len() - i,
        {
            let ghost before = batch@;
            let row: FeedRow = (rows[i].0, rows[i].1, None);
            batch.push(row);
            assert(row_views(batch@) =~= row_views(before).push((row.0, row.1, None::<Seq<u8>>)));
            i = i + 1;
            assert(row_views(batch@) =~= bare_rows(rows@).take(i as int));
        }
        assert(row_views(batch@) =~= bare_rows(rows@));
        self.requeue_wire(&batch);
    }

    /// The heights are written or given up.
    pub fn finish(&mut self, heights: &Vec<u32>)
        ensures
            final(self)@ == old(self)@.finished(heights@),
    {
        let ghost before = self@;
        let mut i: usize = 0;
        assert(heights@.take(0).to_set() =~= Set::<u32>::empty());
        assert(before.finished(heights@.take(0)) =~= before);
        while i < heights.len()
            invariant
                i <= heights@.len(),
                self@ == before.finished(heights@.take(i as int)),
            decreases heights@.len() - i,
        {
            let h: u32 = heights[i];
            self.inflight.remove(&h);
            self.claimed_epoch.remove(&h);
            proof {
                assert(heights@.take(i + 1) =~= heights@.take(i as int).push(h));
                heights@.take(i as int).lemma_push_to_set_commute(h);
                assert(self@ =~= before.finished(heights@.take(i + 1)));
            }
            i = i + 1;
        }
        assert(heights@.take(i as int) =~= heights@);
    }

    /// Drop what is ready and in flight, so that no plan made before a rewind is
    /// committed. Claims stay known, and are out of date from now on.
    pub fn clear(&mut self)
        ensures
            final(self)@ == old(self)@.cleared(),
    {
        self.ready.clear();
        self.inflight.clear();
        self.epoch = if self.epoch == u64::MAX {
            0
        } else {
            self.epoch + 1
        };
        self.force_single = false;
        assert(self@ =~= old(self)@.cleared());
    }

    /// Ask the engine to stop.
    pub fn request_stop(&mut self)
        ensures
            final(self)@ == (FeedView { stop: true, ..old(self)@ }),
    {
        self.stop = true;
    }

    /// Was the engine asked to stop?
    pub fn stopped(&self) -> (b: bool)
        ensures
            b == self@.stop,
    {
        self.stop
    }

    /// How many heights are ready, and how many are in flight.
    pub fn size_snap(&self) -> (r: (usize, usize))
        ensures
            r.0 == self@.ready.dom().len(),
            r.1 == self@.inflight.len(),
    {
        assert(self@.ready.dom() =~= self.ready@.dom());
        (self.ready.len(), self.inflight.len())
    }

    /// Claim `height` at `epoch`.
    pub fn claim(&mut self, height: u32, epoch: u64)
        ensures
            final(self)@ == old(self)@.claimed(height, epoch),
    {
        self.ready.remove(&height);
        self.inflight.insert(height);
        self.claimed_epoch.insert(height, epoch);
        assert(self@ =~= old(self)@.claimed(height, epoch));
    }

    /// `height` is not ready any more.
    pub fn drop_ready(&mut self, height: u32)
        ensures
            final(self)@ == (FeedView { ready: old(self)@.ready.remove(height), ..old(self)@ }),
    {
        self.ready.remove(&height);
        assert(self@.ready =~= old(self)@.ready.remove(height));
    }

    /// Is `height` claimed and not done with?
    pub fn in_flight(&self, height: u32) -> (b: bool)
        ensures
            b == self@.inflight.contains(height),
    {
        self.inflight.contains(&height)
    }

    /// The heights in flight.
    pub fn inflight_heights(&self) -> (r: Vec<u32>)
        ensures
            r@.no_duplicates(),
            r@.to_set() == self@.inflight,
    {
        members_of(&self.inflight)
    }
}

/// The hash that is ready at `height`.
pub fn lookup_ready_hash(feed: &ConfirmFeed, height: u32) -> (r: Option<BlockHash>)
    ensures
        r == (if feed@.ready.contains_key(height) {
            Some(feed@.ready[height].hash)
        } else {
            None
        }),
{
    match feed.ready.get(&height) {
        Some(e) => Some(e.hash),
        None => None,
    }
}

/// A feed with what an offer did to it.
#[verifier::ext_equal]
pub struct Offer {
    pub feed: FeedView,
    /// Highest height that was ever ready.
    pub max_ready: u32,
    /// How many heights were noted.
    pub noted: nat,
}

/// Does the walk stop at `height`? At a gap in the path; at a body that is not
/// there; at a rejected block; and above the tip at a block with another parent.
pub open spec fn offer_stops(
    h2h: Map<u32, BlockHash>,
    body: BodyView,
    hub: HubView,
    height: u32,
) -> bool {
    if !h2h.contains_key(height) {
        true
    } else if hub.blocks.contains(h2h[height]) {
        false
    } else {
        let hash = h2h[height];
        ||| height == hub.path_lo() && hub.parents.contains_key(hash) && hub.tip_hash() != Some(
            hub.parents[hash],
        )
        ||| body.rejected.contains(hash)
        ||| !hub.claim_ready(height, hash)
    }
}

/// The offer of the heights from `height` up to `limit`.
pub open spec fn offered_from(
    o: Offer,
    h2h: Map<u32, BlockHash>,
    body: BodyView,
    hub: HubView,
    height: int,
    limit: u32,
) -> Offer
    decreases limit - height + 1,
{
    if height < 0 || height > limit || offer_stops(h2h, body, hub, height as u32) {
        o
    } else {
        let hash = h2h[height as u32];
        let next = if hub.blocks.contains(hash) {
            o
        } else {
            Offer {
                feed: o.feed.noted(height as u32, hash, None),
                max_ready: max32(o.max_ready, height as u32),
                noted: o.noted + 1,
            }
        };
        offered_from(next, h2h, body, hub, height + 1, limit)
    }
}

/// The offer of a turn: from above the tip on, at most [`OFFER_AHEAD`] ahead.
pub open spec fn offer_made(
    feed: FeedView,
    max_ready: u32,
    h2h: Map<u32, BlockHash>,
    body: BodyView,
    hub: HubView,
) -> Offer {
    offered_from(
        Offer { feed, max_ready, noted: 0 },
        h2h,
        body,
        hub,
        hub.path_lo() as int,
        sat_add32(hub.path_lo(), OFFER_AHEAD),
    )
}

/// Note a run of claim-ready heights from above the tip on, at most
/// [`OFFER_AHEAD`] ahead, so that the engine can take several blocks at once.
/// Blocks that are confirmed already are passed over. Gives how many heights were
/// noted.
///
/// Looks at one path slot per height, never at the whole path.
pub fn offer_confirm_ready(
    feed: &mut ConfirmFeed,
    height_to_hash: &HashMap<u32, BlockHash>,
    body: &BodyPresence,
    hub: &ChainHub,
    max_ready_height: &mut u32,
) -> (noted: u32)
    ensures
        ({
            let o = offer_made(
                old(feed)@,
                *old(max_ready_height),
                height_to_hash@,
                body@,
                hub@,
            );
            &&& final(feed)@ == o.feed
            &&& *final(max_ready_height) == o.max_ready
            &&& noted == o.noted
        }),
{
    let expect: u32 = hub.path_lo();
    let limit: u32 = expect.saturating_add(OFFER_AHEAD);
    let mut noted: u32 = 0;
    let mut ht: u32 = expect;
    let mut going = true;
    let ghost all = offered_from(
        Offer { feed: feed@, max_ready: *max_ready_height, noted: 0 },
        height_to_hash@,
        body@,
        hub@,
        expect as int,
        limit,
    );
    while going
        invariant
            expect == hub@.path_lo(),
            limit == sat_add32(expect, OFFER_AHEAD),
            expect <= ht <= limit,
            noted <= ht - expect + (if going { 0int } else { 1int }),
            going ==> offered_from(
                Offer { feed: feed@, max_ready: *max_ready_height, noted: noted as nat },
                height_to_hash@,
                body@,
                hub@,
                ht as int,
                limit,
            ) == all,
            !going ==> (Offer { feed: feed@, max_ready: *max_ready_height, noted: noted as nat })
                == all,
        decreases limit - ht + (if going { 1int } else { 0int }),
    {
        let hash = match height_to_hash.get(&ht) {
            Some(h) => *h,
            None => {
                going = false;
                continue ;
            },
        };
        if !hub.has_block(&hash) {
            let mut off_tip = false;
            if ht == expect {
                if let Some(prev) = hub.parent_hash_of(&hash) {
                    off_tip = match hub.tip_hash() {
                        Some(t) => t != prev,
                        None => true,
                    };
                }
            }
            if off_tip || body.is_rejected(&hash) || !hub.claim_ready(ht, &hash) {
                going = false;
                continue ;
            }
            *max_ready_height = larger(*max_ready_height, ht);
            feed.note(ht, hash);
            noted = noted + 1;
        }
        assert(offered_from(
            Offer { feed: feed@, max_ready: *max_ready_height, noted: noted as nat },
            height_to_hash@,
            body@,
            hub@,
            ht + 1,
            limit,
        ) == all);
        if ht == limit {
            going = false;
        } else {
            ht = ht + 1;
        }
    }
    noted
}

/// Is `first_h` not the height above the tip?
pub open spec fn off_tip_height(hub: HubView, first_h: u32) -> bool {
    first_h != hub.path_lo()
}

/// Is the first height of a batch no longer the one above the tip?
pub fn write_batch_is_stale(hub: &ChainHub, first_h: u32) -> (b: bool)
    ensures
        b == off_tip_height(hub@, first_h),
{
    first_h != hub.path_lo()
}

/// Is a batch out of date, by its height or by a clear after its claim? A sibling
/// at the new height above the tip would pass the height test alone.
pub open spec fn plan_stale(hub: HubView, feed: FeedView, first_h: u32) -> bool {
    off_tip_height(hub, first_h) || feed.claim_stale(first_h)
}

/// Is a batch out of date, by its height or by a clear after its claim?
pub fn write_batch_is_stale_plan(hub: &ChainHub, feed: &ConfirmFeed, first_h: u32) -> (b: bool)
    ensures
        b == plan_stale(hub@, feed@, first_h),
{
    write_batch_is_stale(hub, first_h) || feed.plan_epoch_stale(first_h)
}

/// A claimed height cannot become ready again by being noted.
pub proof fn law_claimed_height_is_not_noted(
    f: FeedView,
    height: u32,
    epoch: u64,
    hash: BlockHash,
    wire: Option<Seq<u8>>,
)
    ensures
        f.claimed(height, epoch).noted(height, hash, wire) == f.claimed(height, epoch),
        !f.claimed(height, epoch).noted(height, hash, wire).ready.contains_key(height),
{
}

/// Clearing the feed puts every claim of the live epoch out of date, and leaves
/// nothing ready or in flight.
pub proof fn law_clear_outdates_claims(f: FeedView, height: u32)
    requires
        f.claimed_epoch.contains_key(height),
        f.claimed_epoch[height] == f.epoch,
    ensures
        !f.claim_stale(height),
        f.cleared().claim_stale(height),
        f.cleared().ready == Map::<u32, ReadyView>::empty(),
        f.cleared().inflight == Set::<u32>::empty(),
{
}

/// No operation makes a height both ready and in flight.
pub proof fn law_ready_and_inflight_stay_apart(
    f: FeedView,
    height: u32,
    hash: BlockHash,
    wire: Option<Seq<u8>>,
    epoch: u64,
    rows: Seq<(u32, BlockHash, Option<Seq<u8>>)>,
    heights: Seq<u32>,
)
    requires
        f.apart(),
    ensures
        f.noted(height, hash, wire).apart(),
        f.claimed(height, epoch).apart(),
        f.requeued(rows).apart(),
        f.finished(heights).apart(),
        f.cleared().apart(),
{
    lemma_requeue_apart(f, rows, 0);
}

proof fn lemma_requeue_apart(f: FeedView, rows: Seq<(u32, BlockHash, Option<Seq<u8>>)>, i: int)
    requires
        f.apart(),
    ensures
        f.requeued_from(rows, i).apart(),
    decreases rows.len() - i,
{
    if 0 <= i < rows.len() {
        assert(f.put_back(rows[i]).apart());
        lemma_requeue_apart(f.put_back(rows[i]), rows, i + 1);
    }
}

/// A claimed height that is put back is ready and no longer in flight; one that is
/// finished is neither in flight nor known as claimed.
pub proof fn law_claim_ends_by_requeue_or_finish(
    f: FeedView,
    height: u32,
    epoch: u64,
    row: (u32, BlockHash, Option<Seq<u8>>),
)
    requires
        row.0 == height,
    ensures
        f.claimed(height, epoch).put_back(row).ready.contains_key(height),
        f.claimed(height, epoch).put_back(row).ready[height].hash == row.1,
        !f.claimed(height, epoch).put_back(row).inflight.contains(height),
        !f.claimed(height, epoch).finished(seq![height]).inflight.contains(height),
        !f.claimed(height, epoch).finished(seq![height]).claimed_epoch.contains_key(height),
{
    assert(seq![height][0] == height);
    assert(seq![height].to_set().contains(height));
}

/// Whatever an offer makes ready is the path's block at its height, within the range that
/// was walked, its body is there, and it is neither rejected nor confirmed. What was ready
/// before stays, and nothing that is in flight is touched.
pub proof fn law_offer_notes_only_claim_ready(
    o: Offer,
    h2h: Map<u32, BlockHash>,
    body: BodyView,
    hub: HubView,
    height: int,
    limit: u32,
    at: u32,
)
    requires
        0 <= height,
    ensures
        ({
            let r = offered_from(o, h2h, body, hub, height, limit);
            &&& r.feed.inflight == o.feed.inflight
            &&& o.feed.ready.contains_key(at) ==> r.feed.ready.contains_key(at)
            &&& r.feed.ready.contains_key(at) && !o.feed.ready.contains_key(at) ==> {
                &&& height <= at <= limit
                &&& h2h.contains_key(at)
                &&& r.feed.ready[at].hash == h2h[at]
                &&& hub.claim_ready(at, h2h[at])
                &&& !body.rejected.contains(h2h[at])
                &&& !hub.blocks.contains(h2h[at])
                &&& !o.feed.inflight.contains(at)
            }
        }),
    decreases limit - height + 1,
{
    if height > limit || offer_stops(h2h, body, hub, height as u32) {
    } else {
        let hash = h2h[height as u32];
        let next = if hub.blocks.contains(hash) {
            o
        } else {
            Offer {
                feed: o.feed.noted(height as u32, hash, None),
                max_ready: max32(o.max_ready, height as u32),
                noted: o.noted + 1,
            }
        };
        law_offer_notes_only_claim_ready(next, h2h, body, hub, height + 1, limit, at);
        lemma_offer_keeps_lower(next, h2h, body, hub, height + 1, limit, height as u32);
    }
}

proof fn lemma_offer_keeps_lower(
    o: Offer,
    h2h: Map<u32, BlockHash>,
    body: BodyView,
    hub: HubView,
    height: int,
    limit: u32,
    at: u32,
)
    requires
        at < height,
    ensures
        ({
            let r = offered_from(o, h2h, body, hub, height, limit);
            &&& r.feed.ready.contains_key(at) == o.feed.ready.contains_key(at)
            &&& o.feed.ready.contains_key(at) ==> r.feed.ready[at] == o.feed.ready[at]
        }),
    decreases limit - height + 1,
{
    if height > limit || offer_stops(h2h, body, hub, height as u32) {
    } else {
        let hash = h2h[height as u32];
        let next = if hub.blocks.contains(hash) {
            o
        } else {
            Offer {
                feed: o.feed.noted(height as u32, hash, None),
                max_ready: max32(o.max_ready, height as u32),
                noted: o.noted + 1,
            }
        };
        lemma_offer_keeps_lower(next, h2h, body, hub, height + 1, limit, at);
    }
}

} // verus!

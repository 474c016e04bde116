//! Process-local body presence for getdata assignment and status.
use vstd::prelude::*;
use crate::hash::BlockHash;
use crate::keyed::{KeyMap, KeySet};
use crate::time::sat_sub;

verus! {

/// How many hashes each [`BodyPresence`] set holds.
#[derive(Clone, Copy, Debug, PartialEq, Eq, Structural)]
pub struct BodyPresenceSizes {
    pub known: usize,
    pub pending: usize,
    pub missing: usize,
    pub rejected: usize,
}

/// What is held about block bodies, hash by hash.
#[verifier::ext_equal]
pub struct BodyView {
    /// Body already archived.
    pub known: Set<BlockHash>,
    /// Wire received, not yet confirmed; the value is when it was marked.
    pub pending: Map<BlockHash, u64>,
    /// Probed and absent: safe to request.
    pub missing: Set<BlockHash>,
    /// Confirm refused it for good.
    pub rejected: Set<BlockHash>,
}

impl BodyView {
    /// Nothing is known of any hash.
    pub open spec fn blank() -> BodyView {
        BodyView {
            known: Set::empty(),
            pending: Map::empty(),
            missing: Set::empty(),
            rejected: Set::empty(),
        }
    }

    /// Effect of receiving the wire of `h` at `now_ms`.
    pub open spec fn with_pending(self, h: BlockHash, now_ms: u64) -> BodyView {
        if self.rejected.contains(h) {
            self
        } else {
            BodyView {
                missing: self.missing.remove(h),
                pending: if self.pending.contains_key(h) {
                    self.pending
                } else {
                    self.pending.insert(h, now_ms)
                },
                ..self
            }
        }
    }

    /// Effect of finding `h` archived.
    pub open spec fn with_archived(self, h: BlockHash) -> BodyView {
        if self.rejected.contains(h) {
            self
        } else {
            BodyView {
                missing: self.missing.remove(h),
                pending: self.pending.remove(h),
                known: self.known.insert(h),
                ..self
            }
        }
    }

    /// Effect of finding `h` absent.
    pub open spec fn with_missing(self, h: BlockHash) -> BodyView {
        if self.rejected.contains(h) {
            self
        } else {
            BodyView {
                known: self.known.remove(h),
                pending: self.pending.remove(h),
                missing: self.missing.insert(h),
                ..self
            }
        }
    }

    /// Effect of dropping the archived mark of `h`.
    pub open spec fn without_known(self, h: BlockHash) -> BodyView {
        BodyView { known: self.known.remove(h), ..self }
    }

    /// Effect of a permanent confirm failure of `h`.
    pub open spec fn with_rejected(self, h: BlockHash) -> BodyView {
        BodyView {
            known: self.known.remove(h),
            pending: self.pending.remove(h),
            missing: self.missing.remove(h),
            rejected: self.rejected.insert(h),
        }
    }

    /// Must `h` not be requested? `has_block` says whether it is confirmed.
    pub open spec fn skips(self, h: BlockHash, has_block: bool) -> bool {
        ||| self.rejected.contains(h)
        ||| self.pending.contains_key(h)
        ||| !self.missing.contains(h) && has_block
    }

    /// Effect of asking [`BodyView::skips`].
    pub open spec fn after_skip_probe(self, h: BlockHash, has_block: bool) -> BodyView {
        if !self.rejected.contains(h) && !self.pending.contains_key(h) && !self.missing.contains(h)
            && has_block {
            BodyView { known: self.known.insert(h), ..self }
        } else {
            self
        }
    }

    /// Every hash of `hs` found absent, in order.
    pub open spec fn with_all_missing(self, hs: Seq<BlockHash>) -> BodyView
        decreases hs.len(),
    {
        if hs.len() == 0 {
            self
        } else {
            self.with_all_missing(hs.drop_last()).with_missing(hs.last())
        }
    }

    /// Every hash of `hs` found absent.
    pub open spec fn with_set_missing(self, hs: Set<BlockHash>) -> BodyView {
        let gone = hs.difference(self.rejected);
        BodyView {
            known: self.known.difference(gone),
            pending: self.pending.remove_keys(gone),
            missing: self.missing.union(gone),
            ..self
        }
    }

    /// A rejected hash carries no other mark, and an absent one is neither
    /// archived nor pending.
    pub open spec fn disjoint(self) -> bool {
        &&& forall|h: BlockHash| #[trigger]
            self.rejected.contains(h) ==> !self.known.contains(h) && !self.pending.contains_key(h)
                && !self.missing.contains(h)
        &&& forall|h: BlockHash| #[trigger]
            self.missing.contains(h) ==> !self.known.contains(h) && !self.pending.contains_key(h)
    }
}

/// Process-local body presence cache.
///
/// `pending` covers the gap from wire to confirm: getdata inflight is cleared on
/// receipt, but the hash must not be requested again until the tip advances or
/// the mark goes stale. `rejected` is final: never re-offered, never re-requested.
pub struct BodyPresence {
    known: KeySet<BlockHash>,
    pending_since: KeyMap<BlockHash, u64>,
    missing: KeySet<BlockHash>,
    rejected: KeySet<BlockHash>,
}

impl View for BodyPresence {
    type V = BodyView;

    closed spec fn view(&self) -> BodyView {
        BodyView {
            known: self.known@,
            pending: self.pending_since@,
            missing: self.missing@,
            rejected: self.rejected@,
        }
    }
}

impl BodyPresence {
    /// Nothing known yet.
    pub fn new() -> (r: Self)
        ensures
            r@ == BodyView::blank(),
    {
        BodyPresence {
            known: KeySet::new(),
            pending_since: KeyMap::new(),
            missing: KeySet::new(),
            rejected: KeySet::new(),
        }
    }

    /// Wire of `h` received. A first mark keeps its time.
    pub fn mark_pending(&mut self, h: BlockHash, now_ms: u64)
        ensures
            final(self)@ == old(self)@.with_pending(h, now_ms),
    {
        if self.rejected.contains(&h) {
            return;
        }
        self.missing.remove(&h);
        if !self.pending_since.contains_key(&h) {
            self.pending_since.insert(h, now_ms);
        }
    }

    /// Body of `h` is archived.
    pub fn mark_archived(&mut self, h: BlockHash)
        ensures
            final(self)@ == old(self)@.with_archived(h),
    {
        if self.rejected.contains(&h) {
            return;
        }
        self.missing.remove(&h);
        self.pending_since.remove(&h);
        self.known.insert(h);
    }

    /// Body of `h` is absent.
    pub fn mark_missing(&mut self, h: BlockHash)
        ensures
            final(self)@ == old(self)@.with_missing(h),
    {
        if self.rejected.contains(&h) {
            return;
        }
        self.known.remove(&h);
        self.pending_since.remove(&h);
        self.missing.insert(h);
    }

    /// Drop only the archived mark.
    pub fn demote_known(&mut self, h: BlockHash)
        ensures
            final(self)@ == old(self)@.without_known(h),
    {
        self.known.remove(&h);
    }

    /// Permanent confirm failure: never re-offered and never re-requested.
    pub fn mark_rejected(&mut self, h: BlockHash)
        ensures
            final(self)@ == old(self)@.with_rejected(h),
    {
        self.known.remove(&h);
        self.pending_since.remove(&h);
        self.missing.remove(&h);
        self.rejected.insert(h);
    }

    /// Pending hashes that `pred` picks and that are at least `max_age_ms` old
    /// become missing; they are handed back.
    pub fn expire_stale_pending_if<F: Fn(&BlockHash) -> bool>(
        &mut self,
        now_ms: u64,
        max_age_ms: u64,
        pred: F,
    ) -> (stale: Vec<BlockHash>)
        requires
            forall|h: BlockHash| #[trigger] call_requires(pred, (&h,)),
        ensures
            stale@.no_duplicates(),
            forall|h: BlockHash| #[trigger]
                stale@.contains(h) ==> old(self)@.pending.contains_key(h) && sat_sub(
                    now_ms,
                    old(self)@.pending[h],
                ) >= max_age_ms && call_ensures(pred, (&h,), true),
            forall|h: BlockHash| #[trigger]
                old(self)@.pending.contains_key(h) && !stale@.contains(h) ==> sat_sub(
                    now_ms,
                    old(self)@.pending[h],
                ) < max_age_ms || call_ensures(pred, (&h,), false),
            final(self)@ == old(self)@.with_all_missing(stale@),
    {
        let keys = self.pending_since.keys();
        let mut stale: Vec<BlockHash> = Vec::new();
        let mut i: usize = 0;
        let ghost before = self@;
        while i < keys.len()
            invariant
                i <= keys@.len(),
                keys@.no_duplicates(),
                keys@.to_set() == before.pending.dom(),
                self@ == before,
                forall|h: BlockHash| #[trigger] call_requires(pred, (&h,)),
                stale@.no_duplicates(),
                forall|h: BlockHash| #[trigger]
                    stale@.contains(h) ==> exists|j: int| 0 <= j < i && keys@[j] == h,
                forall|h: BlockHash| #[trigger]
                    stale@.contains(h) ==> before.pending.contains_key(h) && sat_sub(
                        now_ms,
                        before.pending[h],
                    ) >= max_age_ms && call_ensures(pred, (&h,), true),
                forall|j: int|
                    0 <= j < i && !stale@.contains(#[trigger] keys@[j]) ==> sat_sub(
                        now_ms,
                        before.pending[keys@[j]],
                    ) < max_age_ms || call_ensures(pred, (&keys@[j],), false),
            decreases keys@.len() - i,
        {
            let h = keys[i];
            assert(keys@.to_set().contains(keys@[i as int]));
            let ghost was = stale@;
            assert(!was.contains(h)) by {
                if was.contains(h) {
                    let j = choose|j: int| 0 <= j < i && keys@[j] == h;
                    assert(keys@[j] != keys@[i as int]);
                }
            }
            let hit = pred(&h);
            let since: u64 = match self.pending_since.get(&h) {
                Some(t) => *t,
                None => now_ms,
            };
            if hit && now_ms.saturating_sub(since) >= max_age_ms {
                stale.push(h);
                assert forall|q: BlockHash| #[trigger] stale@.contains(q) implies was.contains(q)
                    || q == h by {
                    let j = choose|j: int| 0 <= j < stale@.len() && stale@[j] == q;
                    if j < was.len() {
                        assert(was[j] == q);
                    }
                }
                assert forall|q: BlockHash| was.contains(q) || q == h implies #[trigger]
                stale@.contains(q) by {
                    if q == h {
                        assert(stale@[was.len() as int] == h);
                    } else {
                        let j = choose|j: int| 0 <= j < was.len() && was[j] == q;
                        assert(stale@[j] == q);
                    }
                }
            }
            i = i + 1;
        }
        assert forall|h: BlockHash| #[trigger]
            before.pending.contains_key(h) && !stale@.contains(h) implies sat_sub(
            now_ms,
            before.pending[h],
        ) < max_age_ms || call_ensures(pred, (&h,), false) by {
            assert(keys@.to_set().contains(h));
            let j = choose|j: int| 0 <= j < keys@.len() && keys@[j] == h;
            assert(!stale@.contains(keys@[j]));
        }
        let mut k: usize = 0;
        while k < stale.len()
            invariant
                k <= stale@.len(),
                self@ == before.with_all_missing(stale@.take(k as int)),
            decreases stale@.len() - k,
        {
            self.mark_missing(stale[k]);
            k = k + 1;
            assert(stale@.take(k as int).drop_last() =~= stale@.take(k - 1));
        }
        assert(stale@.take(k as int) =~= stale@);
        stale
    }

    /// Refused for good?
    pub fn is_rejected(&self, h: &BlockHash) -> (b: bool)
        ensures
            b == self@.rejected.contains(*h),
    {
        self.rejected.contains(h)
    }

    /// Already known to be archived?
    pub fn is_known_archived(&self, h: &BlockHash) -> (b: bool)
        ensures
            b == self@.known.contains(*h),
    {
        self.known.contains(h)
    }

    /// Number of hashes known to be archived.
    pub fn known_len(&self) -> (n: usize)
        ensures
            n == self@.known.len(),
    {
        self.known.len()
    }

    /// Sizes of the four sets.
    pub fn size_snapshot(&self) -> (r: BodyPresenceSizes)
        ensures
            r.known == self@.known.len(),
            r.pending == self@.pending.dom().len(),
            r.missing == self@.missing.len(),
            r.rejected == self@.rejected.len(),
    {
        BodyPresenceSizes {
            known: self.known.len(),
            pending: self.pending_since.len(),
            missing: self.missing.len(),
            rejected: self.rejected.len(),
        }
    }

    /// Wire received and not yet confirmed?
    pub fn is_pending(&self, h: &BlockHash) -> (b: bool)
        ensures
            b == self@.pending.contains_key(*h),
    {
        self.pending_since.contains_key(h)
    }

    /// Probed and absent?
    pub fn is_missing(&self, h: &BlockHash) -> (b: bool)
        ensures
            b == self@.missing.contains(*h),
    {
        self.missing.contains(h)
    }

    /// Must `h` not be requested? `has_block` is asked only where the local sets
    /// leave it open; a confirmed hash is then remembered as archived.
    ///
    /// The archived mark itself does not stop a request: a re-get after resume
    /// still needs peer wire.
    pub fn skip_download(&mut self, has_block: bool, h: &BlockHash) -> (skip: bool)
        ensures
            skip == old(self)@.skips(*h, has_block),
            final(self)@ == old(self)@.after_skip_probe(*h, has_block),
    {
        if self.rejected.contains(h) || self.pending_since.contains_key(h) {
            return true;
        }
        if self.missing.contains(h) {
            return false;
        }
        if has_block {
            self.known.insert(*h);
            return true;
        }
        false
    }

    /// Drop every known, missing and pending hash that `keep` refuses. Rejected
    /// hashes stay.
    pub fn hygiene_retain<F: Fn(&BlockHash) -> bool>(&mut self, keep: F)
        requires
            forall|h: BlockHash| #[trigger] call_requires(keep, (&h,)),
        ensures
            final(self)@.rejected == old(self)@.rejected,
            kept_by(old(self)@.known, final(self)@.known, keep),
            kept_by(old(self)@.missing, final(self)@.missing, keep),
            kept_by(old(self)@.pending.dom(), final(self)@.pending.dom(), keep),
            final(self)@.pending == old(self)@.pending.restrict(final(self)@.pending.dom()),
    {
        retain_set(&mut self.known, &keep);
        retain_set(&mut self.missing, &keep);
        let keys = self.pending_since.keys();
        let ghost before = self.pending_since@;
        let ghost rest = (self.known@, self.missing@, self.rejected@);
        let ghost mut gone: Set<BlockHash> = Set::empty();
        let mut i: usize = 0;
        while i < keys.len()
            invariant
                i <= keys@.len(),
                keys@.no_duplicates(),
                keys@.to_set() == before.dom(),
                forall|h: BlockHash| #[trigger] call_requires(keep, (&h,)),
                self.pending_since@ == before.remove_keys(gone),
                rest == (self.known@, self.missing@, self.rejected@),
                forall|h: BlockHash| #[trigger]
                    gone.contains(h) ==> call_ensures(keep, (&h,), false),
                forall|j: int|
                    0 <= j < i && !gone.contains(#[trigger] keys@[j]) ==> call_ensures(
                        keep,
                        (&keys@[j],),
                        true,
                    ),
            decreases keys@.len() - i,
        {
            let h = keys[i];
            if !keep(&h) {
                self.pending_since.remove(&h);
                proof {
                    assert(before.remove_keys(gone).remove(h) =~= before.remove_keys(
                        gone.insert(h),
                    ));
                    gone = gone.insert(h);
                }
            }
            i = i + 1;
        }
        proof {
            assert forall|h: BlockHash|
                before.dom().contains(h) && !gone.contains(h) implies #[trigger] call_ensures(
                keep,
                (&h,),
                true,
            ) by {
                assert(keys@.to_set().contains(h));
                let j = choose|j: int| 0 <= j < keys@.len() && keys@[j] == h;
            }
            assert(self.pending_since@ =~= before.restrict(self.pending_since@.dom()));
        }
    }
}

/// `after` is `before` without exactly those members that `keep` refused.
pub open spec fn kept_by<F: Fn(&BlockHash) -> bool>(
    before: Set<BlockHash>,
    after: Set<BlockHash>,
    keep: F,
) -> bool {
    &&& after.subset_of(before)
    &&& forall|h: BlockHash| #[trigger] after.contains(h) ==> call_ensures(keep, (&h,), true)
    &&& forall|h: BlockHash| #[trigger]
        before.contains(h) && !after.contains(h) ==> call_ensures(keep, (&h,), false)
}

fn retain_set<F: Fn(&BlockHash) -> bool>(s: &mut KeySet<BlockHash>, keep: &F)
    requires
        forall|h: BlockHash| #[trigger] call_requires(*keep, (&h,)),
    ensures
        kept_by(old(s)@, final(s)@, *keep),
{
    let items = s.members();
    let ghost before = s@;
    let ghost mut gone: Set<BlockHash> = Set::empty();
    let mut i: usize = 0;
    while i < items.len()
        invariant
            i <= items@.len(),
            items@.to_set() == before,
            forall|h: BlockHash| #[trigger] call_requires(*keep, (&h,)),
            s@ == before.difference(gone),
            forall|h: BlockHash| #[trigger] gone.contains(h) ==> call_ensures(*keep, (&h,), false),
            forall|j: int|
                0 <= j < i && !gone.contains(#[trigger] items@[j]) ==> call_ensures(
                    *keep,
                    (&items@[j],),
                    true,
                ),
        decreases items@.len() - i,
    {
        let h = items[i];
        if !keep(&h) {
            s.remove(&h);
            proof {
                assert(before.difference(gone).remove(h) =~= before.difference(gone.insert(h)));
                gone = gone.insert(h);
            }
        }
        i = i + 1;
    }
    assert forall|h: BlockHash| #[trigger] s@.contains(h) implies call_ensures(*keep, (&h,), true) by {
        assert(items@.to_set().contains(h));
        let j = choose|j: int| 0 <= j < items@.len() && items@[j] == h;
        assert(!gone.contains(items@[j]));
    }
}

/// The order in which hashes are found absent does not matter.
pub proof fn lemma_all_missing(v: BodyView, hs: Seq<BlockHash>)
    ensures
        v.with_all_missing(hs) == v.with_set_missing(hs.to_set()),
    decreases hs.len(),
{
    if hs.len() == 0 {
        assert(hs.to_set() =~= Set::<BlockHash>::empty());
        assert(v.with_set_missing(hs.to_set()) =~= v);
    } else {
        let init = hs.drop_last();
        lemma_all_missing(v, init);
        assert(hs =~= init.push(hs.last()));
        init.lemma_push_to_set_commute(hs.last());
        assert(v.with_all_missing(hs) =~= v.with_set_missing(hs.to_set()));
    }
}

/// Once rejected, a hash stays rejected through every mark, and no mark brings
/// it back as archived, pending or missing: it is never requested again.
pub proof fn law_rejected_is_final(v: BodyView, h: BlockHash, other: BlockHash, now_ms: u64, has_block: bool)
    requires
        v.disjoint(),
        v.rejected.contains(h),
    ensures
        v.with_pending(other, now_ms).rejected.contains(h),
        v.with_archived(other).rejected.contains(h),
        v.with_missing(other).rejected.contains(h),
        v.without_known(other).rejected.contains(h),
        v.with_rejected(other).rejected.contains(h),
        v.after_skip_probe(other, has_block).rejected.contains(h),
        v.skips(h, has_block),
        v.with_pending(h, now_ms) == v,
        v.with_archived(h) == v,
        v.with_missing(h) == v,
{
}

/// Every mark keeps the sets apart: rejected from all others, missing from
/// archived and pending.
pub proof fn law_marks_keep_disjoint(v: BodyView, h: BlockHash, now_ms: u64, has_block: bool)
    requires
        v.disjoint(),
    ensures
        BodyView::blank().disjoint(),
        v.with_pending(h, now_ms).disjoint(),
        v.with_archived(h).disjoint(),
        v.with_missing(h).disjoint(),
        v.without_known(h).disjoint(),
        v.with_rejected(h).disjoint(),
        v.after_skip_probe(h, has_block).disjoint(),
{
}

} // verus!

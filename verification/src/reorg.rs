//! Bookkeeping of competing branches: what is awaited, explored, held, invalid.
use vstd::prelude::*;
use crate::hash::BlockHash;
use crate::keyed::{KeyMap, KeySet};

verus! {

/// A branch whose tip body is held while mid bodies are still to be fetched.
pub struct Awaiting {
    pub held: BlockHash,
    pub need: Vec<BlockHash>,
}

/// Competing-branch state.
pub struct ReorgState {
    pub awaiting: Option<Awaiting>,
    /// Bodies wanted for speculative exploration, oldest first.
    pub explore_need: Vec<BlockHash>,
    /// Header tips of branches under exploration, oldest first.
    pub explore_tips: Vec<BlockHash>,
    /// Side-branch bodies held by hash, as they came.
    pub held: KeyMap<BlockHash, Vec<u8>>,
    /// Hashes that failed a consensus rule.
    pub invalid: KeySet<BlockHash>,
}

/// [`ReorgState`] as values.
#[verifier::ext_equal]
pub struct ReorgView {
    pub awaiting: Option<(BlockHash, Seq<BlockHash>)>,
    pub explore_need: Seq<BlockHash>,
    pub explore_tips: Seq<BlockHash>,
    pub held: Map<BlockHash, Seq<u8>>,
    pub invalid: Set<BlockHash>,
}

impl View for ReorgState {
    type V = ReorgView;

    open spec fn view(&self) -> ReorgView {
        ReorgView {
            awaiting: match self.awaiting {
                Some(a) => Some((a.held, a.need@)),
                None => None,
            },
            explore_need: self.explore_need@,
            explore_tips: self.explore_tips@,
            held: self.held@.map_values(|p: Vec<u8>| p@),
            invalid: self.invalid@,
        }
    }
}

/// `acc` followed by each hash of `more` that is not listed yet and not in `skip`.
pub open spec fn joined(
    acc: Seq<BlockHash>,
    more: Seq<BlockHash>,
    skip: Set<BlockHash>,
) -> Seq<BlockHash>
    decreases more.len(),
{
    if more.len() == 0 {
        acc
    } else {
        let next = if acc.contains(more[0]) || skip.contains(more[0]) {
            acc
        } else {
            acc.push(more[0])
        };
        joined(next, more.drop_first(), skip)
    }
}

impl ReorgView {
    /// No competing branch.
    pub open spec fn blank() -> ReorgView {
        ReorgView {
            awaiting: None,
            explore_need: Seq::empty(),
            explore_tips: Seq::empty(),
            held: Map::empty(),
            invalid: Set::empty(),
        }
    }

    /// Bodies the awaited branch still lacks.
    pub open spec fn awaiting_need(self) -> Seq<BlockHash> {
        match self.awaiting {
            Some(a) => joined(Seq::empty(), a.1, self.held.dom()),
            None => Seq::empty(),
        }
    }

    /// Bodies to fetch: the awaited branch first, then exploration.
    pub open spec fn need(self) -> Seq<BlockHash> {
        joined(self.awaiting_need(), self.explore_need, self.held.dom())
    }

    /// Is `h` the held tip of the awaited branch?
    pub open spec fn awaits_held(self, h: BlockHash) -> bool {
        match self.awaiting {
            Some(a) => a.0 == h,
            None => false,
        }
    }

    /// A branch registered for exploration.
    pub open spec fn with_explore(self, need: Seq<BlockHash>, tip: Option<BlockHash>) -> ReorgView {
        ReorgView {
            explore_need: joined(self.explore_need, need, Set::empty()),
            explore_tips: match tip {
                Some(t) => joined(self.explore_tips, seq![t], Set::empty()),
                None => self.explore_tips,
            },
            ..self
        }
    }

    /// Exploration dropped.
    pub open spec fn without_explore(self) -> ReorgView {
        ReorgView { explore_need: Seq::empty(), explore_tips: Seq::empty(), ..self }
    }
}

/// Is `h` listed?
pub fn lists(v: &Vec<BlockHash>, h: &BlockHash) -> (b: bool)
    ensures
        b == v@.contains(*h),
{
    let mut i: usize = 0;
    while i < v.len()
        invariant
            i <= v@.len(),
            forall|j: int| 0 <= j < i ==> #[trigger] v@[j] != *h,
        decreases v@.len() - i,
    {
        if v[i] == *h {
            assert(v@[i as int] == *h);
            return true;
        }
        i = i + 1;
    }
    false
}

/// Append each hash of `more` that is not listed yet and not a key of `skip`.
fn join_into(acc: &mut Vec<BlockHash>, more: &Vec<BlockHash>, skip: &KeyMap<BlockHash, Vec<u8>>)
    ensures
        final(acc)@ == joined(old(acc)@, more@, skip@.dom()),
{
    let mut i: usize = 0;
    assert(more@.skip(0) =~= more@);
    while i < more.len()
        invariant
            i <= more@.len(),
            joined(acc@, more@.skip(i as int), skip@.dom()) == joined(
                old(acc)@,
                more@,
                skip@.dom(),
            ),
        decreases more@.len() - i,
    {
        let h = more[i];
        let ghost rest = more@.skip(i as int);
        assert(rest[0] == h);
        assert(rest.drop_first() =~= more@.skip(i + 1));
        if !lists(acc, &h) && !skip.contains_key(&h) {
            acc.push(h);
        }
        i = i + 1;
    }
}

impl ReorgState {
    /// No competing branch.
    pub fn new() -> (r: Self)
        ensures
            r@ == ReorgView::blank(),
    {
        ReorgState {
            awaiting: None,
            explore_need: Vec::new(),
            explore_tips: Vec::new(),
            held: KeyMap::new(),
            invalid: KeySet::new(),
        }
    }

    /// Bodies the awaited branch still lacks.
    pub fn awaiting_need_getdata(&self) -> (r: Vec<BlockHash>)
        ensures
            r@ == self@.awaiting_need(),
    {
        let mut out: Vec<BlockHash> = Vec::new();
        assert(self.held@.dom() =~= self@.held.dom());
        if let Some(a) = &self.awaiting {
            join_into(&mut out, &a.need, &self.held);
        }
        out
    }

    /// Bodies to fetch: the awaited branch first, then exploration.
    pub fn need_getdata(&self) -> (r: Vec<BlockHash>)
        ensures
            r@ == self@.need(),
    {
        let mut out = self.awaiting_need_getdata();
        assert(self.held@.dom() =~= self@.held.dom());
        join_into(&mut out, &self.explore_need, &self.held);
        out
    }

    /// Is `h` the held tip of the awaited branch?
    pub fn is_awaiting_held_tip(&self, h: &BlockHash) -> (b: bool)
        ensures
            b == self@.awaits_held(*h),
    {
        match &self.awaiting {
            Some(a) => a.held == *h,
            None => false,
        }
    }

    /// Hold `held` and wait for the bodies of `need`.
    pub fn set_awaiting(&mut self, held: BlockHash, need: Vec<BlockHash>)
        ensures
            final(self)@ == (ReorgView { awaiting: Some((held, need@)), ..old(self)@ }),
    {
        self.awaiting = Some(Awaiting { held, need });
    }

    /// Explore a branch: bodies wanted, and its header tip where known.
    pub fn register_explore(&mut self, need: &Vec<BlockHash>, tip: Option<BlockHash>)
        ensures
            final(self)@ == old(self)@.with_explore(need@, tip),
    {
        let none: KeyMap<BlockHash, Vec<u8>> = KeyMap::new();
        assert(none@.dom() =~= Set::empty());
        join_into(&mut self.explore_need, need, &none);
        if let Some(t) = tip {
            let mut one: Vec<BlockHash> = Vec::new();
            one.push(t);
            assert(one@ =~= seq![t]);
            join_into(&mut self.explore_tips, &one, &none);
        }
    }

    /// Drop exploration.
    pub fn clear_explore(&mut self)
        ensures
            final(self)@ == old(self)@.without_explore(),
    {
        self.explore_need = Vec::new();
        self.explore_tips = Vec::new();
    }

    /// Keep a side-branch body by hash.
    pub fn hold_body(&mut self, h: BlockHash, payload: Vec<u8>)
        ensures
            final(self)@ == (ReorgView { held: old(self)@.held.insert(h, payload@), ..old(self)@ }),
    {
        let ghost before = self@.held;
        self.held.insert(h, payload);
        assert(self@.held =~= before.insert(h, payload@));
    }

    /// The side-branch body held under `h`.
    pub fn get_held(&self, h: &BlockHash) -> (r: Option<&Vec<u8>>)
        ensures
            match r {
                Some(p) => self@.held.contains_key(*h) && p@ == self@.held[*h],
                None => !self@.held.contains_key(*h),
            },
    {
        self.held.get(h)
    }
}

} // verus!

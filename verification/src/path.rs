//! Ordered work-path seeding and header locator tips.
use vstd::prelude::*;
use crate::chain::{larger, max32, sat_add32, ChainHub, ChainTip, HubView};
use crate::hash::BlockHash;
use crate::keyed::keys_of;
use crate::order::sort_items;
use crate::reorg::lists;
use crate::state::{IbdWorkState, WorkView};

verus! {

/// One header of the stored path above the tip (or of a heavier sibling path).
#[derive(Clone, Copy, Debug, PartialEq, Eq, Structural)]
pub struct PathEntry {
    pub hash: BlockHash,
    pub height: u32,
    pub header_fk: u64,
    /// Is the body archived?
    pub has_body: bool,
}

/// What a seeding still asks for.
#[derive(Clone, Copy, Debug, PartialEq, Eq, Structural)]
pub enum SeedStep {
    /// Nothing more to do.
    Done,
    /// The stored path forks off below the tip: see whether to rewind to it, then
    /// go on with [`resume_seed`].
    AskRewind,
}

impl WorkView {
    /// Neither invalid nor rejected.
    pub open spec fn sound(self, h: BlockHash) -> bool {
        !self.reorg.invalid.contains(h) && !self.body.rejected.contains(h)
    }

    /// `h` appended to the ordered path unless it is on it.
    pub open spec fn with_ordered(self, h: BlockHash) -> WorkView {
        if self.ordered_set.contains(h) {
            self
        } else {
            WorkView {
                ordered: self.ordered.push(h),
                ordered_set: self.ordered_set.insert(h),
                ..self
            }
        }
    }
}

fn is_sound(st: &IbdWorkState, h: &BlockHash) -> (b: bool)
    ensures
        b == st@.sound(*h),
{
    !st.reorg.invalid.contains(h) && !st.body.is_rejected(h)
}

/// Append `h` to the ordered path unless it is on it.
pub fn push_ordered(st: &mut IbdWorkState, h: BlockHash)
    ensures
        final(st)@ == old(st)@.with_ordered(h),
{
    if st.ordered_set.insert(h) {
        st.ordered.push_back(h);
    } else {
        assert(st.ordered_set@ =~= old(st).ordered_set@);
    }
}

/// Noting stored headers under way.
#[verifier::ext_equal]
pub struct Noted {
    pub st: WorkView,
    /// Does the path fork off below the tip?
    pub fork: bool,
    /// Bodies to explore on the fork.
    pub need: Seq<BlockHash>,
}

/// One stored header noted: known, with its height and row. A header at or below
/// the tip that is not the tip makes the path a fork, whose missing bodies are
/// wanted: all of those at or below the tip, and more above it up to four.
pub open spec fn note_step(n: Noted, e: PathEntry, tip: ChainTip) -> Noted {
    let fork_here = e.height <= tip.height && e.hash != tip.hash;
    Noted {
        st: WorkView {
            known_headers: n.st.known_headers.insert(e.hash),
            hash_height: n.st.hash_height.insert(e.hash, e.height),
            header_fks: n.st.header_fks.insert(e.hash, e.header_fk),
            ..n.st
        },
        fork: n.fork || fork_here,
        need: if !e.has_body && (fork_here || n.fork && n.need.len() < 4) {
            n.need.push(e.hash)
        } else {
            n.need
        },
    }
}

/// The headers of `path` from `i` on noted, up to the first invalid one.
pub open spec fn note_from(n: Noted, path: Seq<PathEntry>, i: int, tip: ChainTip) -> Noted
    decreases path.len() - i,
{
    if i >= path.len() || n.st.reorg.invalid.contains(path[i].hash) {
        n
    } else {
        note_from(note_step(n, path[i], tip), path, i + 1, tip)
    }
}

/// The last header of `path` that is not invalid.
pub open spec fn last_valid(path: Seq<PathEntry>, invalid: Set<BlockHash>) -> Option<BlockHash>
    decreases path.len(),
{
    if path.len() == 0 {
        None
    } else if !invalid.contains(path.last().hash) {
        Some(path.last().hash)
    } else {
        last_valid(path.drop_last(), invalid)
    }
}

/// All of `path` noted.
pub open spec fn noted(v: WorkView, path: Seq<PathEntry>, tip: ChainTip) -> Noted {
    note_from(Noted { st: v, fork: false, need: Seq::empty() }, path, 0, tip)
}

/// The state once `path` is noted and, where it forks, registered for
/// exploration.
pub open spec fn path_noted(v: WorkView, path: Seq<PathEntry>, tip: ChainTip) -> WorkView {
    let n = noted(v, path, tip);
    if n.fork {
        WorkView {
            reorg: n.st.reorg.with_explore(n.need, last_valid(path, n.st.reorg.invalid)),
            ..n.st
        }
    } else {
        n.st
    }
}

fn find_last_valid(st: &IbdWorkState, path: &Vec<PathEntry>) -> (r: Option<BlockHash>)
    ensures
        r == last_valid(path@, st@.reorg.invalid),
{
    let mut n: usize = path.len();
    assert(path@.take(n as int) =~= path@);
    while n > 0
        invariant
            n <= path@.len(),
            last_valid(path@, st@.reorg.invalid) == last_valid(
                path@.take(n as int),
                st@.reorg.invalid,
            ),
        decreases n,
    {
        let e = path[n - 1];
        assert(path@.take(n as int).last() == e);
        assert(path@.take(n as int).drop_last() =~= path@.take(n - 1));
        if !st.reorg.invalid.contains(&e.hash) {
            return Some(e.hash);
        }
        n = n - 1;
    }
    None
}

fn note_path(st: &mut IbdWorkState, path: &Vec<PathEntry>, tip: ChainTip) -> (fork: bool)
    ensures
        final(st)@ == path_noted(old(st)@, path@, tip),
        fork == noted(old(st)@, path@, tip).fork,
{
    let ghost all = noted(st@, path@, tip);
    let mut fork = false;
    let mut need: Vec<BlockHash> = Vec::new();
    let mut i: usize = 0;
    let mut going = true;
    assert(need@ =~= Seq::<BlockHash>::empty());
    while going && i < path.len()
        invariant
            i <= path@.len(),
            going ==> note_from(Noted { st: st@, fork, need: need@ }, path@, i as int, tip) == all,
            !going ==> (Noted { st: st@, fork, need: need@ }) == all,
        decreases path@.len() - i, (if going { 1int } else { 0int }),
    {
        let e = path[i];
        if st.reorg.invalid.contains(&e.hash) {
            going = false;
        } else {
            st.known_headers.insert(e.hash);
            st.hash_height.insert(e.hash, e.height);
            st.header_fks.insert(e.hash, e.header_fk);
            if e.height <= tip.height && e.hash != tip.hash {
                fork = true;
                if !e.has_body {
                    need.push(e.hash);
                }
            } else if fork && !e.has_body && need.len() < 4 {
                need.push(e.hash);
            }
            i = i + 1;
        }
    }
    if fork {
        let explore_tip = find_last_valid(st, path);
        st.reorg.register_explore(&need, explore_tip);
    }
    fork
}

/// Planting stored headers under way.
#[verifier::ext_equal]
pub struct Planting {
    pub st: WorkView,
    /// Highest height of the archived prefix so far.
    pub ready_to: u32,
    /// Still inside the archived prefix?
    pub prefix: bool,
}

/// The parent that a stored header at `height` is taken to have: the path
/// occupant below it, else the tip right below it.
pub open spec fn assumed_parent(v: WorkView, height: u32, tip: Option<ChainTip>) -> BlockHash {
    if height == 0 {
        BlockHash::spec_zero()
    } else if v.height_to_hash.contains_key((height - 1) as u32) {
        v.height_to_hash[(height - 1) as u32]
    } else if tip is Some && height == sat_add32(tip->0.height, 1) {
        tip->0.hash
    } else {
        BlockHash::spec_zero()
    }
}

/// `h` tried for the path slot at `height` and, where it holds it, ordered.
pub open spec fn slotted(v: WorkView, h: BlockHash, height: u32, prev: BlockHash, tip: Option<ChainTip>) -> WorkView {
    let w = v.with_slot_try(h, height, prev, tip);
    let x = WorkView { max_ordered_height: max32(w.max_ordered_height, height), ..w };
    if v.takes_slot(h, height, prev, tip) {
        x.with_ordered(h)
    } else {
        x
    }
}

fn slot_header(st: &mut IbdWorkState, h: BlockHash, height: u32, prev: BlockHash, tip: Option<ChainTip>)
    ensures
        final(st)@ == slotted(old(st)@, h, height, prev, tip),
{
    let on_path = st.try_set_path_slot(h, height, prev, tip);
    st.max_ordered_height = larger(st.max_ordered_height, height);
    if on_path {
        push_ordered(st, h);
    }
}

/// One stored header planted.
pub open spec fn plant_step(p: Planting, e: PathEntry, tip: Option<ChainTip>) -> Planting {
    let v = slotted(p.st, e.hash, e.height, assumed_parent(p.st, e.height, tip), tip);
    if e.has_body {
        Planting {
            st: WorkView { body: v.body.with_archived(e.hash), ..v },
            ready_to: if p.prefix {
                e.height
            } else {
                p.ready_to
            },
            prefix: p.prefix,
        }
    } else {
        Planting { st: v, ready_to: p.ready_to, prefix: false }
    }
}

/// The headers of `path` from `i` on planted, up to the first invalid one.
pub open spec fn plant_from(p: Planting, path: Seq<PathEntry>, i: int, tip: Option<ChainTip>) -> Planting
    decreases path.len() - i,
{
    if i >= path.len() || p.st.reorg.invalid.contains(path[i].hash) {
        p
    } else {
        plant_from(plant_step(p, path[i], tip), path, i + 1, tip)
    }
}

/// All of `path` planted on the work path; the ready height covers the archived
/// prefix, and headers are left open for the peers' tip.
pub open spec fn path_planted(v: WorkView, path: Seq<PathEntry>, hub: HubView) -> WorkView {
    let p = plant_from(
        Planting { st: v, ready_to: hub.tip_or_zero(), prefix: true },
        path,
        0,
        hub.tip,
    );
    WorkView {
        max_ready_height: max32(p.st.max_ready_height, p.ready_to),
        headers_done: false,
        ..p.st
    }
}

fn plant_path(st: &mut IbdWorkState, path: &Vec<PathEntry>, hub: &ChainHub)
    ensures
        final(st)@ == path_planted(old(st)@, path@, hub@),
{
    let tip = hub.tip;
    let mut ready_to: u32 = hub.tip_or_zero();
    let mut prefix = true;
    let ghost all = plant_from(Planting { st: st@, ready_to, prefix }, path@, 0, tip);
    let mut i: usize = 0;
    let mut going = true;
    while going && i < path.len()
        invariant
            i <= path@.len(),
            tip == hub@.tip,
            going ==> plant_from(Planting { st: st@, ready_to, prefix }, path@, i as int, tip)
                == all,
            !going ==> (Planting { st: st@, ready_to, prefix }) == all,
        decreases path@.len() - i, (if going { 1int } else { 0int }),
    {
        let e = path[i];
        if st.reorg.invalid.contains(&e.hash) {
            going = false;
        } else {
            let prev = if e.height == 0 {
                BlockHash::zero()
            } else {
                match st.height_to_hash.get(&(e.height - 1)) {
                    Some(p) => *p,
                    None => match tip {
                        Some(t) => if e.height == t.height.saturating_add(1) {
                            t.hash
                        } else {
                            BlockHash::zero()
                        },
                        None => BlockHash::zero(),
                    },
                }
            };
            slot_header(st, e.hash, e.height, prev, tip);
            if e.has_body {
                st.body.mark_archived(e.hash);
                if prefix {
                    ready_to = e.height;
                }
            } else {
                prefix = false;
            }
            i = i + 1;
        }
    }
    st.max_ready_height = larger(st.max_ready_height, ready_to);
    st.headers_done = false;
}

/// Is `c` a sound header at `height` whose parent is `parent`?
pub open spec fn is_child(v: WorkView, hub: HubView, c: BlockHash, height: u32, parent: BlockHash) -> bool {
    &&& v.hash_height.contains_key(c)
    &&& v.hash_height[c] == height
    &&& v.sound(c)
    &&& hub.parents.contains_key(c)
    &&& hub.parents[c] == parent
}

/// May `n` be looked at next for `height`? The path occupant there, or else any
/// header known at that height.
pub open spec fn next_at(v: WorkView, height: u32, n: BlockHash) -> bool {
    if v.height_to_hash.contains_key(height) {
        v.height_to_hash[height] == n
    } else {
        v.hash_height.contains_key(n) && v.hash_height[n] == height
    }
}

/// One header of the chain above the tip planted.
pub open spec fn chain_step(v: WorkView, cur: BlockHash, height: u32, prev: BlockHash, tip: Option<ChainTip>) -> WorkView {
    let w = slotted(v, cur, height, prev, tip);
    WorkView { known_headers: w.known_headers.insert(cur), ..w }
}

/// May planting the chain from `cur` on end in `out`? Each next header must have
/// the one before it as parent; among several headers at a height any may be
/// looked at.
pub open spec fn chain_planted(
    v: WorkView,
    hub: HubView,
    cur: BlockHash,
    height: u32,
    prev: BlockHash,
    fuel: nat,
    out: WorkView,
) -> bool
    decreases fuel,
{
    if fuel == 0 || !v.sound(cur) {
        out == v
    } else {
        let w = chain_step(v, cur, height, prev, hub.tip);
        let up = sat_add32(height, 1);
        ||| (forall|n: BlockHash| !(#[trigger] next_at(w, up, n))) && out == w
        ||| exists|n: BlockHash| #[trigger]
            next_at(w, up, n) && (if hub.parents.contains_key(n) && hub.parents[n] == cur {
                chain_planted(w, hub, n, up, cur, (fuel - 1) as nat, out)
            } else {
                out == w
            })
    }
}

/// Is the slot right above the tip held by a sound header?
pub open spec fn tip_child_sound(v: WorkView, tip: ChainTip) -> bool {
    let up = sat_add32(tip.height, 1);
    v.height_to_hash.contains_key(up) && v.sound(v.height_to_hash[up])
}

/// May planting a valid child of the tip end in `out`? Nothing happens without a
/// tip, with a sound header right above it, or without a sound child.
pub open spec fn tip_child_planted(v: WorkView, hub: HubView, max: nat, out: WorkView) -> bool {
    match hub.tip {
        None => out == v,
        Some(tip) => {
            let up = sat_add32(tip.height, 1);
            if tip_child_sound(v, tip) {
                out == v
            } else {
                ||| (forall|c: BlockHash| !(#[trigger] is_child(v, hub, c, up, tip.hash))) && out
                    == v
                ||| exists|c: BlockHash| #[trigger]
                    is_child(v, hub, c, up, tip.hash) && chain_planted(
                        v,
                        hub,
                        c,
                        up,
                        tip.hash,
                        max,
                        out,
                    )
            }
        },
    }
}

fn find_child(st: &IbdWorkState, hub: &ChainHub, height: u32, parent: BlockHash) -> (r: Option<BlockHash>)
    ensures
        match r {
            Some(c) => is_child(st@, hub@, c, height, parent),
            None => forall|c: BlockHash| !(#[trigger] is_child(st@, hub@, c, height, parent)),
        },
{
    let keys = st.hash_height.keys();
    let mut i: usize = 0;
    while i < keys.len()
        invariant
            i <= keys@.len(),
            keys@.to_set() == st@.hash_height.dom(),
            forall|j: int|
                0 <= j < i ==> !is_child(st@, hub@, #[trigger] keys@[j], height, parent),
        decreases keys@.len() - i,
    {
        let h = keys[i];
        let at = match st.hash_height.get(&h) {
            Some(x) => *x == height,
            None => false,
        };
        if at && is_sound(st, &h) {
            if let Some(p) = hub.parent_hash_of(&h) {
                if p == parent {
                    return Some(h);
                }
            }
        }
        i = i + 1;
    }
    proof {
        assert forall|c: BlockHash| !(#[trigger] is_child(st@, hub@, c, height, parent)) by {
            if is_child(st@, hub@, c, height, parent) {
                assert(keys@.to_set().contains(c));
                let j = choose|j: int| 0 <= j < keys@.len() && keys@[j] == c;
                assert(!is_child(st@, hub@, keys@[j], height, parent));
            }
        }
    }
    None
}

fn find_next_at(st: &IbdWorkState, height: u32) -> (r: Option<BlockHash>)
    ensures
        match r {
            Some(n) => next_at(st@, height, n),
            None => forall|n: BlockHash| !(#[trigger] next_at(st@, height, n)),
        },
{
    if let Some(h) = st.height_to_hash.get(&height) {
        return Some(*h);
    }
    let keys = st.hash_height.keys();
    let mut i: usize = 0;
    while i < keys.len()
        invariant
            i <= keys@.len(),
            !st@.height_to_hash.contains_key(height),
            keys@.to_set() == st@.hash_height.dom(),
            forall|j: int| 0 <= j < i ==> !next_at(st@, height, #[trigger] keys@[j]),
        decreases keys@.len() - i,
    {
        let h = keys[i];
        assert(keys@.to_set().contains(keys@[i as int]));
        if let Some(x) = st.hash_height.get(&h) {
            if *x == height {
                return Some(h);
            }
        }
        i = i + 1;
    }
    proof {
        assert forall|n: BlockHash| !(#[trigger] next_at(st@, height, n)) by {
            if next_at(st@, height, n) {
                assert(keys@.to_set().contains(n));
                let j = choose|j: int| 0 <= j < keys@.len() && keys@[j] == n;
                assert(!next_at(st@, height, keys@[j]));
            }
        }
    }
    None
}

fn plant_chain(st: &mut IbdWorkState, hub: &ChainHub, child: BlockHash, height: u32, parent: BlockHash, max: usize)
    ensures
        chain_planted(old(st)@, hub@, child, height, parent, max as nat, final(st)@),
{
    let tip = hub.tip;
    let ghost start = st@;
    let mut prev = parent;
    let mut cur = child;
    let mut ht: u32 = height;
    let mut fuel: usize = max;
    while fuel > 0
        invariant
            tip == hub@.tip,
            start == old(st)@,
            forall|out: WorkView| #[trigger]
                chain_planted(st@, hub@, cur, ht, prev, fuel as nat, out) ==> chain_planted(
                    start,
                    hub@,
                    child,
                    height,
                    parent,
                    max as nat,
                    out,
                ),
        decreases fuel,
    {
        if !is_sound(st, &cur) {
            assert(chain_planted(st@, hub@, cur, ht, prev, fuel as nat, st@));
            return;
        }
        let ghost v = st@;
        let ghost was = (cur, ht, prev, fuel as nat);
        slot_header(st, cur, ht, prev, tip);
        st.known_headers.insert(cur);
        assert(st@ == chain_step(v, cur, ht, prev, tip));
        prev = cur;
        ht = ht.saturating_add(1);
        fuel = fuel - 1;
        let n = match find_next_at(st, ht) {
            Some(n) => n,
            None => {
                assert(chain_planted(v, hub@, was.0, was.1, was.2, was.3, st@));
                return;
            },
        };
        let linked = match hub.parent_hash_of(&n) {
            Some(p) => p == cur,
            None => false,
        };
        assert(next_at(st@, ht, n));
        if !linked {
            assert(chain_planted(v, hub@, was.0, was.1, was.2, was.3, st@));
            return;
        }
        proof {
            assert forall|out: WorkView| #[trigger]
                chain_planted(st@, hub@, n, ht, prev, fuel as nat, out) implies chain_planted(
                start,
                hub@,
                child,
                height,
                parent,
                max as nat,
                out,
            ) by {
                assert(chain_planted(v, hub@, was.0, was.1, was.2, was.3, out));
            }
        }
        cur = n;
    }
    assert(chain_planted(st@, hub@, cur, ht, prev, fuel as nat, st@));
}

/// If the slot right above the tip is empty or holds an unsound header, plant a
/// known sound child of the tip and what is known to follow it.
pub fn plant_valid_tip_child(st: &mut IbdWorkState, hub: &ChainHub, max_ordered: usize)
    ensures
        tip_child_planted(old(st)@, hub@, max_ordered as nat, final(st)@),
{
    let tip = match hub.tip {
        Some(t) => t,
        None => {
            return;
        },
    };
    let up: u32 = tip.height.saturating_add(1);
    if let Some(cur) = st.height_to_hash.get(&up) {
        if is_sound(st, cur) {
            return;
        }
    }
    if let Some(c) = find_child(st, hub, up, tip.hash) {
        assert(is_child(st@, hub@, c, up, tip.hash));
        plant_chain(st, hub, c, up, tip.hash, max_ordered);
    }
}

/// The state after seeding from the stored `path` where the tip was not rewound:
/// the path is planted, then a valid child of the tip.
pub open spec fn seed_planted(v: WorkView, path: Seq<PathEntry>, hub: HubView, max: nat, out: WorkView) -> bool {
    tip_child_planted(path_planted(v, path, hub), hub, max, out)
}

/// May seeding from a stored `path` that does not fork end in `out`? Nothing happens
/// without a tip or without headers.
pub open spec fn seeded(v: WorkView, path: Seq<PathEntry>, hub: HubView, max: nat, out: WorkView) -> bool {
    if hub.tip is None || path.len() == 0 {
        out == v
    } else {
        seed_planted(path_noted(v, path, hub.tip->0), path, hub, max, out)
    }
}

/// Does the stored `path` fork off below the tip?
pub open spec fn seed_forks(v: WorkView, path: Seq<PathEntry>, hub: HubView) -> bool {
    hub.tip is Some && path.len() > 0 && noted(v, path, hub.tip->0).fork
}

/// Seed the work path from the stored headers above the tip. Nothing happens
/// without a tip or without headers. A path that forks off below the tip is
/// registered for exploration first, and the caller sees whether to rewind.
pub fn seed_work_path_from_store(
    st: &mut IbdWorkState,
    hub: &ChainHub,
    path: &Vec<PathEntry>,
    max_ordered: usize,
) -> (r: SeedStep)
    ensures
        r == (if seed_forks(old(st)@, path@, hub@) {
            SeedStep::AskRewind
        } else {
            SeedStep::Done
        }),
        if seed_forks(old(st)@, path@, hub@) {
            final(st)@ == path_noted(old(st)@, path@, hub@.tip->0)
        } else {
            seeded(old(st)@, path@, hub@, max_ordered as nat, final(st)@)
        },
{
    let tip = match hub.tip {
        Some(t) => t,
        None => {
            return SeedStep::Done;
        },
    };
    if path.len() == 0 {
        return SeedStep::Done;
    }
    if note_path(st, path, tip) {
        return SeedStep::AskRewind;
    }
    plant_path(st, path, hub);
    plant_valid_tip_child(st, hub, max_ordered);
    SeedStep::Done
}

/// Go on with a seeding that forked: where the tip was rewound, the winner is
/// planted already; else the path is planted as it is.
pub fn resume_seed(
    st: &mut IbdWorkState,
    hub: &ChainHub,
    path: &Vec<PathEntry>,
    max_ordered: usize,
    rewound: bool,
)
    ensures
        rewound ==> final(st)@ == old(st)@,
        !rewound ==> seed_planted(old(st)@, path@, hub@, max_ordered as nat, final(st)@),
{
    if rewound {
        return;
    }
    plant_path(st, path, hub);
    plant_valid_tip_child(st, hub, max_ordered);
}

/// Live hashes of the ordered path: still in the set, and sound.
pub open spec fn live_ordered(v: WorkView) -> spec_fn(BlockHash) -> bool {
    |h: BlockHash| v.ordered_set.contains(h) && v.sound(h)
}

/// The last four of the ordered path, newest first.
pub open spec fn newest_four(s: Seq<BlockHash>) -> Seq<BlockHash> {
    if s.len() <= 4 {
        s.reverse()
    } else {
        s.skip(s.len() - 4).reverse()
    }
}

/// `acc` with the sound exploration tips from `i` on, each once, until there are
/// eight.
pub open spec fn with_tips(v: WorkView, acc: Seq<BlockHash>, tips: Seq<BlockHash>, i: int) -> Seq<BlockHash>
    decreases tips.len() - i,
{
    if i >= tips.len() {
        acc
    } else if !v.sound(tips[i]) {
        with_tips(v, acc, tips, i + 1)
    } else {
        let next = if acc.contains(tips[i]) {
            acc
        } else {
            acc.push(tips[i])
        };
        if next.len() >= 8 {
            next
        } else {
            with_tips(v, next, tips, i + 1)
        }
    }
}

/// Locator tips of the path and of exploration.
pub open spec fn path_tips(v: WorkView) -> Seq<BlockHash> {
    with_tips(v, newest_four(v.ordered).filter(live_ordered(v)), v.reorg.explore_tips, 0)
}

/// Is `h` a sound header than which no sound header is known to be higher?
pub open spec fn is_highest(v: WorkView, h: BlockHash) -> bool {
    &&& v.hash_height.contains_key(h)
    &&& v.sound(h)
    &&& forall|g: BlockHash| #[trigger]
        v.hash_height.contains_key(g) && v.sound(g) ==> v.hash_height[g] <= v.hash_height[h]
}

fn find_highest(st: &IbdWorkState) -> (r: Option<BlockHash>)
    ensures
        match r {
            Some(h) => is_highest(st@, h),
            None => forall|h: BlockHash| #[trigger]
                st@.hash_height.contains_key(h) ==> !st@.sound(h),
        },
{
    let keys = st.hash_height.keys();
    let mut best: Option<BlockHash> = None;
    let mut top: u32 = 0;
    let mut i: usize = 0;
    while i < keys.len()
        invariant
            i <= keys@.len(),
            keys@.to_set() == st@.hash_height.dom(),
            match best {
                Some(b) => st@.hash_height.contains_key(b) && st@.sound(b) && top
                    == st@.hash_height[b] && forall|j: int|
                    0 <= j < i && st@.sound(#[trigger] keys@[j]) ==> st@.hash_height[keys@[j]]
                        <= top,
                None => forall|j: int| 0 <= j < i ==> !st@.sound(#[trigger] keys@[j]),
            },
        decreases keys@.len() - i,
    {
        let h = keys[i];
        assert(keys@.to_set().contains(keys@[i as int]));
        if is_sound(st, &h) {
            if let Some(x) = st.hash_height.get(&h) {
                if best.is_none() || *x >= top {
                    best = Some(h);
                    top = *x;
                }
            }
        }
        i = i + 1;
    }
    proof {
        assert forall|g: BlockHash| #[trigger] st@.hash_height.contains_key(g) implies exists|j: int|
            0 <= j < keys@.len() && #[trigger] keys@[j] == g by {
            assert(keys@.to_set().contains(g));
        }
    }
    best
}

fn newest_live(st: &IbdWorkState) -> (r: Vec<BlockHash>)
    ensures
        r@ == newest_four(st@.ordered).filter(live_ordered(st@)),
{
    let ghost row = newest_four(st@.ordered);
    let ghost p = live_ordered(st@);
    let n: usize = st.ordered.len();
    let mut out: Vec<BlockHash> = Vec::new();
    let mut k: usize = 0;
    while k < 4 && k < n
        invariant
            k <= 4,
            k <= n,
            n == st@.ordered.len(),
            row == newest_four(st@.ordered),
            p == live_ordered(st@),
            out@ == row.take(k as int).filter(p),
        decreases 4 - k,
    {
        let h = st.ordered[n - 1 - k];
        assert(row[k as int] == h);
        proof {
            assert(row.take(k + 1) =~= row.take(k as int).push(h));
            row.take(k as int).lemma_filter_push(h, p);
        }
        if st.ordered_set.contains(&h) && is_sound(st, &h) {
            out.push(h);
        }
        k = k + 1;
    }
    assert(row.take(k as int) =~= row);
    out
}

/// May `tips` be the locator tips of the work path? Those of the path and of
/// exploration; without any, a highest sound header known, where there is one.
pub open spec fn are_tips(v: WorkView, tips: Seq<BlockHash>) -> bool {
    if path_tips(v).len() > 0 {
        tips == path_tips(v)
    } else {
        ||| tips.len() == 0 && forall|h: BlockHash| #[trigger]
            v.hash_height.contains_key(h) ==> !v.sound(h)
        ||| tips.len() == 1 && is_highest(v, tips[0])
    }
}

/// Highest hashes on the download path, newest first, for header locators: the
/// newest live ordered ones and the exploration tips, at most eight beyond the
/// first. Without any, a highest sound header known, where there is one.
pub fn work_path_tips(st: &IbdWorkState) -> (r: Vec<BlockHash>)
    ensures
        are_tips(st@, r@),
{
    let mut tips = newest_live(st);
    let ghost all = path_tips(st@);
    let mut i: usize = 0;
    let mut going = true;
    while going && i < st.reorg.explore_tips.len()
        invariant
            i <= st@.reorg.explore_tips.len(),
            going ==> with_tips(st@, tips@, st@.reorg.explore_tips, i as int) == all,
            !going ==> tips@ == all,
        decreases st@.reorg.explore_tips.len() - i,
    {
        let h = st.reorg.explore_tips[i];
        if is_sound(st, &h) {
            if !lists(&tips, &h) {
                tips.push(h);
            }
            if tips.len() >= 8 {
                going = false;
            }
        }
        i = i + 1;
    }
    assert(tips@ == all);
    if tips.len() == 0 {
        if let Some(h) = find_highest(st) {
            tips.push(h);
        }
    }
    tips
}

/// Ascending order on heights.
pub open spec fn lower() -> spec_fn(u32, u32) -> bool {
    |a: u32, b: u32| a <= b
}

/// Connected work-path hashes strictly above `tip_h`, lowest first. Competing
/// headers are no path work.
pub fn path_hashes_above_tip(st: &IbdWorkState, tip_h: u32) -> (r: Vec<(u32, BlockHash)>)
    ensures
        forall|i: int, j: int| 0 <= i < j < r@.len() ==> (#[trigger] r@[i]).0 < (#[trigger] r@[j]).0,
        forall|ht: u32, h: BlockHash| #[trigger]
            r@.contains((ht, h)) <==> ht > tip_h && st@.on_path(h, ht),
{
    let keys = keys_of(&st.height_to_hash);
    let mut heights: Vec<u32> = Vec::new();
    let mut i: usize = 0;
    while i < keys.len()
        invariant
            i <= keys@.len(),
            keys@.no_duplicates(),
            keys@.to_set() == st@.height_to_hash.dom(),
            heights@.no_duplicates(),
            forall|x: u32| #[trigger]
                heights@.contains(x) <==> x > tip_h && keys@.take(i as int).contains(x),
        decreases keys@.len() - i,
    {
        let x: u32 = keys[i];
        let ghost was = heights@;
        proof {
            assert(!keys@.take(i as int).contains(x)) by {
                if keys@.take(i as int).contains(x) {
                    let j = choose|j: int| 0 <= j < i && keys@.take(i as int)[j] == x;
                    assert(keys@[j] == keys@[i as int]);
                }
            }
            assert(keys@.take(i + 1) =~= keys@.take(i as int).push(x));
            assert(!was.contains(x));
            assert(was.push(x).no_duplicates()) by {
                assert forall|a: int, b: int| 0 <= a < b < was.push(x).len() implies was.push(x)[a]
                    != was.push(x)[b] by {
                    if b == was.len() {
                        assert(was.contains(was[a]));
                    }
                }
            }
        }
        if x > tip_h {
            heights.push(x);
        }
        proof {
            assert forall|y: u32| #[trigger] heights@.contains(y) <==> y > tip_h && keys@.take(
                i + 1,
            ).contains(y) by {
                assert(was.push(x).contains(y) <==> was.contains(y) || y == x) by {
                    if was.contains(y) {
                        let j = choose|j: int| 0 <= j < was.len() && was[j] == y;
                        assert(was.push(x)[j] == y);
                    }
                    assert(was.push(x)[was.len() as int] == x);
                }
                assert(keys@.take(i as int).push(x).contains(y) <==> keys@.take(i as int).contains(y)
                    || y == x) by {
                    let k = keys@.take(i as int);
                    if k.contains(y) {
                        let j = choose|j: int| 0 <= j < k.len() && k[j] == y;
                        assert(k.push(x)[j] == y);
                    }
                    assert(k.push(x)[k.len() as int] == x);
                }
            }
        }
        i = i + 1;
    }
    assert(keys@.take(i as int) =~= keys@);
    assert(vstd::relations::total_ordering(lower()));
    let le = |a: &u32, b: &u32| -> (y: bool)
        ensures
            y == lower()(*a, *b),
    {
        *a <= *b
    };
    let row = sort_items(&heights, le, Ghost(lower()));
    proof {
        lemma_sorted_heights(heights@);
    }
    let mut out: Vec<(u32, BlockHash)> = Vec::new();
    let mut k: usize = 0;
    while k < row.len()
        invariant
            k <= row@.len(),
            out@.len() == k,
            forall|x: u32| #[trigger]
                row@.contains(x) ==> x > tip_h && st@.height_to_hash.contains_key(x),
            forall|j: int|
                0 <= j < k ==> #[trigger] out@[j] == (row@[j], st@.height_to_hash[row@[j]]),
        decreases row@.len() - k,
    {
        let x: u32 = row[k];
        assert(row@.contains(x));
        if let Some(h) = st.height_to_hash.get(&x) {
            out.push((x, *h));
        }
        k = k + 1;
    }
    proof {
        assert forall|ht: u32, h: BlockHash| #[trigger]
            out@.contains((ht, h)) <==> ht > tip_h && st@.on_path(h, ht) by {
            if out@.contains((ht, h)) {
                let j = choose|j: int| 0 <= j < out@.len() && out@[j] == (ht, h);
                assert(row@.contains(row@[j]));
            }
            if ht > tip_h && st@.on_path(h, ht) {
                assert(keys@.to_set().contains(ht));
                assert(heights@.contains(ht));
                assert(row@.contains(ht));
                let j = choose|j: int| 0 <= j < row@.len() && row@[j] == ht;
                assert(out@[j] == (ht, h));
            }
        }
    }
    out
}

proof fn lemma_sorted_heights(s: Seq<u32>)
    requires
        s.no_duplicates(),
    ensures
        ({
            let t = s.sort_by(lower());
            &&& forall|i: int, j: int| 0 <= i < j < t.len() ==> #[trigger] t[i] < #[trigger] t[j]
            &&& forall|x: u32| #[trigger] t.contains(x) <==> s.contains(x)
        }),
{
    let t = s.sort_by(lower());
    assert(vstd::relations::total_ordering(lower()));
    s.lemma_sort_by_ensures(lower());
    s.lemma_multiset_has_no_duplicates();
    t.lemma_multiset_has_no_duplicates_conv();
    assert forall|i: int, j: int| 0 <= i < j < t.len() implies #[trigger] t[i] < #[trigger] t[j] by {
        assert(lower()(t[i], t[j]));
        assert(t[i] != t[j]);
    }
    assert forall|x: u32| #[trigger] t.contains(x) <==> s.contains(x) by {
        s.to_multiset_ensures();
        t.to_multiset_ensures();
        assert(s.to_multiset().count(x) == t.to_multiset().count(x));
    }
}

/// What planting a chain leaves alone: occupied slots, marks and ordered hashes. What it
/// puts into a free slot is sound.
proof fn lemma_chain_keeps(
    v: WorkView,
    hub: HubView,
    cur: BlockHash,
    height: u32,
    prev: BlockHash,
    fuel: nat,
    out: WorkView,
)
    requires
        chain_planted(v, hub, cur, height, prev, fuel, out),
    ensures
        out.reorg == v.reorg,
        out.body == v.body,
        v.ordered_set.subset_of(out.ordered_set),
        forall|ht: u32| #[trigger]
            v.height_to_hash.contains_key(ht) ==> out.height_to_hash.contains_key(ht)
                && out.height_to_hash[ht] == v.height_to_hash[ht],
        forall|ht: u32| #[trigger]
            out.height_to_hash.contains_key(ht) && !v.height_to_hash.contains_key(ht)
                ==> out.sound(out.height_to_hash[ht]),
    decreases fuel,
{
    if fuel > 0 && v.sound(cur) {
        let w = chain_step(v, cur, height, prev, hub.tip);
        let up = sat_add32(height, 1);
        assert forall|ht: u32| #[trigger] v.height_to_hash.contains_key(ht) implies
            w.height_to_hash.contains_key(ht) && w.height_to_hash[ht] == v.height_to_hash[ht] by {}
        if !((forall|n: BlockHash| !(#[trigger] next_at(w, up, n))) && out == w) {
            let n = choose|n: BlockHash| #[trigger]
                next_at(w, up, n) && (if hub.parents.contains_key(n) && hub.parents[n] == cur {
                    chain_planted(w, hub, n, up, cur, (fuel - 1) as nat, out)
                } else {
                    out == w
                });
            if hub.parents.contains_key(n) && hub.parents[n] == cur {
                lemma_chain_keeps(w, hub, n, up, cur, (fuel - 1) as nat, out);
                assert forall|ht: u32| #[trigger] v.height_to_hash.contains_key(ht) implies
                    out.height_to_hash.contains_key(ht) && out.height_to_hash[ht]
                    == v.height_to_hash[ht] by {
                    assert(w.height_to_hash.contains_key(ht));
                }
                assert forall|ht: u32| #[trigger]
                    out.height_to_hash.contains_key(ht) && !v.height_to_hash.contains_key(
                        ht,
                    ) implies out.sound(out.height_to_hash[ht]) by {
                    if w.height_to_hash.contains_key(ht) {
                        assert(w.height_to_hash[ht] == cur);
                    }
                }
            }
        }
    }
}

/// A known sound child of the tip gets the free slot right above it and is ordered.
pub proof fn law_tip_child_is_planted(
    v: WorkView,
    hub: HubView,
    tip: ChainTip,
    max: nat,
    out: WorkView,
)
    requires
        hub.tip == Some(tip),
        tip.height < u32::MAX,
        max > 0,
        !v.height_to_hash.contains_key((tip.height + 1) as u32),
        exists|c: BlockHash| #[trigger] is_child(v, hub, c, (tip.height + 1) as u32, tip.hash),
        tip_child_planted(v, hub, max, out),
    ensures
        ({
            let up = (tip.height + 1) as u32;
            let c = out.height_to_hash[up];
            &&& out.height_to_hash.contains_key(up)
            &&& out.sound(c)
            &&& hub.parents.contains_key(c) && hub.parents[c] == tip.hash
            &&& out.ordered_set.contains(c)
        }),
{
    let up = (tip.height + 1) as u32;
    let c = choose|c: BlockHash| #[trigger]
        is_child(v, hub, c, up, tip.hash) && chain_planted(v, hub, c, up, tip.hash, max, out);
    assert(v.takes_slot(c, up, tip.hash, hub.tip));
    let w = chain_step(v, c, up, tip.hash, hub.tip);
    assert(w.height_to_hash.contains_key(up) && w.height_to_hash[up] == c);
    assert(w.ordered_set.contains(c));
    let above = sat_add32(up, 1);
    if !((forall|n: BlockHash| !(#[trigger] next_at(w, above, n))) && out == w) {
        let n = choose|n: BlockHash| #[trigger]
            next_at(w, above, n) && (if hub.parents.contains_key(n) && hub.parents[n] == c {
                chain_planted(w, hub, n, above, c, (max - 1) as nat, out)
            } else {
                out == w
            });
        if hub.parents.contains_key(n) && hub.parents[n] == c {
            lemma_chain_keeps(w, hub, n, above, c, (max - 1) as nat, out);
        }
    }
}

/// Planting above the tip evicts nobody from the path and puts only sound headers on it.
pub proof fn law_planting_is_sound(v: WorkView, hub: HubView, max: nat, out: WorkView, ht: u32)
    requires
        tip_child_planted(v, hub, max, out),
    ensures
        v.height_to_hash.contains_key(ht) ==> out.height_to_hash.contains_key(ht)
            && out.height_to_hash[ht] == v.height_to_hash[ht],
        out.height_to_hash.contains_key(ht) && !v.height_to_hash.contains_key(ht) ==> out.sound(
            out.height_to_hash[ht],
        ),
{
    if let Some(tip) = hub.tip {
        let up = sat_add32(tip.height, 1);
        if !tip_child_sound(v, tip) && out != v {
            let c = choose|c: BlockHash| #[trigger]
                is_child(v, hub, c, up, tip.hash) && chain_planted(
                    v,
                    hub,
                    c,
                    up,
                    tip.hash,
                    max,
                    out,
                );
            lemma_chain_keeps(v, hub, c, up, tip.hash, max, out);
        }
    }
}

/// Is `path` the stored path right above `tip`, one header a height?
pub open spec fn right_above(path: Seq<PathEntry>, tip: ChainTip) -> bool {
    forall|i: int| 0 <= i < path.len() ==> (#[trigger] path[i]).height == tip.height + 1 + i
}

/// The index of the first invalid header of `path` from `i` on, its length without one.
spec fn first_invalid(path: Seq<PathEntry>, invalid: Set<BlockHash>, i: int) -> int
    decreases path.len() - i,
{
    if i >= path.len() || invalid.contains(path[i].hash) {
        i
    } else {
        first_invalid(path, invalid, i + 1)
    }
}

/// Is the slot of the header at `j` taken, and the header ordered if it holds it?
spec fn settled_at(v: WorkView, path: Seq<PathEntry>, j: int) -> bool {
    let e = path[j];
    v.height_to_hash.contains_key(e.height) && (v.height_to_hash[e.height] == e.hash
        ==> v.ordered_set.contains(e.hash))
}

/// Same path, order and marks.
spec fn same_path(a: WorkView, b: WorkView) -> bool {
    &&& a.height_to_hash == b.height_to_hash
    &&& a.ordered == b.ordered
    &&& a.ordered_set == b.ordered_set
    &&& a.reorg == b.reorg
    &&& a.body.rejected == b.body.rejected
}

/// The known heights once the headers of `path` from `i` on are laid over them, up to
/// the first invalid one.
spec fn laid(m: Map<BlockHash, u32>, path: Seq<PathEntry>, invalid: Set<BlockHash>, i: int) -> Map<
    BlockHash,
    u32,
>
    decreases path.len() - i,
{
    if i >= path.len() || invalid.contains(path[i].hash) {
        m
    } else {
        laid(m.insert(path[i].hash, path[i].height), path, invalid, i + 1)
    }
}

/// Is `h` known at `height`?
spec fn known_at(m: Map<BlockHash, u32>, h: BlockHash, height: u32) -> bool {
    m.contains_key(h) && m[h] == height
}

/// A header of the path gets the same height whatever was known; any other keeps its own.
proof fn lemma_laid(
    m: Map<BlockHash, u32>,
    n: Map<BlockHash, u32>,
    path: Seq<PathEntry>,
    invalid: Set<BlockHash>,
    i: int,
    h: BlockHash,
    height: u32,
)
    requires
        0 <= i,
        known_at(laid(m, path, invalid, i), h, height),
    ensures
        known_at(m, h, height) || (known_at(laid(n, path, invalid, i), h, height) && exists|j: int|
            #![trigger path[j]]
            i <= j < first_invalid(path, invalid, i) && j < path.len() && path[j].height == height),
        known_at(n, h, height) ==> known_at(laid(n, path, invalid, i), h, height),
    decreases path.len() - i,
{
    if !(i >= path.len() || invalid.contains(path[i].hash)) {
        let e = path[i];
        let m1 = m.insert(e.hash, e.height);
        let n1 = n.insert(e.hash, e.height);
        lemma_first_invalid_from(path, invalid, i + 1);
        lemma_laid(m1, n1, path, invalid, i + 1, h, height);
        if known_at(m1, h, height) && !known_at(m, h, height) {
            assert(h == e.hash && height == e.height);
            assert(known_at(n1, h, height));
            assert(path[i].height == height);
        } else if !known_at(m1, h, height) {
            let j = choose|j: int|
                #![trigger path[j]]
                i + 1 <= j < first_invalid(path, invalid, i + 1) && j < path.len() && path[j].height
                    == height;
            assert(path[j].height == height);
        }
        if known_at(n, h, height) && !known_at(n1, h, height) {
            assert(h == e.hash && height != e.height);
            assert(!known_at(m1, h, height));
        }
    }
}

proof fn lemma_noting_keeps(n: Noted, path: Seq<PathEntry>, i: int, tip: ChainTip)
    requires
        0 <= i,
        right_above(path, tip),
    ensures
        note_from(n, path, i, tip).fork == n.fork,
        same_path(note_from(n, path, i, tip).st, n.st),
        note_from(n, path, i, tip).st.hash_height == laid(
            n.st.hash_height,
            path,
            n.st.reorg.invalid,
            i,
        ),
    decreases path.len() - i,
{
    if !(i >= path.len() || n.st.reorg.invalid.contains(path[i].hash)) {
        assert(path[i].height > tip.height);
        lemma_noting_keeps(note_step(n, path[i], tip), path, i + 1, tip);
    }
}

proof fn lemma_planting_lays(p: Planting, path: Seq<PathEntry>, i: int, tip: Option<ChainTip>)
    requires
        0 <= i,
    ensures
        plant_from(p, path, i, tip).st.hash_height == laid(
            p.st.hash_height,
            path,
            p.st.reorg.invalid,
            i,
        ),
    decreases path.len() - i,
{
    if !(i >= path.len() || p.st.reorg.invalid.contains(path[i].hash)) {
        lemma_planting_lays(plant_step(p, path[i], tip), path, i + 1, tip);
    }
}

proof fn lemma_planting_settles(p: Planting, path: Seq<PathEntry>, i: int, tip: ChainTip)
    requires
        0 <= i,
        right_above(path, tip),
        0 < i <= path.len() ==> p.st.height_to_hash.contains_key(path[i - 1].height),
        forall|j: int| 0 <= j < i && j < path.len() ==> #[trigger] settled_at(p.st, path, j),
    ensures
        ({
            let q = plant_from(p, path, i, Some(tip)).st;
            &&& q.reorg == p.st.reorg
            &&& q.body.rejected == p.st.body.rejected
            &&& p.st.ordered_set.subset_of(q.ordered_set)
            &&& forall|ht: u32| #[trigger]
                p.st.height_to_hash.contains_key(ht) ==> q.height_to_hash.contains_key(ht)
                    && q.height_to_hash[ht] == p.st.height_to_hash[ht]
            &&& forall|j: int|
                0 <= j < first_invalid(path, p.st.reorg.invalid, i) && j < path.len()
                    ==> #[trigger] settled_at(q, path, j)
        }),
    decreases path.len() - i,
{
    if !(i >= path.len() || p.st.reorg.invalid.contains(path[i].hash)) {
        let e = path[i];
        let q = plant_step(p, e, Some(tip));
        assert(e.height == tip.height + 1 + i);
        if i > 0 {
            assert(path[i - 1].height == e.height - 1);
        }
        assert(p.st.connects(e.height, assumed_parent(p.st, e.height, Some(tip)), Some(tip)));
        assert forall|j: int| 0 <= j < i + 1 && j < path.len() implies #[trigger] settled_at(
            q.st,
            path,
            j,
        ) by {
            if j < i {
                assert(settled_at(p.st, path, j));
                assert(path[j].height == tip.height + 1 + j);
            }
        }
        lemma_planting_settles(q, path, i + 1, tip);
        let r = plant_from(p, path, i, Some(tip)).st;
        assert forall|ht: u32| #[trigger] p.st.height_to_hash.contains_key(ht) implies
            r.height_to_hash.contains_key(ht) && r.height_to_hash[ht] == p.st.height_to_hash[ht] by {
            assert(q.st.height_to_hash.contains_key(ht));
        }
    }
}

proof fn lemma_settled_planting_is_idle(p: Planting, path: Seq<PathEntry>, i: int, tip: ChainTip)
    requires
        0 <= i,
        forall|j: int|
            0 <= j < first_invalid(path, p.st.reorg.invalid, i) && j < path.len()
                ==> #[trigger] settled_at(p.st, path, j),
    ensures
        same_path(plant_from(p, path, i, Some(tip)).st, p.st),
    decreases path.len() - i,
{
    if !(i >= path.len() || p.st.reorg.invalid.contains(path[i].hash)) {
        let e = path[i];
        let q = plant_step(p, e, Some(tip));
        lemma_first_invalid_from(path, p.st.reorg.invalid, i + 1);
        assert(settled_at(p.st, path, i));
        assert(q.st.height_to_hash =~= p.st.height_to_hash);
        assert(same_path(q.st, p.st));
        assert forall|j: int|
            0 <= j < first_invalid(path, q.st.reorg.invalid, i + 1) && j
                < path.len() implies #[trigger] settled_at(q.st, path, j) by {
            assert(settled_at(p.st, path, j));
        }
        lemma_settled_planting_is_idle(q, path, i + 1, tip);
    }
}

proof fn lemma_first_invalid_from(path: Seq<PathEntry>, invalid: Set<BlockHash>, i: int)
    ensures
        first_invalid(path, invalid, i) >= i,
    decreases path.len() - i,
{
    if !(i >= path.len() || invalid.contains(path[i].hash)) {
        lemma_first_invalid_from(path, invalid, i + 1);
    }
}

/// Does an unsound header hold the slot right above the tip?
pub open spec fn tip_child_unsound(v: WorkView, tip: ChainTip) -> bool {
    v.height_to_hash.contains_key(sat_add32(tip.height, 1)) && !tip_child_sound(v, tip)
}

/// Is there one way only to plant above the tip? No sound child of it is known, or one
/// is, and at every height above it where no header holds the slot at most one is known.
/// The largest height is left free.
pub open spec fn one_way(v: WorkView, hub: HubView, tip: ChainTip) -> bool {
    let up = sat_add32(tip.height, 1);
    ||| forall|c: BlockHash| !(#[trigger] is_child(v, hub, c, up, tip.hash))
    ||| {
        &&& forall|c: BlockHash, d: BlockHash| #[trigger]
            is_child(v, hub, c, up, tip.hash) && #[trigger] is_child(v, hub, d, up, tip.hash)
                ==> c == d
        &&& one_a_height(v, up)
        &&& top_is_free(v)
    }
}

/// Is at most one header known at each height above `height` whose slot is free?
pub open spec fn one_a_height(v: WorkView, height: u32) -> bool {
    forall|x: BlockHash, y: BlockHash|
        (#[trigger] v.hash_height.contains_key(x)) && (#[trigger] v.hash_height.contains_key(y))
            && v.hash_height[x] == v.hash_height[y] && v.hash_height[x] > height
            && !v.height_to_hash.contains_key(v.hash_height[x]) ==> x == y
}

/// Is no header known at the largest height?
pub open spec fn top_is_free(v: WorkView) -> bool {
    &&& !v.height_to_hash.contains_key(u32::MAX)
    &&& forall|x: BlockHash| #[trigger]
        v.hash_height.contains_key(x) ==> v.hash_height[x] != u32::MAX
}

/// What planting a chain writes: below its start nothing, and at its start only its
/// first header. A header is known at a height up to the start, or at one whose slot is
/// free, only if it was before, but for the first header at the start.
proof fn lemma_chain_writes(
    v: WorkView,
    hub: HubView,
    cur: BlockHash,
    height: u32,
    prev: BlockHash,
    fuel: nat,
    out: WorkView,
)
    requires
        height < u32::MAX,
        top_is_free(v),
        chain_planted(v, hub, cur, height, prev, fuel, out),
    ensures
        forall|ht: u32|
            ht <= height && #[trigger] out.height_to_hash.contains_key(ht)
                ==> v.height_to_hash.contains_key(ht) || (ht == height && out.height_to_hash[ht]
                == cur),
        forall|x: BlockHash, ht: u32| #[trigger]
            known_at(out.hash_height, x, ht) && (ht <= height || !out.height_to_hash.contains_key(
                ht,
            )) ==> known_at(v.hash_height, x, ht) || (x == cur && ht == height),
    decreases fuel,
{
    if fuel > 0 && v.sound(cur) {
        let w = chain_step(v, cur, height, prev, hub.tip);
        let up = sat_add32(height, 1);
        if !((forall|n: BlockHash| !(#[trigger] next_at(w, up, n))) && out == w) {
            let n = choose|n: BlockHash| #[trigger]
                next_at(w, up, n) && (if hub.parents.contains_key(n) && hub.parents[n] == cur {
                    chain_planted(w, hub, n, up, cur, (fuel - 1) as nat, out)
                } else {
                    out == w
                });
            assert(up < u32::MAX);
            if hub.parents.contains_key(n) && hub.parents[n] == cur {
                lemma_chain_writes(w, hub, n, up, cur, (fuel - 1) as nat, out);
                lemma_chain_keeps(w, hub, n, up, cur, (fuel - 1) as nat, out);
                assert forall|x: BlockHash, ht: u32| #[trigger]
                    known_at(out.hash_height, x, ht) && (ht <= height
                        || !out.height_to_hash.contains_key(ht)) implies known_at(
                    v.hash_height,
                    x,
                    ht,
                ) || (x == cur && ht == height) by {
                    if x == n && ht == up {
                        assert(!w.height_to_hash.contains_key(up));
                    }
                    assert(known_at(w.hash_height, x, ht));
                }
            }
        }
    }
}

/// Planting the chain again, from a state that has what the first time left, orders
/// nothing and takes no slot: step by step it meets the same headers.
proof fn lemma_chain_again(
    v: WorkView,
    again: WorkView,
    hub: HubView,
    cur: BlockHash,
    height: u32,
    prev: BlockHash,
    fuel: nat,
    out: WorkView,
    twice: WorkView,
)
    requires
        height < u32::MAX,
        top_is_free(v),
        one_a_height(v, height),
        chain_planted(v, hub, cur, height, prev, fuel, out),
        chain_planted(again, hub, cur, height, prev, fuel, twice),
        same_path(again, out),
        forall|x: BlockHash, ht: u32| #[trigger]
            known_at(again.hash_height, x, ht) && ht > height && !out.height_to_hash.contains_key(ht)
                ==> known_at(v.hash_height, x, ht),
    ensures
        same_path(twice, out),
    decreases fuel,
{
    lemma_chain_keeps(v, hub, cur, height, prev, fuel, out);
    lemma_chain_writes(v, hub, cur, height, prev, fuel, out);
    assert(again.sound(cur) == v.sound(cur));
    if fuel > 0 && v.sound(cur) {
        let w = chain_step(v, cur, height, prev, hub.tip);
        let z = chain_step(again, cur, height, prev, hub.tip);
        let up = sat_add32(height, 1);
        lemma_step_again(v, again, hub, cur, height, prev, fuel, out);
        if !((forall|n: BlockHash| !(#[trigger] next_at(z, up, n))) && twice == z) {
            let d = choose|n: BlockHash| #[trigger]
                next_at(z, up, n) && (if hub.parents.contains_key(n) && hub.parents[n] == cur {
                    chain_planted(z, hub, n, up, cur, (fuel - 1) as nat, twice)
                } else {
                    twice == z
                });
            if hub.parents.contains_key(d) && hub.parents[d] == cur {
                if !out.height_to_hash.contains_key(up) {
                    assert(known_at(again.hash_height, d, up));
                    assert(known_at(v.hash_height, d, up));
                    assert(next_at(w, up, d));
                }
                if (forall|n: BlockHash| !(#[trigger] next_at(w, up, n))) && out == w {
                    assert(next_at(w, up, d));
                } else {
                    let n = choose|n: BlockHash| #[trigger]
                        next_at(w, up, n) && (if hub.parents.contains_key(n) && hub.parents[n]
                            == cur {
                            chain_planted(w, hub, n, up, cur, (fuel - 1) as nat, out)
                        } else {
                            out == w
                        });
                    assert(up < u32::MAX);
                    assert(top_is_free(w));
                    if hub.parents.contains_key(n) && hub.parents[n] == cur {
                        lemma_chain_writes(w, hub, n, up, cur, (fuel - 1) as nat, out);
                        lemma_chain_keeps(w, hub, n, up, cur, (fuel - 1) as nat, out);
                    }
                    if !w.height_to_hash.contains_key(up) && !out.height_to_hash.contains_key(up) {
                        assert(v.hash_height.contains_key(n) && v.hash_height.contains_key(d));
                    }
                    assert(n == d);
                    assert(one_a_height(w, up));
                    assert forall|x: BlockHash, ht: u32| #[trigger]
                        known_at(z.hash_height, x, ht) && ht > up
                            && !out.height_to_hash.contains_key(ht) implies known_at(
                        w.hash_height,
                        x,
                        ht,
                    ) by {
                        assert(known_at(again.hash_height, x, ht));
                    }
                    lemma_chain_again(w, z, hub, d, up, cur, (fuel - 1) as nat, out, twice);
                }
            }
        }
    }
}

proof fn lemma_step_again(
    v: WorkView,
    again: WorkView,
    hub: HubView,
    cur: BlockHash,
    height: u32,
    prev: BlockHash,
    fuel: nat,
    out: WorkView,
)
    requires
        height < u32::MAX,
        top_is_free(v),
        fuel > 0,
        v.sound(cur),
        chain_planted(v, hub, cur, height, prev, fuel, out),
        same_path(again, out),
    ensures
        same_path(chain_step(again, cur, height, prev, hub.tip), out),
{
    let w = chain_step(v, cur, height, prev, hub.tip);
    let z = chain_step(again, cur, height, prev, hub.tip);
    let up = sat_add32(height, 1);
    lemma_chain_keeps(v, hub, cur, height, prev, fuel, out);
    lemma_chain_writes(v, hub, cur, height, prev, fuel, out);
    if !((forall|n: BlockHash| !(#[trigger] next_at(w, up, n))) && out == w) {
        let n = choose|n: BlockHash| #[trigger]
            next_at(w, up, n) && (if hub.parents.contains_key(n) && hub.parents[n] == cur {
                chain_planted(w, hub, n, up, cur, (fuel - 1) as nat, out)
            } else {
                out == w
            });
        if hub.parents.contains_key(n) && hub.parents[n] == cur {
            lemma_chain_keeps(w, hub, n, up, cur, (fuel - 1) as nat, out);
        }
    }
    if height > 0 {
        let below = (height - 1) as u32;
        assert(v.height_to_hash.contains_key(below) == out.height_to_hash.contains_key(below));
    }
    assert(again.connects(height, prev, hub.tip) == v.connects(height, prev, hub.tip));
    if v.takes_slot(cur, height, prev, hub.tip) {
        assert(w.height_to_hash.contains_key(height));
        assert(w.ordered_set.contains(cur));
        assert(out.height_to_hash[height] == cur);
    }
    if again.takes_slot(cur, height, prev, hub.tip) {
        assert(v.takes_slot(cur, height, prev, hub.tip)) by {
            assert(v.height_to_hash.contains_key(height) ==> out.height_to_hash.contains_key(
                height,
            ));
        }
    }
    assert(z.height_to_hash =~= again.height_to_hash);
}

/// Seeding twice from the same stored path right above the tip, with the hub
/// unchanged, leaves the ordered path as the first time left it. Where an unsound
/// header holds the slot right above the tip once the path is planted, there is one way
/// only to plant above it; otherwise the second time could choose another.
pub proof fn law_seeding_twice_orders_nothing_more(
    v: WorkView,
    path: Seq<PathEntry>,
    hub: HubView,
    max: nat,
    once: WorkView,
    twice: WorkView,
)
    requires
        hub.tip matches Some(tip) ==> right_above(path, tip),
        hub.tip matches Some(tip) ==> ({
            let planted = path_planted(path_noted(v, path, tip), path, hub);
            tip_child_unsound(planted, tip) && max > 0 ==> one_way(planted, hub, tip)
        }),
        seeded(v, path, hub, max, once),
        seeded(once, path, hub, max, twice),
    ensures
        !seed_forks(v, path, hub),
        !seed_forks(once, path, hub),
        twice.ordered == once.ordered,
        twice.ordered_set == once.ordered_set,
{
    if hub.tip is Some && path.len() > 0 {
        let tip = hub.tip->0;
        assert(path[0].height == tip.height + 1 + 0);
        let up = (tip.height + 1) as u32;
        let b = path_planted(path_noted(v, path, tip), path, hub);
        let b2 = path_planted(path_noted(once, path, tip), path, hub);
        lemma_first_seeding(v, path, hub, tip);
        lemma_planting_child_keeps(b, hub, max, once);
        lemma_second_seeding(b, once, path, hub, tip);
        if max == 0 || tip_child_sound(b, tip) {
            assert(once == b);
        } else if forall|c: BlockHash| !(#[trigger] is_child(b, hub, c, up, tip.hash)) {
            assert(once == b);
            assert forall|c: BlockHash| !(#[trigger] is_child(b2, hub, c, up, tip.hash)) by {
                assert(!is_child(b, hub, c, up, tip.hash));
                assert(known_at(b2.hash_height, c, up) ==> known_at(b.hash_height, c, up));
            }
        } else if !b.height_to_hash.contains_key(up) {
            law_tip_child_is_planted(b, hub, tip, max, once);
            assert(tip_child_sound(b2, tip));
        } else {
            lemma_second_way(b, b2, hub, tip, max, once, twice);
        }
    }
}

/// The first seeding up to the planted path: it keeps the marks, and settles its slots.
proof fn lemma_first_seeding(v: WorkView, path: Seq<PathEntry>, hub: HubView, tip: ChainTip)
    requires
        hub.tip == Some(tip),
        path.len() > 0,
        right_above(path, tip),
    ensures
        !noted(v, path, tip).fork,
        ({
            let b = path_planted(path_noted(v, path, tip), path, hub);
            let cut = first_invalid(path, v.reorg.invalid, 0);
            &&& b.reorg == v.reorg
            &&& b.body.rejected == v.body.rejected
            &&& forall|j: int| 0 <= j < cut && j < path.len() ==> #[trigger] settled_at(b, path, j)
            &&& b.hash_height == laid(
                laid(v.hash_height, path, v.reorg.invalid, 0),
                path,
                v.reorg.invalid,
                0,
            )
        }),
{
    let none = Seq::<BlockHash>::empty();
    lemma_noting_keeps(Noted { st: v, fork: false, need: none }, path, 0, tip);
    let a = path_noted(v, path, tip);
    let from = Planting { st: a, ready_to: hub.tip_or_zero(), prefix: true };
    lemma_planting_settles(from, path, 0, tip);
    lemma_planting_lays(from, path, 0, hub.tip);
    let b = path_planted(a, path, hub);
    assert forall|j: int|
        0 <= j < first_invalid(path, v.reorg.invalid, 0) && j < path.len() implies #[trigger]
        settled_at(b, path, j) by {
        assert(settled_at(plant_from(from, path, 0, Some(tip)).st, path, j));
    }
}

/// The second seeding up to the planted path, from a state that has what the first one
/// left: no slot, order or mark changes, and a header is known at a free height, or
/// right above the tip, only where it was.
proof fn lemma_second_seeding(
    b: WorkView,
    once: WorkView,
    path: Seq<PathEntry>,
    hub: HubView,
    tip: ChainTip,
)
    requires
        hub.tip == Some(tip),
        path.len() > 0,
        right_above(path, tip),
        once.reorg == b.reorg,
        once.body == b.body,
        b.ordered_set.subset_of(once.ordered_set),
        forall|ht: u32| #[trigger]
            b.height_to_hash.contains_key(ht) ==> once.height_to_hash.contains_key(ht)
                && once.height_to_hash[ht] == b.height_to_hash[ht],
        forall|j: int|
            0 <= j < first_invalid(path, b.reorg.invalid, 0) && j < path.len() ==> #[trigger]
            settled_at(b, path, j),
        exists|m: Map<BlockHash, u32>|
            b.hash_height == #[trigger] laid(m, path, b.reorg.invalid, 0),
    ensures
        !noted(once, path, tip).fork,
        ({
            let b2 = path_planted(path_noted(once, path, tip), path, hub);
            &&& same_path(b2, once)
            &&& forall|x: BlockHash, ht: u32| #[trigger]
                known_at(b2.hash_height, x, ht) ==> known_at(once.hash_height, x, ht) || (known_at(
                    b.hash_height,
                    x,
                    ht,
                ) && once.height_to_hash.contains_key(ht))
        }),
{
    let none = Seq::<BlockHash>::empty();
    let invalid = b.reorg.invalid;
    lemma_noting_keeps(Noted { st: once, fork: false, need: none }, path, 0, tip);
    let a2 = path_noted(once, path, tip);
    let from = Planting { st: a2, ready_to: hub.tip_or_zero(), prefix: true };
    assert forall|j: int|
        0 <= j < first_invalid(path, invalid, 0) && j < path.len() implies #[trigger] settled_at(
        a2,
        path,
        j,
    ) by {
        assert(settled_at(b, path, j));
        assert(b.height_to_hash.contains_key(path[j].height));
    }
    lemma_settled_planting_is_idle(from, path, 0, tip);
    lemma_planting_lays(from, path, 0, hub.tip);
    let b2 = path_planted(a2, path, hub);
    let m = choose|m: Map<BlockHash, u32>| b.hash_height == #[trigger] laid(m, path, invalid, 0);
    let mid = laid(once.hash_height, path, invalid, 0);
    assert forall|x: BlockHash, ht: u32| #[trigger] known_at(b2.hash_height, x, ht) implies known_at(
        once.hash_height,
        x,
        ht,
    ) || (known_at(b.hash_height, x, ht) && once.height_to_hash.contains_key(ht)) by {
        lemma_laid(mid, m, path, invalid, 0, x, ht);
        if known_at(mid, x, ht) {
            lemma_laid(once.hash_height, m, path, invalid, 0, x, ht);
        }
        if !known_at(once.hash_height, x, ht) {
            let j = choose|j: int|
                #![trigger path[j]]
                0 <= j < first_invalid(path, invalid, 0) && j < path.len() && path[j].height == ht;
            assert(settled_at(b, path, j));
            assert(b.height_to_hash.contains_key(path[j].height));
        }
    }
}

/// Planting above an unsound slot twice, where there is one way only.
proof fn lemma_second_way(
    b: WorkView,
    b2: WorkView,
    hub: HubView,
    tip: ChainTip,
    max: nat,
    once: WorkView,
    twice: WorkView,
)
    requires
        hub.tip == Some(tip),
        tip.height < u32::MAX,
        tip_child_unsound(b, tip),
        exists|c: BlockHash| #[trigger] is_child(b, hub, c, (tip.height + 1) as u32, tip.hash),
        one_way(b, hub, tip),
        tip_child_planted(b, hub, max, once),
        tip_child_planted(b2, hub, max, twice),
        same_path(b2, once),
        forall|x: BlockHash, ht: u32| #[trigger]
            known_at(b2.hash_height, x, ht) ==> known_at(once.hash_height, x, ht) || (known_at(
                b.hash_height,
                x,
                ht,
            ) && once.height_to_hash.contains_key(ht)),
    ensures
        same_path(twice, once),
{
    let up = (tip.height + 1) as u32;
    let c = choose|c: BlockHash| #[trigger]
        is_child(b, hub, c, up, tip.hash) && chain_planted(b, hub, c, up, tip.hash, max, once);
    assert(b.hash_height.contains_key(c) && b.hash_height[c] != u32::MAX);
    lemma_chain_keeps(b, hub, c, up, tip.hash, max, once);
    lemma_chain_writes(b, hub, c, up, tip.hash, max, once);
    if !(forall|d: BlockHash| !(#[trigger] is_child(b2, hub, d, up, tip.hash))) && !tip_child_sound(
        b2,
        tip,
    ) {
        let d = choose|d: BlockHash| #[trigger]
            is_child(b2, hub, d, up, tip.hash) && chain_planted(
                b2,
                hub,
                d,
                up,
                tip.hash,
                max,
                twice,
            );
        assert(known_at(b2.hash_height, d, up));
        assert(known_at(b.hash_height, d, up) || d == c);
        if d != c {
            assert(is_child(b, hub, d, up, tip.hash));
        }
        assert(d == c);
        assert forall|x: BlockHash, ht: u32| #[trigger]
            known_at(b2.hash_height, x, ht) && ht > up && !once.height_to_hash.contains_key(
                ht,
            ) implies known_at(b.hash_height, x, ht) by {
            assert(known_at(once.hash_height, x, ht));
        }
        lemma_chain_again(b, b2, hub, c, up, tip.hash, max, once, twice);
    }
}

/// What planting a valid child of the tip leaves alone.
proof fn lemma_planting_child_keeps(v: WorkView, hub: HubView, max: nat, out: WorkView)
    requires
        tip_child_planted(v, hub, max, out),
    ensures
        out.reorg == v.reorg,
        out.body == v.body,
        v.ordered_set.subset_of(out.ordered_set),
        forall|ht: u32| #[trigger]
            v.height_to_hash.contains_key(ht) ==> out.height_to_hash.contains_key(ht)
                && out.height_to_hash[ht] == v.height_to_hash[ht],
{
    if let Some(tip) = hub.tip {
        let up = sat_add32(tip.height, 1);
        if !tip_child_sound(v, tip) && out != v {
            let c = choose|c: BlockHash| #[trigger]
                is_child(v, hub, c, up, tip.hash) && chain_planted(
                    v,
                    hub,
                    c,
                    up,
                    tip.hash,
                    max,
                    out,
                );
            lemma_chain_keeps(v, hub, c, up, tip.hash, max, out);
        }
    }
}

} // verus!

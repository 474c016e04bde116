//! Maps and sets over hashes and addresses, with mathematical views.
//!
//! Entries sit in a vector; lookups compare keys with [`Key::same`]. Callers
//! see only the view: a `Map` for [`KeyMap`], a `Set` for [`KeySet`]. What is keyed by
//! a number sits in a map or set of std.
use vstd::prelude::*;
use std::collections::{HashMap, HashSet};

verus! {

/// A plain value that can be told apart from another by its fields.
pub trait Key: Copy {
    /// True exactly when both values are equal.
    fn same(&self, other: &Self) -> (b: bool)
        ensures
            b == (*self == *other),
    ;
}

/// Every height of a map once, in no stated order.
pub fn keys_of<V>(m: &HashMap<u32, V>) -> (r: Vec<u32>)
    ensures
        r@.no_duplicates(),
        r@.to_set() == m@.dom(),
        r@.len() == m@.dom().len(),
{
    let mut r: Vec<u32> = Vec::new();
    for k in it: m.keys()
        invariant
            r@ == it.seq().unref().take(it.index() as int),
            it.seq().unref().to_set() == m@.dom(),
            it.index() == it.seq().len() ==> r@ == it.seq().unref(),
    {
        r.push(*k);
    }
    r
}

/// Every height of a set once, in no stated order.
pub fn members_of(s: &HashSet<u32>) -> (r: Vec<u32>)
    ensures
        r@.no_duplicates(),
        r@.to_set() == s@,
        r@.len() == s@.len(),
{
    let mut r: Vec<u32> = Vec::new();
    for k in it: s.iter()
        invariant
            r@ == it.seq().unref().take(it.index() as int),
            it.seq().unref().to_set() == s@,
            it.index() == it.seq().len() ==> r@ == it.seq().unref(),
    {
        r.push(*k);
    }
    r
}

/// Finite map from plain keys to values.
pub struct KeyMap<K: Key, V> {
    entries: Vec<(K, V)>,
}

spec fn holds_key<K, V>(s: Seq<(K, V)>, k: K) -> bool {
    exists|i: int| 0 <= i < s.len() && #[trigger] s[i].0 == k
}

spec fn value_of<K, V>(s: Seq<(K, V)>, k: K) -> V {
    s[choose|i: int| 0 <= i < s.len() && #[trigger] s[i].0 == k].1
}

spec fn distinct_keys<K, V>(s: Seq<(K, V)>) -> bool {
    forall|i: int, j: int|
        0 <= i < s.len() && 0 <= j < s.len() && i != j ==> #[trigger] s[i].0 != #[trigger] s[j].0
}

spec fn entry_map<K, V>(s: Seq<(K, V)>) -> Map<K, V> {
    Map::new(|k: K| holds_key(s, k), |k: K| value_of(s, k))
}

spec fn entry_keys<K, V>(s: Seq<(K, V)>) -> Seq<K> {
    Seq::new(s.len(), |i: int| s[i].0)
}

proof fn lemma_value_at<K, V>(s: Seq<(K, V)>, i: int)
    requires
        distinct_keys(s),
        0 <= i < s.len(),
    ensures
        entry_map(s).contains_key(s[i].0),
        entry_map(s)[s[i].0] == s[i].1,
{
    let k = s[i].0;
    assert(holds_key(s, k));
    let j = choose|j: int| 0 <= j < s.len() && #[trigger] s[j].0 == k;
    assert(j == i);
}

proof fn lemma_entry_len<K, V>(s: Seq<(K, V)>)
    requires
        distinct_keys(s),
    ensures
        entry_map(s).dom().finite(),
        entry_map(s).dom().len() == s.len(),
        entry_keys(s).no_duplicates(),
        entry_keys(s).to_set() == entry_map(s).dom(),
{
    let ks = entry_keys(s);
    assert(ks.no_duplicates());
    ks.unique_seq_to_set();
    assert(ks.to_set() =~= entry_map(s).dom()) by {
        assert forall|k: K| ks.to_set().contains(k) == entry_map(s).dom().contains(k) by {
            if holds_key(s, k) {
                let i = choose|i: int| 0 <= i < s.len() && #[trigger] s[i].0 == k;
                assert(ks[i] == k);
            }
            if ks.contains(k) {
                let i = choose|i: int| 0 <= i < ks.len() && ks[i] == k;
                assert(s[i].0 == k);
            }
        }
    }
    vstd::seq_lib::seq_to_set_is_finite(ks);
}

proof fn lemma_push_entry<K, V>(s: Seq<(K, V)>, k: K, v: V)
    requires
        distinct_keys(s),
        !holds_key(s, k),
    ensures
        distinct_keys(s.push((k, v))),
        entry_map(s.push((k, v))) == entry_map(s).insert(k, v),
{
    let t = s.push((k, v));
    assert forall|i: int, j: int| 0 <= i < t.len() && 0 <= j < t.len() && i != j implies
        #[trigger] t[i].0 != #[trigger] t[j].0 by {
        if i == s.len() {
            assert(s[j].0 != k);
        } else if j == s.len() {
            assert(s[i].0 != k);
        } else {
            assert(s[i].0 != s[j].0);
        }
    }
    assert(entry_map(t) =~= entry_map(s).insert(k, v)) by {
        assert forall|q: K| #[trigger] entry_map(t).contains_key(q) == entry_map(s).insert(k, v).contains_key(q) by {
            if holds_key(s, q) {
                let i = choose|i: int| 0 <= i < s.len() && #[trigger] s[i].0 == q;
                assert(t[i].0 == q);
            }
            if q == k {
                assert(t[s.len() as int].0 == q);
            }
            if holds_key(t, q) && q != k {
                let i = choose|i: int| 0 <= i < t.len() && #[trigger] t[i].0 == q;
                assert(s[i].0 == q);
            }
        }
        assert forall|q: K| #[trigger] entry_map(t).contains_key(q) implies entry_map(t)[q] == entry_map(s).insert(k, v)[q] by {
            let i = choose|i: int| 0 <= i < t.len() && #[trigger] t[i].0 == q;
            lemma_value_at(t, i);
            if i < s.len() {
                lemma_value_at(s, i);
                assert(s[i].0 == q);
                assert(q != k);
            }
        }
    }
}

proof fn lemma_drop_entry<K, V>(s: Seq<(K, V)>, at: int)
    requires
        distinct_keys(s),
        0 <= at < s.len(),
    ensures
        distinct_keys(s.update(at, s.last()).drop_last()),
        entry_map(s.update(at, s.last()).drop_last()) == entry_map(s).remove(s[at].0),
{
    let t = s.update(at, s.last()).drop_last();
    let k = s[at].0;
    let n = s.len() - 1;
    assert forall|i: int| 0 <= i < t.len() implies #[trigger] t[i] == (if i == at { s[n] } else { s[i] }) by {}
    assert forall|i: int, j: int| 0 <= i < t.len() && 0 <= j < t.len() && i != j implies
        #[trigger] t[i].0 != #[trigger] t[j].0 by {
        let i2 = if i == at { n } else { i };
        let j2 = if j == at { n } else { j };
        assert(s[i2].0 != s[j2].0);
    }
    assert(entry_map(t) =~= entry_map(s).remove(k)) by {
        assert forall|q: K| #[trigger] entry_map(t).contains_key(q) == entry_map(s).remove(k).contains_key(q) by {
            if holds_key(t, q) {
                let i = choose|i: int| 0 <= i < t.len() && #[trigger] t[i].0 == q;
                let i2 = if i == at { n } else { i };
                assert(s[i2].0 == q);
                assert(s[i2].0 != s[at].0);
            }
            if holds_key(s, q) && q != k {
                let i = choose|i: int| 0 <= i < s.len() && #[trigger] s[i].0 == q;
                let i2 = if i == n { at } else { i };
                assert(t[i2].0 == q);
            }
        }
        assert forall|q: K| #[trigger] entry_map(t).contains_key(q) implies entry_map(t)[q] == entry_map(s).remove(k)[q] by {
            let i = choose|i: int| 0 <= i < t.len() && #[trigger] t[i].0 == q;
            let i2 = if i == at { n } else { i };
            lemma_value_at(t, i);
            lemma_value_at(s, i2);
            assert(s[i2].0 != s[at].0);
        }
    }
}

impl<K: Key, V> View for KeyMap<K, V> {
    type V = Map<K, V>;

    closed spec fn view(&self) -> Map<K, V> {
        entry_map(self.entries@)
    }
}

impl<K: Key, V> KeyMap<K, V> {
    #[verifier::type_invariant]
    spec fn inv(self) -> bool {
        distinct_keys(self.entries@)
    }

    /// The empty map.
    pub fn new() -> (r: Self)
        ensures
            r@ == Map::<K, V>::empty(),
    {
        let r = KeyMap { entries: Vec::new() };
        assert(r@ =~= Map::<K, V>::empty());
        r
    }

    fn find(&self, k: &K) -> (r: Option<usize>)
        ensures
            match r {
                Some(i) => i < self.entries@.len() && self.entries@[i as int].0 == *k,
                None => !holds_key(self.entries@, *k),
            },
    {
        let mut i: usize = 0;
        while i < self.entries.len()
            invariant
                i <= self.entries@.len(),
                forall|j: int| 0 <= j < i ==> #[trigger] self.entries@[j].0 != *k,
            decreases self.entries@.len() - i,
        {
            if self.entries[i].0.same(k) {
                return Some(i);
            }
            i = i + 1;
        }
        None
    }

    /// Number of keys.
    pub fn len(&self) -> (n: usize)
        ensures
            n == self@.dom().len(),
            self@.dom().finite(),
    {
        proof {
            use_type_invariant(self);
            lemma_entry_len(self.entries@);
        }
        self.entries.len()
    }

    /// True when no key is present.
    pub fn is_empty(&self) -> (b: bool)
        ensures
            b == (self@ == Map::<K, V>::empty()),
            b == (self@.dom().len() == 0),
    {
        proof {
            use_type_invariant(self);
            lemma_entry_len(self.entries@);
            if self@ == Map::<K, V>::empty() {
                assert(self@.dom() =~= Set::<K>::empty());
            }
            if self.entries@.len() == 0 {
                assert(self@ =~= Map::<K, V>::empty());
            }
        }
        self.entries.len() == 0
    }

    /// Is `k` present?
    pub fn contains_key(&self, k: &K) -> (b: bool)
        ensures
            b == self@.contains_key(*k),
    {
        self.find(k).is_some()
    }

    /// The value under `k`.
    pub fn get(&self, k: &K) -> (r: Option<&V>)
        ensures
            match r {
                Some(v) => self@.contains_key(*k) && *v == self@[*k],
                None => !self@.contains_key(*k),
            },
    {
        proof {
            use_type_invariant(self);
        }
        match self.find(k) {
            Some(i) => {
                proof {
                    lemma_value_at(self.entries@, i as int);
                }
                Some(&self.entries[i].1)
            },
            None => None,
        }
    }

    /// Remove `k` and hand back what it held.
    pub fn remove(&mut self, k: &K) -> (r: Option<V>)
        ensures
            final(self)@ == old(self)@.remove(*k),
            match r {
                Some(v) => old(self)@.contains_key(*k) && v == old(self)@[*k],
                None => !old(self)@.contains_key(*k),
            },
    {
        proof {
            use_type_invariant(&*self);
        }
        let at = self.find(k);
        match at {
            Some(i) => {
                proof {
                    lemma_value_at(self.entries@, i as int);
                    lemma_drop_entry(self.entries@, i as int);
                }
                let mut e: Vec<(K, V)> = Vec::new();
                std::mem::swap(&mut e, &mut self.entries);
                let (_, v) = e.swap_remove(i);
                self.entries = e;
                Some(v)
            },
            None => {
                assert(self@.remove(*k) =~= self@);
                None
            },
        }
    }

    /// Put `v` under `k`, in place of what was there.
    pub fn insert(&mut self, k: K, v: V)
        ensures
            final(self)@ == old(self)@.insert(k, v),
    {
        let ghost before = self@;
        self.remove(&k);
        proof {
            use_type_invariant(&*self);
            assert(!self@.contains_key(k));
            lemma_push_entry(self.entries@, k, v);
            assert(before.remove(k).insert(k, v) =~= before.insert(k, v));
        }
        let mut e: Vec<(K, V)> = Vec::new();
        std::mem::swap(&mut e, &mut self.entries);
        e.push((k, v));
        self.entries = e;
    }

    /// Every key once, in no stated order.
    pub fn keys(&self) -> (r: Vec<K>)
        ensures
            r@.no_duplicates(),
            r@.to_set() == self@.dom(),
            r@.len() == self@.dom().len(),
    {
        proof {
            use_type_invariant(self);
            lemma_entry_len(self.entries@);
        }
        let mut r: Vec<K> = Vec::new();
        let mut i: usize = 0;
        while i < self.entries.len()
            invariant
                i <= self.entries@.len(),
                r@.len() == i,
                forall|j: int| 0 <= j < i ==> #[trigger] r@[j] == self.entries@[j].0,
            decreases self.entries@.len() - i,
        {
            r.push(self.entries[i].0);
            i = i + 1;
        }
        assert(r@ =~= entry_keys(self.entries@));
        r
    }

    /// Drop every entry.
    pub fn clear(&mut self)
        ensures
            final(self)@ == Map::<K, V>::empty(),
    {
        self.entries = Vec::new();
        assert(self@ =~= Map::<K, V>::empty());
    }
}

/// Finite set of plain keys.
pub struct KeySet<K: Key> {
    items: Vec<K>,
}

impl<K: Key> View for KeySet<K> {
    type V = Set<K>;

    closed spec fn view(&self) -> Set<K> {
        self.items@.to_set()
    }
}

impl<K: Key> KeySet<K> {
    #[verifier::type_invariant]
    spec fn inv(self) -> bool {
        self.items@.no_duplicates()
    }

    /// The empty set.
    pub fn new() -> (r: Self)
        ensures
            r@ == Set::<K>::empty(),
    {
        let r = KeySet { items: Vec::new() };
        assert(r@ =~= Set::<K>::empty());
        r
    }

    fn find(&self, k: &K) -> (r: Option<usize>)
        ensures
            match r {
                Some(i) => i < self.items@.len() && self.items@[i as int] == *k,
                None => !self.items@.contains(*k),
            },
    {
        let mut i: usize = 0;
        while i < self.items.len()
            invariant
                i <= self.items@.len(),
                forall|j: int| 0 <= j < i ==> #[trigger] self.items@[j] != *k,
            decreases self.items@.len() - i,
        {
            if self.items[i].same(k) {
                return Some(i);
            }
            i = i + 1;
        }
        None
    }

    /// Number of members.
    pub fn len(&self) -> (n: usize)
        ensures
            n == self@.len(),
            self@.finite(),
    {
        proof {
            use_type_invariant(self);
            self.items@.unique_seq_to_set();
            vstd::seq_lib::seq_to_set_is_finite(self.items@);
        }
        self.items.len()
    }

    /// True when there is no member.
    pub fn is_empty(&self) -> (b: bool)
        ensures
            b == (self@ == Set::<K>::empty()),
            b == (self@.len() == 0),
    {
        proof {
            use_type_invariant(self);
            self.items@.unique_seq_to_set();
            if self.items@.len() == 0 {
                assert(self@ =~= Set::<K>::empty());
            }
        }
        self.items.len() == 0
    }

    /// Is `k` a member?
    pub fn contains(&self, k: &K) -> (b: bool)
        ensures
            b == self@.contains(*k),
    {
        self.find(k).is_some()
    }

    /// Add `k`; true when it was not a member before.
    pub fn insert(&mut self, k: K) -> (fresh: bool)
        ensures
            final(self)@ == old(self)@.insert(k),
            fresh == !old(self)@.contains(k),
    {
        if self.contains(&k) {
            assert(self@.insert(k) =~= self@);
            return false;
        }
        proof {
            use_type_invariant(&*self);
        }
        let mut e: Vec<K> = Vec::new();
        std::mem::swap(&mut e, &mut self.items);
        proof {
            e@.lemma_push_to_set_commute(k);
            assert(e@.push(k).no_duplicates());
        }
        e.push(k);
        self.items = e;
        true
    }

    /// Drop `k`; true when it was a member.
    pub fn remove(&mut self, k: &K) -> (was: bool)
        ensures
            final(self)@ == old(self)@.remove(*k),
            was == old(self)@.contains(*k),
    {
        let at = self.find(k);
        match at {
            Some(i) => {
                proof {
                    use_type_invariant(&*self);
                    let s = self.items@;
                    let t = s.update(i as int, s.last()).drop_last();
                    let n = s.len() - 1;
                    assert forall|a: int, b: int| 0 <= a < b < t.len() implies t[a] != t[b] by {
                        let a2 = if a == i { n } else { a };
                        let b2 = if b == i { n } else { b };
                        assert(s[a2] != s[b2]);
                    }
                    assert(t.to_set() =~= s.to_set().remove(*k)) by {
                        assert forall|q: K| t.to_set().contains(q) == s.to_set().remove(*k).contains(q) by {
                            if t.contains(q) {
                                let a = choose|a: int| 0 <= a < t.len() && t[a] == q;
                                let a2 = if a == i { n } else { a };
                                assert(s[a2] == q);
                                assert(s[a2] != s[i as int]);
                            }
                            if s.contains(q) && q != *k {
                                let a = choose|a: int| 0 <= a < s.len() && s[a] == q;
                                let a2 = if a == n { i as int } else { a };
                                assert(t[a2] == q);
                            }
                        }
                    }
                }
                let mut e: Vec<K> = Vec::new();
                std::mem::swap(&mut e, &mut self.items);
                let _ = e.swap_remove(i);
                self.items = e;
                true
            },
            None => {
                assert(self@.remove(*k) =~= self@);
                false
            },
        }
    }

    /// Every member once, in no stated order.
    pub fn members(&self) -> (r: Vec<K>)
        ensures
            r@.no_duplicates(),
            r@.to_set() == self@,
            r@.len() == self@.len(),
    {
        proof {
            use_type_invariant(self);
            self.items@.unique_seq_to_set();
        }
        let mut r: Vec<K> = Vec::new();
        let mut i: usize = 0;
        while i < self.items.len()
            invariant
                i <= self.items@.len(),
                r@.len() == i,
                forall|j: int| 0 <= j < i ==> #[trigger] r@[j] == self.items@[j],
            decreases self.items@.len() - i,
        {
            r.push(self.items[i]);
            i = i + 1;
        }
        assert(r@ =~= self.items@);
        r
    }

    /// Drop every member.
    pub fn clear(&mut self)
        ensures
            final(self)@ == Set::<K>::empty(),
    {
        self.items = Vec::new();
        assert(self@ =~= Set::<K>::empty());
    }
}

} // verus!

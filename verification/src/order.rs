//! Sorting of plain numbers.
use vstd::prelude::*;

verus! {

/// Ascending order on numbers.
pub open spec fn leq() -> spec_fn(u64, u64) -> bool {
    |a: u64, b: u64| a <= b
}

/// The numbers of `s` in ascending order.
pub open spec fn ascending(s: Seq<u64>) -> Seq<u64> {
    s.sort_by(leq())
}

/// Is `s` in ascending order?
pub open spec fn is_ascending(s: Seq<u64>) -> bool {
    forall|i: int, j: int| 0 <= i < j < s.len() ==> s[i] <= s[j]
}

/// Sorting keeps the length and every number.
pub proof fn lemma_ascending(s: Seq<u64>)
    ensures
        ascending(s).len() == s.len(),
        is_ascending(ascending(s)),
        ascending(s).to_multiset() == s.to_multiset(),
{
    assert(vstd::relations::total_ordering(leq()));
    s.lemma_sort_by_ensures(leq());
    let t = ascending(s);
    assert forall|i: int, j: int| 0 <= i < j < t.len() implies t[i] <= t[j] by {
        assert(leq()(t[i], t[j]));
    }
    s.to_multiset_ensures();
    t.to_multiset_ensures();
}

/// The items of `v` sorted by `leq`, which `le` decides.
pub(crate) fn sort_items<T: Copy, F: Fn(&T, &T) -> bool>(
    v: &Vec<T>,
    le: F,
    Ghost(leq): Ghost<spec_fn(T, T) -> bool>,
) -> (r: Vec<T>)
    requires
        vstd::relations::total_ordering(leq),
        forall|a: T, b: T| #[trigger] call_requires(le, (&a, &b)),
        forall|a: T, b: T, y: bool| #[trigger] call_ensures(le, (&a, &b), y) ==> y == leq(a, b),
    ensures
        r@ == v@.sort_by(leq),
{
    let mut out: Vec<T> = Vec::new();
    let mut i: usize = 0;
    assert(v@.take(0) =~= out@);
    while i < v.len()
        invariant
            vstd::relations::total_ordering(leq),
            forall|a: T, b: T| #[trigger] call_requires(le, (&a, &b)),
            forall|a: T, b: T, y: bool| #[trigger]
                call_ensures(le, (&a, &b), y) ==> y == leq(a, b),
            i <= v@.len(),
            out@.len() == i,
            vstd::relations::sorted_by(out@, leq),
            out@.to_multiset() == v@.take(i as int).to_multiset(),
        decreases v@.len() - i,
    {
        let x: T = v[i];
        let mut at: usize = 0;
        let n: usize = out.len();
        let mut more = n > 0;
        while more
            invariant
                n == out@.len(),
                at <= out@.len(),
                more ==> at < out@.len(),
                vstd::relations::sorted_by(out@, leq),
                vstd::relations::total_ordering(leq),
                forall|a: T, b: T| #[trigger] call_requires(le, (&a, &b)),
                forall|a: T, b: T, y: bool| #[trigger]
                    call_ensures(le, (&a, &b), y) ==> y == leq(a, b),
                forall|j: int| 0 <= j < at ==> leq(#[trigger] out@[j], x),
                !more ==> at == out@.len() || !leq(out@[at as int], x),
            decreases out@.len() - at, (if more { 1int } else { 0int }),
        {
            if le(&out[at], &x) {
                at = at + 1;
                more = at < n;
            } else {
                more = false;
            }
        }
        let ghost was = out@;
        out.insert(at, x);
        proof {
            was.insert_ensures(at as int, x);
            assert(out@ =~= was.insert(at as int, x));
            vstd::seq_lib::to_multiset_insert(was, at as int, x);
            assert(v@.take(i + 1) =~= v@.take(i as int).push(x));
            vstd::seq_lib::to_multiset_build(v@.take(i as int), x);
            assert(vstd::relations::sorted_by(out@, leq)) by {
                assert forall|a: int, b: int| 0 <= a < b < out@.len() implies #[trigger] leq(
                    out@[a],
                    out@[b],
                ) by {
                    let a2 = if a < at {
                        a
                    } else {
                        a - 1
                    };
                    let b2 = if b < at {
                        b
                    } else {
                        b - 1
                    };
                    if a != at && b != at {
                        assert(leq(was[a2], was[b2]));
                    } else if a == at {
                        assert(leq(x, was[at as int]));
                        if b2 != at {
                            assert(leq(was[at as int], was[b2]));
                        }
                    } else {
                        assert(leq(was[a2], x));
                    }
                }
            }
        }
        i = i + 1;
    }
    assert(v@.take(i as int) =~= v@);
    proof {
        v@.lemma_sort_by_ensures(leq);
        vstd::seq_lib::lemma_sorted_unique(out@, v@.sort_by(leq), leq);
    }
    out
}

/// The numbers of `v` in ascending order.
pub fn sorted(v: &Vec<u64>) -> (r: Vec<u64>)
    ensures
        r@ == ascending(v@),
{
    assert(vstd::relations::total_ordering(leq()));
    let le = |a: &u64, b: &u64| -> (y: bool)
        ensures
            y == leq()(*a, *b),
    {
        *a <= *b
    };
    sort_items(v, le, Ghost(leq()))
}

} // verus!

//! Stable ordering, stated once for every table the library sorts.
//!
//! A stable sort by a strict order `less` is what inserting the items one
//! after the other gives, each placed after every item already placed that it
//! does not precede. This is exactly how `slice::sort_by` orders items whose
//! comparator is a strict weak order.

use vstd::prelude::*;

verus! {

/// Index of the first item of `s`, at or after `from`, that `x` precedes.
pub open spec fn insert_pos<T>(s: Seq<T>, x: T, less: spec_fn(T, T) -> bool, from: int) -> int
    decreases s.len() - from,
{
    if from < 0 || from >= s.len() {
        s.len() as int
    } else if less(x, s[from]) {
        from
    } else {
        insert_pos(s, x, less, from + 1)
    }
}

/// `s` with `x` inserted after every item that `x` does not precede.
pub open spec fn stable_insert<T>(s: Seq<T>, x: T, less: spec_fn(T, T) -> bool) -> Seq<T> {
    s.insert(insert_pos(s, x, less, 0), x)
}

/// The stable sort of `s` by `less`.
pub open spec fn stable_sort<T>(s: Seq<T>, less: spec_fn(T, T) -> bool) -> Seq<T>
    decreases s.len(),
{
    if s.len() == 0 {
        s
    } else {
        stable_insert(stable_sort(s.drop_last(), less), s.last(), less)
    }
}

pub proof fn lemma_insert_pos_bounds<T>(s: Seq<T>, x: T, less: spec_fn(T, T) -> bool, from: int)
    requires
        0 <= from <= s.len(),
    ensures
        from <= insert_pos(s, x, less, from) <= s.len(),
        forall|k: int| from <= k < insert_pos(s, x, less, from) ==> !less(x, #[trigger] s[k]),
        insert_pos(s, x, less, from) < s.len() ==> less(x, s[insert_pos(s, x, less, from)]),
    decreases s.len() - from,
{
    if from < s.len() && !less(x, s[from]) {
        lemma_insert_pos_bounds(s, x, less, from + 1);
    }
}

pub proof fn lemma_stable_sort_len<T>(s: Seq<T>, less: spec_fn(T, T) -> bool)
    ensures
        stable_sort(s, less).len() == s.len(),
    decreases s.len(),
{
    if s.len() > 0 {
        lemma_stable_sort_len(s.drop_last(), less);
        lemma_insert_pos_bounds(stable_sort(s.drop_last(), less), s.last(), less, 0);
    }
}

/// One step of an insertion sort over a prefix.
pub proof fn lemma_stable_sort_step<T>(s: Seq<T>, i: int, less: spec_fn(T, T) -> bool)
    requires
        0 <= i < s.len(),
    ensures
        stable_sort(s.subrange(0, i + 1), less) == stable_insert(
            stable_sort(s.subrange(0, i), less),
            s[i],
            less,
        ),
{
    let p = s.subrange(0, i + 1);
    assert(p.drop_last() =~= s.subrange(0, i));
    assert(p.last() == s[i]);
}

/// Every item of a stable sort comes from the input, and the sort has as many
/// items as the input.
pub proof fn lemma_stable_sort_members<T>(s: Seq<T>, less: spec_fn(T, T) -> bool)
    ensures
        stable_sort(s, less).len() == s.len(),
        forall|k: int|
            0 <= k < s.len() ==> s.contains(#[trigger] stable_sort(s, less)[k]),
    decreases s.len(),
{
    lemma_stable_sort_len(s, less);
    if s.len() > 0 {
        let t = stable_sort(s.drop_last(), less);
        lemma_stable_sort_members(s.drop_last(), less);
        lemma_insert_pos_bounds(t, s.last(), less, 0);
        let p = insert_pos(t, s.last(), less, 0);
        assert forall|k: int| 0 <= k < s.len() implies s.contains(
            #[trigger] stable_sort(s, less)[k],
        ) by {
            if k < p {
                assert(stable_sort(s, less)[k] == t[k]);
                assert(s.drop_last().contains(t[k]));
                let j = choose|j: int| 0 <= j < s.drop_last().len() && s.drop_last()[j] == t[k];
                assert(s[j] == t[k]);
            } else if k == p {
                assert(s[s.len() - 1] == s.last());
            } else {
                assert(stable_sort(s, less)[k] == t[k - 1]);
                assert(s.drop_last().contains(t[k - 1]));
                let j = choose|j: int|
                    0 <= j < s.drop_last().len() && s.drop_last()[j] == t[k - 1];
                assert(s[j] == t[k - 1]);
            }
        }
    }
}


/// No later item of `s` precedes an earlier one.
pub open spec fn sorted_by<T>(s: Seq<T>, less: spec_fn(T, T) -> bool) -> bool {
    forall|i: int, j: int| 0 <= i < j < s.len() ==> !less(#[trigger] s[j], #[trigger] s[i])
}

/// `less` is a strict order: asymmetric and transitive.
pub open spec fn strict_order<T>(less: spec_fn(T, T) -> bool) -> bool {
    &&& forall|a: T, b: T| #[trigger] less(a, b) ==> !less(b, a)
    &&& forall|a: T, b: T, c: T| #[trigger] less(a, b) && #[trigger] less(b, c) ==> less(a, c)
}

/// A stable sort by a strict order is sorted.
pub proof fn lemma_stable_sort_sorted<T>(s: Seq<T>, less: spec_fn(T, T) -> bool)
    requires
        strict_order(less),
    ensures
        sorted_by(stable_sort(s, less), less),
    decreases s.len(),
{
    if s.len() > 0 {
        let t = stable_sort(s.drop_last(), less);
        let x = s.last();
        lemma_stable_sort_sorted(s.drop_last(), less);
        lemma_insert_pos_bounds(t, x, less, 0);
        let p = insert_pos(t, x, less, 0);
        let r = t.insert(p, x);
        assert(r == stable_sort(s, less));
        assert forall|i: int, j: int| 0 <= i < j < r.len() implies !less(#[trigger] r[j], #[trigger] r[i]) by {
            if j < p {
                assert(r[i] == t[i] && r[j] == t[j]);
            } else if j == p {
                assert(r[i] == t[i]);
            } else if i < p {
                assert(r[i] == t[i] && r[j] == t[j - 1]);
            } else if i == p {
                assert(r[j] == t[j - 1]);
                assert(less(x, t[p]));
                if less(t[j - 1], x) {
                    assert(less(t[j - 1], t[p]));
                    if j - 1 == p {
                        assert(!less(t[p], t[p]));
                    }
                }
            } else {
                assert(r[i] == t[i - 1] && r[j] == t[j - 1]);
            }
        }
    }
}

} // verus!

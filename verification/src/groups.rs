//! Groups of entries that share a key, and where a stable sort puts them.
//!
//! Entries that share a key form a group. A stable sort places the entries of
//! a group next to each other, ordered by rank and, among ties, by position.
//! The first and the last entry of each group are therefore the ends of a run
//! in the sorted sequence.

use vstd::prelude::*;
use crate::order::Ranked;
use crate::order::placed_before;
use crate::order::is_stable_sorting;
use crate::order::occurs;
use crate::order::lemma_asymmetric;
use crate::order::lemma_before_then_not_after;

verus! {

/// A ranked type whose values carry a key: the keys are totally ordered, and
/// the rank orders by key first.
pub trait Grouped: Ranked {
    /// Whether `self` and `other` have the same key.
    spec fn same_group(&self, other: &Self) -> bool;

    /// Whether the key of `self` comes strictly before the key of `other`.
    spec fn group_before(&self, other: &Self) -> bool;

    /// Sharing a key is an equivalence, the keys are totally ordered, and a
    /// value with a smaller key ranks first.
    proof fn lemma_group_order(a: &Self, b: &Self, c: &Self)
        ensures
            a.same_group(a),
            a.same_group(b) ==> b.same_group(a),
            a.same_group(b) && b.same_group(c) ==> a.same_group(c),
            a.group_before(b) || a.same_group(b) || b.group_before(a),
            !(a.group_before(b) && a.same_group(b)),
            !(a.group_before(b) && b.group_before(a)),
            a.group_before(b) && b.group_before(c) ==> a.group_before(c),
            a.same_group(b) && b.group_before(c) ==> a.group_before(c),
            a.group_before(b) && b.same_group(c) ==> a.group_before(c),
            a.group_before(b) ==> a.before(b),
            a.before(b) ==> !b.group_before(a),
    ;
}

/// Entry `i` of `all` is the one of its group that a stable sort places
/// first: no entry with the same key ranks before it, nor ties with it from an
/// earlier position.
pub open spec fn is_first_in_group<T: Grouped>(all: Seq<T>, i: int) -> bool {
    &&& 0 <= i < all.len()
    &&& forall|j: int|
        0 <= j < all.len() && (#[trigger] all[j]).same_group(&all[i]) ==> !placed_before(all, j, i)
}

/// Entry `i` of `all` is the one of its group that a stable sort places last:
/// no entry with the same key ranks after it, nor ties with it from a later
/// position.
pub open spec fn is_last_in_group<T: Grouped>(all: Seq<T>, i: int) -> bool {
    &&& 0 <= i < all.len()
    &&& forall|j: int|
        0 <= j < all.len() && (#[trigger] all[j]).same_group(&all[i]) ==> !placed_before(all, i, j)
}

/// Position `k` of `s` starts a run of entries with one key.
pub open spec fn starts_run<T: Grouped>(s: Seq<T>, k: int) -> bool {
    &&& 0 <= k < s.len()
    &&& k > 0 ==> !s[k - 1].same_group(&s[k])
}

/// Position `k` of `s` ends a run of entries with one key.
pub open spec fn ends_run<T: Grouped>(s: Seq<T>, k: int) -> bool {
    &&& 0 <= k < s.len()
    &&& k + 1 < s.len() ==> !s[k].same_group(&s[k + 1])
}

/// The placement order never holds both ways.
pub proof fn lemma_placed_asymmetric<T: Ranked>(all: Seq<T>, i: int, j: int)
    requires
        placed_before(all, i, j),
    ensures
        !placed_before(all, j, i),
{
    if all[i].before(&all[j]) {
        lemma_asymmetric(&all[i], &all[j]);
    }
}

/// Of two different entries one is placed before the other.
pub proof fn lemma_placed_connected<T: Ranked>(all: Seq<T>, i: int, j: int)
    requires
        i != j,
    ensures
        placed_before(all, i, j) || placed_before(all, j, i),
{
}

/// In sorted order the keys never go down.
pub proof fn lemma_keys_ascend<T: Grouped>(all: Seq<T>, s: Seq<T>, perm: Seq<int>, k1: int, k2: int)
    requires
        is_stable_sorting(all, s, perm),
        0 <= k1 <= k2 < s.len(),
    ensures
        !s[k2].group_before(&s[k1]),
{
    T::lemma_group_order(&s[k1], &s[k2], &s[k1]);
    T::lemma_group_order(&s[k2], &s[k1], &s[k2]);
    if k1 < k2 {
        assert(placed_before(all, perm[k1], perm[k2]));
    }
}

/// In sorted order the entries of one group stand next to each other.
pub proof fn lemma_group_contiguous<T: Grouped>(
    all: Seq<T>,
    s: Seq<T>,
    perm: Seq<int>,
    k1: int,
    m: int,
    k2: int,
)
    requires
        is_stable_sorting(all, s, perm),
        0 <= k1 <= m <= k2 < s.len(),
        s[k1].same_group(&s[k2]),
    ensures
        s[k1].same_group(&s[m]),
        s[m].same_group(&s[k2]),
{
    lemma_keys_ascend(all, s, perm, k1, m);
    lemma_keys_ascend(all, s, perm, m, k2);
    T::lemma_group_order(&s[k1], &s[m], &s[k2]);
    T::lemma_group_order(&s[k2], &s[k1], &s[m]);
    T::lemma_group_order(&s[m], &s[k1], &s[k2]);
    T::lemma_group_order(&s[k1], &s[k2], &s[m]);
}

/// The entry at the end of a run of the sorted sequence is the last of its
/// group, and no other is.
pub proof fn lemma_run_end_is_last<T: Grouped>(all: Seq<T>, s: Seq<T>, perm: Seq<int>, k: int)
    requires
        is_stable_sorting(all, s, perm),
        0 <= k < s.len(),
    ensures
        ends_run(s, k) <==> is_last_in_group(all, perm[k]),
{
    let i = perm[k];
    if ends_run(s, k) {
        assert forall|j: int| 0 <= j < all.len() && (#[trigger] all[j]).same_group(&all[i])
            implies !placed_before(all, i, j) by {
            assert(occurs(perm, j));
            let k2 = choose|k2: int| 0 <= k2 < perm.len() && #[trigger] perm[k2] == j;
            T::lemma_group_order(&all[j], &all[i], &all[j]);
            if k2 < k {
                assert(placed_before(all, perm[k2], perm[k]));
                lemma_placed_asymmetric(all, j, i);
            } else if k2 == k {
                T::lemma_irreflexive(&all[i]);
            } else {
                lemma_group_contiguous(all, s, perm, k, k + 1, k2);
            }
        }
    } else {
        assert(placed_before(all, perm[k], perm[k + 1]));
        T::lemma_group_order(&s[k], &s[k + 1], &s[k]);
    }
}

/// The entry at the start of a run of the sorted sequence is the first of
/// its group, and no other is.
pub proof fn lemma_run_start_is_first<T: Grouped>(all: Seq<T>, s: Seq<T>, perm: Seq<int>, k: int)
    requires
        is_stable_sorting(all, s, perm),
        0 <= k < s.len(),
    ensures
        starts_run(s, k) <==> is_first_in_group(all, perm[k]),
{
    let i = perm[k];
    if starts_run(s, k) {
        assert forall|j: int| 0 <= j < all.len() && (#[trigger] all[j]).same_group(&all[i])
            implies !placed_before(all, j, i) by {
            assert(occurs(perm, j));
            let k2 = choose|k2: int| 0 <= k2 < perm.len() && #[trigger] perm[k2] == j;
            T::lemma_group_order(&all[j], &all[i], &all[j]);
            if k2 > k {
                assert(placed_before(all, perm[k], perm[k2]));
                lemma_placed_asymmetric(all, i, j);
            } else if k2 == k {
                T::lemma_irreflexive(&all[i]);
            } else {
                lemma_group_contiguous(all, s, perm, k2, k - 1, k);
                T::lemma_group_order(&s[k - 1], &s[k], &s[k2]);
            }
        }
    } else {
        assert(placed_before(all, perm[k - 1], perm[k]));
        T::lemma_group_order(&s[k - 1], &s[k], &s[k - 1]);
    }
}

/// The placement order is transitive.
pub proof fn lemma_placed_transitive<T: Ranked>(all: Seq<T>, i: int, j: int, k: int)
    requires
        placed_before(all, i, j),
        placed_before(all, j, k),
    ensures
        placed_before(all, i, k),
{
    let a = &all[i];
    let b = &all[j];
    let c = &all[k];
    if a.before(b) {
        if b.before(c) {
            T::lemma_transitive(a, b, c);
        } else {
            lemma_before_then_not_after(a, b, c);
        }
    } else {
        if b.before(c) {
            if !a.before(c) {
                if c.before(a) {
                    T::lemma_transitive(b, c, a);
                } else {
                    T::lemma_ties_transitive(c, a, b);
                }
            }
        } else {
            T::lemma_ties_transitive(a, b, c);
        }
    }
}

/// The entry with the key of entry `i` that is placed last among the first
/// `n` entries, or `i` itself where none of them is placed after it.
pub open spec fn last_of_group_within<T: Grouped>(all: Seq<T>, i: int, n: int) -> int
    decreases n,
{
    if n <= 0 {
        i
    } else {
        let r = last_of_group_within(all, i, n - 1);
        if all[n - 1].same_group(&all[i]) && placed_before(all, r, n - 1) {
            n - 1
        } else {
            r
        }
    }
}

proof fn lemma_last_of_group_within<T: Grouped>(all: Seq<T>, i: int, n: int)
    requires
        0 <= i < all.len(),
        0 <= n <= all.len(),
    ensures
        0 <= last_of_group_within(all, i, n) < all.len(),
        all[last_of_group_within(all, i, n)].same_group(&all[i]),
        !placed_before(all, last_of_group_within(all, i, n), i),
        forall|j: int|
            0 <= j < n && (#[trigger] all[j]).same_group(&all[i]) ==> !placed_before(
                all,
                last_of_group_within(all, i, n),
                j,
            ),
    decreases n,
{
    T::lemma_group_order(&all[i], &all[i], &all[i]);
    T::lemma_irreflexive(&all[i]);
    if n > 0 {
        lemma_last_of_group_within(all, i, n - 1);
        let r0 = last_of_group_within(all, i, n - 1);
        let r = last_of_group_within(all, i, n);
        T::lemma_irreflexive(&all[n - 1]);
        if r != r0 {
            if placed_before(all, r, i) {
                lemma_placed_transitive(all, r0, r, i);
            }
        }
        assert forall|j: int|
            0 <= j < n && (#[trigger] all[j]).same_group(&all[i]) implies !placed_before(
            all,
            r,
            j,
        ) by {
            if j < n - 1 {
                assert(!placed_before(all, r0, j));
                if r != r0 && placed_before(all, r, j) {
                    lemma_placed_transitive(all, r0, r, j);
                }
            }
        }
    }
}

/// Every group has an entry that is placed last, and entry `i` is not placed
/// after it.
pub proof fn lemma_group_has_last<T: Grouped>(all: Seq<T>, i: int) -> (l: int)
    requires
        0 <= i < all.len(),
    ensures
        is_last_in_group(all, l),
        all[l].same_group(&all[i]),
        !placed_before(all, l, i),
{
    let l = last_of_group_within(all, i, all.len() as int);
    lemma_last_of_group_within(all, i, all.len() as int);
    assert forall|j: int| 0 <= j < all.len() && (#[trigger] all[j]).same_group(&all[l])
        implies !placed_before(all, l, j) by {
        T::lemma_group_order(&all[j], &all[l], &all[i]);
    }
    l
}

/// A group has one last entry only.
pub proof fn lemma_last_unique<T: Grouped>(all: Seq<T>, l1: int, l2: int)
    requires
        is_last_in_group(all, l1),
        is_last_in_group(all, l2),
        all[l1].same_group(&all[l2]),
    ensures
        l1 == l2,
{
    T::lemma_group_order(&all[l1], &all[l2], &all[l1]);
    if l1 != l2 {
        lemma_placed_connected(all, l1, l2);
    }
}

/// A group has one first entry only.
pub proof fn lemma_first_unique<T: Grouped>(all: Seq<T>, f1: int, f2: int)
    requires
        is_first_in_group(all, f1),
        is_first_in_group(all, f2),
        all[f1].same_group(&all[f2]),
    ensures
        f1 == f2,
{
    T::lemma_group_order(&all[f1], &all[f2], &all[f1]);
    if f1 != f2 {
        lemma_placed_connected(all, f1, f2);
    }
}

/// `s` lists its entries by key, each key once.
pub open spec fn strictly_by_group<T: Grouped>(s: Seq<T>) -> bool {
    forall|a: int, b: int| #![trigger s[a], s[b]] 0 <= a < b < s.len() ==> s[a].group_before(&s[b])
}

/// Two sequences that list the same entries by key, each key once, are equal.
pub proof fn lemma_listing_unique<T: Grouped>(x: Seq<T>, y: Seq<T>)
    requires
        strictly_by_group(x),
        strictly_by_group(y),
        forall|k: int| 0 <= k < x.len() ==> y.contains(#[trigger] x[k]),
        forall|k: int| 0 <= k < y.len() ==> x.contains(#[trigger] y[k]),
    ensures
        x == y,
    decreases x.len(),
{
    if x.len() == 0 {
        if y.len() > 0 {
            assert(x.contains(y[0]));
        }
        assert(x =~= y);
    } else {
        assert(y.contains(x[0]));
        let j = choose|j: int| 0 <= j < y.len() && y[j] == x[0];
        assert(x.contains(y[0]));
        let i = choose|i: int| 0 <= i < x.len() && x[i] == y[0];
        T::lemma_group_order(&x[0], &x[i], &x[0]);
        assert(j == 0);
        let xt = x.drop_first();
        let yt = y.drop_first();
        assert forall|k: int| 0 <= k < xt.len() implies yt.contains(#[trigger] xt[k]) by {
            assert(xt[k] == x[k + 1]);
            assert(y.contains(x[k + 1]));
            let m = choose|m: int| 0 <= m < y.len() && y[m] == x[k + 1];
            T::lemma_group_order(&x[0], &x[k + 1], &x[0]);
            assert(m != 0);
            assert(yt[m - 1] == xt[k]);
        }
        assert forall|k: int| 0 <= k < yt.len() implies xt.contains(#[trigger] yt[k]) by {
            assert(yt[k] == y[k + 1]);
            assert(x.contains(y[k + 1]));
            let m = choose|m: int| 0 <= m < x.len() && x[m] == y[k + 1];
            T::lemma_group_order(&y[0], &y[k + 1], &y[0]);
            assert(m != 0);
            assert(xt[m - 1] == yt[k]);
        }
        assert forall|a: int, b: int| #![trigger xt[a], xt[b]] 0 <= a < b < xt.len() implies xt[a].group_before(
            &xt[b],
        ) by {
            assert(x[a + 1].group_before(&x[b + 1]));
        }
        assert forall|a: int, b: int| #![trigger yt[a], yt[b]] 0 <= a < b < yt.len() implies yt[a].group_before(
            &yt[b],
        ) by {
            assert(y[a + 1].group_before(&y[b + 1]));
        }
        lemma_listing_unique(xt, yt);
        assert(x =~= seq![x[0]] + xt);
        assert(y =~= seq![y[0]] + yt);
    }
}

} // verus!

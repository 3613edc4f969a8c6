//! Stable sorting of a vector by a strict weak order.

use vstd::prelude::*;

verus! {

/// A type whose values are ranked by a strict weak order: values may tie, and
/// tying is an equivalence.
pub trait Ranked: Sized {
    /// Whether `self` ranks strictly before `other`.
    spec fn before(&self, other: &Self) -> bool;

    /// Decides `before`.
    fn precedes(&self, other: &Self) -> (r: bool)
        ensures
            r == self.before(other),
    ;

    /// Nothing ranks before itself.
    proof fn lemma_irreflexive(a: &Self)
        ensures
            !a.before(a),
    ;

    /// Ranking before is transitive.
    proof fn lemma_transitive(a: &Self, b: &Self, c: &Self)
        requires
            a.before(b),
            b.before(c),
        ensures
            a.before(c),
    ;

    /// Tying is transitive.
    proof fn lemma_ties_transitive(a: &Self, b: &Self, c: &Self)
        requires
            !a.before(b),
            !b.before(a),
            !b.before(c),
            !c.before(b),
        ensures
            !a.before(c),
            !c.before(a),
    ;
}

/// The order in which a stable sort places the entries `i` and `j` of `all`:
/// by rank, and among ties by position.
pub open spec fn placed_before<T: Ranked>(all: Seq<T>, i: int, j: int) -> bool {
    all[i].before(&all[j]) || (!all[j].before(&all[i]) && i < j)
}

/// Whether `j` occurs in `perm`.
pub open spec fn occurs(perm: Seq<int>, j: int) -> bool {
    exists|k: int| 0 <= k < perm.len() && #[trigger] perm[k] == j
}

/// `sorted` holds the entries of `all` in their stable sorted order, and
/// `perm[k]` is the position in `all` of the entry `sorted[k]`.
pub open spec fn is_stable_sorting<T: Ranked>(all: Seq<T>, sorted: Seq<T>, perm: Seq<int>) -> bool {
    &&& sorted.len() == all.len()
    &&& perm.len() == all.len()
    &&& forall|k: int|
        0 <= k < perm.len() ==> 0 <= #[trigger] perm[k] < all.len() && sorted[k] == all[perm[k]]
    &&& forall|j: int| 0 <= j < all.len() ==> #[trigger] occurs(perm, j)
    &&& forall|k1: int, k2: int|
        0 <= k1 < k2 < perm.len() ==> placed_before(all, #[trigger] perm[k1], #[trigger] perm[k2])
}

/// No two values rank before each other.
pub proof fn lemma_asymmetric<T: Ranked>(a: &T, b: &T)
    requires
        a.before(b),
    ensures
        !b.before(a),
{
    if b.before(a) {
        T::lemma_transitive(a, b, a);
        T::lemma_irreflexive(a);
    }
}

/// Whoever ranks before an entry also ranks before every entry that the
/// first does not rank after.
pub proof fn lemma_before_then_not_after<T: Ranked>(a: &T, b: &T, c: &T)
    requires
        a.before(b),
        !c.before(b),
    ensures
        a.before(c),
{
    if !a.before(c) {
        if c.before(a) {
            T::lemma_transitive(c, a, b);
        } else {
            if b.before(c) {
                T::lemma_transitive(a, b, c);
            } else {
                T::lemma_ties_transitive(a, c, b);
            }
        }
    }
}

/// The entries of `v` in reverse order.
pub fn reversed<T>(v: Vec<T>) -> (r: Vec<T>)
    ensures
        r.len() == v.len(),
        forall|k: int| 0 <= k < r.len() ==> r[k] == v[v.len() - 1 - k],
{
    let ghost all = v@;
    let mut v = v;
    let mut r: Vec<T> = Vec::new();
    while v.len() > 0
        invariant
            v.len() + r.len() == all.len(),
            v@ == all.subrange(0, v.len() as int),
            forall|k: int| 0 <= k < r.len() ==> r[k] == all[all.len() - 1 - k],
        decreases v.len(),
    {
        let x = v.pop().unwrap();
        r.push(x);
    }
    r
}

/// Sorts `v` by rank, keeping entries that tie in the order they had. The
/// entries are inserted one by one from the back, which is quick where `v` is
/// nearly sorted already and quadratic at worst.
pub fn stable_sort<T: Ranked>(v: &mut Vec<T>)
    ensures
        exists|perm: Seq<int>| is_stable_sorting(old(v)@, final(v)@, perm),
{
    let ghost all = v@;
    let n = v.len();
    let mut taken: Vec<T> = Vec::new();
    std::mem::swap(v, &mut taken);
    // The entries in reverse, so that they can be taken first to last.
    let mut rest = reversed(taken);
    let mut out: Vec<T> = Vec::new();
    let ghost mut perm: Seq<int> = Seq::empty();
    while rest.len() > 0
        invariant
            n == all.len(),
            out.len() + rest.len() == n,
            perm.len() == out.len(),
            forall|k: int| 0 <= k < rest.len() ==> rest[k] == all[n - 1 - k],
            forall|k: int|
                0 <= k < perm.len() ==> 0 <= #[trigger] perm[k] < out.len() && out[k]
                    == all[perm[k]],
            forall|j: int| 0 <= j < out.len() ==> #[trigger] occurs(perm, j),
            forall|k1: int, k2: int|
                0 <= k1 < k2 < perm.len() ==> placed_before(
                    all,
                    #[trigger] perm[k1],
                    #[trigger] perm[k2],
                ),
        decreases rest.len(),
    {
        let ghost i = out.len() as int;
        let x = rest.pop().unwrap();
        assert(x == all[i]);
        // The entry goes behind the last one that it does not rank before.
        let mut p: usize = out.len();
        while p > 0 && x.precedes(&out[p - 1])
            invariant
                p <= out.len(),
                forall|k: int| p <= k < out.len() ==> x.before(&out[k]),
            decreases p,
        {
            p -= 1;
        }
        proof {
            assert forall|k: int| 0 <= k < p implies !x.before(&out[k]) by {
                if x.before(&out[k]) {
                    if k < p - 1 {
                        assert(placed_before(all, perm[k], perm[p - 1]));
                        if out[k].before(&out[p - 1]) {
                            lemma_asymmetric(&out[k], &out[p - 1]);
                        }
                        lemma_before_then_not_after(&x, &out[k], &out[p - 1]);
                    }
                }
            }
        }
        let ghost old_perm = perm;
        let ghost old_out = out@;
        out.insert(p, x);
        proof {
            perm = old_perm.insert(p as int, i);
            assert forall|k: int| 0 <= k < perm.len() implies 0 <= #[trigger] perm[k] < out.len()
                && out[k] == all[perm[k]] by {
                if k < p {
                    assert(perm[k] == old_perm[k]);
                } else if k > p {
                    assert(perm[k] == old_perm[k - 1]);
                }
            }
            assert forall|j: int| 0 <= j < out.len() implies #[trigger] occurs(perm, j) by {
                if j < i {
                    assert(occurs(old_perm, j));
                    let k0 = choose|k: int| 0 <= k < old_perm.len() && #[trigger] old_perm[k] == j;
                    if k0 < p {
                        assert(perm[k0] == j);
                    } else {
                        assert(perm[k0 + 1] == j);
                    }
                } else {
                    assert(perm[p as int] == j);
                }
            }
            assert forall|k1: int, k2: int| 0 <= k1 < k2 < perm.len() implies placed_before(
                all,
                #[trigger] perm[k1],
                #[trigger] perm[k2],
            ) by {
                let a1 = if k1 < p { k1 } else { k1 - 1 };
                let a2 = if k2 < p { k2 } else { k2 - 1 };
                if k1 == p {
                    assert(perm[k2] == old_perm[a2]);
                    assert(x.before(&old_out[a2]));
                } else if k2 == p {
                    assert(perm[k1] == old_perm[a1]);
                    assert(!x.before(&old_out[a1]));
                    assert(old_perm[a1] < i);
                } else {
                    assert(perm[k1] == old_perm[a1]);
                    assert(perm[k2] == old_perm[a2]);
                    assert(placed_before(all, old_perm[a1], old_perm[a2]));
                }
            }
        }
    }
    *v = out;
    assert(is_stable_sorting(all, v@, perm));
}

} // verus!

//! Merging freshly fetched modules into the stored ones.

use vstd::prelude::*;
use crate::data::DataItems;
use crate::module::Module;
use crate::module::listed_before;
use crate::module::same_offering;
use crate::module::lemma_offering_order;
use crate::order::stable_sort;
use crate::order::reversed;
use crate::order::is_stable_sorting;
use crate::order::occurs;
use crate::order::placed_before;
use crate::groups::is_last_in_group;
use crate::groups::ends_run;
use crate::groups::lemma_run_end_is_last;
use crate::groups::lemma_group_contiguous;
use crate::groups::lemma_keys_ascend;
use crate::groups::lemma_listing_unique;
use crate::groups::lemma_group_has_last;
use crate::order::lemma_before_then_not_after;
use crate::order::lemma_asymmetric;
use crate::order::Ranked;
use crate::groups::Grouped;

verus! {

/// Entry `i` of `all` is the record of its offering that a merge keeps: no
/// record of the same offering has a later `last_updated`, nor the same one at
/// a later position, and its own `last_updated` is not the epoch.
pub open spec fn is_newest<M>(all: Seq<Module<M>>, i: int) -> bool {
    is_last_in_group(all, i) && !all[i].last_updated.is_epoch()
}

/// The record `e` is one that a merge of `all` keeps.
pub open spec fn is_newest_record<M>(all: Seq<Module<M>>, e: Module<M>) -> bool {
    exists|i: int| #[trigger] is_newest(all, i) && all[i] == e
}

/// `out` is what merging leaves of the records `all`: the newest record of
/// each offering and nothing else, listed by offering.
pub open spec fn merged_modules<M>(all: Seq<Module<M>>, out: Seq<Module<M>>) -> bool {
    &&& forall|a: int, b: int|
        0 <= a < b < out.len() ==> listed_before(&#[trigger] out[a], &#[trigger] out[b])
    &&& forall|i: int| #[trigger] is_newest(all, i) ==> out.contains(all[i])
    &&& forall|k: int| 0 <= k < out.len() ==> is_newest_record(all, #[trigger] out[k])
}

/// Position `k` of the sorted records `s` holds a record that stays.
spec fn stays<M>(s: Seq<Module<M>>, k: int) -> bool {
    ends_run(s, k) && !s[k].last_updated.is_epoch()
}

/// `out` holds the records of `s` that stay, in their order; `idx` gives
/// their positions in `s`.
spec fn is_selection<M>(s: Seq<Module<M>>, out: Seq<Module<M>>, idx: Seq<int>) -> bool {
    &&& idx.len() == out.len()
    &&& forall|m: int| 0 <= m < idx.len() ==> stays(s, #[trigger] idx[m]) && out[m] == s[idx[m]]
    &&& forall|m1: int, m2: int| 0 <= m1 < m2 < idx.len() ==> idx[m1] < idx[m2]
    &&& forall|k: int| #[trigger] stays(s, k) ==> occurs(idx, k)
}

/// Keeps, of sorted records, the last of each run of one offering, unless
/// its time is the epoch.
fn newest_of_runs<M>(sorted: Vec<Module<M>>) -> (r: (Vec<Module<M>>, Ghost<Seq<int>>))
    ensures
        is_selection(sorted@, r.0@, r.1@),
{
    let ghost s = sorted@;
    let n = sorted.len();
    let mut rest = reversed(sorted);
    let mut out: Vec<Module<M>> = Vec::new();
    let ghost mut idx: Seq<int> = Seq::empty();
    let mut held: Option<Module<M>> = None;
    while rest.len() > 0
        invariant
            n == s.len(),
            rest.len() <= n,
            forall|k: int| 0 <= k < rest.len() ==> rest[k] == s[n - 1 - k],
            held is Some <==> rest.len() < n,
            held is Some ==> held->0 == s[n - rest.len() - 1],
            idx.len() == out.len(),
            forall|m: int|
                0 <= m < idx.len() ==> stays(s, #[trigger] idx[m]) && out[m] == s[idx[m]]
                    && idx[m] < n - rest.len() - 1,
            forall|m1: int, m2: int| 0 <= m1 < m2 < idx.len() ==> idx[m1] < idx[m2],
            forall|k: int| k < n - rest.len() - 1 && #[trigger] stays(s, k) ==> occurs(idx, k),
        decreases rest.len(),
    {
        let ghost i = n - rest.len();
        let x = rest.pop().unwrap();
        assert(x == s[i]);
        let ghost old_idx = idx;
        if let Some(p) = held {
            if !p.last_updated.is_unix_epoch() && !(p.term == x.term && p.code == x.code) {
                out.push(p);
                proof {
                    idx = idx.push(i - 1);
                }
            }
        }
        held = Some(x);
        proof {
            assert forall|k: int| k < n - rest.len() - 1 && #[trigger] stays(s, k) implies occurs(
                idx,
                k,
            ) by {
                if k < i - 1 {
                    assert(occurs(old_idx, k));
                    let w = choose|w: int| 0 <= w < old_idx.len() && #[trigger] old_idx[w] == k;
                    assert(idx[w] == k);
                } else {
                    assert(idx[idx.len() - 1] == k);
                }
            }
        }
    }
    let ghost old_idx = idx;
    if let Some(p) = held {
        if !p.last_updated.is_unix_epoch() {
            out.push(p);
            proof {
                idx = idx.push(n - 1);
            }
        }
    }
    proof {
        assert forall|k: int| #[trigger] stays(s, k) implies occurs(idx, k) by {
            if k < n - 1 {
                assert(occurs(old_idx, k));
                let w = choose|w: int| 0 <= w < old_idx.len() && #[trigger] old_idx[w] == k;
                assert(idx[w] == k);
            } else {
                assert(idx[idx.len() - 1] == k);
            }
        }
    }
    (out, Ghost(idx))
}

/// The records that stay in the sorted sequence are the merge of the
/// unsorted one.
proof fn lemma_selection_is_merge<M>(
    all: Seq<Module<M>>,
    s: Seq<Module<M>>,
    perm: Seq<int>,
    out: Seq<Module<M>>,
    idx: Seq<int>,
)
    requires
        is_stable_sorting(all, s, perm),
        is_selection(s, out, idx),
    ensures
        merged_modules(all, out),
{
    assert forall|a: int, b: int| 0 <= a < b < out.len() implies listed_before(
        &#[trigger] out[a],
        &#[trigger] out[b],
    ) by {
        let ka = idx[a];
        let kb = idx[b];
        assert(stays(s, ka) && stays(s, kb));
        lemma_keys_ascend(all, s, perm, ka, kb);
        lemma_offering_order(&s[ka], &s[kb], &s[ka]);
        if same_offering(&s[ka], &s[kb]) {
            lemma_group_contiguous(all, s, perm, ka, ka + 1, kb);
        }
    }
    assert forall|i: int| #[trigger] is_newest(all, i) implies out.contains(all[i]) by {
        assert(occurs(perm, i));
        let k = choose|k: int| 0 <= k < perm.len() && #[trigger] perm[k] == i;
        lemma_run_end_is_last(all, s, perm, k);
        assert(stays(s, k));
        assert(occurs(idx, k));
        let m = choose|m: int| 0 <= m < idx.len() && #[trigger] idx[m] == k;
        assert(out[m] == all[i]);
    }
    assert forall|k: int| 0 <= k < out.len() implies is_newest_record(all, #[trigger] out[k]) by {
        let q = idx[k];
        assert(stays(s, q));
        lemma_run_end_is_last(all, s, perm, q);
        assert(is_newest(all, perm[q]));
    }
}

/// Merges the freshly fetched modules `new` into the stored `modules`.
///
/// The envelope takes the time and the fetch status of `new`. Of the records
/// of both lists, stored ones first, the newest of each offering stays; they
/// are listed by term, later terms first, and then by code.
pub fn merge_modules<M>(modules: &mut DataItems<Module<M>>, new: DataItems<Module<M>>)
    ensures
        final(modules).last_updated == new.last_updated,
        final(modules).fetch_status == new.fetch_status,
        merged_modules(old(modules).items@ + new.items@, final(modules).items@),
{
    let mut new = new;
    modules.last_updated = new.last_updated;
    modules.fetch_status = new.fetch_status;
    let mut items: Vec<Module<M>> = Vec::new();
    std::mem::swap(&mut modules.items, &mut items);
    items.append(&mut new.items);
    let ghost all = items@;
    stable_sort(&mut items);
    let ghost perm = choose|perm: Seq<int>| is_stable_sorting(all, items@, perm);
    let ghost s = items@;
    let (kept, Ghost(idx)) = newest_of_runs(items);
    proof {
        lemma_selection_is_merge(all, s, perm, kept@, idx);
    }
    modules.items = kept;
}

/// A merge has one result only.
pub proof fn lemma_merged_modules_unique<M>(
    all: Seq<Module<M>>,
    x: Seq<Module<M>>,
    y: Seq<Module<M>>,
)
    requires
        merged_modules(all, x),
        merged_modules(all, y),
    ensures
        x == y,
{
    assert forall|k: int| 0 <= k < x.len() implies y.contains(#[trigger] x[k]) by {
        assert(is_newest_record(all, x[k]));
        let i = choose|i: int| #[trigger] is_newest(all, i) && all[i] == x[k];
        assert(y.contains(all[i]));
    }
    assert forall|k: int| 0 <= k < y.len() implies x.contains(#[trigger] y[k]) by {
        assert(is_newest_record(all, y[k]));
        let i = choose|i: int| #[trigger] is_newest(all, i) && all[i] == y[k];
        assert(x.contains(all[i]));
    }
    lemma_listing_unique(x, y);
}

/// Deduplication: after a merge each offering has at most one record; an
/// offering has one as soon as one of its records carries a time other than
/// the epoch; and the record that stays is one of those merged, with a time
/// that none of its offering exceeds.
pub proof fn lemma_one_record_per_offering<M>(all: Seq<Module<M>>, out: Seq<Module<M>>)
    requires
        merged_modules(all, out),
    ensures
        forall|a: int, b: int|
            0 <= a < b < out.len() ==> !same_offering(&#[trigger] out[a], &#[trigger] out[b]),
        forall|i: int|
            0 <= i < all.len() && !(#[trigger] all[i]).last_updated.is_epoch() ==> exists|k: int|
                0 <= k < out.len() && same_offering(&#[trigger] out[k], &all[i]),
        forall|k: int| 0 <= k < out.len() ==> all.contains(#[trigger] out[k]),
        forall|k: int, i: int|
            0 <= k < out.len() && 0 <= i < all.len() && same_offering(
                &#[trigger] out[k],
                &#[trigger] all[i],
            ) ==> !out[k].last_updated.earlier_than(all[i].last_updated),
{
    assert forall|a: int, b: int| 0 <= a < b < out.len() implies !same_offering(
        &#[trigger] out[a],
        &#[trigger] out[b],
    ) by {
        lemma_offering_order(&out[a], &out[b], &out[a]);
    }
    assert forall|i: int|
        0 <= i < all.len() && !(#[trigger] all[i]).last_updated.is_epoch() implies exists|k: int|
        0 <= k < out.len() && same_offering(&#[trigger] out[k], &all[i]) by {
        let l = lemma_group_has_last(all, i);
        lemma_offering_order(&all[l], &all[i], &all[l]);
        assert(is_newest(all, l));
        assert(out.contains(all[l]));
        let k = choose|k: int| 0 <= k < out.len() && out[k] == all[l];
        assert(same_offering(&out[k], &all[i]));
    }
    assert forall|k: int| 0 <= k < out.len() implies all.contains(#[trigger] out[k]) by {
        assert(is_newest_record(all, out[k]));
    }
    assert forall|k: int, i: int|
        0 <= k < out.len() && 0 <= i < all.len() && same_offering(
            &#[trigger] out[k],
            &#[trigger] all[i],
        ) implies !out[k].last_updated.earlier_than(all[i].last_updated) by {
        assert(is_newest_record(all, out[k]));
        let l = choose|l: int| #[trigger] is_newest(all, l) && all[l] == out[k];
        lemma_offering_order(&all[i], &all[l], &all[i]);
        assert(!placed_before(all, l, i));
    }
}

/// What a merge leaves is its own merge: merging it once more, with nothing
/// added, changes nothing.
pub proof fn lemma_merge_idempotent<M>(all: Seq<Module<M>>, out: Seq<Module<M>>)
    requires
        merged_modules(all, out),
    ensures
        merged_modules(out, out),
        merged_modules(out + Seq::<Module<M>>::empty(), out),
{
    assert forall|k: int| 0 <= k < out.len() implies #[trigger] is_newest(out, k) by {
        assert(is_newest_record(all, out[k]));
        assert forall|j: int| 0 <= j < out.len() && (#[trigger] out[j]).same_group(&out[k])
            implies !placed_before(out, k, j) by {
            lemma_offering_order(&out[j], &out[k], &out[j]);
            if j < k {
                assert(listed_before(&out[j], &out[k]));
            } else if j > k {
                assert(listed_before(&out[k], &out[j]));
            } else {
                Module::<M>::lemma_irreflexive(&out[k]);
            }
        }
    }
    assert forall|k: int| 0 <= k < out.len() implies is_newest_record(out, #[trigger] out[k]) by {
        assert(is_newest(out, k));
    }
    assert(out + Seq::<Module<M>>::empty() =~= out);
}

/// The position in `pre + m + post` of the entry that stands outside the
/// middle part at position `i` of `pre + mid + post`.
spec fn shifted(pre_len: int, mid_len: int, m_len: int, i: int) -> int {
    if i < pre_len {
        i
    } else {
        i - mid_len + m_len
    }
}

/// A record outside the merged part that is the newest before the part is
/// merged is the newest after.
proof fn lemma_newest_outside_forth<M>(
    pre: Seq<Module<M>>,
    mid: Seq<Module<M>>,
    post: Seq<Module<M>>,
    m: Seq<Module<M>>,
    i: int,
)
    requires
        merged_modules(mid, m),
        is_newest(pre + mid + post, i),
        i < pre.len() || i >= pre.len() + mid.len(),
    ensures
        is_newest(pre + m + post, shifted(pre.len() as int, mid.len() as int, m.len() as int, i)),
        (pre + m + post)[shifted(pre.len() as int, mid.len() as int, m.len() as int, i)] == (pre
            + mid + post)[i],
{
    let all3 = pre + mid + post;
    let all2 = pre + m + post;
    let p = pre.len() as int;
    let d = mid.len() as int;
    let e = m.len() as int;
    let i2 = shifted(p, d, e, i);
    assert(all2[i2] == all3[i]);
    assert forall|j2: int| 0 <= j2 < all2.len() && (#[trigger] all2[j2]).same_group(&all2[i2])
        implies !placed_before(all2, i2, j2) by {
        if placed_before(all2, i2, j2) {
            if j2 < p {
                assert(all3[j2] == all2[j2]);
                assert(placed_before(all3, i, j2));
            } else if j2 >= p + e {
                let j = j2 - e + d;
                assert(all3[j] == all2[j2]);
                assert(placed_before(all3, i, j));
            } else {
                let t = j2 - p;
                assert(all2[j2] == m[t]);
                assert(is_newest_record(mid, m[t]));
                let q = choose|q: int| #[trigger] is_newest(mid, q) && mid[q] == m[t];
                let j = p + q;
                assert(all3[j] == all2[j2]);
                assert(placed_before(all3, i, j));
            }
        }
    }
}

/// A record of the merged part that is the newest of all before the part is
/// merged stays in the part and is the newest of all after.
proof fn lemma_newest_inside_forth<M>(
    pre: Seq<Module<M>>,
    mid: Seq<Module<M>>,
    post: Seq<Module<M>>,
    m: Seq<Module<M>>,
    i: int,
) -> (i2: int)
    requires
        merged_modules(mid, m),
        is_newest(pre + mid + post, i),
        pre.len() <= i < pre.len() + mid.len(),
    ensures
        is_newest(pre + m + post, i2),
        (pre + m + post)[i2] == (pre + mid + post)[i],
{
    let all3 = pre + mid + post;
    let all2 = pre + m + post;
    let p = pre.len() as int;
    let d = mid.len() as int;
    let e = m.len() as int;
    let q = i - p;
    assert(all3[i] == mid[q]);
    assert forall|j: int| 0 <= j < mid.len() && (#[trigger] mid[j]).same_group(&mid[q])
        implies !placed_before(mid, q, j) by {
        assert(all3[p + j] == mid[j]);
        if placed_before(mid, q, j) {
            assert(placed_before(all3, i, p + j));
        }
    }
    assert(is_newest(mid, q));
    assert(m.contains(mid[q]));
    let t = choose|t: int| 0 <= t < m.len() && m[t] == mid[q];
    let i2 = p + t;
    assert(all2[i2] == m[t]);
    assert forall|j2: int| 0 <= j2 < all2.len() && (#[trigger] all2[j2]).same_group(&all2[i2])
        implies !placed_before(all2, i2, j2) by {
        if placed_before(all2, i2, j2) {
            if j2 < p {
                assert(all3[j2] == all2[j2]);
                assert(placed_before(all3, i, j2));
            } else if j2 >= p + e {
                let j = j2 - e + d;
                assert(all3[j] == all2[j2]);
                assert(placed_before(all3, i, j));
            } else {
                let t2 = j2 - p;
                assert(all2[j2] == m[t2]);
                lemma_offering_order(&m[t], &m[t2], &m[t]);
                Module::<M>::lemma_irreflexive(&m[t]);
                if t2 < t {
                    assert(listed_before(&m[t2], &m[t]));
                } else if t2 > t {
                    assert(listed_before(&m[t], &m[t2]));
                }
            }
        }
    }
    i2
}

/// A record outside the merged part that is the newest after the part is
/// merged was the newest before.
proof fn lemma_newest_outside_back<M>(
    pre: Seq<Module<M>>,
    mid: Seq<Module<M>>,
    post: Seq<Module<M>>,
    m: Seq<Module<M>>,
    i: int,
)
    requires
        merged_modules(mid, m),
        0 <= i < (pre + mid + post).len(),
        i < pre.len() || i >= pre.len() + mid.len(),
        is_newest(pre + m + post, shifted(pre.len() as int, mid.len() as int, m.len() as int, i)),
    ensures
        is_newest(pre + mid + post, i),
        (pre + m + post)[shifted(pre.len() as int, mid.len() as int, m.len() as int, i)] == (pre
            + mid + post)[i],
{
    let all3 = pre + mid + post;
    let all2 = pre + m + post;
    let p = pre.len() as int;
    let d = mid.len() as int;
    let e = m.len() as int;
    let i2 = shifted(p, d, e, i);
    assert(all2[i2] == all3[i]);
    let a = &all3[i];
    assert forall|j: int| 0 <= j < all3.len() && (#[trigger] all3[j]).same_group(&all3[i])
        implies !placed_before(all3, i, j) by {
        if placed_before(all3, i, j) {
            if j < p {
                assert(all3[j] == all2[j]);
                assert(placed_before(all2, i2, j));
            } else if j >= p + d {
                let j2 = j - d + e;
                assert(all3[j] == all2[j2]);
                assert(placed_before(all2, i2, j2));
            } else {
                let q = j - p;
                assert(all3[j] == mid[q]);
                let qs = lemma_group_has_last(mid, q);
                let mq = &mid[q];
                let ms = &mid[qs];
                lemma_offering_order(ms, mq, a);
                lemma_offering_order(mq, a, ms);
                if a.before(mq) {
                    lemma_asymmetric(a, mq);
                }
                assert(!mq.before(a));
                assert(!ms.before(mq));
                assert(!ms.last_updated.is_epoch());
                assert(is_newest(mid, qs));
                assert(m.contains(mid[qs]));
                let t = choose|t: int| 0 <= t < m.len() && m[t] == mid[qs];
                let j2 = p + t;
                assert(all2[j2] == m[t]);
                if ms.before(a) {
                    lemma_before_then_not_after(ms, a, mq);
                }
                if i >= p + d {
                    lemma_before_then_not_after(a, mq, ms);
                }
                assert(placed_before(all2, i2, j2));
            }
        }
    }
}

/// A record of the merged part that is the newest of all after the part is
/// merged was the newest of all before.
proof fn lemma_newest_inside_back<M>(
    pre: Seq<Module<M>>,
    mid: Seq<Module<M>>,
    post: Seq<Module<M>>,
    m: Seq<Module<M>>,
    i2: int,
) -> (i: int)
    requires
        merged_modules(mid, m),
        is_newest(pre + m + post, i2),
        pre.len() <= i2 < pre.len() + m.len(),
    ensures
        is_newest(pre + mid + post, i),
        (pre + m + post)[i2] == (pre + mid + post)[i],
{
    let all3 = pre + mid + post;
    let all2 = pre + m + post;
    let p = pre.len() as int;
    let d = mid.len() as int;
    let e = m.len() as int;
    let t = i2 - p;
    assert(all2[i2] == m[t]);
    assert(is_newest_record(mid, m[t]));
    let q0 = choose|q0: int| #[trigger] is_newest(mid, q0) && mid[q0] == m[t];
    let i = p + q0;
    assert(all3[i] == mid[q0]);
    assert forall|j: int| 0 <= j < all3.len() && (#[trigger] all3[j]).same_group(&all3[i])
        implies !placed_before(all3, i, j) by {
        if placed_before(all3, i, j) {
            if j < p {
                assert(all3[j] == all2[j]);
                assert(placed_before(all2, i2, j));
            } else if j >= p + d {
                let j2 = j - d + e;
                assert(all3[j] == all2[j2]);
                assert(placed_before(all2, i2, j2));
            } else {
                let q = j - p;
                assert(all3[j] == mid[q]);
                assert(placed_before(mid, q0, q));
            }
        }
    }
    i
}

/// Merging a part of the records first does not change what the merge of all
/// of them leaves.
pub proof fn lemma_merge_absorbs_part<M>(
    pre: Seq<Module<M>>,
    mid: Seq<Module<M>>,
    post: Seq<Module<M>>,
    m: Seq<Module<M>>,
    out: Seq<Module<M>>,
)
    requires
        merged_modules(mid, m),
        merged_modules(pre + m + post, out),
    ensures
        merged_modules(pre + mid + post, out),
{
    let all3 = pre + mid + post;
    let all2 = pre + m + post;
    let p = pre.len() as int;
    let d = mid.len() as int;
    let e = m.len() as int;
    assert forall|i: int| #[trigger] is_newest(all3, i) implies out.contains(all3[i]) by {
        if i < p || i >= p + d {
            lemma_newest_outside_forth(pre, mid, post, m, i);
            assert(is_newest(all2, shifted(p, d, e, i)));
        } else {
            let i2 = lemma_newest_inside_forth(pre, mid, post, m, i);
            assert(is_newest(all2, i2));
        }
    }
    assert forall|k: int| 0 <= k < out.len() implies is_newest_record(all3, #[trigger] out[k]) by {
        assert(is_newest_record(all2, out[k]));
        let i2 = choose|i2: int| #[trigger] is_newest(all2, i2) && all2[i2] == out[k];
        if i2 < p {
            lemma_newest_outside_back(pre, mid, post, m, i2);
            assert(is_newest(all3, i2));
        } else if i2 >= p + e {
            let i = i2 - e + d;
            lemma_newest_outside_back(pre, mid, post, m, i);
            assert(is_newest(all3, i));
        } else {
            let i = lemma_newest_inside_back(pre, mid, post, m, i2);
            assert(is_newest(all3, i));
        }
    }
}

/// Merging in batches is associative: merging `c` into the merge of `a` and
/// `b` leaves what merging the merge of `b` and `c` into `a` leaves, whether
/// or not the batches share offerings.
pub proof fn lemma_merge_associative<M>(
    a: Seq<Module<M>>,
    b: Seq<Module<M>>,
    c: Seq<Module<M>>,
    ab: Seq<Module<M>>,
    ab_c: Seq<Module<M>>,
    bc: Seq<Module<M>>,
    a_bc: Seq<Module<M>>,
)
    requires
        merged_modules(a + b, ab),
        merged_modules(ab + c, ab_c),
        merged_modules(b + c, bc),
        merged_modules(a + bc, a_bc),
    ensures
        ab_c == a_bc,
        merged_modules(a + b + c, ab_c),
{
    let none = Seq::<Module<M>>::empty();
    assert(none + ab + c =~= ab + c);
    assert(none + (a + b) + c =~= a + b + c);
    lemma_merge_absorbs_part(none, a + b, c, ab, ab_c);
    assert(a + bc + none =~= a + bc);
    assert(a + (b + c) + none =~= a + b + c);
    lemma_merge_absorbs_part(a, b + c, none, bc, a_bc);
    lemma_merged_modules_unique(a + b + c, ab_c, a_bc);
}

} // verus!

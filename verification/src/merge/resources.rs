//! Merging freshly fetched resource states into the stored ones.

use vstd::prelude::*;
use crate::data::DataItems;
use crate::resource::ResourceState;
use crate::resource::filed_before;
use crate::resource::same_resource;
use crate::resource::lemma_resource_order;
use crate::order::Ranked;
use crate::order::stable_sort;
use crate::order::reversed;
use crate::order::is_stable_sorting;
use crate::order::occurs;
use crate::order::placed_before;
use crate::groups::is_first_in_group;
use crate::groups::is_last_in_group;
use crate::groups::starts_run;
use crate::groups::ends_run;
use crate::groups::lemma_run_start_is_first;
use crate::groups::lemma_run_end_is_last;
use crate::groups::lemma_group_contiguous;
use crate::groups::lemma_keys_ascend;
use crate::groups::lemma_placed_asymmetric;
use crate::groups::lemma_placed_connected;
use crate::groups::lemma_first_unique;
use crate::groups::lemma_last_unique;
use crate::groups::lemma_listing_unique;
use crate::groups::Grouped;

verus! {

/// Entry `j` of `all` is the state of the resource of entry `f` whose
/// descriptor a merge keeps: it has one, and no state of that resource that
/// has one is placed after it.
pub open spec fn is_handle_source<R>(all: Seq<ResourceState<R>>, f: int, j: int) -> bool {
    &&& 0 <= j < all.len()
    &&& same_resource(&all[j], &all[f])
    &&& all[j].resource is Some
    &&& forall|j2: int|
        0 <= j2 < all.len() && same_resource(&#[trigger] all[j2], &all[f]) && all[j2].resource
            is Some ==> !placed_before(all, j, j2)
}

/// `h` is the descriptor that a merge keeps for the resource of entry `f`:
/// the one of the state placed last among those that have one, or none where
/// no state of that resource has one.
pub open spec fn is_newest_handle<R>(all: Seq<ResourceState<R>>, f: int, h: Option<R>) -> bool {
    ||| h is None && forall|j: int|
        0 <= j < all.len() && same_resource(&#[trigger] all[j], &all[f]) ==> all[j].resource
            is None
    ||| exists|j: int| #[trigger] is_handle_source(all, f, j) && all[j].resource == h
}

/// `e` is the states of one resource fused into one: what is known of the
/// local copy comes from the state `f` that is placed first, the time from
/// the state `l` that is placed last, and the descriptor is the newest.
pub open spec fn fuses<R>(all: Seq<ResourceState<R>>, f: int, l: int, e: ResourceState<R>) -> bool {
    &&& is_first_in_group(all, f)
    &&& is_last_in_group(all, l)
    &&& same_resource(&all[f], &all[l])
    &&& e.module_id == all[f].module_id
    &&& e.path == all[f].path
    &&& e.download_path == all[f].download_path
    &&& e.download_time == all[f].download_time
    &&& e.download_status == all[f].download_status
    &&& e.last_updated == all[l].last_updated
    &&& is_newest_handle(all, f, e.resource)
}

/// `e` is the fused state of some resource of `all`.
pub open spec fn is_fused<R>(all: Seq<ResourceState<R>>, e: ResourceState<R>) -> bool {
    exists|f: int, l: int| #[trigger] fuses(all, f, l, e)
}

/// Position `k` of `s` holds a state whose path is not empty.
pub open spec fn has_path<R>(s: Seq<ResourceState<R>>, k: int) -> bool {
    0 <= k < s.len() && s[k].path@.len() > 0
}

/// Some entry of `out` describes the resource of `e`.
pub open spec fn has_resource<R>(out: Seq<ResourceState<R>>, e: ResourceState<R>) -> bool {
    exists|k: int| 0 <= k < out.len() && same_resource(&#[trigger] out[k], &e)
}

/// `out` is what merging leaves of the states `all`: one fused state for each
/// resource with a path that is not empty, filed by module and path.
pub open spec fn merged_resources<R>(
    all: Seq<ResourceState<R>>,
    out: Seq<ResourceState<R>>,
) -> bool {
    &&& forall|a: int, b: int|
        0 <= a < b < out.len() ==> filed_before(&#[trigger] out[a], &#[trigger] out[b])
    &&& forall|k: int|
        0 <= k < out.len() ==> (#[trigger] out[k]).path@.len() > 0 && is_fused(all, out[k])
    &&& forall|i: int| #[trigger] has_path(all, i) ==> has_resource(out, all[i])
}

/// The descriptor that the run `f..=l` of the sorted states `s` ends up with.
spec fn run_handle<R>(s: Seq<ResourceState<R>>, f: int, l: int) -> Option<R>
    decreases l - f,
{
    if l <= f {
        s[f].resource
    } else if s[l].resource is Some {
        s[l].resource
    } else {
        run_handle(s, f, l - 1)
    }
}

/// The run `f..=l` of the sorted states `s` fused into one state.
spec fn fused_run<R>(s: Seq<ResourceState<R>>, f: int, l: int) -> ResourceState<R> {
    ResourceState {
        module_id: s[f].module_id,
        path: s[f].path,
        last_updated: s[l].last_updated,
        download_path: s[f].download_path,
        download_time: s[f].download_time,
        resource: run_handle(s, f, l),
        download_status: s[f].download_status,
    }
}

/// Position `k` lies in one of the runs `firsts[m]..=lasts[m]`.
spec fn covered(firsts: Seq<int>, lasts: Seq<int>, k: int) -> bool {
    exists|m: int| 0 <= m < firsts.len() && #[trigger] firsts[m] <= k <= lasts[m]
}

/// The states at `f` and `k` describe one resource.
spec fn in_run<R>(s: Seq<ResourceState<R>>, f: int, k: int) -> bool {
    same_resource(&s[f], &s[k])
}

/// `e` is the fused run `f..=l` of `s`, a whole run with a path that is not
/// empty.
spec fn is_kept_run<R>(s: Seq<ResourceState<R>>, e: ResourceState<R>, f: int, l: int) -> bool {
    &&& starts_run(s, f)
    &&& ends_run(s, l)
    &&& f <= l
    &&& same_resource(&s[f], &s[l])
    &&& e == fused_run(s, f, l)
    &&& e.path@.len() > 0
}

/// `out` holds, in order, the fused runs of `s` whose path is not empty;
/// `firsts` and `lasts` give the ends of those runs.
spec fn is_fusion<R>(
    s: Seq<ResourceState<R>>,
    out: Seq<ResourceState<R>>,
    firsts: Seq<int>,
    lasts: Seq<int>,
) -> bool {
    &&& firsts.len() == out.len()
    &&& lasts.len() == out.len()
    &&& forall|m: int| 0 <= m < out.len() ==> is_kept_run(s, #[trigger] out[m], firsts[m], lasts[m])
    &&& forall|m1: int, m2: int|
        0 <= m1 < m2 < out.len() ==> #[trigger] lasts[m1] < #[trigger] firsts[m2]
    &&& forall|k: int| #[trigger] has_path(s, k) ==> covered(firsts, lasts, k)
}

/// A state of the resource at hand joins the one kept: the one kept takes its
/// time, and its descriptor if it has one.
fn absorb<R>(kept: ResourceState<R>, next: ResourceState<R>) -> (r: ResourceState<R>)
    ensures
        r.module_id == kept.module_id,
        r.path == kept.path,
        r.download_path == kept.download_path,
        r.download_time == kept.download_time,
        r.download_status == kept.download_status,
        r.last_updated == next.last_updated,
        r.resource == (if next.resource is Some {
            next.resource
        } else {
            kept.resource
        }),
{
    let mut r = kept;
    r.last_updated = next.last_updated;
    if next.resource.is_some() {
        r.resource = next.resource;
    }
    r
}

/// Covering survives when one more run is recorded.
proof fn lemma_covered_grows(firsts: Seq<int>, lasts: Seq<int>, f: int, l: int, k: int)
    requires
        firsts.len() == lasts.len(),
        covered(firsts, lasts, k) || f <= k <= l,
    ensures
        covered(firsts.push(f), lasts.push(l), k),
{
    let firsts2 = firsts.push(f);
    let lasts2 = lasts.push(l);
    if covered(firsts, lasts, k) {
        let m = choose|m: int| 0 <= m < firsts.len() && #[trigger] firsts[m] <= k <= lasts[m];
        assert(firsts2[m] <= k <= lasts2[m]);
    } else {
        let m = firsts.len() as int;
        assert(firsts2[m] <= k <= lasts2[m]);
    }
}

/// Fuses each run of sorted states of one resource into one state, and drops
/// those with an empty path.
fn fuse_runs<R>(sorted: Vec<ResourceState<R>>) -> (r: (
    Vec<ResourceState<R>>,
    Ghost<Seq<int>>,
    Ghost<Seq<int>>,
))
    ensures
        is_fusion(sorted@, r.0@, r.1@, r.2@),
{
    let ghost s = sorted@;
    let n = sorted.len();
    let mut rest = reversed(sorted);
    let mut out: Vec<ResourceState<R>> = Vec::new();
    let ghost mut firsts: Seq<int> = Seq::empty();
    let ghost mut lasts: Seq<int> = Seq::empty();
    let ghost mut start: int = 0;
    let mut keeper: Option<ResourceState<R>> = None;
    while rest.len() > 0
        invariant
            n == s.len(),
            rest.len() <= n,
            0 <= start,
            forall|k: int| 0 <= k < rest.len() ==> rest[k] == s[n - 1 - k],
            keeper is Some <==> rest.len() < n,
            keeper is Some ==> {
                &&& starts_run(s, start)
                &&& start <= n - rest.len() - 1
                &&& keeper->0 == fused_run(s, start, n - rest.len() - 1)
            },
            forall|k: int| start <= k <= n - rest.len() - 1 ==> #[trigger] in_run(s, start, k),
            keeper is None ==> start == 0,
            firsts.len() == out.len(),
            lasts.len() == out.len(),
            forall|m: int|
                0 <= m < out.len() ==> is_kept_run(s, #[trigger] out[m], firsts[m], lasts[m]),
            forall|m: int| 0 <= m < lasts.len() ==> #[trigger] lasts[m] < start,
            forall|m1: int, m2: int|
                0 <= m1 < m2 < out.len() ==> #[trigger] lasts[m1] < #[trigger] firsts[m2],
            forall|k: int| #[trigger] has_path(s, k) && k < start ==> covered(firsts, lasts, k),
        decreases rest.len(),
    {
        let ghost i = n - rest.len();
        let x = rest.pop().unwrap();
        assert(x == s[i]);
        let ghost old_firsts = firsts;
        let ghost old_lasts = lasts;
        let ghost old_start = start;
        match keeper {
            Some(k) => {
                assert(in_run(s, start, i - 1));
                if k.module_id == x.module_id && k.path == x.path {
                    assert(in_run(s, start, i));
                    let joined = absorb(k, x);
                    assert(joined == fused_run(s, start, i));
                    keeper = Some(joined);
                } else {
                    assert(!same_resource(&s[i - 1], &s[i]));
                    if !k.path.as_str().is_empty() {
                        out.push(k);
                        proof {
                            firsts = firsts.push(start);
                            lasts = lasts.push(i - 1);
                            assert(is_kept_run(s, k, old_start, i - 1));
                            assert forall|k2: int| #[trigger] has_path(s, k2) && k2 < i implies covered(
                                firsts,
                                lasts,
                                k2,
                            ) by {
                                lemma_covered_grows(old_firsts, old_lasts, old_start, i - 1, k2);
                            }
                        }
                    } else {
                        assert forall|k2: int| #[trigger] has_path(s, k2) && k2 < i implies covered(
                            firsts,
                            lasts,
                            k2,
                        ) by {
                            if k2 >= old_start {
                                assert(in_run(s, old_start, k2));
                            }
                        }
                    }
                    proof {
                        start = i;
                    }
                    assert(in_run(s, i, i));
                    keeper = Some(x);
                }
            },
            None => {
                proof {
                    start = i;
                }
                assert(in_run(s, i, i));
                keeper = Some(x);
            },
        }
    }
    let ghost old_firsts = firsts;
    let ghost old_lasts = lasts;
    if let Some(k) = keeper {
        assert(in_run(s, start, n - 1));
        if !k.path.as_str().is_empty() {
            out.push(k);
            proof {
                firsts = firsts.push(start);
                lasts = lasts.push(n - 1);
                assert(is_kept_run(s, k, start, n - 1));
                assert forall|k2: int| #[trigger] has_path(s, k2) implies covered(
                    firsts,
                    lasts,
                    k2,
                ) by {
                    lemma_covered_grows(old_firsts, old_lasts, start, n - 1, k2);
                }
            }
        } else {
            assert forall|k2: int| #[trigger] has_path(s, k2) implies covered(firsts, lasts, k2) by {
                if k2 >= start {
                    assert(in_run(s, start, k2));
                }
            }
        }
    }
    (out, Ghost(firsts), Ghost(lasts))
}

/// The descriptor of a run is that of its last state that has one.
proof fn lemma_run_handle<R>(s: Seq<ResourceState<R>>, f: int, l: int)
    requires
        0 <= f <= l < s.len(),
    ensures
        run_handle(s, f, l) is None ==> forall|k: int|
            f <= k <= l ==> (#[trigger] s[k]).resource is None,
        run_handle(s, f, l) is Some ==> exists|h: int|
            f <= h <= l && (#[trigger] s[h]).resource == run_handle(s, f, l) && forall|k: int|
                h < k <= l ==> (#[trigger] s[k]).resource is None,
    decreases l - f,
{
    if l > f && s[l].resource is None {
        lemma_run_handle(s, f, l - 1);
        if run_handle(s, f, l) is Some {
            let h = choose|h: int|
                f <= h <= l - 1 && (#[trigger] s[h]).resource == run_handle(s, f, l - 1)
                    && forall|k: int| h < k <= l - 1 ==> (#[trigger] s[k]).resource is None;
            assert(f <= h <= l && s[h].resource == run_handle(s, f, l));
        }
    } else {
        assert(s[l].resource == run_handle(s, f, l));
    }
}

/// A run that starts at `f` and ends at `l` holds every state of its
/// resource.
proof fn lemma_run_holds_group<R>(
    all: Seq<ResourceState<R>>,
    s: Seq<ResourceState<R>>,
    perm: Seq<int>,
    f: int,
    l: int,
    k: int,
)
    requires
        is_stable_sorting(all, s, perm),
        starts_run(s, f),
        ends_run(s, l),
        f <= l,
        same_resource(&s[f], &s[l]),
        0 <= k < s.len(),
        same_resource(&s[k], &s[f]),
    ensures
        f <= k <= l,
{
    if k < f {
        lemma_group_contiguous(all, s, perm, k, f - 1, f);
    }
    if k > l {
        lemma_group_contiguous(all, s, perm, l, l + 1, k);
    }
}

/// The fused run `f..=l` of the sorted states is the fused state of its
/// resource.
proof fn lemma_fused_run<R>(
    all: Seq<ResourceState<R>>,
    s: Seq<ResourceState<R>>,
    perm: Seq<int>,
    f: int,
    l: int,
)
    requires
        is_stable_sorting(all, s, perm),
        starts_run(s, f),
        ends_run(s, l),
        f <= l,
        same_resource(&s[f], &s[l]),
    ensures
        fuses(all, perm[f], perm[l], fused_run(s, f, l)),
{
    let e = fused_run(s, f, l);
    let pf = perm[f];
    lemma_run_start_is_first(all, s, perm, f);
    lemma_run_end_is_last(all, s, perm, l);
    lemma_run_handle(s, f, l);
    if e.resource is None {
        assert forall|j: int|
            0 <= j < all.len() && same_resource(&#[trigger] all[j], &all[pf]) implies all[j].resource
            is None by {
            assert(occurs(perm, j));
            let k = choose|k: int| 0 <= k < perm.len() && #[trigger] perm[k] == j;
            lemma_run_holds_group(all, s, perm, f, l, k);
            assert(s[k].resource is None);
        }
    } else {
        let h = choose|h: int|
            f <= h <= l && (#[trigger] s[h]).resource == run_handle(s, f, l) && forall|k: int|
                h < k <= l ==> (#[trigger] s[k]).resource is None;
        let jh = perm[h];
        lemma_group_contiguous(all, s, perm, f, h, l);
        assert forall|j2: int|
            0 <= j2 < all.len() && same_resource(&#[trigger] all[j2], &all[pf])
                && all[j2].resource is Some implies !placed_before(all, jh, j2) by {
            assert(occurs(perm, j2));
            let k = choose|k: int| 0 <= k < perm.len() && #[trigger] perm[k] == j2;
            lemma_run_holds_group(all, s, perm, f, l, k);
            assert(s[k].resource is Some);
            if k < h {
                assert(placed_before(all, perm[k], perm[h]));
                lemma_placed_asymmetric(all, j2, jh);
            } else {
                assert(k == h);
                ResourceState::<R>::lemma_irreflexive(&all[jh]);
            }
        }
        assert(is_handle_source(all, pf, jh));
    }
    assert(is_newest_handle(all, pf, e.resource));
}

/// The fused runs of the sorted sequence are the merge of the unsorted one.
proof fn lemma_fusion_is_merge<R>(
    all: Seq<ResourceState<R>>,
    s: Seq<ResourceState<R>>,
    perm: Seq<int>,
    out: Seq<ResourceState<R>>,
    firsts: Seq<int>,
    lasts: Seq<int>,
)
    requires
        is_stable_sorting(all, s, perm),
        is_fusion(s, out, firsts, lasts),
    ensures
        merged_resources(all, out),
{
    assert forall|a: int, b: int| 0 <= a < b < out.len() implies filed_before(
        &#[trigger] out[a],
        &#[trigger] out[b],
    ) by {
        let la = lasts[a];
        let fa = firsts[a];
        let fb = firsts[b];
        assert(is_kept_run(s, out[a], fa, la));
        assert(is_kept_run(s, out[b], fb, lasts[b]));
        assert(la < fb);
        lemma_keys_ascend(all, s, perm, la, fb);
        lemma_resource_order(&s[la], &s[fb], &s[la]);
        if same_resource(&s[la], &s[fb]) {
            lemma_group_contiguous(all, s, perm, la, la + 1, fb);
        }
    }
    assert forall|k: int| 0 <= k < out.len() implies (#[trigger] out[k]).path@.len() > 0
        && is_fused(all, out[k]) by {
        let f = firsts[k];
        let l = lasts[k];
        assert(is_kept_run(s, out[k], f, l));
        lemma_fused_run(all, s, perm, f, l);
        assert(fuses(all, perm[f], perm[l], out[k]));
    }
    assert forall|i: int| #[trigger] has_path(all, i) implies has_resource(out, all[i]) by {
        assert(occurs(perm, i));
        let k = choose|k: int| 0 <= k < perm.len() && #[trigger] perm[k] == i;
        assert(has_path(s, k));
        assert(covered(firsts, lasts, k));
        let m = choose|m: int| 0 <= m < firsts.len() && #[trigger] firsts[m] <= k <= lasts[m];
        assert(is_kept_run(s, out[m], firsts[m], lasts[m]));
        lemma_group_contiguous(all, s, perm, firsts[m], k, lasts[m]);
        assert(same_resource(&out[m], &all[i]));
    }
}

/// Merges the freshly fetched states `new` into the stored `resources`.
///
/// The envelope takes the time and the fetch status of `new`. The states of
/// both lists, stored ones first, are fused resource by resource: what is
/// known of the local copy stays as the oldest state has it (of two states
/// of one time, the one with a local copy, else the one that stands first),
/// the time becomes that of the newest state, and the descriptor is the
/// newest there is. The result is filed by module and path; states with an
/// empty path are dropped.
pub fn merge_resources<R>(
    resources: &mut DataItems<ResourceState<R>>,
    new: DataItems<ResourceState<R>>,
)
    ensures
        final(resources).last_updated == new.last_updated,
        final(resources).fetch_status == new.fetch_status,
        merged_resources(old(resources).items@ + new.items@, final(resources).items@),
{
    let mut new = new;
    resources.last_updated = new.last_updated;
    resources.fetch_status = new.fetch_status;
    let mut items: Vec<ResourceState<R>> = Vec::new();
    std::mem::swap(&mut resources.items, &mut items);
    items.append(&mut new.items);
    let ghost all = items@;
    stable_sort(&mut items);
    let ghost perm = choose|perm: Seq<int>| is_stable_sorting(all, items@, perm);
    let ghost s = items@;
    let (kept, Ghost(firsts), Ghost(lasts)) = fuse_runs(items);
    proof {
        lemma_fusion_is_merge(all, s, perm, kept@, firsts, lasts);
    }
    resources.items = kept;
}

/// A resource has one newest descriptor only.
pub proof fn lemma_newest_handle_unique<R>(
    all: Seq<ResourceState<R>>,
    f: int,
    h1: Option<R>,
    h2: Option<R>,
)
    requires
        0 <= f < all.len(),
        is_newest_handle(all, f, h1),
        is_newest_handle(all, f, h2),
    ensures
        h1 == h2,
{
    let none = |h: Option<R>|
        h is None && forall|j: int|
            0 <= j < all.len() && same_resource(&#[trigger] all[j], &all[f]) ==> all[j].resource
                is None;
    if exists|j: int| #[trigger] is_handle_source(all, f, j) && all[j].resource == h1 {
        let j1 = choose|j: int| #[trigger] is_handle_source(all, f, j) && all[j].resource == h1;
        if exists|j: int| #[trigger] is_handle_source(all, f, j) && all[j].resource == h2 {
            let j2 = choose|j: int| #[trigger] is_handle_source(all, f, j) && all[j].resource == h2;
            assert(same_resource(&all[j2], &all[f]));
            assert(same_resource(&all[j1], &all[f]));
            if j1 != j2 {
                lemma_placed_connected(all, j1, j2);
            }
        } else {
            assert(none(h2));
            assert(same_resource(&all[j1], &all[f]));
        }
    } else {
        assert(none(h1));
        if exists|j: int| #[trigger] is_handle_source(all, f, j) && all[j].resource == h2 {
            let j2 = choose|j: int| #[trigger] is_handle_source(all, f, j) && all[j].resource == h2;
            assert(same_resource(&all[j2], &all[f]));
        } else {
            assert(none(h2));
        }
    }
}

/// The states of one resource fuse into one state only.
pub proof fn lemma_fused_unique<R>(
    all: Seq<ResourceState<R>>,
    e1: ResourceState<R>,
    e2: ResourceState<R>,
)
    requires
        is_fused(all, e1),
        is_fused(all, e2),
        same_resource(&e1, &e2),
    ensures
        e1 == e2,
{
    let (f1, l1) = choose|f: int, l: int| #[trigger] fuses(all, f, l, e1);
    let (f2, l2) = choose|f: int, l: int| #[trigger] fuses(all, f, l, e2);
    lemma_first_unique(all, f1, f2);
    lemma_last_unique(all, l1, l2);
    lemma_newest_handle_unique(all, f1, e1.resource, e2.resource);
}

/// A merge has one result only.
pub proof fn lemma_merged_resources_unique<R>(
    all: Seq<ResourceState<R>>,
    x: Seq<ResourceState<R>>,
    y: Seq<ResourceState<R>>,
)
    requires
        merged_resources(all, x),
        merged_resources(all, y),
    ensures
        x == y,
{
    lemma_merged_side(all, x, y);
    lemma_merged_side(all, y, x);
    lemma_listing_unique(x, y);
}

proof fn lemma_merged_side<R>(
    all: Seq<ResourceState<R>>,
    x: Seq<ResourceState<R>>,
    y: Seq<ResourceState<R>>,
)
    requires
        merged_resources(all, x),
        merged_resources(all, y),
    ensures
        forall|k: int| 0 <= k < x.len() ==> y.contains(#[trigger] x[k]),
{
    assert forall|k: int| 0 <= k < x.len() implies y.contains(#[trigger] x[k]) by {
        assert(is_fused(all, x[k]));
        let (f, l) = choose|f: int, l: int| #[trigger] fuses(all, f, l, x[k]);
        assert(has_path(all, f));
        assert(has_resource(y, all[f]));
        let m = choose|m: int| 0 <= m < y.len() && same_resource(&#[trigger] y[m], &all[f]);
        lemma_fused_unique(all, x[k], y[m]);
    }
}

/// After a merge each resource has at most one state, and every resource
/// with a path that is not empty has one.
pub proof fn lemma_one_state_per_resource<R>(
    all: Seq<ResourceState<R>>,
    out: Seq<ResourceState<R>>,
)
    requires
        merged_resources(all, out),
    ensures
        forall|a: int, b: int|
            0 <= a < b < out.len() ==> !same_resource(&#[trigger] out[a], &#[trigger] out[b]),
        forall|i: int| #[trigger] has_path(all, i) ==> has_resource(out, all[i]),
{
    assert forall|a: int, b: int| 0 <= a < b < out.len() implies !same_resource(
        &#[trigger] out[a],
        &#[trigger] out[b],
    ) by {
        lemma_resource_order(&out[a], &out[b], &out[a]);
    }
}

/// A local copy survives a new fetch: where the state at `i` records a local
/// copy, and every other state of its resource is not older and records none,
/// the merge holds one state for the resource, with that local copy and with
/// a time that no state of the resource exceeds.
pub proof fn lemma_download_survives<R>(
    all: Seq<ResourceState<R>>,
    out: Seq<ResourceState<R>>,
    i: int,
) -> (k: int)
    requires
        merged_resources(all, out),
        0 <= i < all.len(),
        all[i].path@.len() > 0,
        all[i].download_path is Some,
        forall|j: int|
            0 <= j < all.len() && j != i && same_resource(&#[trigger] all[j], &all[i]) ==> {
                &&& !all[j].last_updated.earlier_than(all[i].last_updated)
                &&& all[j].download_path is None
            },
    ensures
        0 <= k < out.len(),
        same_resource(&out[k], &all[i]),
        out[k].download_path == all[i].download_path,
        out[k].download_time == all[i].download_time,
        forall|j: int|
            0 <= j < all.len() && same_resource(&#[trigger] all[j], &all[i])
                ==> !out[k].last_updated.earlier_than(all[j].last_updated),
        forall|k2: int|
            0 <= k2 < out.len() && same_resource(&#[trigger] out[k2], &all[i]) ==> k2 == k,
{
    lemma_one_state_per_resource(all, out);
    assert(has_path(all, i));
    assert(has_resource(out, all[i]));
    let k = choose|k: int| 0 <= k < out.len() && same_resource(&#[trigger] out[k], &all[i]);
    assert(is_fused(all, out[k]));
    let (f, l) = choose|f: int, l: int| #[trigger] fuses(all, f, l, out[k]);
    assert forall|j: int| 0 <= j < all.len() && (#[trigger] all[j]).same_group(&all[i])
        implies !placed_before(all, j, i) by {
        lemma_resource_order(&all[j], &all[i], &all[j]);
        ResourceState::<R>::lemma_irreflexive(&all[i]);
    }
    assert(is_first_in_group(all, i));
    lemma_first_unique(all, f, i);
    assert forall|j: int| 0 <= j < all.len() && same_resource(&#[trigger] all[j], &all[i])
        implies !out[k].last_updated.earlier_than(all[j].last_updated) by {
        lemma_resource_order(&all[j], &all[l], &all[i]);
        assert(!placed_before(all, l, j));
    }
    assert forall|k2: int| 0 <= k2 < out.len() && same_resource(&#[trigger] out[k2], &all[i])
        implies k2 == k by {
        if k2 < k {
            assert(!same_resource(&out[k2], &out[k]));
        } else if k < k2 {
            assert(!same_resource(&out[k], &out[k2]));
        }
    }
    k
}

/// A merge adds and never removes: a state that alone describes its resource,
/// with a path that is not empty, stays as it is.
pub proof fn lemma_lone_state_retained<R>(
    all: Seq<ResourceState<R>>,
    out: Seq<ResourceState<R>>,
    i: int,
)
    requires
        merged_resources(all, out),
        0 <= i < all.len(),
        all[i].path@.len() > 0,
        forall|j: int|
            0 <= j < all.len() && j != i ==> !same_resource(&#[trigger] all[j], &all[i]),
    ensures
        out.contains(all[i]),
{
    assert(has_path(all, i));
    assert(has_resource(out, all[i]));
    let k = choose|k: int| 0 <= k < out.len() && same_resource(&#[trigger] out[k], &all[i]);
    assert(is_fused(all, out[k]));
    lemma_fuses_itself(all, i);
    assert(is_fused(all, all[i]));
    lemma_fused_unique(all, out[k], all[i]);
}

/// A state that alone describes its resource is that resource fused.
proof fn lemma_fuses_itself<R>(all: Seq<ResourceState<R>>, i: int)
    requires
        0 <= i < all.len(),
        forall|j: int|
            0 <= j < all.len() && j != i ==> !same_resource(&#[trigger] all[j], &all[i]),
    ensures
        fuses(all, i, i, all[i]),
{
    ResourceState::<R>::lemma_irreflexive(&all[i]);
    if all[i].resource is Some {
        assert(is_handle_source(all, i, i));
    }
}

/// What a merge leaves is its own merge: merging it once more, with nothing
/// added, changes nothing.
pub proof fn lemma_merge_idempotent<R>(all: Seq<ResourceState<R>>, out: Seq<ResourceState<R>>)
    requires
        merged_resources(all, out),
    ensures
        merged_resources(out, out),
        merged_resources(out + Seq::<ResourceState<R>>::empty(), out),
{
    lemma_one_state_per_resource(all, out);
    assert forall|k: int| 0 <= k < out.len() implies (#[trigger] out[k]).path@.len() > 0
        && is_fused(out, out[k]) by {
        assert forall|j: int| 0 <= j < out.len() && j != k implies !same_resource(
            &#[trigger] out[j],
            &out[k],
        ) by {
            if j < k {
                assert(!same_resource(&out[j], &out[k]));
            } else {
                assert(!same_resource(&out[k], &out[j]));
            }
        }
        lemma_fuses_itself(out, k);
    }
    assert forall|i: int| #[trigger] has_path(out, i) implies has_resource(out, out[i]) by {
        assert(same_resource(&out[i], &out[i]));
    }
    assert(out + Seq::<ResourceState<R>>::empty() =~= out);
}

} // verus!

//! What holds of every reconciliation pass.
use vstd::prelude::*;

use crate::diagnostic::Diagnostic;
use crate::reconcile::{
    first_match,
    fresh_ids,
    fresh_installs,
    ids_below,
    kept_instances,
    lemma_first_match_range,
    lemma_total_scale_mono,
    pass_of,
    prior_instances,
    run,
    all_ids,
    holds,
    not_held,
    retired_spec,
    total_scale,
    step,
    EntrySpec,
    Install,
    Item,
    PassSpec,
};

verus! {

proof fn lemma_kept_len(prior: Seq<u64>, scale: usize)
    ensures
        kept_instances(prior, scale).len() <= scale,
        kept_instances(prior, scale).len() == if prior.len() > scale {
            scale as int
        } else {
            prior.len() as int
        },
{
}

/// After a pass, every entry runs exactly as many instances as an item with its descriptor asks
/// for.
pub proof fn lemma_scale_convergence<E: View>(
    name: String,
    old: Seq<EntrySpec<E>>,
    next: int,
    items: Seq<Item<E>>,
    built: Seq<Option<u64>>,
)
    requires
        built.len() == items.len(),
    ensures
        forall|k: int|
            0 <= k < pass_of(name, old, next, items, built).entries.len() ==> exists|i: int|
                0 <= i < items.len() && (#[trigger] pass_of(name, old, next, items, built).entries[k]).descriptor
                    == items[i].descriptor && pass_of(name, old, next, items, built).entries[k].instances.len()
                    == items[i].scale,
{
    lemma_run_scale(name, old, next, items, built, items.len());
}

proof fn lemma_run_scale<E: View>(
    name: String,
    old: Seq<EntrySpec<E>>,
    next: int,
    items: Seq<Item<E>>,
    built: Seq<Option<u64>>,
    n: nat,
)
    requires
        n <= items.len(),
        built.len() == items.len(),
    ensures
        forall|k: int|
            0 <= k < run(name, old, next, items, built, n).entries.len() ==> exists|i: int|
                0 <= i < n && (#[trigger] run(name, old, next, items, built, n).entries[k]).descriptor
                    == items[i].descriptor && run(name, old, next, items, built, n).entries[k].instances.len()
                    == items[i].scale,
    decreases n,
{
    if n > 0 {
        let m = (n - 1) as nat;
        lemma_run_scale(name, old, next, items, built, m);
        let st = run(name, old, next, items, built, m);
        let item = items[m as int];
        let j = first_match(old, item.descriptor@, 0);
        let p = run(name, old, next, items, built, n);
        lemma_kept_len(prior_instances(old, j, item.extra), item.scale);
        assert forall|k: int| 0 <= k < p.entries.len() implies exists|i: int|
            0 <= i < n && (#[trigger] p.entries[k]).descriptor == items[i].descriptor
                && p.entries[k].instances.len() == items[i].scale by {
            if k < st.entries.len() {
                assert(p.entries[k] == st.entries[k]);
                let i = choose|i: int|
                    0 <= i < m && (#[trigger] st.entries[k]).descriptor == items[i].descriptor
                        && st.entries[k].instances.len() == items[i].scale;
                assert(0 <= i < n && p.entries[k].descriptor == items[i].descriptor);
            } else {
                assert(p.entries[k].descriptor == items[m as int].descriptor);
            }
        }
    }
}

/// Where the extra configuration of a cached descriptor changes, none of its instances is kept:
/// the new entry runs only fresh instances, as many as the scale, each with an install request.
pub proof fn lemma_extra_change_replaces<E: View>(
    name: String,
    old: Seq<EntrySpec<E>>,
    st: PassSpec<E>,
    item: Item<E>,
    built: Option<u64>,
)
    requires
        first_match(old, item.descriptor@, 0) >= 0,
        old[first_match(old, item.descriptor@, 0)].extra@ != item.extra@,
        ids_below(old, st.next),
        0 <= st.next,
        st.next + item.scale <= u64::MAX,
    ensures
        ({
            let j = first_match(old, item.descriptor@, 0);
            let p = step(name, old, st, item, built);
            &&& p.entries.len() == st.entries.len() + 1
            &&& p.entries.last().descriptor == item.descriptor
            &&& p.entries.last().resource == old[j].resource
            &&& p.entries.last().instances == fresh_ids(st.next, item.scale as int)
            &&& forall|m: int|
                0 <= m < p.entries.last().instances.len() ==> !old[j].instances.contains(
                    #[trigger] p.entries.last().instances[m],
                )
            &&& p.installs == st.installs + fresh_installs(
                st.entries.len() as int,
                st.next,
                item.scale as int,
            )
        }),
{
    let j = first_match(old, item.descriptor@, 0);
    let p = step(name, old, st, item, built);
    lemma_first_match_range(old, item.descriptor@, 0);
    assert(kept_instances(prior_instances(old, j, item.extra), item.scale) =~= Seq::<u64>::empty());
    assert(p.entries.last().instances =~= fresh_ids(st.next, item.scale as int));
    assert forall|m: int| 0 <= m < p.entries.last().instances.len() implies !old[j].instances.contains(
        #[trigger] p.entries.last().instances[m],
    ) by {
        if old[j].instances.contains(p.entries.last().instances[m]) {
            let q = choose|q: int| 0 <= q < old[j].instances.len() && old[j].instances[q] == p.entries.last().instances[m];
            assert(old[j].instances[q] < st.next);
            assert(p.entries.last().instances[m] == (st.next + m) as u64);
        }
    }
}

/// Every item of the pass finds a cached entry or has its resource built.
pub open spec fn all_built<E>(
    old: Seq<EntrySpec<E>>,
    items: Seq<Item<E>>,
    built: Seq<Option<u64>>,
) -> bool {
    forall|i: int|
        0 <= i < items.len() ==> first_match(old, (#[trigger] items[i]).descriptor@, 0) >= 0
            || built[i] is Some
}

/// No two items have equal descriptors.
pub open spec fn distinct_descriptors<E>(items: Seq<Item<E>>) -> bool {
    forall|i: int, k: int|
        0 <= i < items.len() && 0 <= k < items.len() && i != k ==> (#[trigger] items[i]).descriptor@
            != (#[trigger] items[k]).descriptor@
}

proof fn lemma_run_built<E: View>(
    name: String,
    old: Seq<EntrySpec<E>>,
    next: int,
    items: Seq<Item<E>>,
    built: Seq<Option<u64>>,
    n: nat,
)
    requires
        n <= items.len(),
        built.len() == items.len(),
        all_built(old, items, built),
    ensures
        run(name, old, next, items, built, n).entries.len() == n,
        forall|k: int|
            0 <= k < n ==> {
                let e = #[trigger] run(name, old, next, items, built, n).entries[k];
                &&& e.descriptor == items[k].descriptor
                &&& e.extra == items[k].extra
                &&& e.instances.len() == items[k].scale
            },
    decreases n,
{
    if n > 0 {
        let m = (n - 1) as nat;
        lemma_run_built(name, old, next, items, built, m);
        let item = items[m as int];
        let j = first_match(old, item.descriptor@, 0);
        lemma_kept_len(prior_instances(old, j, item.extra), item.scale);
        assert(first_match(old, items[m as int].descriptor@, 0) >= 0 || built[m as int] is Some);
        let st = run(name, old, next, items, built, m);
        let p = run(name, old, next, items, built, n);
        assert forall|k: int| 0 <= k < n implies {
            let e = #[trigger] p.entries[k];
            &&& e.descriptor == items[k].descriptor
            &&& e.extra == items[k].extra
            &&& e.instances.len() == items[k].scale
        } by {
            if k < m {
                assert(p.entries[k] == st.entries[k]);
            }
        }
    }
}

proof fn lemma_first_match_unique<E>(
    es: Seq<EntrySpec<E>>,
    d: (u16, Seq<char>),
    i: int,
    start: int,
)
    requires
        0 <= start <= i < es.len(),
        es[i].descriptor@ == d,
        forall|k: int| 0 <= k < es.len() && k != i ==> (#[trigger] es[k]).descriptor@ != d,
    ensures
        first_match(es, d, start) == i,
    decreases i - start,
{
    if start < i {
        lemma_first_match_unique(es, d, i, start + 1);
    }
}

/// The diagnostics that the first `n` items bring, in order.
pub open spec fn item_diagnostics<E>(items: Seq<Item<E>>, n: nat) -> Seq<Diagnostic>
    decreases n,
{
    if n == 0 {
        Seq::empty()
    } else {
        item_diagnostics(items, (n - 1) as nat) + items[n - 1].diagnostics@
    }
}

/// Taking the same configuration in twice: when the first pass built every new descriptor and
/// the descriptors are distinct, the second pass builds nothing (every item finds its entry),
/// keeps the cache as it is, starts nothing and adds no diagnostic beyond the items' own.
pub proof fn lemma_idempotent<E: View>(
    name: String,
    old: Seq<EntrySpec<E>>,
    next: int,
    items: Seq<Item<E>>,
    built1: Seq<Option<u64>>,
    built2: Seq<Option<u64>>,
)
    requires
        built1.len() == items.len(),
        built2.len() == items.len(),
        distinct_descriptors(items),
        all_built(old, items, built1),
    ensures
        ({
            let first = pass_of(name, old, next, items, built1);
            let second = pass_of(name, first.entries, first.next, items, built2);
            &&& second.entries == first.entries
            &&& second.next == first.next
            &&& second.installs.len() == 0
            &&& second.diagnostics == item_diagnostics(items, items.len())
            &&& forall|i: int|
                0 <= i < items.len() ==> first_match(first.entries, (#[trigger] items[i]).descriptor@, 0)
                    == i
        }),
{
    let first = pass_of(name, old, next, items, built1);
    lemma_run_built(name, old, next, items, built1, items.len());
    lemma_run_again(name, old, next, items, built1, built2, items.len());
    assert(first.entries.take(items.len() as int) =~= first.entries);
    assert forall|i: int| 0 <= i < items.len() implies first_match(
        first.entries,
        (#[trigger] items[i]).descriptor@,
        0,
    ) == i by {
        assert forall|k: int| 0 <= k < first.entries.len() && k != i implies (
        #[trigger] first.entries[k]).descriptor@ != items[i].descriptor@ by {
            assert(first.entries[k].descriptor == items[k].descriptor);
            assert(items[k].descriptor@ != items[i].descriptor@);
        }
        lemma_first_match_unique(first.entries, items[i].descriptor@, i, 0);
    }
}

proof fn lemma_run_again<E: View>(
    name: String,
    old: Seq<EntrySpec<E>>,
    next: int,
    items: Seq<Item<E>>,
    built1: Seq<Option<u64>>,
    built2: Seq<Option<u64>>,
    n: nat,
)
    requires
        n <= items.len(),
        built1.len() == items.len(),
        built2.len() == items.len(),
        distinct_descriptors(items),
        all_built(old, items, built1),
    ensures
        ({
            let first = pass_of(name, old, next, items, built1);
            let q = run(name, first.entries, first.next, items, built2, n);
            &&& q.entries == first.entries.take(n as int)
            &&& q.next == first.next
            &&& q.installs.len() == 0
            &&& q.diagnostics == item_diagnostics(items, n)
        }),
    decreases n,
{
    let first = pass_of(name, old, next, items, built1);
    lemma_run_built(name, old, next, items, built1, items.len());
    if n == 0 {
        assert(first.entries.take(0) =~= Seq::<EntrySpec<E>>::empty());
        assert(run(name, first.entries, first.next, items, built2, n).diagnostics =~= item_diagnostics(items, n));
    } else {
        let m = (n - 1) as nat;
        lemma_run_again(name, old, next, items, built1, built2, m);
        let q0 = run(name, first.entries, first.next, items, built2, m);
        let item = items[m as int];
        let es = first.entries;
        assert forall|k: int| 0 <= k < es.len() && k != m implies (#[trigger] es[k]).descriptor@
            != item.descriptor@ by {
            assert(es[k].descriptor == items[k].descriptor);
            assert(items[k].descriptor@ != items[m as int].descriptor@);
        }
        lemma_first_match_unique(es, item.descriptor@, m as int, 0);
        let e = es[m as int];
        assert(prior_instances(es, m as int, item.extra) == e.instances);
        assert(kept_instances(e.instances, item.scale) == e.instances);
        let q = run(name, first.entries, first.next, items, built2, n);
        assert(fresh_ids(first.next, 0) =~= Seq::<u64>::empty());
        assert(fresh_installs(q0.entries.len() as int, first.next, 0) =~= Seq::<Install>::empty());
        assert(e.instances + fresh_ids(first.next, 0) =~= e.instances);
        assert(q.entries =~= first.entries.take(n as int));
        assert(q.installs =~= q0.installs);
    }
}

/// A descriptor whose resource fails to build does not hold back another: with two items of
/// which the second is new and not built, the pass holds the entry of the first alone, and
/// besides what the items brought exactly one diagnostic, about the second.
pub proof fn lemma_build_failure_isolated<E: View>(
    name: String,
    old: Seq<EntrySpec<E>>,
    next: int,
    good: Item<E>,
    bad: Item<E>,
    built_good: Option<u64>,
)
    requires
        first_match(old, good.descriptor@, 0) >= 0 || built_good is Some,
        first_match(old, bad.descriptor@, 0) < 0,
    ensures
        ({
            let p = pass_of(name, old, next, seq![good, bad], seq![built_good, None]);
            &&& p.entries.len() == 1
            &&& p.entries[0].descriptor == good.descriptor
            &&& p.entries[0].extra == good.extra
            &&& p.entries[0].instances.len() == good.scale
            &&& p.diagnostics == good.diagnostics@ + bad.diagnostics@ + seq![
                Diagnostic::BuildFailed { name, descriptor: bad.descriptor },
            ]
        }),
        ({
            let p = pass_of(name, old, next, seq![bad, good], seq![None, built_good]);
            &&& p.entries.len() == 1
            &&& p.entries[0].descriptor == good.descriptor
            &&& p.entries[0].extra == good.extra
            &&& p.entries[0].instances.len() == good.scale
            &&& p.diagnostics == bad.diagnostics@ + seq![
                Diagnostic::BuildFailed { name, descriptor: bad.descriptor },
            ] + good.diagnostics@
        }),
{
    let j = first_match(old, good.descriptor@, 0);
    lemma_kept_len(prior_instances(old, j, good.extra), good.scale);
    let items1 = seq![good, bad];
    let built1 = seq![built_good, None];
    assert(items1[0] == good && items1[1] == bad);
    let r0 = run(name, old, next, items1, built1, 0);
    let r1 = run(name, old, next, items1, built1, 1);
    assert(r0.diagnostics + good.diagnostics@ =~= good.diagnostics@);
    let p = run(name, old, next, items1, built1, 2);
    assert(p.diagnostics =~= good.diagnostics@ + bad.diagnostics@ + seq![
        Diagnostic::BuildFailed { name, descriptor: bad.descriptor },
    ]);
    let items2 = seq![bad, good];
    let built2 = seq![None, built_good];
    assert(items2[0] == bad && items2[1] == good);
    let s0 = run(name, old, next, items2, built2, 0);
    let s1 = run(name, old, next, items2, built2, 1);
    assert(s1.entries.len() == 0);
    let q = run(name, old, next, items2, built2, 2);
    assert(q.diagnostics =~= bad.diagnostics@ + seq![
        Diagnostic::BuildFailed { name, descriptor: bad.descriptor },
    ] + good.diagnostics@);
}

/// No instance identifier is run by two entries.
pub open spec fn ids_unique<E>(es: Seq<EntrySpec<E>>) -> bool {
    forall|k1: int, m1: int, k2: int, m2: int|
        0 <= k1 < es.len() && 0 <= k2 < es.len() && k1 != k2 && 0 <= m1 < es[k1].instances.len()
            && 0 <= m2 < es[k2].instances.len() ==> #[trigger] es[k1].instances[m1]
            != #[trigger] es[k2].instances[m2]
}

/// The instances that item `k` may keep, in specifications.
pub open spec fn kept_of<E: View>(old: Seq<EntrySpec<E>>, item: Item<E>) -> Seq<u64> {
    kept_instances(
        prior_instances(old, first_match(old, item.descriptor@, 0), item.extra),
        item.scale,
    )
}

proof fn lemma_run_ids<E: View>(
    name: String,
    old: Seq<EntrySpec<E>>,
    next: int,
    items: Seq<Item<E>>,
    built: Seq<Option<u64>>,
    n: nat,
)
    requires
        n <= items.len(),
        built.len() == items.len(),
        all_built(old, items, built),
        0 <= next,
        ids_below(old, next),
        next + total_scale(items, items.len()) <= u64::MAX,
    ensures
        next <= run(name, old, next, items, built, n).next <= next + total_scale(items, n),
        forall|k: int, m: int|
            0 <= k < n && 0 <= m < run(name, old, next, items, built, n).entries[k].instances.len()
                ==> {
                let v = #[trigger] run(name, old, next, items, built, n).entries[k].instances[m];
                &&& (m < kept_of(old, items[k]).len() && v == kept_of(old, items[k])[m]) || v >= next
                &&& v >= next ==> run(name, old, next, items, built, k as nat).next <= v < run(
                    name,
                    old,
                    next,
                    items,
                    built,
                    (k + 1) as nat,
                ).next
            },
    decreases n,
{
    lemma_run_built(name, old, next, items, built, n);
    if n > 0 {
        let m0 = (n - 1) as nat;
        lemma_run_ids(name, old, next, items, built, m0);
        lemma_run_built(name, old, next, items, built, m0);
        lemma_total_scale_mono(items, n, items.len());
        let st = run(name, old, next, items, built, m0);
        let p = run(name, old, next, items, built, n);
        let item = items[m0 as int];
        let kept = kept_of(old, item);
        lemma_kept_len(prior_instances(old, first_match(old, item.descriptor@, 0), item.extra), item.scale);
        assert(first_match(old, items[m0 as int].descriptor@, 0) >= 0 || built[m0 as int] is Some);
        assert forall|k: int, m: int|
            0 <= k < n && 0 <= m < p.entries[k].instances.len() implies {
                let v = #[trigger] p.entries[k].instances[m];
                &&& (m < kept_of(old, items[k]).len() && v == kept_of(old, items[k])[m]) || v >= next
                &&& v >= next ==> run(name, old, next, items, built, k as nat).next <= v < run(
                    name,
                    old,
                    next,
                    items,
                    built,
                    (k + 1) as nat,
                ).next
            } by {
            if k < m0 {
                assert(p.entries[k] == st.entries[k]);
            } else {
                let inst = kept + fresh_ids(st.next, item.scale - kept.len());
                assert(p.entries[k].instances == inst);
                if m >= kept.len() {
                    assert(inst[m] == (st.next + (m - kept.len())) as u64);
                } else {
                    let j = first_match(old, item.descriptor@, 0);
                    lemma_first_match_range(old, item.descriptor@, 0);
                    let prior = prior_instances(old, j, item.extra);
                    assert(kept[m] == prior[m]);
                    assert(prior[m] == old[j].instances[m]);
                    assert(old[j].instances[m] < next);
                }
            }
        }
    }
}

proof fn lemma_all_ids_contains<E>(es: Seq<EntrySpec<E>>, n: nat, k: int, m: int)
    requires
        n <= es.len(),
        0 <= k < n,
        0 <= m < es[k].instances.len(),
    ensures
        all_ids(es, n).contains(es[k].instances[m]),
    decreases n,
{
    let prev = all_ids(es, (n - 1) as nat);
    if k < n - 1 {
        lemma_all_ids_contains(es, (n - 1) as nat, k, m);
        let q = choose|q: int| 0 <= q < prev.len() && prev[q] == es[k].instances[m];
        assert(all_ids(es, n)[q] == prev[q]);
    } else {
        assert(all_ids(es, n)[prev.len() + m] == es[k].instances[m]);
    }
}

proof fn lemma_not_held_contains<E>(ids: Seq<u64>, new: Seq<EntrySpec<E>>, x: u64)
    requires
        ids.contains(x),
        !holds(new, x),
    ensures
        not_held(ids, new).contains(x),
    decreases ids.len(),
{
    let pre = ids.drop_last();
    let r = not_held(pre, new);
    if ids.last() == x {
        assert(not_held(ids, new)[r.len() as int] == x);
    } else {
        let q = choose|q: int| 0 <= q < ids.len() && ids[q] == x;
        assert(pre[q] == x);
        lemma_not_held_contains(pre, new, x);
        let w = choose|w: int| 0 <= w < r.len() && r[w] == x;
        assert(not_held(ids, new)[w] == x);
    }
}

/// Where the extra configuration of a cached descriptor changes, every instance it ran is
/// stopped once the pass is committed, and the entry runs as many new instances as its scale.
///
/// This holds when the descriptors of the configuration are distinct, every item finds its
/// entry or has its resource built, and no instance ran in two entries.
pub proof fn lemma_extra_change_retires<E: View>(
    name: String,
    old: Seq<EntrySpec<E>>,
    next: int,
    items: Seq<Item<E>>,
    built: Seq<Option<u64>>,
    i: int,
)
    requires
        built.len() == items.len(),
        distinct_descriptors(items),
        all_built(old, items, built),
        ids_below(old, next),
        ids_unique(old),
        0 <= next,
        next + total_scale(items, items.len()) <= u64::MAX,
        0 <= i < items.len(),
        first_match(old, items[i].descriptor@, 0) >= 0,
        old[first_match(old, items[i].descriptor@, 0)].extra@ != items[i].extra@,
    ensures
        ({
            let j = first_match(old, items[i].descriptor@, 0);
            let p = pass_of(name, old, next, items, built);
            &&& p.entries[i].instances.len() == items[i].scale
            &&& forall|m: int|
                0 <= m < p.entries[i].instances.len() ==> #[trigger] p.entries[i].instances[m]
                    >= next
            &&& forall|m: int|
                0 <= m < old[j].instances.len() ==> retired_spec(old, p.entries).contains(
                    #[trigger] old[j].instances[m],
                )
        }),
{
    let n = items.len();
    let j = first_match(old, items[i].descriptor@, 0);
    let p = pass_of(name, old, next, items, built);
    lemma_run_built(name, old, next, items, built, n);
    lemma_run_ids(name, old, next, items, built, n);
    lemma_first_match_range(old, items[i].descriptor@, 0);
    assert(kept_of(old, items[i]) =~= Seq::<u64>::empty());
    assert forall|m: int| 0 <= m < p.entries[i].instances.len() implies #[trigger] p.entries[i].instances[m]
        >= next by {
        let v = p.entries[i].instances[m];
        assert((m < kept_of(old, items[i]).len() && v == kept_of(old, items[i])[m]) || v >= next);
    }
    assert forall|m: int| 0 <= m < old[j].instances.len() implies retired_spec(old, p.entries).contains(
        #[trigger] old[j].instances[m],
    ) by {
        let x = old[j].instances[m];
        assert(x < next);
        if holds(p.entries, x) {
            let (k, q) = choose|k: int, q: int|
                0 <= k < p.entries.len() && 0 <= q < p.entries[k].instances.len()
                    && #[trigger] p.entries[k].instances[q] == x;
            let v = p.entries[k].instances[q];
            assert((q < kept_of(old, items[k]).len() && v == kept_of(old, items[k])[q]) || v >= next);
            let jk = first_match(old, items[k].descriptor@, 0);
            lemma_first_match_range(old, items[k].descriptor@, 0);
            let prior = prior_instances(old, jk, items[k].extra);
            assert(prior.len() > 0);
            assert(kept_of(old, items[k])[q] == prior[q]);
            if k == i {
                assert(false);
            } else {
                assert(items[k].descriptor@ != items[i].descriptor@);
                assert(jk != j);
                assert(old[jk].instances[q] != old[j].instances[m]);
            }
        }
        lemma_all_ids_contains(old, old.len(), j, m);
        lemma_not_held_contains(all_ids(old, old.len()), p.entries, x);
    }
}

/// A cached descriptor that the configuration no longer names loses its entry, and every
/// instance it ran is stopped once the pass is committed.
///
/// This holds when every item finds its entry or has its resource built, and no instance ran in
/// two entries.
pub proof fn lemma_removed_retires<E: View>(
    name: String,
    old: Seq<EntrySpec<E>>,
    next: int,
    items: Seq<Item<E>>,
    built: Seq<Option<u64>>,
    j: int,
)
    requires
        built.len() == items.len(),
        all_built(old, items, built),
        ids_below(old, next),
        ids_unique(old),
        0 <= next,
        next + total_scale(items, items.len()) <= u64::MAX,
        0 <= j < old.len(),
        forall|i: int| 0 <= i < items.len() ==> (#[trigger] items[i]).descriptor@ != old[j].descriptor@,
    ensures
        ({
            let p = pass_of(name, old, next, items, built);
            &&& forall|k: int| 0 <= k < p.entries.len() ==> (#[trigger] p.entries[k]).descriptor@
                != old[j].descriptor@
            &&& forall|m: int|
                0 <= m < old[j].instances.len() ==> retired_spec(old, p.entries).contains(
                    #[trigger] old[j].instances[m],
                )
        }),
{
    let n = items.len();
    let p = pass_of(name, old, next, items, built);
    lemma_run_built(name, old, next, items, built, n);
    lemma_run_ids(name, old, next, items, built, n);
    assert forall|k: int| 0 <= k < p.entries.len() implies (#[trigger] p.entries[k]).descriptor@
        != old[j].descriptor@ by {
        assert(p.entries[k].descriptor == items[k].descriptor);
    }
    assert forall|m: int| 0 <= m < old[j].instances.len() implies retired_spec(old, p.entries).contains(
        #[trigger] old[j].instances[m],
    ) by {
        let x = old[j].instances[m];
        assert(x < next);
        if holds(p.entries, x) {
            let (k, q) = choose|k: int, q: int|
                0 <= k < p.entries.len() && 0 <= q < p.entries[k].instances.len()
                    && #[trigger] p.entries[k].instances[q] == x;
            let v = p.entries[k].instances[q];
            assert((q < kept_of(old, items[k]).len() && v == kept_of(old, items[k])[q]) || v >= next);
            let jk = first_match(old, items[k].descriptor@, 0);
            lemma_first_match_range(old, items[k].descriptor@, 0);
            let prior = prior_instances(old, jk, items[k].extra);
            assert(prior.len() > 0);
            assert(kept_of(old, items[k])[q] == prior[q]);
            assert(items[k].descriptor@ != old[j].descriptor@);
            assert(jk != j);
            assert(old[jk].instances[q] != old[j].instances[m]);
        }
        lemma_all_ids_contains(old, old.len(), j, m);
        lemma_not_held_contains(all_ids(old, old.len()), p.entries, x);
    }
}

proof fn lemma_run_next_mono<E: View>(
    name: String,
    old: Seq<EntrySpec<E>>,
    next: int,
    items: Seq<Item<E>>,
    built: Seq<Option<u64>>,
    a: nat,
    b: nat,
)
    requires
        a <= b <= items.len(),
    ensures
        run(name, old, next, items, built, a).next <= run(name, old, next, items, built, b).next,
    decreases b - a,
{
    if a < b {
        let m = (b - 1) as nat;
        lemma_run_next_mono(name, old, next, items, built, a, m);
        let item = items[m as int];
        lemma_kept_len(
            prior_instances(old, first_match(old, item.descriptor@, 0), item.extra),
            item.scale,
        );
    }
}

/// A pass keeps instance identifiers unique: with distinct descriptors, where no instance ran in
/// two entries before, none runs in two entries after. (The other laws assume this of the cache
/// they start from.)
pub proof fn lemma_ids_stay_unique<E: View>(
    name: String,
    old: Seq<EntrySpec<E>>,
    next: int,
    items: Seq<Item<E>>,
    built: Seq<Option<u64>>,
)
    requires
        built.len() == items.len(),
        distinct_descriptors(items),
        all_built(old, items, built),
        ids_below(old, next),
        ids_unique(old),
        0 <= next,
        next + total_scale(items, items.len()) <= u64::MAX,
    ensures
        ids_unique(pass_of(name, old, next, items, built).entries),
        ids_below(
            pass_of(name, old, next, items, built).entries,
            pass_of(name, old, next, items, built).next,
        ),
{
    let n = items.len();
    let p = pass_of(name, old, next, items, built);
    lemma_run_built(name, old, next, items, built, n);
    lemma_run_ids(name, old, next, items, built, n);
    assert forall|k1: int, m1: int, k2: int, m2: int|
        0 <= k1 < p.entries.len() && 0 <= k2 < p.entries.len() && k1 != k2 && 0 <= m1
            < p.entries[k1].instances.len() && 0 <= m2 < p.entries[k2].instances.len() implies #[trigger] p.entries[k1].instances[m1]
        != #[trigger] p.entries[k2].instances[m2] by {
        let v1 = p.entries[k1].instances[m1];
        let v2 = p.entries[k2].instances[m2];
        if v1 >= next && v2 >= next {
            if k1 < k2 {
                lemma_run_next_mono(name, old, next, items, built, (k1 + 1) as nat, k2 as nat);
            } else {
                lemma_run_next_mono(name, old, next, items, built, (k2 + 1) as nat, k1 as nat);
            }
        } else if v1 < next && v2 < next {
            let j1 = first_match(old, items[k1].descriptor@, 0);
            let j2 = first_match(old, items[k2].descriptor@, 0);
            lemma_first_match_range(old, items[k1].descriptor@, 0);
            lemma_first_match_range(old, items[k2].descriptor@, 0);
            let pr1 = prior_instances(old, j1, items[k1].extra);
            let pr2 = prior_instances(old, j2, items[k2].extra);
            assert(pr1.len() > 0 && pr2.len() > 0);
            assert(kept_of(old, items[k1])[m1] == pr1[m1]);
            assert(kept_of(old, items[k2])[m2] == pr2[m2]);
            assert(items[k1].descriptor@ != items[k2].descriptor@);
            assert(j1 != j2);
            assert(old[j1].instances[m1] != old[j2].instances[m2]);
        }
    }
    assert forall|k: int, m: int|
        0 <= k < p.entries.len() && 0 <= m < p.entries[k].instances.len() implies #[trigger] p.entries[k].instances[m]
        < p.next by {
        lemma_run_next_mono(name, old, next, items, built, (k + 1) as nat, n);
    }
}

} // verus!

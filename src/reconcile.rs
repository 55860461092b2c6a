//! The reconciliation engine: from the running instances and a new configuration to the
//! instances that should run.
//!
//! The cache records, for each descriptor, the resource built for it and the identifiers of its
//! running instances. A pass compares the cache with the configured items and yields the next
//! cache, the instances to start and the diagnostics. Nothing changes until the host commits the
//! pass; a rejected pass leaves the cache as it was.
use vstd::prelude::*;

use crate::config::CfgEq;
use crate::diagnostic::{has_fatal, any_fatal, Diagnostic};
use crate::listen::Listen;

verus! {

/// One configured socket, as the configuration gives it.
pub struct Item<E> {
    /// The identity of the socket.
    pub descriptor: Listen,
    /// Configuration that the instances see but that does not change the socket itself.
    pub extra: E,
    /// The number of instances wanted.
    pub scale: usize,
    /// What the configuration already found about this item.
    pub diagnostics: Vec<Diagnostic>,
}

/// The cached state of one descriptor.
pub struct Entry<E> {
    /// The identity of the socket.
    pub descriptor: Listen,
    /// The extra configuration the running instances were started with.
    pub extra: E,
    /// The identifier of the built resource, shared by all instances.
    pub resource: u64,
    /// The identifiers of the running instances.
    pub instances: Vec<u64>,
}

/// The state of one descriptor, in specifications.
pub struct EntrySpec<E> {
    pub descriptor: Listen,
    pub extra: E,
    pub resource: u64,
    pub instances: Seq<u64>,
}

impl<E> Entry<E> {
    pub open spec fn spec(&self) -> EntrySpec<E> {
        EntrySpec {
            descriptor: self.descriptor,
            extra: self.extra,
            resource: self.resource,
            instances: self.instances@,
        }
    }
}

/// What runs: one entry per descriptor, and the next free instance identifier.
pub struct Cache<E> {
    pub entries: Vec<Entry<E>>,
    pub next_instance: u64,
}

/// The entries of a vector, in specifications.
pub open spec fn entries_spec<E>(v: Seq<Entry<E>>) -> Seq<EntrySpec<E>> {
    v.map_values(|e: Entry<E>| e.spec())
}

/// Every instance identifier of the entries lies below `next`.
pub open spec fn ids_below<E>(es: Seq<EntrySpec<E>>, next: int) -> bool {
    forall|k: int, m: int|
        0 <= k < es.len() && 0 <= m < es[k].instances.len() ==> #[trigger] es[k].instances[m] < next
}

impl<E> Cache<E> {
    pub open spec fn model(&self) -> Seq<EntrySpec<E>> {
        entries_spec(self.entries@)
    }

    /// Identifiers handed out so far lie below the next free one.
    pub open spec fn wf(&self) -> bool {
        ids_below(self.model(), self.next_instance as int)
    }

    /// An empty cache.
    pub fn new() -> (r: Cache<E>)
        ensures
            r.model().len() == 0,
            r.next_instance == 0,
            r.wf(),
    {
        Cache { entries: Vec::new(), next_instance: 0 }
    }
}

/// A request to start one instance of the entry at index `entry` of the new cache.
#[derive(Clone, Copy, Debug, PartialEq, Eq, Structural)]
pub struct Install {
    pub entry: usize,
    pub instance: u64,
}

/// The result of one pass, before it is committed.
pub struct Pass<E> {
    pub cache: Cache<E>,
    pub installs: Vec<Install>,
    pub diagnostics: Vec<Diagnostic>,
}

/// The result of a pass, in specifications.
pub struct PassSpec<E> {
    pub entries: Seq<EntrySpec<E>>,
    pub next: int,
    pub installs: Seq<Install>,
    pub diagnostics: Seq<Diagnostic>,
}

impl<E> Pass<E> {
    pub open spec fn model(&self) -> PassSpec<E> {
        PassSpec {
            entries: self.cache.model(),
            next: self.cache.next_instance as int,
            installs: self.installs@,
            diagnostics: self.diagnostics@,
        }
    }

    /// A pass is accepted when none of its diagnostics is fatal; a failed build is not.
    pub fn is_accepted(&self) -> (r: bool)
        ensures
            r == !has_fatal(self.diagnostics@),
    {
        !any_fatal(&self.diagnostics)
    }
}

/// The index of the first entry, from `i` on, whose descriptor has the view `d`; -1 if none.
pub open spec fn first_match<E>(es: Seq<EntrySpec<E>>, d: (u16, Seq<char>), i: int) -> int
    decreases es.len() - i,
{
    if i < 0 || i >= es.len() {
        -1
    } else if es[i].descriptor@ == d {
        i
    } else {
        first_match(es, d, i + 1)
    }
}

/// `n` identifiers counted up from `start`.
pub open spec fn fresh_ids(start: int, n: int) -> Seq<u64> {
    Seq::new(n as nat, |k: int| (start + k) as u64)
}

/// Install requests for `n` new instances of entry `entry`, with identifiers from `start` on.
pub open spec fn fresh_installs(entry: int, start: int, n: int) -> Seq<Install> {
    Seq::new(n as nat, |k: int| Install { entry: entry as usize, instance: (start + k) as u64 })
}

/// The instances of a matched entry that may keep running: all of them while the extra
/// configuration is unchanged, none otherwise.
pub open spec fn prior_instances<E: View>(old: Seq<EntrySpec<E>>, j: int, extra: E) -> Seq<u64> {
    if 0 <= j && old[j].extra@ == extra@ {
        old[j].instances
    } else {
        Seq::empty()
    }
}

/// The instances kept of `prior` under a scale: those beyond it are stopped.
pub open spec fn kept_instances(prior: Seq<u64>, scale: usize) -> Seq<u64> {
    if prior.len() > scale {
        prior.take(scale as int)
    } else {
        prior
    }
}

/// One item taken into a pass.
///
/// A descriptor found in the old cache keeps its resource; a new one takes the resource built
/// for it, or, where building failed, is left out with an error that does not reject the pass.
/// The instances of a match run on unless the extra configuration changed; the list is cut or
/// filled up to the scale.
pub open spec fn step<E: View>(
    name: String,
    old: Seq<EntrySpec<E>>,
    st: PassSpec<E>,
    item: Item<E>,
    built: Option<u64>,
) -> PassSpec<E> {
    let j = first_match(old, item.descriptor@, 0);
    let diags = st.diagnostics + item.diagnostics@;
    if j < 0 && built is None {
        PassSpec {
            diagnostics: diags.push(Diagnostic::BuildFailed { name, descriptor: item.descriptor }),
            ..st
        }
    } else {
        let resource = if j >= 0 {
            old[j].resource
        } else {
            match built {
                Some(r) => r,
                None => 0,
            }
        };
        let kept = kept_instances(prior_instances(old, j, item.extra), item.scale);
        let spawn = item.scale - kept.len();
        PassSpec {
            entries: st.entries.push(
                EntrySpec {
                    descriptor: item.descriptor,
                    extra: item.extra,
                    resource,
                    instances: kept + fresh_ids(st.next, spawn),
                },
            ),
            next: st.next + spawn,
            installs: st.installs + fresh_installs(st.entries.len() as int, st.next, spawn),
            diagnostics: diags,
        }
    }
}

/// The first `n` items taken into a pass, in order.
pub open spec fn run<E: View>(
    name: String,
    old: Seq<EntrySpec<E>>,
    next: int,
    items: Seq<Item<E>>,
    built: Seq<Option<u64>>,
    n: nat,
) -> PassSpec<E>
    decreases n,
{
    if n == 0 {
        PassSpec { entries: Seq::empty(), next, installs: Seq::empty(), diagnostics: Seq::empty() }
    } else {
        step(name, old, run(name, old, next, items, built, (n - 1) as nat), items[n - 1], built[n - 1])
    }
}

/// A whole pass over the items.
pub open spec fn pass_of<E: View>(
    name: String,
    old: Seq<EntrySpec<E>>,
    next: int,
    items: Seq<Item<E>>,
    built: Seq<Option<u64>>,
) -> PassSpec<E> {
    run(name, old, next, items, built, items.len())
}

/// The sum of the scales of the first `n` items.
pub open spec fn total_scale<E>(items: Seq<Item<E>>, n: nat) -> int
    decreases n,
{
    if n == 0 {
        0
    } else {
        total_scale(items, (n - 1) as nat) + items[n - 1].scale
    }
}

/// The first match is -1 or an index whose descriptor matches.
pub proof fn lemma_first_match_range<E>(es: Seq<EntrySpec<E>>, d: (u16, Seq<char>), i: int)
    ensures
        -1 <= first_match(es, d, i) < es.len(),
        first_match(es, d, i) >= 0 ==> es[first_match(es, d, i)].descriptor@ == d,
    decreases es.len() - i,
{
    if 0 <= i < es.len() && es[i].descriptor@ != d {
        lemma_first_match_range(es, d, i + 1);
    }
}

/// Looks up the first entry whose descriptor equals `d`.
fn find_entry<E>(entries: &Vec<Entry<E>>, d: &Listen) -> (r: Option<usize>)
    ensures
        match r {
            Some(j) => j as int == first_match(entries_spec(entries@), d@, 0),
            None => first_match(entries_spec(entries@), d@, 0) == -1,
        },
{
    let ghost es = entries_spec(entries@);
    let mut i: usize = 0;
    while i < entries.len()
        invariant
            0 <= i <= entries@.len(),
            es == entries_spec(entries@),
            first_match(es, d@, 0) == first_match(es, d@, i as int),
        decreases entries@.len() - i,
    {
        if entries[i].descriptor.same(d) {
            return Some(i);
        }
        i = i + 1;
    }
    None
}

/// A copy of a list of identifiers.
fn copy_ids(v: &Vec<u64>) -> (r: Vec<u64>)
    ensures
        r@ == v@,
{
    let mut r: Vec<u64> = Vec::new();
    let mut i: usize = 0;
    while i < v.len()
        invariant
            0 <= i <= v@.len(),
            r@ == v@.take(i as int),
        decreases v@.len() - i,
    {
        r.push(v[i]);
        i = i + 1;
        assert(r@ =~= v@.take(i as int));
    }
    assert(v@.take(v@.len() as int) =~= v@);
    r
}

/// The owner of the cache: takes each configuration in as one pass.
pub struct Reconciler<E> {
    /// The name used in diagnostics.
    pub name: String,
    /// What runs now.
    pub cache: Cache<E>,
}

impl<E: CfgEq> Reconciler<E> {
    /// A reconciler with nothing running.
    pub fn new(name: String) -> (r: Reconciler<E>)
        ensures
            r.name == name,
            r.cache.model().len() == 0,
            r.cache.next_instance == 0,
            r.cache.wf(),
    {
        Reconciler { name, cache: Cache::new() }
    }

    /// For each item, whether its resource has to be built: whether no cached entry has its
    /// descriptor.
    pub fn needs_build(&self, items: &Vec<Item<E>>) -> (r: Vec<bool>)
        ensures
            r@.len() == items@.len(),
            forall|i: int|
                0 <= i < items@.len() ==> #[trigger] r@[i] == (first_match(
                    self.cache.model(),
                    items@[i].descriptor@,
                    0,
                ) < 0),
    {
        let mut r: Vec<bool> = Vec::new();
        let mut i: usize = 0;
        while i < items.len()
            invariant
                0 <= i <= items@.len(),
                r@.len() == i,
                forall|k: int|
                    0 <= k < i ==> #[trigger] r@[k] == (first_match(
                        self.cache.model(),
                        items@[k].descriptor@,
                        0,
                    ) < 0),
            decreases items@.len() - i,
        {
            let found = find_entry(&self.cache.entries, &items[i].descriptor);
            r.push(found.is_none());
            i = i + 1;
        }
        r
    }

    /// Computes one pass over the configured items.
    ///
    /// `built[i]` is the resource built for item `i`, or `None` where building failed; it is read
    /// only for items that `needs_build` marks. The cache itself is left as it is.
    pub fn reconcile(&self, items: Vec<Item<E>>, built: &Vec<Option<u64>>) -> (r: Pass<E>)
        requires
            built@.len() == items@.len(),
            self.cache.next_instance + total_scale(items@, items@.len()) <= u64::MAX,
        ensures
            r.model() == pass_of(
                self.name,
                self.cache.model(),
                self.cache.next_instance as int,
                items@,
                built@,
            ),
            self.cache.wf() ==> r.cache.wf(),
    {
        let ghost old_es = self.cache.model();
        let ghost next0 = self.cache.next_instance as int;
        let ghost all = items@;
        let n = items.len();
        let mut rest = items;
        let mut entries: Vec<Entry<E>> = Vec::new();
        let mut installs: Vec<Install> = Vec::new();
        let mut diags: Vec<Diagnostic> = Vec::new();
        let mut next: u64 = self.cache.next_instance;
        let mut i: usize = 0;
        assert(entries_spec(entries@) =~= Seq::<EntrySpec<E>>::empty());
        while i < n
            invariant
                n == all.len(),
                built@.len() == n,
                0 <= i <= n,
                rest@ == all.subrange(i as int, n as int),
                old_es == self.cache.model(),
                next0 == self.cache.next_instance,
                next0 + total_scale(all, n as nat) <= u64::MAX,
                next0 <= next <= next0 + total_scale(all, i as nat),
                (PassSpec {
                    entries: entries_spec(entries@),
                    next: next as int,
                    installs: installs@,
                    diagnostics: diags@,
                }) == run(self.name, old_es, next0, all, built@, i as nat),
                self.cache.wf() ==> ids_below(entries_spec(entries@), next as int),
            decreases n - i,
        {
            proof {
                assert(total_scale(all, (i + 1) as nat) == total_scale(all, i as nat) + all[i as int].scale);
                lemma_total_scale_mono(all, (i + 1) as nat, n as nat);
            }
            let ghost st = run(self.name, old_es, next0, all, built@, i as nat);
            let ghost item = all[i as int];
            assert(rest@[0] == item);
            let Item { descriptor, extra, scale, mut diagnostics } = rest.remove(0);
            let ghost diags_before = diags@;
            diags.append(&mut diagnostics);
            assert(diags@ == st.diagnostics + item.diagnostics@);
            let found = find_entry(&self.cache.entries, &descriptor);
            proof {
                lemma_first_match_range(old_es, descriptor@, 0);
            }
            let ghost j = first_match(old_es, descriptor@, 0);
            let source: Option<(u64, Vec<u64>)> = match found {
                Some(k) => {
                    let e = &self.cache.entries[k];
                    assert(old_es[k as int] == e.spec());
                    if e.extra.cfg_eq(&extra) {
                        Some((e.resource, copy_ids(&e.instances)))
                    } else {
                        Some((e.resource, Vec::new()))
                    }
                },
                None => match built[i] {
                    Some(res) => Some((res, Vec::new())),
                    None => None,
                },
            };
            match source {
                None => {
                    diags.push(Diagnostic::BuildFailed { name: self.name.clone(), descriptor });
                    proof {
                        assert(entries_spec(entries@) == st.entries);
                    }
                },
                Some((resource, instances0)) => {
                    let mut instances = instances0;
                    assert(instances@ == prior_instances(old_es, j, item.extra));
                    if instances.len() > scale {
                        instances.truncate(scale);
                    }
                    let ghost kept = instances@;
                    assert(kept =~= kept_instances(prior_instances(old_es, j, item.extra), scale));
                    let ghost start = next as int;
                    let idx = entries.len();
                    let ghost installs_before = installs@;
                    while instances.len() < scale
                        invariant
                            kept.len() <= scale,
                            kept.len() <= instances@.len() <= scale,
                            start == st.next,
                            next0 <= start,
                            self.cache.wf() ==> ids_below(entries_spec(entries@), start),
                            next == start + (instances@.len() - kept.len()),
                            next0 + total_scale(all, n as nat) <= u64::MAX,
                            start <= next0 + total_scale(all, i as nat),
                            total_scale(all, (i + 1) as nat) == total_scale(all, i as nat) + scale,
                            total_scale(all, (i + 1) as nat) <= total_scale(all, n as nat),
                            instances@ == kept + fresh_ids(start, instances@.len() - kept.len()),
                            installs@ == installs_before + fresh_installs(
                                idx as int,
                                start,
                                instances@.len() - kept.len(),
                            ),
                        decreases scale - instances@.len(),
                    {
                        let ghost c = instances@.len() - kept.len();
                        instances.push(next);
                        installs.push(Install { entry: idx, instance: next });
                        next = next + 1;
                        assert(instances@ =~= kept + fresh_ids(start, c + 1));
                        assert(installs@ =~= installs_before + fresh_installs(idx as int, start, c + 1));
                    }
                    let ghost inst = instances@;
                    let ghost es_before = entries@;
                    entries.push(Entry { descriptor, extra, resource, instances });
                    proof {
                        assert(entries_spec(entries@) =~= entries_spec(es_before).push(
                            entries@.last().spec(),
                        ));
                        if self.cache.wf() {
                            let es = entries_spec(entries@);
                            assert forall|k: int, m: int|
                                0 <= k < es.len() && 0 <= m < es[k].instances.len() implies #[trigger] es[k].instances[m]
                                < next as int by {
                                if k == es.len() - 1 {
                                    let p = prior_instances(old_es, j, item.extra);
                                    assert(es[k].instances == inst);
                                    if m >= kept.len() {
                                        assert(inst[m] == (start + (m - kept.len())) as u64);
                                    } else {
                                        assert(kept[m] == p[m]);
                                        if p.len() > 0 {
                                            assert(p == old_es[j].instances);
                                            assert(old_es[j].instances[m] < next0);
                                        }
                                    }
                                } else {
                                    assert(es[k] == entries_spec(es_before)[k]);
                                    assert(entries_spec(es_before)[k].instances[m] < start);
                                }
                            }
                        }
                    }
                },
            }
            i = i + 1;
            proof {
                assert(rest@ =~= all.subrange(i as int, n as int));
            }
        }
        Pass {
            cache: Cache { entries, next_instance: next },
            installs,
            diagnostics: diags,
        }
    }
}

/// The sum of the scales grows with the number of items.
pub proof fn lemma_total_scale_mono<E>(items: Seq<Item<E>>, a: nat, b: nat)
    requires
        a <= b <= items.len(),
    ensures
        total_scale(items, a) <= total_scale(items, b),
    decreases b - a,
{
    if a < b {
        lemma_total_scale_mono(items, a, (b - 1) as nat);
    }
}

/// Whether some entry runs the instance `x`.
pub open spec fn holds<E>(es: Seq<EntrySpec<E>>, x: u64) -> bool {
    exists|k: int, m: int|
        0 <= k < es.len() && 0 <= m < es[k].instances.len() && #[trigger] es[k].instances[m] == x
}

/// The instances of the first `n` entries, entry by entry.
pub open spec fn all_ids<E>(es: Seq<EntrySpec<E>>, n: nat) -> Seq<u64>
    decreases n,
{
    if n == 0 || n > es.len() {
        Seq::empty()
    } else {
        all_ids(es, (n - 1) as nat) + es[n - 1].instances
    }
}

/// The identifiers of `ids` that no entry of `new` runs, in order.
pub open spec fn not_held<E>(ids: Seq<u64>, new: Seq<EntrySpec<E>>) -> Seq<u64>
    decreases ids.len(),
{
    if ids.len() == 0 {
        Seq::empty()
    } else {
        let r = not_held(ids.drop_last(), new);
        if holds(new, ids.last()) {
            r
        } else {
            r.push(ids.last())
        }
    }
}

/// The instances of `old` that `new` no longer runs: those to stop.
pub open spec fn retired_spec<E>(old: Seq<EntrySpec<E>>, new: Seq<EntrySpec<E>>) -> Seq<u64> {
    not_held(all_ids(old, old.len()), new)
}

/// Whether some entry runs the instance `x`.
pub fn holds_instance<E>(entries: &Vec<Entry<E>>, x: u64) -> (r: bool)
    ensures
        r == holds(entries_spec(entries@), x),
{
    let ghost es = entries_spec(entries@);
    let mut k: usize = 0;
    while k < entries.len()
        invariant
            0 <= k <= entries@.len(),
            es == entries_spec(entries@),
            forall|a: int, b: int|
                0 <= a < k && 0 <= b < es[a].instances.len() ==> #[trigger] es[a].instances[b] != x,
        decreases entries@.len() - k,
    {
        let inst = &entries[k].instances;
        assert(es[k as int].instances == inst@);
        let mut m: usize = 0;
        while m < inst.len()
            invariant
                0 <= k < entries@.len(),
                0 <= m <= inst@.len(),
                es == entries_spec(entries@),
                es[k as int].instances == inst@,
                forall|b: int| 0 <= b < m ==> #[trigger] inst@[b] != x,
            decreases inst@.len() - m,
        {
            if inst[m] == x {
                assert(es[k as int].instances[m as int] == x);
                return true;
            }
            m = m + 1;
        }
        k = k + 1;
    }
    false
}

/// The instances of `old` that `new` no longer runs, in the order of `old`.
///
/// Once a pass is committed, these are the instances whose handles are dropped, each drop waiting
/// until its instance has terminated.
pub fn retired<E>(old: &Cache<E>, new: &Cache<E>) -> (r: Vec<u64>)
    ensures
        r@ == retired_spec(old.model(), new.model()),
{
    let ghost es = old.model();
    let mut ids: Vec<u64> = Vec::new();
    let mut k: usize = 0;
    while k < old.entries.len()
        invariant
            0 <= k <= old.entries@.len(),
            es == old.model(),
            ids@ == all_ids(es, k as nat),
        decreases old.entries@.len() - k,
    {
        let inst = &old.entries[k].instances;
        assert(es[k as int].instances == inst@);
        let ghost before = ids@;
        let mut m: usize = 0;
        while m < inst.len()
            invariant
                0 <= m <= inst@.len(),
                ids@ == before + inst@.take(m as int),
            decreases inst@.len() - m,
        {
            ids.push(inst[m]);
            m = m + 1;
            assert(ids@ =~= before + inst@.take(m as int));
        }
        assert(inst@.take(inst@.len() as int) =~= inst@);
        k = k + 1;
    }
    let mut r: Vec<u64> = Vec::new();
    let mut i: usize = 0;
    while i < ids.len()
        invariant
            0 <= i <= ids@.len(),
            r@ == not_held(ids@.take(i as int), new.model()),
        decreases ids@.len() - i,
    {
        let x = ids[i];
        assert(ids@.take(i as int + 1).drop_last() =~= ids@.take(i as int));
        if !holds_instance(&new.entries, x) {
            r.push(x);
        }
        i = i + 1;
    }
    assert(ids@.take(ids@.len() as int) =~= ids@);
    r
}

/// What a committed pass asks of the host.
pub struct Commit {
    /// The instances to start, in order.
    pub installs: Vec<Install>,
    /// The instances to stop.
    pub retired: Vec<u64>,
}

impl<E: CfgEq> Reconciler<E> {
    /// Commits a pass: when it is accepted, its cache replaces the current one and the instances
    /// to start and to stop are returned; otherwise nothing changes and `None` is returned.
    pub fn commit(&mut self, pass: Pass<E>) -> (r: Option<Commit>)
        ensures
            has_fatal(pass.diagnostics@) ==> r is None && *final(self) == *old(self),
            !has_fatal(pass.diagnostics@) ==> r is Some && final(self).name == old(self).name
                && final(self).cache == pass.cache && r->0.installs@ == pass.installs@
                && r->0.retired@ == retired_spec(old(self).cache.model(), pass.cache.model()),
    {
        if !pass.is_accepted() {
            return None;
        }
        let Pass { cache, installs, .. } = pass;
        let gone = retired(&self.cache, &cache);
        self.cache = cache;
        Some(Commit { installs, retired: gone })
    }
}

impl<E: CfgEq> Reconciler<E> {
    /// Takes one configuration in: computes the pass and, unless a diagnostic is fatal, commits
    /// it. Returns what the commit asks of the host, if it happened, and the pass's diagnostics.
    pub fn validate(&mut self, items: Vec<Item<E>>, built: &Vec<Option<u64>>) -> (r: (
        Option<Commit>,
        Vec<Diagnostic>,
    ))
        requires
            built@.len() == items@.len(),
            old(self).cache.next_instance + total_scale(items@, items@.len()) <= u64::MAX,
        ensures
            ({
                let p = pass_of(
                    old(self).name,
                    old(self).cache.model(),
                    old(self).cache.next_instance as int,
                    items@,
                    built@,
                );
                &&& r.1@ == p.diagnostics
                &&& has_fatal(p.diagnostics) ==> r.0 is None && *final(self) == *old(self)
                &&& !has_fatal(p.diagnostics) ==> {
                    &&& r.0 is Some
                    &&& final(self).name == old(self).name
                    &&& final(self).cache.model() == p.entries
                    &&& final(self).cache.next_instance == p.next
                    &&& r.0->0.installs@ == p.installs
                    &&& r.0->0.retired@ == retired_spec(old(self).cache.model(), p.entries)
                }
            }),
            old(self).cache.wf() ==> final(self).cache.wf(),
    {
        let Pass { cache, installs, diagnostics } = self.reconcile(items, built);
        if any_fatal(&diagnostics) {
            return (None, diagnostics);
        }
        let gone = retired(&self.cache, &cache);
        self.cache = cache;
        (Some(Commit { installs, retired: gone }), diagnostics)
    }
}

/// Whether some entry shares the resource `id`.
pub open spec fn uses_resource<E>(es: Seq<EntrySpec<E>>, id: u64) -> bool {
    exists|k: int| 0 <= k < es.len() && (#[trigger] es[k]).resource == id
}

/// Whether some entry of the cache shares the resource `id`; a resource that none shares is
/// released.
pub fn resource_in_use<E>(cache: &Cache<E>, id: u64) -> (r: bool)
    ensures
        r == uses_resource(cache.model(), id),
{
    let mut k: usize = 0;
    while k < cache.entries.len()
        invariant
            0 <= k <= cache.entries@.len(),
            forall|a: int| 0 <= a < k ==> (#[trigger] cache.model()[a]).resource != id,
        decreases cache.entries@.len() - k,
    {
        if cache.entries[k].resource == id {
            assert(cache.model()[k as int].resource == id);
            return true;
        }
        k = k + 1;
    }
    false
}

} // verus!

//! Assembling an application from helpers.
//!
//! A helper registers what a piece of the application needs in one go: a socket helper the name
//! of its component and the runtime it runs on. The builder records these registrations; the
//! component's reconciler stays with its `Task`. Some helpers are needed once however many ask
//! for them; the first registration of such a singleton wins.
use vstd::prelude::*;

use crate::runtime::{runtime_key, Runtime};

verus! {

/// What the application is assembled from, so far.
#[derive(Debug)]
pub struct Builder {
    singletons: Vec<String>,
    components: Vec<String>,
    runtime: Option<Runtime>,
}

/// Whether `s` holds `key`.
pub open spec fn has_key(s: Seq<Seq<char>>, key: Seq<char>) -> bool {
    exists|i: int| 0 <= i < s.len() && #[trigger] s[i] == key
}

impl Builder {
    /// The keys of the singletons registered so far.
    pub closed spec fn singleton_keys(&self) -> Seq<Seq<char>> {
        self.singletons@.map_values(|s: String| s@)
    }

    /// The names of the components registered so far, in order.
    pub closed spec fn component_names(&self) -> Seq<Seq<char>> {
        self.components@.map_values(|s: String| s@)
    }

    /// The runtime chosen so far.
    pub closed spec fn runtime_spec(&self) -> Option<Runtime> {
        self.runtime
    }

    /// An empty builder.
    pub fn new() -> (r: Builder)
        ensures
            r.singleton_keys().len() == 0,
            r.component_names().len() == 0,
            r.runtime_spec() is None,
    {
        let r = Builder { singletons: Vec::new(), components: Vec::new(), runtime: None };
        assert(r.singleton_keys() =~= Seq::<Seq<char>>::empty());
        assert(r.component_names() =~= Seq::<Seq<char>>::empty());
        r
    }

    /// Whether a singleton with this key was registered.
    pub fn has_singleton(&self, key: &str) -> (r: bool)
        ensures
            r == has_key(self.singleton_keys(), key@),
    {
        let k = String::from_str(key);
        let mut i: usize = 0;
        while i < self.singletons.len()
            invariant
                0 <= i <= self.singletons@.len(),
                k@ == key@,
                forall|k: int| 0 <= k < i ==> #[trigger] self.singleton_keys()[k] != key@,
            decreases self.singletons@.len() - i,
        {
            assert(self.singleton_keys()[i as int] == self.singletons@[i as int]@);
            if self.singletons[i] == k {
                assert(self.singleton_keys()[i as int] == key@);
                return true;
            }
            i = i + 1;
        }
        false
    }

    /// Checks whether this is the first call with the given key, and records the key.
    ///
    /// The first call with a key returns `true`, any later one `false`.
    pub fn singleton(&mut self, key: &str) -> (r: bool)
        ensures
            r == !has_key(old(self).singleton_keys(), key@),
            has_key(final(self).singleton_keys(), key@),
            r ==> final(self).singleton_keys() == old(self).singleton_keys().push(key@),
            !r ==> *final(self) == *old(self),
            keys_kept(old(self).singleton_keys(), final(self).singleton_keys()),
            final(self).component_names() == old(self).component_names(),
            final(self).runtime_spec() == old(self).runtime_spec(),
    {
        if self.has_singleton(key) {
            false
        } else {
            let ghost before = self.singletons@;
            let ghost keys0 = self.singleton_keys();
            self.singletons.push(String::from_str(key));
            assert(self.singleton_keys() =~= before.map_values(|s: String| s@).push(key@));
            assert(self.singleton_keys()[self.singleton_keys().len() - 1] == key@);
            assert forall|k: Seq<char>| has_key(keys0, k) implies has_key(
                self.singleton_keys(),
                k,
            ) by {
                let i = choose|i: int| 0 <= i < keys0.len() && #[trigger] keys0[i] == k;
                assert(self.singleton_keys()[i] == k);
            }
            true
        }
    }

    /// Applies a helper. The keys of singletons registered before stay registered.
    pub fn with<H: Helper>(self, helper: H) -> (r: Self)
        ensures
            keys_kept(self.singleton_keys(), r.singleton_keys()),
    {
        helper.apply(self)
    }

    /// Applies a helper, but only if none was applied under the same key before (or `singleton`
    /// was called with it): the first one wins, and any later call leaves the builder as it is.
    /// Either way the key is registered afterwards.
    pub fn with_singleton<H: Helper>(self, key: &str, singleton: H) -> (r: Self)
        ensures
            has_key(self.singleton_keys(), key@) ==> r == self,
            has_key(r.singleton_keys(), key@),
            keys_kept(self.singleton_keys(), r.singleton_keys()),
    {
        let mut b = self;
        if b.singleton(key) {
            b.with(singleton)
        } else {
            b
        }
    }

    /// Applies a helper made of a piece of the configuration, registered under `name`.
    pub fn config_helper<Cfg: CfgHelper>(self, cfg: Cfg, name: String) -> (r: Self)
        ensures
            registered(self, name@, r),
    {
        cfg.apply(name, self)
    }

    /// Registers a component by its name.
    pub fn register(&mut self, name: String)
        ensures
            final(self).component_names() == old(self).component_names().push(name@),
            final(self).singleton_keys() == old(self).singleton_keys(),
            final(self).runtime_spec() == old(self).runtime_spec(),
    {
        let ghost before = self.components@;
        let ghost keys0 = self.singleton_keys();
        self.components.push(name);
        assert(self.singleton_keys() =~= keys0);
        assert(self.component_names() =~= before.map_values(|s: String| s@).push(name@));
    }

    /// Chooses the runtime.
    pub fn set_runtime(&mut self, runtime: Runtime)
        ensures
            final(self).runtime_spec() == Some(runtime),
            final(self).component_names() == old(self).component_names(),
            final(self).singleton_keys() == old(self).singleton_keys(),
    {
        self.runtime = Some(runtime);
    }

    /// The runtime chosen, if any.
    pub fn runtime(&self) -> (r: Option<Runtime>)
        ensures
            r == self.runtime_spec(),
    {
        self.runtime
    }

    /// The names of the registered components.
    pub fn components(&self) -> (r: &Vec<String>)
        ensures
            r@.map_values(|s: String| s@) == self.component_names(),
    {
        &self.components
    }
}

/// Every key of `before` is still in `after`.
pub open spec fn keys_kept(before: Seq<Seq<char>>, after: Seq<Seq<char>>) -> bool {
    forall|k: Seq<char>| #[trigger] has_key(before, k) ==> has_key(after, k)
}

/// The key under which the runtime registers, in specifications.
pub open spec fn runtime_key_spec() -> Seq<char> {
    seq!['r', 'u', 'n', 't', 'i', 'm', 'e']
}

/// `after` is `before` with a socket component registered under `name`: the name is added to
/// the components, the runtime key is held, and the runtime is the one chosen before, or the
/// thread pool where none was.
pub open spec fn registered(before: Builder, name: Seq<char>, after: Builder) -> bool {
    &&& after.component_names() == before.component_names().push(name)
    &&& keys_kept(before.singleton_keys(), after.singleton_keys())
    &&& has_key(after.singleton_keys(), runtime_key_spec())
    &&& has_key(before.singleton_keys(), runtime_key_spec()) ==> after.runtime_spec()
        == before.runtime_spec()
    &&& !has_key(before.singleton_keys(), runtime_key_spec()) ==> after.runtime_spec() == Some(
        Runtime::ThreadPool,
    )
}

/// Something that modifies a builder in one go, keeping the singletons registered before.
pub trait Helper {
    /// Performs the modification.
    fn apply(self, builder: Builder) -> (r: Builder)
        ensures
            keys_kept(builder.singleton_keys(), r.singleton_keys()),
    ;
}

/// A helper made of an extracted piece of configuration: it registers the component that
/// manages it under the name used in diagnostics.
pub trait CfgHelper {
    /// Registers the component.
    fn apply(self, name: String, builder: Builder) -> (r: Builder)
        ensures
            registered(builder, name@, r),
    ;
}

/// A helper for resources that come in groups: a collection of them is a `CfgHelper`, and a
/// group registers as one component.
pub trait IteratedCfgHelper: Sized {
    /// Registers the component of the group.
    fn apply(items: Vec<Self>, name: String, builder: Builder) -> (r: Builder)
        ensures
            registered(builder, name@, r),
    ;
}

impl<T: IteratedCfgHelper> CfgHelper for Vec<T> {
    fn apply(self, name: String, builder: Builder) -> (r: Builder) {
        T::apply(self, name, builder)
    }
}

/// Registers a socket component under its name, and the default runtime unless the application
/// chose one first.
pub fn register_socket(name: String, builder: Builder) -> (r: Builder)
    ensures
        registered(builder, name@, r),
{
    let mut b = builder;
    b.register(name);
    let key = runtime_key();
    assert(key@ == runtime_key_spec());
    if b.singleton(key.as_str()) {
        b.set_runtime(Runtime::default());
    }
    b
}

} // verus!

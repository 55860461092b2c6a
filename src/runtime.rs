//! The choice of the task runtime that the main body, the installer and the instances share.
use vstd::prelude::*;

use crate::builder::{has_key, runtime_key_spec, Builder, Helper};

verus! {

/// Which runtime runs the application.
#[derive(Clone, Copy, Debug, PartialEq, Eq, Structural)]
pub enum Runtime {
    /// A pool of worker threads; the default.
    ThreadPool,
    /// Everything on the current thread.
    CurrentThread,
    /// A runtime that the application starts itself, running the body to completion.
    Custom,
}

/// The key under which a runtime registers itself: one runtime per application.
pub fn runtime_key() -> (r: String)
    ensures
        r@ == seq!['r', 'u', 'n', 't', 'i', 'm', 'e'],
{
    let r = String::from_str("runtime");
    proof {
        reveal_strlit("runtime");
    }
    r
}

impl Default for Runtime {
    /// The thread pool.
    fn default() -> (r: Runtime)
        ensures
            r == Runtime::ThreadPool,
    {
        Runtime::ThreadPool
    }
}

impl Helper for Runtime {
    /// Makes this runtime the one the application runs on, and claims the runtime key, so
    /// that no default runtime replaces it later.
    fn apply(self, builder: Builder) -> (r: Builder)
        ensures
            r.runtime_spec() == Some(self),
            has_key(r.singleton_keys(), runtime_key_spec()),
            r.component_names() == builder.component_names(),
    {
        let mut b = builder;
        let key = runtime_key();
        b.singleton(key.as_str());
        b.set_runtime(self);
        b
    }
}

} // verus!

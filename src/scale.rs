//! How many instances of a socket run.
use vstd::prelude::*;

use crate::diagnostic::Diagnostic;

verus! {

/// The scale used when the configuration gives none.
pub fn default_scale() -> (r: usize)
    ensures
        r == 1,
{
    1
}

/// The number of instances that a requested scale gives: never fewer than one.
pub open spec fn effective_scale(requested: usize) -> usize {
    if requested == 0 {
        1
    } else {
        requested
    }
}

/// The diagnostics that a requested scale gives: a warning when zero is coerced to one.
pub open spec fn scale_diagnostics(requested: usize, name: String) -> Seq<Diagnostic> {
    if requested == 0 {
        seq![Diagnostic::ScaleCoerced { name }]
    } else {
        Seq::empty()
    }
}

/// A policy for the number of parallel instances of one socket.
pub trait Scaled {
    /// The number of instances that the configuration asks for.
    spec fn requested(&self) -> usize;

    /// Returns how many instances there should be, with a warning where the request was coerced.
    fn scaled(&self, name: &String) -> (r: (usize, Vec<Diagnostic>))
        ensures
            r.0 == effective_scale(self.requested()),
            r.1@ == scale_diagnostics(self.requested(), *name),
    ;
}

/// A scale given by the user; zero is taken as one.
#[derive(Clone, Debug, PartialEq, Eq, Structural)]
pub struct Scale {
    scale: usize,
}

impl Scale {
    /// A scale of the given number of instances.
    pub fn new(scale: usize) -> (r: Scale)
        ensures
            r.requested() == scale,
    {
        Scale { scale }
    }

    /// The number of instances asked for, before coercion.
    pub fn value(&self) -> (r: usize)
        ensures
            r == self.requested(),
    {
        self.scale
    }
}

impl Default for Scale {
    /// A single instance.
    fn default() -> (r: Scale)
        ensures
            r.requested() == 1,
    {
        Scale { scale: default_scale() }
    }
}

impl Scaled for Scale {
    closed spec fn requested(&self) -> usize {
        self.scale
    }

    fn scaled(&self, name: &String) -> (r: (usize, Vec<Diagnostic>)) {
        if self.scale > 0 {
            (self.scale, Vec::new())
        } else {
            let mut ds: Vec<Diagnostic> = Vec::new();
            ds.push(Diagnostic::ScaleCoerced { name: name.clone() });
            (1, ds)
        }
    }
}

/// Scaling switched off: always one instance, with nothing to configure.
#[derive(Clone, Debug, Default, PartialEq, Eq, Structural)]
pub struct Singleton {}

impl Scaled for Singleton {
    open spec fn requested(&self) -> usize {
        1
    }

    fn scaled(&self, _name: &String) -> (r: (usize, Vec<Diagnostic>)) {
        (1, Vec::new())
    }
}

} // verus!

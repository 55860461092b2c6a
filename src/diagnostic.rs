//! Diagnostics produced while a configuration is taken in.
use vstd::prelude::*;

use crate::listen::Listen;

verus! {

/// How serious a diagnostic is.
#[derive(Clone, Copy, Debug, PartialEq, Eq, Structural)]
pub enum Severity {
    /// The configuration is taken, with a change the user should know about.
    Warning,
    /// A part of the configuration could not be taken; the rest is.
    Error,
    /// The configuration cannot be taken at all: the whole pass is rejected.
    Fatal,
}

/// One finding about a configuration.
#[derive(Clone, Debug)]
pub enum Diagnostic {
    /// A scale of zero was asked for; one instance is used instead.
    ScaleCoerced { name: String },
    /// The resource of a descriptor could not be built; the descriptor is left out of the pass.
    BuildFailed { name: String, descriptor: Listen },
    /// The configuration was found invalid before it reached the engine; this rejects the pass.
    Invalid { name: String, message: String },
}

/// The severity of a diagnostic, in specifications.
pub open spec fn severity_of(d: Diagnostic) -> Severity {
    match d {
        Diagnostic::ScaleCoerced { .. } => Severity::Warning,
        Diagnostic::BuildFailed { .. } => Severity::Error,
        Diagnostic::Invalid { .. } => Severity::Fatal,
    }
}

impl Diagnostic {
    /// A coerced scale is a warning, a failed build an error, an invalid configuration fatal.
    pub fn severity(&self) -> (r: Severity)
        ensures
            r == severity_of(*self),
    {
        match self {
            Diagnostic::ScaleCoerced { .. } => Severity::Warning,
            Diagnostic::BuildFailed { .. } => Severity::Error,
            Diagnostic::Invalid { .. } => Severity::Fatal,
        }
    }

    /// The name of the component the diagnostic is about.
    pub fn name(&self) -> (r: &String)
        ensures
            r == (match *self {
                Diagnostic::ScaleCoerced { name } => name,
                Diagnostic::BuildFailed { name, .. } => name,
                Diagnostic::Invalid { name, .. } => name,
            }),
    {
        match self {
            Diagnostic::ScaleCoerced { name } => name,
            Diagnostic::BuildFailed { name, .. } => name,
            Diagnostic::Invalid { name, .. } => name,
        }
    }
}

/// Whether some diagnostic of the sequence is fatal.
pub open spec fn has_fatal(ds: Seq<Diagnostic>) -> bool {
    exists|i: int| 0 <= i < ds.len() && severity_of(#[trigger] ds[i]) == Severity::Fatal
}

/// Tells whether any of the diagnostics is fatal, which rejects the configuration.
pub fn any_fatal(ds: &Vec<Diagnostic>) -> (r: bool)
    ensures
        r == has_fatal(ds@),
{
    let mut i: usize = 0;
    while i < ds.len()
        invariant
            0 <= i <= ds@.len(),
            forall|k: int| 0 <= k < i ==> severity_of(#[trigger] ds@[k]) != Severity::Fatal,
        decreases ds@.len() - i,
    {
        if ds[i].severity() == Severity::Fatal {
            return true;
        }
        i = i + 1;
    }
    false
}

} // verus!

//! Live reconfiguration of listening sockets.
//!
//! The library keeps a set of running socket instances in step with a configuration that may
//! change while the process runs. The reconciliation engine compares the configured descriptors
//! with what runs, reuses what it can, and says which instances to start and which to stop. The
//! termination handshake and the instance task decide, step by step, when an instance counts as
//! gone. Sockets, channels and the task runtime themselves are driven by the host.
use vstd::prelude::*;

pub mod builder;
pub mod config;
pub mod diagnostic;
pub mod listen;
pub mod reconcile;
pub mod remote_drop;
pub mod runtime;
pub mod scale;
pub mod theorems;

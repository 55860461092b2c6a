//! Configuration fragments of listening sockets, and how they become reconciliation items.
use vstd::prelude::*;

use crate::builder::{register_socket, registered, Builder, CfgHelper, Helper, IteratedCfgHelper};
use crate::listen::Listen;
use crate::reconcile::{Item, Reconciler};
use crate::scale::{effective_scale, scale_diagnostics, Scale, Scaled};

verus! {

/// A piece of configuration that is compared as a whole: the extra configuration of a socket.
///
/// A change of it restarts every instance of the socket.
pub trait CfgEq: View + Sized {
    /// Whether two values are equal.
    fn cfg_eq(&self, other: &Self) -> (r: bool)
        ensures
            r == (self@ == other@),
    ;
}

/// No extra configuration.
#[derive(Clone, Copy, Debug, Default, PartialEq, Eq, Structural)]
pub struct Empty {}

impl View for Empty {
    type V = ();

    open spec fn view(&self) -> () {
        ()
    }
}

impl CfgEq for Empty {
    fn cfg_eq(&self, _other: &Self) -> (r: bool) {
        true
    }
}

impl CfgEq for String {
    fn cfg_eq(&self, other: &Self) -> (r: bool) {
        *self == *other
    }
}

impl CfgEq for u64 {
    fn cfg_eq(&self, other: &Self) -> (r: bool) {
        *self == *other
    }
}

/// The pause after a recoverable accept error, in milliseconds, when none is configured.
pub fn default_error_sleep() -> (r: u64)
    ensures
        r == 100,
{
    100
}

/// The limit of parallel connections of one instance, when none is configured.
pub fn default_max_conn() -> (r: usize)
    ensures
        r == 1000,
{
    1000
}

/// What the instances of a TCP socket are started with: the application's extra configuration
/// and the accept loop's own settings. A change of any of them restarts the instances.
#[derive(Clone, Debug)]
pub struct TcpExtra<X> {
    pub extra_cfg: X,
    pub error_sleep_ms: u64,
    pub max_conn: usize,
}

impl<X: View> View for TcpExtra<X> {
    type V = (X::V, u64, usize);

    open spec fn view(&self) -> (X::V, u64, usize) {
        (self.extra_cfg@, self.error_sleep_ms, self.max_conn)
    }
}

impl<X: CfgEq> CfgEq for TcpExtra<X> {
    fn cfg_eq(&self, other: &Self) -> (r: bool) {
        self.error_sleep_ms == other.error_sleep_ms && self.max_conn == other.max_conn
            && self.extra_cfg.cfg_eq(&other.extra_cfg)
    }
}

/// The configuration of a TCP listening socket.
///
/// `host` and `port` name the socket; `scale` the number of listening instances; a recoverable
/// accept error (too many open files) pauses accepting for `error_sleep_ms`; each instance
/// handles at most `max_conn` connections at once.
#[derive(Clone, Debug)]
pub struct TcpListen<ExtraCfg = Empty, ScaleMode = Scale> {
    pub listen: Listen,
    pub scale: ScaleMode,
    pub error_sleep_ms: u64,
    pub max_conn: usize,
    pub extra_cfg: ExtraCfg,
}

impl<ExtraCfg: CfgEq, ScaleMode: Scaled> TcpListen<ExtraCfg, ScaleMode> {
    /// A configuration with the default pause and connection limit.
    pub fn new(listen: Listen, scale: ScaleMode, extra_cfg: ExtraCfg) -> (r: Self)
        ensures
            r.listen == listen,
            r.scale == scale,
            r.extra_cfg == extra_cfg,
            r.error_sleep_ms == 100,
            r.max_conn == 1000,
    {
        TcpListen {
            listen,
            scale,
            error_sleep_ms: default_error_sleep(),
            max_conn: default_max_conn(),
            extra_cfg,
        }
    }

    /// The reconciliation item of this socket: its descriptor, the scale that its policy gives,
    /// and the extra configuration together with the accept loop's settings.
    pub fn item(self, name: &String) -> (r: Item<TcpExtra<ExtraCfg>>)
        ensures
            r.descriptor == self.listen,
            r.scale == effective_scale(self.scale.requested()),
            r.diagnostics@ == scale_diagnostics(self.scale.requested(), *name),
            r.extra == (TcpExtra {
                extra_cfg: self.extra_cfg,
                error_sleep_ms: self.error_sleep_ms,
                max_conn: self.max_conn,
            }),
    {
        let (scale, diagnostics) = self.scale.scaled(name);
        Item {
            descriptor: self.listen,
            extra: TcpExtra {
                extra_cfg: self.extra_cfg,
                error_sleep_ms: self.error_sleep_ms,
                max_conn: self.max_conn,
            },
            scale,
            diagnostics,
        }
    }
}

impl<ExtraCfg: CfgEq + Default> Default for TcpListen<ExtraCfg, Scale> {
    /// Port zero on every interface, with one instance and the default pause and connection
    /// limit.
    fn default() -> (r: Self)
        ensures
            r.listen@ == (0u16, seq![':', ':']),
            r.scale.requested() == 1,
            r.error_sleep_ms == 100,
            r.max_conn == 1000,
    {
        TcpListen {
            listen: Listen::default(),
            scale: Scale::default(),
            error_sleep_ms: default_error_sleep(),
            max_conn: default_max_conn(),
            extra_cfg: ExtraCfg::default(),
        }
    }
}

/// The items of several TCP sockets, in order.
pub fn tcp_items<ExtraCfg: CfgEq, ScaleMode: Scaled>(
    configs: Vec<TcpListen<ExtraCfg, ScaleMode>>,
    name: &String,
) -> (r: Vec<Item<TcpExtra<ExtraCfg>>>)
    ensures
        r@.len() == configs@.len(),
        forall|i: int|
            0 <= i < configs@.len() ==> {
                &&& (#[trigger] r@[i]).descriptor == configs@[i].listen
                &&& r@[i].scale == effective_scale(configs@[i].scale.requested())
                &&& r@[i].diagnostics@ == scale_diagnostics(configs@[i].scale.requested(), *name)
                &&& r@[i].extra == (TcpExtra {
                    extra_cfg: configs@[i].extra_cfg,
                    error_sleep_ms: configs@[i].error_sleep_ms,
                    max_conn: configs@[i].max_conn,
                })
            },
{
    let ghost all = configs@;
    let mut rest = configs;
    let mut r: Vec<Item<TcpExtra<ExtraCfg>>> = Vec::new();
    while rest.len() > 0
        invariant
            r@.len() + rest@.len() == all.len(),
            rest@ == all.subrange(r@.len() as int, all.len() as int),
            forall|i: int|
                0 <= i < r@.len() ==> {
                    &&& (#[trigger] r@[i]).descriptor == all[i].listen
                    &&& r@[i].scale == effective_scale(all[i].scale.requested())
                    &&& r@[i].diagnostics@ == scale_diagnostics(all[i].scale.requested(), *name)
                    &&& r@[i].extra == (TcpExtra {
                        extra_cfg: all[i].extra_cfg,
                        error_sleep_ms: all[i].error_sleep_ms,
                        max_conn: all[i].max_conn,
                    })
                },
        decreases rest@.len(),
    {
        let ghost k = r@.len() as int;
        assert(rest@[0] == all[k]);
        let c = rest.remove(0);
        r.push(c.item(name));
        assert(rest@ =~= all.subrange(r@.len() as int, all.len() as int));
    }
    r
}

/// The configuration of a bound UDP socket: `host` and `port` name it, `scale` gives the number
/// of instances, and `extra_cfg` is handed to each of them.
#[derive(Clone, Debug)]
pub struct UdpListen<ExtraCfg = Empty, ScaleMode = Scale> {
    pub listen: Listen,
    pub scale: ScaleMode,
    pub extra_cfg: ExtraCfg,
}

impl<ExtraCfg: CfgEq, ScaleMode: Scaled> UdpListen<ExtraCfg, ScaleMode> {
    /// The reconciliation item of this socket.
    pub fn item(self, name: &String) -> (r: Item<ExtraCfg>)
        ensures
            r.descriptor == self.listen,
            r.scale == effective_scale(self.scale.requested()),
            r.diagnostics@ == scale_diagnostics(self.scale.requested(), *name),
            r.extra == self.extra_cfg,
    {
        let (scale, diagnostics) = self.scale.scaled(name);
        Item { descriptor: self.listen, extra: self.extra_cfg, scale, diagnostics }
    }
}

/// The items of several UDP sockets, in order.
pub fn udp_items<ExtraCfg: CfgEq, ScaleMode: Scaled>(
    configs: Vec<UdpListen<ExtraCfg, ScaleMode>>,
    name: &String,
) -> (r: Vec<Item<ExtraCfg>>)
    ensures
        r@.len() == configs@.len(),
        forall|i: int|
            0 <= i < configs@.len() ==> {
                &&& (#[trigger] r@[i]).descriptor == configs@[i].listen
                &&& r@[i].scale == effective_scale(configs@[i].scale.requested())
                &&& r@[i].diagnostics@ == scale_diagnostics(configs@[i].scale.requested(), *name)
                &&& r@[i].extra == configs@[i].extra_cfg
            },
{
    let ghost all = configs@;
    let mut rest = configs;
    let mut r: Vec<Item<ExtraCfg>> = Vec::new();
    while rest.len() > 0
        invariant
            r@.len() + rest@.len() == all.len(),
            rest@ == all.subrange(r@.len() as int, all.len() as int),
            forall|i: int|
                0 <= i < r@.len() ==> {
                    &&& (#[trigger] r@[i]).descriptor == all[i].listen
                    &&& r@[i].scale == effective_scale(all[i].scale.requested())
                    &&& r@[i].diagnostics@ == scale_diagnostics(all[i].scale.requested(), *name)
                    &&& r@[i].extra == all[i].extra_cfg
                },
        decreases rest@.len(),
    {
        let ghost k = r@.len() as int;
        assert(rest@[0] == all[k]);
        let c = rest.remove(0);
        r.push(c.item(name));
        assert(rest@ =~= all.subrange(r@.len() as int, all.len() as int));
    }
    r
}

/// The helper of a group of sockets: the reconciler that takes each loaded configuration in,
/// under the name used in diagnostics.
///
/// Applied to a builder, it registers the component and the runtime it runs on; the host then
/// hands every loaded configuration to `reconciler.validate`.
pub struct Task<E> {
    pub reconciler: Reconciler<E>,
}

impl<E: CfgEq> Task<E> {
    /// A task with nothing running yet.
    pub fn new(name: String) -> (r: Task<E>)
        ensures
            r.reconciler.name == name,
            r.reconciler.cache.model().len() == 0,
            r.reconciler.cache.next_instance == 0,
            r.reconciler.cache.wf(),
    {
        Task { reconciler: Reconciler::new(name) }
    }

    /// Registers the component in the builder, keeping the task for the host.
    pub fn register(&self, builder: Builder) -> (r: Builder)
        ensures
            registered(builder, self.reconciler.name@, r),
    {
        register_socket(self.reconciler.name.clone(), builder)
    }
}

impl<E: CfgEq> Helper for Task<E> {
    /// Registers the component under the task's name, with the default runtime unless one was
    /// chosen before.
    fn apply(self, builder: Builder) -> (r: Builder)
        ensures
            registered(builder, self.reconciler.name@, r),
    {
        register_socket(self.reconciler.name, builder)
    }
}

impl<ExtraCfg: CfgEq, ScaleMode: Scaled> TcpListen<ExtraCfg, ScaleMode> {
    /// The task that manages TCP sockets of this kind under the given name. Its configurations
    /// become items through `tcp_items`.
    pub fn helper(name: String) -> (r: Task<TcpExtra<ExtraCfg>>)
        ensures
            r.reconciler.name == name,
            r.reconciler.cache.model().len() == 0,
            r.reconciler.cache.next_instance == 0,
            r.reconciler.cache.wf(),
    {
        Task::new(name)
    }
}

impl<ExtraCfg: CfgEq, ScaleMode: Scaled> UdpListen<ExtraCfg, ScaleMode> {
    /// The task that manages UDP sockets of this kind under the given name. Its configurations
    /// become items through `udp_items`.
    pub fn helper(name: String) -> (r: Task<ExtraCfg>)
        ensures
            r.reconciler.name == name,
            r.reconciler.cache.model().len() == 0,
            r.reconciler.cache.next_instance == 0,
            r.reconciler.cache.wf(),
    {
        Task::new(name)
    }
}

impl<ExtraCfg: CfgEq, ScaleMode: Scaled> IteratedCfgHelper for TcpListen<ExtraCfg, ScaleMode> {
    fn apply(_items: Vec<Self>, name: String, builder: Builder) -> (r: Builder) {
        register_socket(name, builder)
    }
}

impl<ExtraCfg: CfgEq, ScaleMode: Scaled> CfgHelper for TcpListen<ExtraCfg, ScaleMode> {
    fn apply(self, name: String, builder: Builder) -> (r: Builder) {
        register_socket(name, builder)
    }
}

impl<ExtraCfg: CfgEq, ScaleMode: Scaled> IteratedCfgHelper for UdpListen<ExtraCfg, ScaleMode> {
    fn apply(_items: Vec<Self>, name: String, builder: Builder) -> (r: Builder) {
        register_socket(name, builder)
    }
}

impl<ExtraCfg: CfgEq, ScaleMode: Scaled> CfgHelper for UdpListen<ExtraCfg, ScaleMode> {
    fn apply(self, name: String, builder: Builder) -> (r: Builder) {
        register_socket(name, builder)
    }
}

} // verus!

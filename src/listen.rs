//! The descriptor of a listening socket: an interface and a port.
use vstd::prelude::*;

verus! {

/// A listening interface and port.
///
/// This is the identity of a socket: two configurations with an equal `Listen` describe the same
/// socket, which is then kept rather than bound again.
#[derive(Clone, Debug)]
pub struct Listen {
    port: u16,
    host: String,
}

impl View for Listen {
    type V = (u16, Seq<char>);

    closed spec fn view(&self) -> (u16, Seq<char>) {
        (self.port, self.host@)
    }
}

/// The host used when the configuration names none.
pub fn default_host() -> (r: String)
    ensures
        r@ == seq![':', ':'],
{
    let r = String::from_str("::");
    proof {
        reveal_strlit("::");
    }
    r
}

impl Listen {
    /// A descriptor for the given port and host.
    pub fn new(port: u16, host: String) -> (r: Listen)
        ensures
            r@ == (port, host@),
    {
        Listen { port, host }
    }

    /// A descriptor for the given port on every interface.
    pub fn on_port(port: u16) -> (r: Listen)
        ensures
            r@ == (port, seq![':', ':']),
    {
        Listen { port, host: default_host() }
    }

    /// The port.
    pub fn port(&self) -> (r: u16)
        ensures
            r == self@.0,
    {
        self.port
    }

    /// The host or interface.
    pub fn host(&self) -> (r: &String)
        ensures
            r@ == self@.1,
    {
        &self.host
    }

    /// An equal descriptor.
    pub fn duplicate(&self) -> (r: Listen)
        ensures
            r == *self,
    {
        Listen { port: self.port, host: self.host.clone() }
    }

    /// Whether two descriptors describe the same socket.
    pub fn same(&self, other: &Listen) -> (r: bool)
        ensures
            r == (self@ == other@),
    {
        self.port == other.port && self.host == other.host
    }
}

impl Default for Listen {
    /// Port zero on every interface.
    fn default() -> (r: Listen)
        ensures
            r@ == (0u16, seq![':', ':']),
    {
        Listen::on_port(0)
    }
}

} // verus!

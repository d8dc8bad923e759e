//! The identity of a remote server.

use vstd::prelude::*;

verus! {

/// The port used when a request names none.
pub const DEFAULT_PORT: u16 = 22;

/// A server address. Two endpoints are the same exactly when host and port
/// match; host names are compared as written.
#[derive(Clone, Debug, PartialEq, Eq)]
pub struct Endpoint {
    pub host: String,
    pub port: u16,
}

impl View for Endpoint {
    type V = (Seq<char>, u16);

    open spec fn view(&self) -> (Seq<char>, u16) {
        (self.host@, self.port)
    }
}

impl Endpoint {
    /// The endpoint of `host` at `port`, or at the default port.
    pub fn new(host: String, port: Option<u16>) -> (e: Endpoint)
        ensures
            e@ == (host@, port_or_default(port)),
    {
        Endpoint { host, port: resolve_port(port) }
    }

    /// Whether both name the same server.
    pub fn same_as(&self, other: &Endpoint) -> (same: bool)
        ensures
            same == (self@ == other@),
    {
        self.port == other.port && self.host == other.host
    }

    /// A copy of this endpoint.
    pub fn duplicate(&self) -> (e: Endpoint)
        ensures
            e@ == self@,
    {
        Endpoint { host: self.host.clone(), port: self.port }
    }
}

/// The port a request means: the one it names, else the default.
pub open spec fn port_or_default(port: Option<u16>) -> u16 {
    match port {
        Some(p) => p,
        None => DEFAULT_PORT,
    }
}

/// Resolves an optional port.
pub fn resolve_port(port: Option<u16>) -> (p: u16)
    ensures
        p == port_or_default(port),
{
    match port {
        Some(p) => p,
        None => DEFAULT_PORT,
    }
}

} // verus!

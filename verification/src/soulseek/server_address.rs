//! Where a server or a peer is reached.
use vstd::prelude::*;

use crate::text::{append_str, decimal_chars, from_chars};

verus! {

/// A host and a port.
#[derive(Debug)]
pub struct PeerAddress {
    host: String,
    port: u16,
}

impl Clone for PeerAddress {
    fn clone(&self) -> (r: Self)
        ensures
            r == *self,
    {
        PeerAddress { host: self.host.clone(), port: self.port }
    }
}

impl PeerAddress {
    pub closed spec fn host(self) -> String {
        self.host
    }

    pub closed spec fn port(self) -> u16 {
        self.port
    }

    /// The address of a host and a port.
    pub fn new(host: String, port: u16) -> (r: Self)
        ensures
            r.host() == host,
            r.port() == port,
    {
        PeerAddress { host, port }
    }

    /// The host.
    pub fn get_host(&self) -> (r: &str)
        ensures
            r@ == self.host()@,
    {
        self.host.as_str()
    }

    /// The port.
    pub fn get_port(&self) -> (r: u16)
        ensures
            r == self.port(),
    {
        self.port
    }

    /// The address as text: the host, a colon and the port.
    pub fn display(&self) -> (r: String)
        ensures
            r@ == self.host()@ + ":"@ + crate::text::decimal(self.port() as nat),
    {
        let mut out = append_str(self.host.as_str(), ":");
        out.append(from_chars(&decimal_chars(self.port as u64)).as_str());
        out
    }
}

} // verus!

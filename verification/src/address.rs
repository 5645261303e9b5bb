//! Socket addresses as plain values.
//!
//! The node's identity model is IPv4: an address is a 32-bit IP and a 16-bit
//! port. The ephemeral source port of an inbound connection is *not* a peer's
//! identity; identity is the listener address learned in the handshake.

use vstd::prelude::*;

verus! {

/// A socket address: an IPv4 host and a port.
#[derive(Clone, Copy, PartialEq, Eq, Structural, Debug, Hash)]
pub struct Addr {
    /// The IPv4 host, as its 32-bit big-endian integer value.
    pub ip: u32,
    /// The port.
    pub port: u16,
}

impl Addr {
    /// Builds an address from its host and port.
    pub fn new(ip: u32, port: u16) -> (r: Addr)
        ensures
            r == (Addr { ip, port }),
    {
        Addr { ip, port }
    }

    /// Whether the host is the unspecified address `0.0.0.0`.
    pub open spec fn spec_is_unspecified(self) -> bool {
        self.ip == 0
    }

    /// Whether the host lies in the loopback range `127.0.0.0/8`.
    pub open spec fn spec_is_loopback(self) -> bool {
        self.ip / 0x1000000 == 127
    }

    /// Executable twin of [`Addr::spec_is_unspecified`].
    pub fn is_unspecified(&self) -> (r: bool)
        ensures
            r == self.spec_is_unspecified(),
    {
        self.ip == 0
    }

    /// Executable twin of [`Addr::spec_is_loopback`].
    pub fn is_loopback(&self) -> (r: bool)
        ensures
            r == self.spec_is_loopback(),
    {
        self.ip / 0x1000000 == 127
    }

    /// The same host with another port.
    pub fn with_port(&self, port: u16) -> (r: Addr)
        ensures
            r == (Addr { ip: self.ip, port }),
    {
        Addr { ip: self.ip, port }
    }
}

/// Whether `addr` would be a connection to the local node itself: either the
/// local address exactly, or an unspecified/loopback host on the local port.
pub open spec fn spec_is_self_address(local: Addr, addr: Addr) -> bool {
    addr == local || ((addr.spec_is_unspecified() || addr.spec_is_loopback()) && addr.port
        == local.port)
}

/// Executable twin of [`spec_is_self_address`].
pub fn is_self_address(local: Addr, addr: Addr) -> (r: bool)
    ensures
        r == spec_is_self_address(local, addr),
{
    (addr.ip == local.ip && addr.port == local.port) || ((addr.is_unspecified()
        || addr.is_loopback()) && addr.port == local.port)
}

} // verus!

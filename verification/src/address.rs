//! Socket addresses of peers, as plain numbers.

use vstd::prelude::*;

verus! {

/// An IP address, held as the number that its bytes spell in network order.
#[derive(Copy, Clone, Debug, PartialEq, Eq, Structural)]
pub enum PeerIp {
    /// An IPv4 address: four bytes.
    V4(u32),
    /// An IPv6 address: sixteen bytes.
    V6(u128),
}

impl PeerIp {
    /// 0 for IPv4 and 1 for IPv6: IPv4 addresses sort first.
    pub open spec fn family_key(self) -> int {
        match self {
            PeerIp::V4(_) => 0,
            PeerIp::V6(_) => 1,
        }
    }

    /// The address bytes as a number, which orders addresses of one family
    /// as their bytes do.
    pub open spec fn numeric_key(self) -> int {
        match self {
            PeerIp::V4(a) => a as int,
            PeerIp::V6(a) => a as int,
        }
    }

    pub(crate) fn family(&self) -> (k: u128)
        ensures
            k == self.family_key(),
    {
        match self {
            PeerIp::V4(_) => 0,
            PeerIp::V6(_) => 1,
        }
    }

    pub(crate) fn numeric(&self) -> (k: u128)
        ensures
            k == self.numeric_key(),
    {
        match self {
            PeerIp::V4(a) => *a as u128,
            PeerIp::V6(a) => *a,
        }
    }
}

/// The address of a peer: an IP address and a port.
#[derive(Copy, Clone, Debug, PartialEq, Eq, Structural)]
pub struct PeerSocketAddr {
    /// The IP address.
    pub ip: PeerIp,
    /// The port.
    pub port: u16,
}

impl PeerSocketAddr {
    /// Makes an address from its parts.
    pub fn new(ip: PeerIp, port: u16) -> (addr: Self)
        ensures
            addr == (PeerSocketAddr { ip, port }),
    {
        PeerSocketAddr { ip, port }
    }

    /// The port as a mathematical integer.
    pub open spec fn port_key(self) -> int {
        self.port as int
    }

    pub(crate) fn port_wide(&self) -> (k: u128)
        ensures
            k == self.port_key(),
    {
        self.port as u128
    }
}

} // verus!

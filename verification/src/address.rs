use vstd::prelude::*;

verus! {

/// The host part of an address: the 32 bits of an IPv4 address or the 128
/// bits of an IPv6 address, most significant byte first.
#[derive(Clone, Copy, Debug, PartialEq, Eq, Hash, Structural)]
pub enum HostAddr {
    V4(u32),
    V6(u128),
}

/// Where a peer is reached: a host and a UDP port.
#[derive(Clone, Copy, Debug, PartialEq, Eq, Hash, Structural)]
pub struct PeerAddr {
    pub host: HostAddr,
    pub port: u16,
}

/// The IPv4 loopback host, 127.0.0.1.
pub const LOOPBACK_V4: u32 = 0x7f00_0001;

impl PeerAddr {
    /// The address under which the authority registers itself: the loopback
    /// host and the authority's port.
    pub open spec fn local_authority() -> PeerAddr {
        PeerAddr { host: HostAddr::V4(LOOPBACK_V4), port: crate::SERVER_PORT }
    }

    /// The address at which the peer that sends from this address is
    /// answered: the same host, under the port that peers listen on.
    pub open spec fn reply_of(self) -> PeerAddr {
        PeerAddr { host: self.host, port: crate::CLIENT_PORT }
    }

    /// The address at which the peer that sends from this address is
    /// answered.
    pub fn reply_address(self) -> (addr: PeerAddr)
        ensures
            addr == self.reply_of(),
    {
        PeerAddr { host: self.host, port: crate::CLIENT_PORT }
    }

    pub fn new(host: HostAddr, port: u16) -> (addr: PeerAddr)
        ensures
            addr == (PeerAddr { host, port }),
    {
        PeerAddr { host, port }
    }

    /// The same host under another port.
    pub fn with_port(self, port: u16) -> (addr: PeerAddr)
        ensures
            addr == (PeerAddr { host: self.host, port }),
    {
        PeerAddr { host: self.host, port }
    }

    /// The address under which the authority registers itself.
    pub fn loopback_authority() -> (addr: PeerAddr)
        ensures
            addr == PeerAddr::local_authority(),
    {
        PeerAddr { host: HostAddr::V4(LOOPBACK_V4), port: crate::SERVER_PORT }
    }

    /// Whether this is the address under which the authority registers
    /// itself.
    pub fn is_local_authority(&self) -> (b: bool)
        ensures
            b == (*self == PeerAddr::local_authority()),
    {
        *self == PeerAddr::loopback_authority()
    }
}

} // verus!

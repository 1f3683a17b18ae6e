//! Transport addresses as plain values.

use vstd::prelude::*;

verus! {

/// An IP address: the 32 bits of an IPv4 address or the 128 bits of an IPv6
/// address, most significant octet first.
#[derive(Clone, Copy, Debug, PartialEq, Eq, Structural, Hash)]
pub enum IpAddr {
    V4(u32),
    V6(u128),
}

/// An IP address and a port. Two socket addresses are equal when both parts
/// are.
#[derive(Clone, Copy, Debug, PartialEq, Eq, Structural, Hash)]
pub struct SocketAddr {
    pub ip: IpAddr,
    pub port: u16,
}

/// The IPv4 address that reaches every host of the local broadcast domain.
pub const BROADCAST_V4: u32 = 0xffff_ffff;

/// The IPv4 wildcard address, on which a socket hears every local interface.
pub const UNSPECIFIED_V4: u32 = 0;

impl SocketAddr {
    /// The socket address of `port` at `ip`.
    pub fn new(ip: IpAddr, port: u16) -> (addr: SocketAddr)
        ensures
            addr == (SocketAddr { ip, port }),
    {
        SocketAddr { ip, port }
    }

    /// `255.255.255.255:port`, where discovery requests are sent.
    pub open spec fn spec_broadcast(port: u16) -> SocketAddr {
        SocketAddr { ip: IpAddr::V4(BROADCAST_V4), port }
    }

    #[verifier::when_used_as_spec(spec_broadcast)]
    pub fn broadcast(port: u16) -> (addr: SocketAddr)
        ensures
            addr == Self::spec_broadcast(port),
    {
        SocketAddr { ip: IpAddr::V4(BROADCAST_V4), port }
    }

    /// `0.0.0.0:port`, where a discovery socket is bound.
    pub open spec fn spec_unspecified(port: u16) -> SocketAddr {
        SocketAddr { ip: IpAddr::V4(UNSPECIFIED_V4), port }
    }

    #[verifier::when_used_as_spec(spec_unspecified)]
    pub fn unspecified(port: u16) -> (addr: SocketAddr)
        ensures
            addr == Self::spec_unspecified(port),
    {
        SocketAddr { ip: IpAddr::V4(UNSPECIFIED_V4), port }
    }
}

/// A transport-tagged address.
#[derive(Clone, Copy, Debug, PartialEq, Eq, Structural, Hash)]
pub enum Endpoint {
    Tcp(SocketAddr),
}

/// An address under which this node can be reached from outside.
///
/// `nat_restricted` is set when the mapping was observed only through one
/// particular remote peer, so that third parties cannot use it.
#[derive(Clone, Copy, Debug, PartialEq, Eq, Structural, Hash)]
pub struct MappedAddr {
    pub addr: SocketAddr,
    pub nat_restricted: bool,
}

impl MappedAddr {
    /// The mapping to `addr`, restricted or not.
    pub fn new(addr: SocketAddr, nat_restricted: bool) -> (mapped: MappedAddr)
        ensures
            mapped == (MappedAddr { addr, nat_restricted }),
    {
        MappedAddr { addr, nat_restricted }
    }
}

} // verus!

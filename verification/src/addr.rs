//! Network addresses as plain values.

use vstd::prelude::*;

use crate::vec_map::MapKey;

verus! {

/// An IP address, as the number that its bytes denote, most significant first.
#[derive(Clone, Copy, Debug, PartialEq, Eq, Hash, Structural)]
pub enum IpAddr {
    V4(u32),
    V6(u128),
}

/// A transport endpoint.
#[allow(inconsistent_fields)]
#[derive(Clone, Copy, Debug, PartialEq, Eq, Hash, Structural)]
pub enum SocketAddr {
    V4 { ip: u32, port: u16 },
    V6 { ip: u128, port: u16, flowinfo: u32, scope_id: u32 },
}

/// The number that four address bytes denote.
pub open spec fn ipv4_number(a: u8, b: u8, c: u8, d: u8) -> nat {
    ((a as nat * 256 + b as nat) * 256 + c as nat) * 256 + d as nat
}

impl IpAddr {
    /// The IPv4 address `a.b.c.d`.
    pub fn v4(a: u8, b: u8, c: u8, d: u8) -> (r: Self)
        ensures
            r matches IpAddr::V4(n) && n as nat == ipv4_number(a, b, c, d),
    {
        let x: u32 = a as u32 * 256 + b as u32;
        let y: u32 = x * 256 + c as u32;
        IpAddr::V4(y * 256 + d as u32)
    }
}

/// Whether this is the address 127.0.0.1.
pub open spec fn is_loopback(ip: IpAddr) -> bool {
    ip matches IpAddr::V4(n) && n as nat == ipv4_number(127, 0, 0, 1)
}

/// Whether this is the endpoint 127.0.0.1 at a port.
pub open spec fn is_loopback_at(a: SocketAddr, port: u16) -> bool {
    a matches SocketAddr::V4 { ip, port: p } && p == port && is_loopback(IpAddr::V4(ip))
}

/// The endpoint at an address and a port, with neither flow information nor scope.
pub open spec fn endpoint(ip: IpAddr, port: u16) -> SocketAddr {
    match ip {
        IpAddr::V4(n) => SocketAddr::V4 { ip: n, port },
        IpAddr::V6(n) => SocketAddr::V6 { ip: n, port, flowinfo: 0, scope_id: 0 },
    }
}

impl SocketAddr {
    /// The endpoint at an address and a port.
    pub fn new(ip: IpAddr, port: u16) -> (r: Self)
        ensures
            r == endpoint(ip, port),
    {
        match ip {
            IpAddr::V4(n) => SocketAddr::V4 { ip: n, port },
            IpAddr::V6(n) => SocketAddr::V6 { ip: n, port, flowinfo: 0, scope_id: 0 },
        }
    }
}

impl View for SocketAddr {
    type V = SocketAddr;

    open spec fn view(&self) -> SocketAddr {
        *self
    }
}

impl MapKey for SocketAddr {
    fn same_key(&self, other: &Self) -> (r: bool) {
        *self == *other
    }
}

/// The number of an address holds its four bytes, the first in the highest place.
pub proof fn address_bytes_have_their_places(a: u8, b: u8, c: u8, d: u8)
    ensures
        ipv4_number(a, b, c, d) == a * 0x100_0000 + b * 0x1_0000 + c * 0x100 + d,
{
}

/// Loopback is 127.0.0.1, and no other address.
pub proof fn loopback_is_one_address(ip: IpAddr, a: SocketAddr, port: u16)
    ensures
        is_loopback(ip) <==> ip == IpAddr::V4(0x7f00_0001),
        is_loopback_at(a, port) <==> a == (SocketAddr::V4 { ip: 0x7f00_0001, port }),
{
}

/// An endpoint is of the family of its address and holds just that address and the port.
pub proof fn endpoint_has_its_parts(ip: IpAddr, port: u16)
    ensures
        match (ip, endpoint(ip, port)) {
            (IpAddr::V4(n), SocketAddr::V4 { ip: m, port: p }) => m == n && p == port,
            (IpAddr::V6(n), SocketAddr::V6 { ip: m, port: p, flowinfo, scope_id }) => m == n && p
                == port && flowinfo == 0 && scope_id == 0,
            _ => false,
        },
{
}

} // verus!

//! Socket addresses as plain numbers.

use vstd::prelude::*;

verus! {

/// The address of a socket: a host and a port, of either address family.
///
/// An IPv4 host is its four octets read as one big-endian number, an IPv6
/// host its sixteen octets read the same way.
#[derive(Clone, Copy, Debug, PartialEq, Eq, Structural)]
pub enum SocketAddr {
    V4 { ip: u32, port: u16 },
    V6 { ip6: u128, port: u16, flowinfo: u32, scope_id: u32 },
}

/// The number that the octets `a.b.c.d` stand for.
pub open spec fn ipv4_from_octets(a: u8, b: u8, c: u8, d: u8) -> int {
    a * 0x100_0000 + b * 0x1_0000 + c * 0x100 + d
}

impl SocketAddr {
    /// The IPv4 address `a.b.c.d:port`.
    pub fn v4(a: u8, b: u8, c: u8, d: u8, port: u16) -> (addr: SocketAddr)
        ensures
            addr == (SocketAddr::V4 { ip: ipv4_from_octets(a, b, c, d) as u32, port }),
            ipv4_from_octets(a, b, c, d) <= u32::MAX,
    {
        let ip: u32 = (a as u32) * 0x100_0000 + (b as u32) * 0x1_0000 + (c as u32) * 0x100 + (
        d as u32);
        SocketAddr::V4 { ip, port }
    }

    /// The port, whatever the family.
    pub open spec fn spec_port(&self) -> u16 {
        match *self {
            SocketAddr::V4 { port, .. } => port,
            SocketAddr::V6 { port, .. } => port,
        }
    }

    /// The port, whatever the family.
    #[verifier::when_used_as_spec(spec_port)]
    pub fn port(&self) -> (p: u16)
        ensures
            p == self.spec_port(),
    {
        match self {
            SocketAddr::V4 { port, .. } => *port,
            SocketAddr::V6 { port, .. } => *port,
        }
    }

    /// The four octets of an IPv4 host, most significant first; `None` for IPv6.
    pub fn octets(&self) -> (o: Option<(u8, u8, u8, u8)>)
        ensures
            match *self {
                SocketAddr::V4 { ip, .. } => o matches Some((a, b, c, d)) && ipv4_from_octets(
                    a,
                    b,
                    c,
                    d,
                ) == ip,
                SocketAddr::V6 { .. } => o is None,
            },
    {
        match self {
            SocketAddr::V4 { ip, .. } => {
                let a: u8 = (*ip / 0x100_0000) as u8;
                let b: u8 = ((*ip / 0x1_0000) % 0x100) as u8;
                let c: u8 = ((*ip / 0x100) % 0x100) as u8;
                let d: u8 = (*ip % 0x100) as u8;
                Some((a, b, c, d))
            },
            SocketAddr::V6 { .. } => None,
        }
    }
}

/// Splitting an IPv4 address into octets undoes building it from them.
pub proof fn lemma_octets_round_trip(a: u8, b: u8, c: u8, d: u8)
    ensures
        ipv4_from_octets(a, b, c, d) / 0x100_0000 == a,
        (ipv4_from_octets(a, b, c, d) / 0x1_0000) % 0x100 == b,
        (ipv4_from_octets(a, b, c, d) / 0x100) % 0x100 == c,
        ipv4_from_octets(a, b, c, d) % 0x100 == d,
{
}

} // verus!

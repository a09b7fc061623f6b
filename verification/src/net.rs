//! Network addresses as plain values.
use vstd::prelude::*;

verus! {

/// An IP address as the number that its bits make.
#[derive(Clone, Copy, PartialEq, Eq, Structural, Debug)]
pub enum IpAddr {
    /// IPv4
    V4(u32),
    /// IPv6
    V6(u128),
}

/// An IP address with a port; the last two fields are zero for IPv4.
#[derive(Clone, Copy, PartialEq, Eq, Structural, Debug)]
pub struct SocketAddr {
    /// Address.
    pub ip: IpAddr,
    /// UDP port.
    pub port: u16,
    /// IPv6 flow information.
    pub flowinfo: u32,
    /// IPv6 scope.
    pub scope_id: u32,
}

/// The address with a port and nothing else set.
pub open spec fn addr_at(ip: IpAddr, port: u16) -> SocketAddr {
    SocketAddr { ip, port, flowinfo: 0, scope_id: 0 }
}

impl SocketAddr {
    /// An address with a port.
    pub fn new(ip: IpAddr, port: u16) -> (r: SocketAddr)
        ensures
            r == addr_at(ip, port),
    {
        SocketAddr { ip, port, flowinfo: 0, scope_id: 0 }
    }
}

/// The address to listen on: every interface, over IPv6 where that is enabled.
pub fn unspecified(ipv6_enabled: bool, port: u16) -> (r: SocketAddr)
    ensures
        r == addr_at(if ipv6_enabled {
            IpAddr::V6(0)
        } else {
            IpAddr::V4(0)
        }, port),
{
    if ipv6_enabled {
        SocketAddr::new(IpAddr::V6(0), port)
    } else {
        SocketAddr::new(IpAddr::V4(0), port)
    }
}

/// Whether `ip` is among `ips`.
pub fn contains_ip(ips: &Vec<IpAddr>, ip: IpAddr) -> (r: bool)
    ensures
        r == ips@.contains(ip),
{
    let n: usize = ips.len();
    let mut i: usize = 0;
    while i < n
        invariant
            n == ips@.len(),
            i <= n,
            forall|j: int| 0 <= j < i ==> ips@[j] != ip,
        decreases n - i,
    {
        if ips[i] == ip {
            return true;
        }
        i += 1;
    }
    false
}

/// A copy of a list of addresses.
pub fn clone_ips(ips: &Vec<IpAddr>) -> (r: Vec<IpAddr>)
    ensures
        r@ == ips@,
{
    let mut r: Vec<IpAddr> = Vec::new();
    let n: usize = ips.len();
    let mut i: usize = 0;
    while i < n
        invariant
            n == ips@.len(),
            i <= n,
            r@ == ips@.take(i as int),
        decreases n - i,
    {
        r.push(ips[i]);
        i += 1;
        assert(r@ =~= ips@.take(i as int));
    }
    assert(ips@.take(n as int) =~= ips@);
    r
}

} // verus!

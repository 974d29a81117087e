//! Network addresses as plain values: the engine never touches a socket, so an
//! address is only data that identifies a path and selects an MTU table.

use vstd::prelude::*;

verus! {

/// An IP address, IPv4 as 32 bits or IPv6 as 128 bits.
#[derive(Debug, Clone, Copy, PartialEq, Eq, Structural)]
pub enum IpAddr {
    V4(u32),
    V6(u128),
}

impl IpAddr {
    /// Builds an IPv4 address from its four octets.
    pub fn v4(a: u8, b: u8, c: u8, d: u8) -> (r: IpAddr)
        ensures
            r == IpAddr::V4(((a as u32) << 24 | (b as u32) << 16 | (c as u32) << 8 | (d as u32))),
    {
        IpAddr::V4((a as u32) << 24 | (b as u32) << 16 | (c as u32) << 8 | (d as u32))
    }

    /// Builds an IPv6 address from its eight 16-bit segments.
    pub fn v6(s0: u16, s1: u16, s2: u16, s3: u16, s4: u16, s5: u16, s6: u16, s7: u16) -> (r: IpAddr)
        ensures
            r == IpAddr::V6((
                (s0 as u128) << 112 | (s1 as u128) << 96 | (s2 as u128) << 80 | (s3 as u128) << 64
                    | (s4 as u128) << 48 | (s5 as u128) << 32 | (s6 as u128) << 16 | (s7 as u128)
            )),
    {
        IpAddr::V6(
            (s0 as u128) << 112 | (s1 as u128) << 96 | (s2 as u128) << 80 | (s3 as u128) << 64
                | (s4 as u128) << 48 | (s5 as u128) << 32 | (s6 as u128) << 16 | (s7 as u128),
        )
    }

    pub open spec fn spec_is_ipv4(self) -> bool {
        self is V4
    }

    pub fn is_ipv4(&self) -> (r: bool)
        ensures
            r == self.spec_is_ipv4(),
    {
        match self {
            IpAddr::V4(_) => true,
            IpAddr::V6(_) => false,
        }
    }

    pub fn is_ipv6(&self) -> (r: bool)
        ensures
            r == !self.spec_is_ipv4(),
    {
        !self.is_ipv4()
    }

    pub open spec fn spec_is_unspecified(self) -> bool {
        match self {
            IpAddr::V4(a) => a == 0,
            IpAddr::V6(a) => a == 0,
        }
    }

    pub fn is_unspecified(&self) -> (r: bool)
        ensures
            r == self.spec_is_unspecified(),
    {
        match self {
            IpAddr::V4(a) => *a == 0,
            IpAddr::V6(a) => *a == 0,
        }
    }

    /// Loopback means 127.0.0.0/8 for IPv4 and ::1 for IPv6.
    pub open spec fn spec_is_loopback(self) -> bool {
        match self {
            IpAddr::V4(a) => a >> 24 == 127,
            IpAddr::V6(a) => a == 1,
        }
    }

    pub fn is_loopback(&self) -> (r: bool)
        ensures
            r == self.spec_is_loopback(),
    {
        match self {
            IpAddr::V4(a) => *a >> 24 == 127,
            IpAddr::V6(a) => *a == 1,
        }
    }
}

/// A socket address: an IP address and a port.
#[derive(Debug, Clone, Copy, PartialEq, Eq, Structural)]
pub struct SocketAddr {
    pub ip: IpAddr,
    pub port: u16,
}

impl SocketAddr {
    pub fn new(ip: IpAddr, port: u16) -> (r: SocketAddr)
        ensures
            r == (SocketAddr { ip, port }),
    {
        SocketAddr { ip, port }
    }

    pub fn ip(&self) -> (r: IpAddr)
        ensures
            r == self.ip,
    {
        self.ip
    }

    pub fn port(&self) -> (r: u16)
        ensures
            r == self.port,
    {
        self.port
    }

    pub fn is_ipv4(&self) -> (r: bool)
        ensures
            r == self.ip.spec_is_ipv4(),
    {
        self.ip.is_ipv4()
    }

    pub fn eq_addr(&self, other: &SocketAddr) -> (r: bool)
        ensures
            r == (self.ip == other.ip && self.port == other.port),
    {
        self.ip == other.ip && self.port == other.port
    }
}

} // verus!

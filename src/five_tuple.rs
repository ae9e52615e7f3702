//! The five-tuple that names one relay binding.
use vstd::prelude::*;

verus! {

/// Transport protocol of a binding.
#[derive(Debug, Clone, Copy, PartialEq, Eq, Hash, Structural)]
pub enum Protocol {
    Udp,
    Tcp,
}

/// A transport address. IPv4 addresses are held in their IPv4-mapped IPv6 form.
#[derive(Debug, Clone, Copy, PartialEq, Eq, Hash, Structural)]
pub struct SocketAddress {
    pub ip: u128,
    pub port: u16,
}

/// The IPv4-mapped form of `a.b.c.d`.
pub open spec fn ipv4_mapped(a: u8, b: u8, c: u8, d: u8) -> u128 {
    (0xffff_0000_0000u128 + a as u128 * 0x100_0000 + b as u128 * 0x1_0000 + c as u128 * 0x100 + d as u128) as u128
}

impl SocketAddress {
    /// The address `a.b.c.d:port`.
    pub fn v4(a: u8, b: u8, c: u8, d: u8, port: u16) -> (r: SocketAddress)
        ensures
            r.ip == ipv4_mapped(a, b, c, d),
            r.port == port,
    {
        let ip: u128 = 0xffff_0000_0000u128 + (a as u128) * 0x100_0000 + (b as u128) * 0x1_0000 + (c as u128) * 0x100
            + (d as u128);
        SocketAddress { ip, port }
    }
}

/// Client address, server address and protocol: the key of an allocation.
#[derive(Debug, Clone, Copy, PartialEq, Eq, Hash, Structural)]
pub struct FiveTuple {
    pub src_addr: SocketAddress,
    pub dst_addr: SocketAddress,
    pub protocol: Protocol,
}

} // verus!

use vstd::prelude::*;

verus! {

/// The host part of a network address, held as the address's integer value.
#[derive(Clone, Copy, Debug, PartialEq, Eq, Hash, Structural)]
pub enum Host {
    V4(u32),
    V6(u128),
}

/// A peer's identity: the host and port it connected from.
#[derive(Clone, Copy, Debug, PartialEq, Eq, Hash, Structural)]
pub struct Address {
    pub host: Host,
    pub port: u16,
}

impl Address {
    /// An IPv4 address, from its four octets and a port.
    pub fn v4(a: u8, b: u8, c: u8, d: u8, port: u16) -> (r: Address)
        ensures
            r.host == Host::V4(ipv4_value(a, b, c, d)),
            r.port == port,
    {
        let v: u32 = ((a as u32) << 24u32) | ((b as u32) << 16u32) | ((c as u32) << 8u32) | (d as u32);
        Address { host: Host::V4(v), port }
    }
}

/// The integer value of the IPv4 address `a.b.c.d`.
pub open spec fn ipv4_value(a: u8, b: u8, c: u8, d: u8) -> u32 {
    ((a as u32) << 24u32) | ((b as u32) << 16u32) | ((c as u32) << 8u32) | (d as u32)
}

} // verus!

use vstd::prelude::*;

verus! {

/// An IP address held as its numeric value: 32 bits for IPv4, 128 for IPv6.
#[derive(Clone, Copy, Debug, PartialEq, Eq, Hash, Structural)]
pub enum Addr {
    V4(u32),
    V6(u128),
}

impl Addr {
    /// Builds an IPv4 address from its four octets, most significant first.
    pub fn v4(a: u8, b: u8, c: u8, d: u8) -> (r: Addr)
        ensures
            r == Addr::V4((a * 0x100_0000 + b * 0x1_0000 + c * 0x100 + d) as u32),
    {
        Addr::V4((a as u32) * 0x100_0000 + (b as u32) * 0x1_0000 + (c as u32) * 0x100 + (d as u32))
    }

    pub fn is_ipv6(&self) -> (r: bool)
        ensures
            r == (self is V6),
    {
        match self {
            Addr::V4(_) => false,
            Addr::V6(_) => true,
        }
    }

    /// Exec equality that Verus reads as `==`.
    pub fn same(&self, other: &Addr) -> (r: bool)
        ensures
            r == (*self == *other),
    {
        match (self, other) {
            (Addr::V4(a), Addr::V4(b)) => *a == *b,
            (Addr::V6(a), Addr::V6(b)) => *a == *b,
            _ => false,
        }
    }
}

} // verus!

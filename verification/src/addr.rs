//! IP addresses as numbers.

use crate::bytes::be_uint;
use vstd::prelude::*;

verus! {

/// An IPv4 or IPv6 address, held as the number that its octets spell in
/// network order: `8.8.4.4` is `V4(0x0808_0404)`.
#[derive(Clone, Copy, Debug, PartialEq, Eq, Structural, Hash)]
pub enum IpAddress {
    V4(u32),
    V6(u128),
}

impl IpAddress {
    /// The IPv4 address `a.b.c.d`.
    pub fn v4(a: u8, b: u8, c: u8, d: u8) -> (addr: IpAddress)
        ensures
            addr == IpAddress::V4(be_uint(seq![a, b, c, d]) as u32),
            be_uint(seq![a, b, c, d]) <= u32::MAX,
    {
        proof {
            let s = seq![a, b, c, d];
            assert(s.drop_last() =~= seq![a, b, c]);
            assert(s.drop_last().drop_last() =~= seq![a, b]);
            assert(s.drop_last().drop_last().drop_last() =~= seq![a]);
            assert(seq![a].drop_last() =~= Seq::<u8>::empty());
            reveal_with_fuel(be_uint, 5);
        }
        IpAddress::V4(
            (a as u32) * 0x100_0000 + (b as u32) * 0x1_0000 + (c as u32) * 0x100 + (d as u32),
        )
    }

    /// Whether this is an IPv4 address.
    pub fn is_v4(&self) -> (v4: bool)
        ensures
            v4 == (*self is V4),
    {
        match self {
            IpAddress::V4(_) => true,
            IpAddress::V6(_) => false,
        }
    }
}

} // verus!

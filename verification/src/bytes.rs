//! Big-endian numbers as they lie in a packet.

use vstd::prelude::*;

verus! {

/// The number that `bytes` spell, most significant byte first.
pub open spec fn be_uint(bytes: Seq<u8>) -> nat
    decreases bytes.len(),
{
    if bytes.len() == 0 {
        0
    } else {
        be_uint(bytes.drop_last()) * 256 + bytes.last() as nat
    }
}

/// The 16-bit number whose high byte is `hi` and whose low byte is `lo`.
pub open spec fn be16(hi: u8, lo: u8) -> nat {
    hi as nat * 256 + lo as nat
}

/// The 16-bit big-endian field that begins at byte `at` of `bytes`.
pub open spec fn field16(bytes: Seq<u8>, at: usize) -> nat {
    be16(bytes[at as int], bytes[at + 1])
}

/// `bytes` with the 16-bit big-endian field at `at` set to `value`.
pub open spec fn with_field16(bytes: Seq<u8>, at: usize, value: u16) -> Seq<u8> {
    bytes.update(at as int, (value / 256) as u8).update(at + 1, (value % 256) as u8)
}

/// Reads the 16-bit big-endian field at `at`.
pub fn read_be16(bytes: &[u8], at: usize) -> (value: u16)
    requires
        at + 2 <= bytes@.len(),
    ensures
        value == field16(bytes@, at),
{
    (bytes[at] as u16) * 256 + (bytes[at + 1] as u16)
}

/// `n` as a 16-bit number, where it is one.
pub fn fit_u16(n: usize) -> (fitted: Option<u16>)
    ensures
        fitted is Some <==> n <= 0xFFFF,
        fitted matches Some(v) ==> v == n,
{
    if n <= 0xFFFF {
        Some(n as u16)
    } else {
        None
    }
}

} // verus!

//! Big-endian integer fields of the wire format.

use vstd::prelude::*;

verus! {

/// The big-endian 16-bit integer formed by two bytes.
pub open spec fn be16(hi: u8, lo: u8) -> u16 {
    (hi as u16 * 256 + lo as u16) as u16
}

/// The big-endian 32-bit integer formed by four bytes.
pub open spec fn be32(b0: u8, b1: u8, b2: u8, b3: u8) -> u32 {
    (b0 as u32 * 0x1000000 + b1 as u32 * 0x10000 + b2 as u32 * 256 + b3 as u32) as u32
}

/// Reads the big-endian 16-bit integer at position `i` of `data`.
pub fn read_u16(data: &[u8], i: usize) -> (r: u16)
    requires
        i + 2 <= data@.len(),
    ensures
        r == be16(data@[i as int], data@[i + 1]),
{
    let hi = data[i];
    let lo = data[i + 1];
    hi as u16 * 256 + lo as u16
}

/// Reads the big-endian 32-bit integer at position `i` of `data`.
pub fn read_u32(data: &[u8], i: usize) -> (r: u32)
    requires
        i + 4 <= data@.len(),
    ensures
        r == be32(data@[i as int], data@[i + 1], data@[i + 2], data@[i + 3]),
{
    let b0 = data[i];
    let b1 = data[i + 1];
    let b2 = data[i + 2];
    let b3 = data[i + 3];
    b0 as u32 * 0x1000000 + b1 as u32 * 0x10000 + b2 as u32 * 256 + b3 as u32
}

/// The two bytes whose big-endian reading is `x`: high byte first.
pub open spec fn be16_bytes(x: u16) -> Seq<u8> {
    seq![(x / 256) as u8, (x % 256) as u8]
}

/// Appends the big-endian encoding of `x` to `buf`.
pub fn push_u16(buf: &mut Vec<u8>, x: u16)
    ensures
        final(buf)@ == old(buf)@ + be16_bytes(x),
{
    buf.push((x / 256) as u8);
    buf.push((x % 256) as u8);
    assert(buf@ =~= old(buf)@ + be16_bytes(x));
}

/// Reading back the two bytes of a 16-bit value yields the value.
pub proof fn lemma_be16_round_trip(x: u16)
    ensures
        be16(be16_bytes(x)[0], be16_bytes(x)[1]) == x,
{
}

} // verus!

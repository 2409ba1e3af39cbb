//! Little-endian byte encodings used by the wire protocols.
use vstd::prelude::*;

verus! {

/// The two little-endian bytes of `x`.
pub open spec fn le_u16(x: u16) -> Seq<u8> {
    seq![(x % 256) as u8, (x / 256) as u8]
}

/// The four little-endian bytes of `x`.
pub open spec fn le_u32(x: u32) -> Seq<u8> {
    seq![
        (x % 256) as u8,
        ((x / 256) % 256) as u8,
        ((x / 65536) % 256) as u8,
        (x / 16777216) as u8,
    ]
}

/// The value of two little-endian bytes.
pub open spec fn from_le2(b0: u8, b1: u8) -> int {
    b0 + 256 * b1
}

/// The value of four little-endian bytes.
pub open spec fn from_le4(b0: u8, b1: u8, b2: u8, b3: u8) -> int {
    b0 + 256 * b1 + 65536 * b2 + 16777216 * b3
}

/// Append the little-endian bytes of `x` to `v`.
pub fn push_u32_le(v: &mut Vec<u8>, x: u32)
    requires
        old(v)@.len() + 4 <= usize::MAX,
    ensures
        final(v)@ == old(v)@ + le_u32(x),
{
    let b0 = (x & 0xff) as u8;
    let b1 = ((x >> 8) & 0xff) as u8;
    let b2 = ((x >> 16) & 0xff) as u8;
    let b3 = ((x >> 24) & 0xff) as u8;
    assert(b0 == x % 256 && b1 == (x / 256) % 256 && b2 == (x / 65536) % 256 && b3 == x
        / 16777216) by (bit_vector)
        requires
            b0 == (x & 0xff) as u8,
            b1 == ((x >> 8) & 0xff) as u8,
            b2 == ((x >> 16) & 0xff) as u8,
            b3 == ((x >> 24) & 0xff) as u8,
    ;
    v.push(b0);
    v.push(b1);
    v.push(b2);
    v.push(b3);
    proof {
        assert(final(v)@ =~= old(v)@ + le_u32(x));
    }
}

/// Append the little-endian bytes of `x` to `v`.
pub fn push_u16_le(v: &mut Vec<u8>, x: u16)
    requires
        old(v)@.len() + 2 <= usize::MAX,
    ensures
        final(v)@ == old(v)@ + le_u16(x),
{
    let b0 = (x & 0xff) as u8;
    let b1 = ((x >> 8) & 0xff) as u8;
    assert(b0 == x % 256 && b1 == x / 256) by (bit_vector)
        requires
            b0 == (x & 0xff) as u8,
            b1 == ((x >> 8) & 0xff) as u8,
    ;
    v.push(b0);
    v.push(b1);
    proof {
        assert(final(v)@ =~= old(v)@ + le_u16(x));
    }
}

/// Read a little-endian `u16` from two bytes.
pub fn u16_from_le(b0: u8, b1: u8) -> (x: u16)
    ensures
        x == from_le2(b0, b1),
{
    let x = (b0 as u16) | ((b1 as u16) << 8);
    assert(x == b0 + 256 * b1) by (bit_vector)
        requires
            x == (b0 as u16) | ((b1 as u16) << 8),
    ;
    x
}

/// Read a little-endian `u32` from four bytes.
pub fn u32_from_le(b0: u8, b1: u8, b2: u8, b3: u8) -> (x: u32)
    ensures
        x == from_le4(b0, b1, b2, b3),
{
    let x = (b0 as u32) | ((b1 as u32) << 8) | ((b2 as u32) << 16) | ((b3 as u32) << 24);
    assert(x == b0 + 256 * b1 + 65536 * b2 + 16777216 * b3) by (bit_vector)
        requires
            x == (b0 as u32) | ((b1 as u32) << 8) | ((b2 as u32) << 16) | ((b3 as u32) << 24),
    ;
    x
}

/// Reading back the bytes that `le_u32` writes gives the value that was written.
pub proof fn lemma_le_u32_roundtrip(x: u32)
    ensures
        from_le4(le_u32(x)[0], le_u32(x)[1], le_u32(x)[2], le_u32(x)[3]) == x,
{
}

/// Reading back the bytes that `le_u16` writes gives the value that was written.
pub proof fn lemma_le_u16_roundtrip(x: u16)
    ensures
        from_le2(le_u16(x)[0], le_u16(x)[1]) == x,
{
}

} // verus!

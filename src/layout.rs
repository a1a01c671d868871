//! Where each field of a GUID lies in its 16-byte big-endian form, and how
//! the integer fields are read from and written to their bytes.
use core::ops::Range;
use vstd::prelude::*;

verus! {

/// The byte ranges of the four fields within the 16-byte big-endian form:
/// `[0, 4)` holds `data1`, `[4, 6)` `data2`, `[6, 8)` `data3` and `[8, 16)` `data4`.
pub struct GuidLayout;

impl GuidLayout {
    /// The bytes of `data1`.
    pub fn data1() -> (r: Range<usize>)
        ensures
            r.start == 0,
            r.end == 4,
    {
        Range { start: 0, end: 4 }
    }

    /// The bytes of `data2`.
    pub fn data2() -> (r: Range<usize>)
        ensures
            r.start == 4,
            r.end == 6,
    {
        Range { start: 4, end: 6 }
    }

    /// The bytes of `data3`.
    pub fn data3() -> (r: Range<usize>)
        ensures
            r.start == 6,
            r.end == 8,
    {
        Range { start: 6, end: 8 }
    }

    /// The bytes of `data4`.
    pub fn data4() -> (r: Range<usize>)
        ensures
            r.start == 8,
            r.end == 16,
    {
        Range { start: 8, end: 16 }
    }
}

/// The 32-bit integer whose big-endian bytes are `b0`, `b1`, `b2`, `b3`.
pub open spec fn be_u32(b0: u8, b1: u8, b2: u8, b3: u8) -> u32 {
    ((b0 as u32) << 24u32) | ((b1 as u32) << 16u32) | ((b2 as u32) << 8u32) | (b3 as u32)
}

/// The 16-bit integer whose big-endian bytes are `b0`, `b1`.
pub open spec fn be_u16(b0: u8, b1: u8) -> u16 {
    ((b0 as u16) << 8u16) | (b1 as u16)
}

/// The big-endian bytes of `x`.
pub open spec fn u32_be_bytes(x: u32) -> Seq<u8> {
    seq![(x >> 24u32) as u8, (x >> 16u32) as u8, (x >> 8u32) as u8, x as u8]
}

/// The big-endian bytes of `x`.
pub open spec fn u16_be_bytes(x: u16) -> Seq<u8> {
    seq![(x >> 8u16) as u8, x as u8]
}

/// Writing a 32-bit integer as bytes and reading them back gives it again.
pub proof fn lemma_u32_bytes_round_trip(x: u32)
    ensures
        be_u32((x >> 24u32) as u8, (x >> 16u32) as u8, (x >> 8u32) as u8, x as u8) == x,
{
    assert(((((x >> 24u32) as u8) as u32) << 24u32) | ((((x >> 16u32) as u8) as u32) << 16u32)
        | ((((x >> 8u32) as u8) as u32) << 8u32) | ((x as u8) as u32) == x) by (bit_vector);
}

/// Reading four bytes as an integer and writing it back gives them again.
pub proof fn lemma_be_u32_round_trip(b0: u8, b1: u8, b2: u8, b3: u8)
    ensures
        u32_be_bytes(be_u32(b0, b1, b2, b3)) == seq![b0, b1, b2, b3],
{
    let x = be_u32(b0, b1, b2, b3);
    assert((x >> 24u32) as u8 == b0 && (x >> 16u32) as u8 == b1 && (x >> 8u32) as u8 == b2
        && x as u8 == b3) by (bit_vector)
        requires
            x == ((b0 as u32) << 24u32) | ((b1 as u32) << 16u32) | ((b2 as u32) << 8u32) | (
            b3 as u32),
    ;
    assert(u32_be_bytes(x) =~= seq![b0, b1, b2, b3]);
}

/// Writing a 16-bit integer as bytes and reading them back gives it again.
pub proof fn lemma_u16_bytes_round_trip(x: u16)
    ensures
        be_u16((x >> 8u16) as u8, x as u8) == x,
{
    assert(((((x >> 8u16) as u8) as u16) << 8u16) | ((x as u8) as u16) == x) by (bit_vector);
}

/// Reading two bytes as an integer and writing it back gives them again.
pub proof fn lemma_be_u16_round_trip(b0: u8, b1: u8)
    ensures
        u16_be_bytes(be_u16(b0, b1)) == seq![b0, b1],
{
    let x = be_u16(b0, b1);
    assert((x >> 8u16) as u8 == b0 && x as u8 == b1) by (bit_vector)
        requires
            x == ((b0 as u16) << 8u16) | (b1 as u16),
    ;
    assert(u16_be_bytes(x) =~= seq![b0, b1]);
}

/// Reads the big-endian 32-bit integer in the four bytes of `r`.
pub fn read_be_u32(bytes: &[u8; 16], r: Range<usize>) -> (x: u32)
    requires
        r.start + 4 == r.end <= 16,
    ensures
        x == be_u32(
            bytes[r.start as int],
            bytes[r.start + 1],
            bytes[r.start + 2],
            bytes[r.start + 3],
        ),
{
    let i = r.start;
    ((bytes[i] as u32) << 24u32) | ((bytes[i + 1] as u32) << 16u32) | ((bytes[i + 2] as u32)
        << 8u32) | (bytes[i + 3] as u32)
}

/// Reads the big-endian 16-bit integer in the two bytes of `r`.
pub fn read_be_u16(bytes: &[u8; 16], r: Range<usize>) -> (x: u16)
    requires
        r.start + 2 == r.end <= 16,
    ensures
        x == be_u16(bytes[r.start as int], bytes[r.start + 1]),
{
    let i = r.start;
    ((bytes[i] as u16) << 8u16) | (bytes[i + 1] as u16)
}

} // verus!

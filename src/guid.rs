//! The GUID value and its 16-byte big-endian form.
use crate::layout::{
    be_u16, be_u32, lemma_be_u16_round_trip, lemma_be_u32_round_trip, lemma_u16_bytes_round_trip,
    lemma_u32_bytes_round_trip, read_be_u16, read_be_u32, u16_be_bytes, u32_be_bytes, GuidLayout,
};
use vstd::prelude::*;

verus! {

/// A globally unique identifier in the Windows layout: three integer fields
/// followed by eight bytes kept in the order they are written.
#[derive(Debug, Clone, Copy)]
pub struct Guid {
    /// The low field of the timestamp.
    pub data1: u32,
    /// The middle field of the timestamp.
    pub data2: u16,
    /// The high field of the timestamp, sharing its bits with the version.
    pub data3: u16,
    /// The clock sequence (high byte, then low byte), then six bytes of node
    /// identifier.
    pub data4: [u8; 8],
}

impl View for Guid {
    type V = Seq<u8>;

    /// The 128-bit value as 16 big-endian bytes: each integer field most
    /// significant byte first, then `data4` as it stands.
    open spec fn view(&self) -> Seq<u8> {
        u32_be_bytes(self.data1) + u16_be_bytes(self.data2) + u16_be_bytes(self.data3)
            + self.data4@
    }
}

impl PartialEq for Guid {
    fn eq(&self, other: &Guid) -> (r: bool) {
        if self.data1 != other.data1 || self.data2 != other.data2 || self.data3 != other.data3 {
            return false;
        }
        let mut i: usize = 0;
        while i < 8
            invariant
                i <= 8,
                forall|j: int| 0 <= j < i ==> self.data4[j] == other.data4[j],
            decreases 8 - i,
        {
            if self.data4[i] != other.data4[i] {
                return false;
            }
            i = i + 1;
        }
        assert(self.data4 =~= other.data4);
        true
    }
}

impl vstd::std_specs::cmp::PartialEqSpecImpl for Guid {
    open spec fn obeys_eq_spec() -> bool {
        true
    }

    open spec fn eq_spec(&self, other: &Guid) -> bool {
        *self == *other
    }
}

impl Eq for Guid {

}

/// Two GUIDs with the same 16 bytes are the same GUID.
pub proof fn lemma_view_injective(g: Guid, h: Guid)
    requires
        g@ == h@,
    ensures
        g == h,
{
    lemma_u32_bytes_round_trip(g.data1);
    lemma_u32_bytes_round_trip(h.data1);
    lemma_u16_bytes_round_trip(g.data2);
    lemma_u16_bytes_round_trip(h.data2);
    lemma_u16_bytes_round_trip(g.data3);
    lemma_u16_bytes_round_trip(h.data3);
    assert(g@.subrange(0, 4) =~= u32_be_bytes(g.data1));
    assert(h@.subrange(0, 4) =~= u32_be_bytes(h.data1));
    assert(g@.subrange(4, 6) =~= u16_be_bytes(g.data2));
    assert(h@.subrange(4, 6) =~= u16_be_bytes(h.data2));
    assert(g@.subrange(6, 8) =~= u16_be_bytes(g.data3));
    assert(h@.subrange(6, 8) =~= u16_be_bytes(h.data3));
    assert(g@.subrange(8, 16) =~= g.data4@);
    assert(h@.subrange(8, 16) =~= h.data4@);
    assert forall|j: int| 0 <= j < 8 implies g.data4[j] == h.data4[j] by {
        assert(g.data4@[j] == h.data4@[j]);
    }
    assert(g.data4 =~= h.data4);
}

impl Guid {
    /// The GUID whose 16-byte big-endian form is `bytes`: each field is read
    /// from its range of the layout, the integer fields most significant byte
    /// first.
    pub fn from_be_bytes(bytes: &[u8; 16]) -> (g: Guid)
        ensures
            g@ == bytes@,
            g.data1 == be_u32(bytes[0], bytes[1], bytes[2], bytes[3]),
            g.data2 == be_u16(bytes[4], bytes[5]),
            g.data3 == be_u16(bytes[6], bytes[7]),
            g.data4@ == bytes@.subrange(8, 16),
    {
        let data1 = read_be_u32(bytes, GuidLayout::data1());
        let data2 = read_be_u16(bytes, GuidLayout::data2());
        let data3 = read_be_u16(bytes, GuidLayout::data3());
        let r4 = GuidLayout::data4();
        let mut data4: [u8; 8] = [0u8; 8];
        let mut i: usize = 0;
        while i < 8
            invariant
                i <= 8,
                r4.start == 8,
                forall|j: int| 0 <= j < i ==> data4[j] == bytes[8 + j],
            decreases 8 - i,
        {
            data4[i] = bytes[r4.start + i];
            i = i + 1;
        }
        let g = Guid { data1, data2, data3, data4 };
        proof {
            lemma_be_u32_round_trip(bytes[0], bytes[1], bytes[2], bytes[3]);
            lemma_be_u16_round_trip(bytes[4], bytes[5]);
            lemma_be_u16_round_trip(bytes[6], bytes[7]);
            assert(data4@ =~= bytes@.subrange(8, 16));
            assert(g@ =~= bytes@);
        }
        g
    }

    /// The 16-byte big-endian form of this GUID.
    pub fn to_be_bytes(&self) -> (bytes: [u8; 16])
        ensures
            bytes@ == self@,
    {
        let d1 = self.data1;
        let d2 = self.data2;
        let d3 = self.data3;
        let d4 = self.data4;
        let bytes: [u8; 16] = [
            (d1 >> 24u32) as u8,
            (d1 >> 16u32) as u8,
            (d1 >> 8u32) as u8,
            d1 as u8,
            (d2 >> 8u16) as u8,
            d2 as u8,
            (d3 >> 8u16) as u8,
            d3 as u8,
            d4[0],
            d4[1],
            d4[2],
            d4[3],
            d4[4],
            d4[5],
            d4[6],
            d4[7],
        ];
        assert(bytes@ =~= self@);
        bytes
    }
}

} // verus!

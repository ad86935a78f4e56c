//! The `offset:segment` pair that many CodeView records embed.

use crate::parser::{le_u16_at, le_u32_at, read_u16_at, read_u32_at};
use crate::text::{hex_fixed, push_hex_fixed};
use vstd::prelude::*;
use vstd::std_specs::cmp::PartialOrdSpec;
use vstd::std_specs::cmp::PartialOrdSpecImpl;
use vstd::string::*;

verus! {

/// Stores an `offset` and `segment` pair. On disk this is a little-endian `u32` offset
/// followed by a little-endian `u16` segment.
///
/// Values are ordered by segment, then by offset, which is the order of
/// [`OffsetSegment::as_u64`] and of [`OffsetSegment::as_tuple`].
#[derive(Clone, Copy, Debug, Default, PartialEq, Eq, Structural, Ord, Hash)]
pub struct OffsetSegment {
    /// The segment (section) index.
    pub segment: u16,
    /// The offset in bytes of a symbol within a segment.
    pub offset: u32,
}

/// The single integer that orders `offset:segment` pairs: the segment in the high bits and
/// the offset in the low 32 bits.
pub open spec fn offset_segment_key(segment: u16, offset: u32) -> int {
    segment as int * 0x1_0000_0000 + offset as int
}

/// The ordering key sorts by segment first, then by offset.
pub proof fn lemma_key_orders_by_segment_then_offset(a: OffsetSegment, b: OffsetSegment)
    ensures
        a.key() < b.key() <==> (a.segment < b.segment || (a.segment == b.segment && a.offset
            < b.offset)),
        a.key() == b.key() <==> a == b,
{
}

impl PartialOrd for OffsetSegment {
    fn partial_cmp(&self, other: &Self) -> (r: Option<core::cmp::Ordering>) {
        if self.segment < other.segment {
            Some(core::cmp::Ordering::Less)
        } else if self.segment > other.segment {
            Some(core::cmp::Ordering::Greater)
        } else if self.offset < other.offset {
            Some(core::cmp::Ordering::Less)
        } else if self.offset > other.offset {
            Some(core::cmp::Ordering::Greater)
        } else {
            Some(core::cmp::Ordering::Equal)
        }
    }
}

impl PartialOrdSpecImpl for OffsetSegment {
    open spec fn obeys_partial_cmp_spec() -> bool {
        true
    }

    open spec fn partial_cmp_spec(&self, other: &Self) -> Option<core::cmp::Ordering> {
        if self.segment < other.segment {
            Some(core::cmp::Ordering::Less)
        } else if self.segment > other.segment {
            Some(core::cmp::Ordering::Greater)
        } else if self.offset < other.offset {
            Some(core::cmp::Ordering::Less)
        } else if self.offset > other.offset {
            Some(core::cmp::Ordering::Greater)
        } else {
            Some(core::cmp::Ordering::Equal)
        }
    }
}

/// Two locations compare as their tuples `(segment, offset)` compare, and as their `u64` keys
/// compare: one is less than the other exactly where its key is, and they are equal exactly
/// where their keys are.
pub proof fn lemma_order_agrees_with_tuple_and_key(a: OffsetSegment, b: OffsetSegment)
    ensures
        PartialOrdSpec::partial_cmp_spec(&a, &b) == PartialOrdSpec::partial_cmp_spec(
            &(a.segment, a.offset),
            &(b.segment, b.offset),
        ),
        PartialOrdSpec::partial_cmp_spec(&a, &b) == Some(core::cmp::Ordering::Less) <==> a.key()
            < b.key(),
        PartialOrdSpec::partial_cmp_spec(&a, &b) == Some(core::cmp::Ordering::Equal) <==> a.key()
            == b.key(),
        PartialOrdSpec::partial_cmp_spec(&a, &b) == Some(core::cmp::Ordering::Greater)
            <==> a.key() > b.key(),
        PartialOrdSpec::partial_cmp_spec(&a, &b) == Some(core::cmp::Ordering::Equal) <==> a == b,
{
    lemma_key_orders_by_segment_then_offset(a, b);
    lemma_key_orders_by_segment_then_offset(b, a);
}

impl OffsetSegment {
    /// The ordering key of this value.
    pub open spec fn key(&self) -> int {
        offset_segment_key(self.segment, self.offset)
    }

    /// The value encoded at `s[off..off + 6]`: a little-endian `u32` offset, then a
    /// little-endian `u16` segment.
    pub open spec fn spec_decode(s: Seq<u8>, off: int) -> Self {
        OffsetSegment { offset: le_u32_at(s, off) as u32, segment: le_u16_at(s, off + 4) as u16 }
    }

    /// Decodes the value encoded at `b[off..off + 6]`.
    pub fn decode(b: &[u8], off: usize) -> (r: Self)
        requires
            off + 6 <= b@.len(),
        ensures
            r == Self::spec_decode(b@, off as int),
    {
        let _n = b.len();
        OffsetSegment { offset: read_u32_at(b, off), segment: read_u16_at(b, off + 4) }
    }

    /// Constructor
    pub fn new(offset: u32, segment: u16) -> (r: Self)
        ensures
            r.offset == offset,
            r.segment == segment,
    {
        Self { offset, segment }
    }

    /// The offset in bytes of a symbol within a segment.
    pub fn offset(&self) -> (r: u32)
        ensures
            r == self.offset,
    {
        self.offset
    }

    /// The segment (section) index.
    pub fn segment(&self) -> (r: u16)
        ensures
            r == self.segment,
    {
        self.segment
    }

    /// Combines the segment and offset into a tuple. The segment is the first element and the
    /// offset is the second element. This order gives a sorting order that sorts by segment first.
    pub fn as_tuple(&self) -> (r: (u16, u32))
        ensures
            r == (self.segment, self.offset),
    {
        (self.segment, self.offset)
    }

    /// Combines the segment and offset into a single `u64` value, with the segment in the
    /// higher-order bits. This allows for efficient comparisons.
    pub fn as_u64(&self) -> (r: u64)
        ensures
            r == self.key(),
    {
        let s: u64 = self.segment as u64;
        let o: u64 = self.offset as u64;
        let r: u64 = (s << 32u64) | o;
        assert(((s << 32u64) | o) == s * 0x1_0000_0000 + o) by (bit_vector)
            requires
                s < 0x1_0000,
                o < 0x1_0000_0000,
        ;
        r
    }

    /// The six bytes that encode this value as records embed it: the little-endian offset, then
    /// the little-endian segment. Decoding them gives this value back.
    pub fn to_bytes(&self) -> (r: Vec<u8>)
        ensures
            r@.len() == 6,
            r@ == seq![
                (self.offset % 0x100) as u8,
                ((self.offset / 0x100) % 0x100) as u8,
                ((self.offset / 0x1_0000) % 0x100) as u8,
                (self.offset / 0x100_0000) as u8,
                (self.segment % 0x100) as u8,
                (self.segment / 0x100) as u8,
            ],
            Self::spec_decode(r@, 0) == *self,
    {
        let o = self.offset;
        let g = self.segment;
        let mut v: Vec<u8> = Vec::new();
        v.push((o % 0x100) as u8);
        v.push(((o / 0x100) % 0x100) as u8);
        v.push(((o / 0x1_0000) % 0x100) as u8);
        v.push((o / 0x100_0000) as u8);
        v.push((g % 0x100) as u8);
        v.push((g / 0x100) as u8);
        assert(le_u32_at(v@, 0) == o as int);
        assert(le_u16_at(v@, 4) == g as int);
        v
    }

    /// The text of this location: `[segment:offset]`, with the segment as four and the offset
    /// as eight lower-case hexadecimal digits.
    pub open spec fn text(self) -> Seq<char> {
        "["@ + hex_fixed(self.segment as nat, 4) + ":"@ + hex_fixed(self.offset as nat, 8) + "]"@
    }

    /// The text of this location: `[segment:offset]`, with the segment as four and the offset
    /// as eight lower-case hexadecimal digits.
    pub fn to_string(&self) -> (r: String)
        ensures
            r@ == self.text(),
    {
        let mut s = String::from_str("[");
        push_hex_fixed(&mut s, self.segment as u128, 4);
        s.append(":");
        push_hex_fixed(&mut s, self.offset as u128, 8);
        s.append("]");
        s
    }
}

} // verus!

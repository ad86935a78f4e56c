//! DBI Section Map Substream

use crate::parser::{le_u16_at, le_u32_at, read_u16_at, read_u32_at};
use vstd::prelude::*;

verus! {

/// The size in bytes of a [`SectionMapHeader`].
pub const SECTION_MAP_HEADER_LEN: usize = 4;

/// The size in bytes of a [`SectionMapEntry`].
pub const SECTION_MAP_ENTRY_LEN: usize = 20;

/// The header of the Section Map Substream.
#[derive(Clone, Copy, Debug, PartialEq, Eq, Structural)]
pub struct SectionMapHeader {
    /// Total number of segment descriptors
    pub num_segments: u16,
    /// Number of logical segment descriptors
    pub num_logical_segments: u16,
}

/// One segment descriptor of the Section Map Substream.
#[derive(Clone, Copy, Debug, PartialEq, Eq, Structural)]
pub struct SectionMapEntry {
    /// Descriptor flags bit field. See `SectionMapEntryFlags`.
    pub flags: u16,
    /// The logical overlay number
    pub overlay: u16,
    /// Group index into the descriptor array
    pub group: u16,
    /// Logical segment index, interpreted via flags
    pub frame: u16,
    /// Byte index of segment / group name in string table, or 0xFFFF.
    pub section_name: u16,
    /// Byte index of class in string table, or 0xFFFF.
    pub class_name: u16,
    /// Byte offset of the logical segment within physical segment.
    /// If group is set in flags, this is the offset of the group.
    pub offset: u32,
    /// Byte count of the segment or group.
    pub section_length: u32,
}

/// The flags of a segment descriptor.
#[derive(Clone, Copy, Debug, PartialEq, Eq, Structural, PartialOrd, Ord)]
pub struct SectionMapEntryFlags(pub u16);

/// Segment is readable.
pub const READ: u16 = 1;
/// Segment is writable.
pub const WRITE: u16 = 2;
/// Segment is executable.
pub const EXECUTE: u16 = 4;
/// Descriptor describes a 32-bit linear address.
pub const ADDRESS_IS32_BIT: u16 = 8;
/// Frame represents a selector.
pub const IS_SELECTOR: u16 = 0x100;
/// Frame represents an absolute address.
pub const IS_ABSOLUTE_ADDRESS: u16 = 0x200;
/// If set, descriptor represents a group. (obsolete)
pub const IS_GROUP: u16 = 0x400;

impl SectionMapEntryFlags {
    /// The flags of a segment descriptor, all bits kept.
    pub fn from_bits_retain(bits: u16) -> (r: Self)
        ensures
            r.0 == bits,
    {
        SectionMapEntryFlags(bits)
    }

    /// The raw bits of these flags.
    pub fn bits(&self) -> (r: u16)
        ensures
            r == self.0,
    {
        self.0
    }

    /// Whether every bit of `flags` is set in these flags.
    pub fn contains(&self, flags: u16) -> (r: bool)
        ensures
            r == (self.0 & flags == flags),
    {
        self.0 & flags == flags
    }
}

impl SectionMapEntry {
    /// The flags of this segment descriptor.
    pub fn flags(&self) -> (r: SectionMapEntryFlags)
        ensures
            r.0 == self.flags,
    {
        SectionMapEntryFlags(self.flags)
    }
}

/// The segment descriptor whose 20 bytes start at `s[off]`.
pub open spec fn spec_entry_at(s: Seq<u8>, off: int) -> SectionMapEntry {
    SectionMapEntry {
        flags: le_u16_at(s, off) as u16,
        overlay: le_u16_at(s, off + 2) as u16,
        group: le_u16_at(s, off + 4) as u16,
        frame: le_u16_at(s, off + 6) as u16,
        section_name: le_u16_at(s, off + 8) as u16,
        class_name: le_u16_at(s, off + 10) as u16,
        offset: le_u32_at(s, off + 12) as u32,
        section_length: le_u32_at(s, off + 16) as u32,
    }
}

/// The segment descriptors of a Section Map Substream `s` that is at least as long as its
/// header.
pub open spec fn spec_entries(s: Seq<u8>) -> Seq<SectionMapEntry> {
    Seq::new(
        ((s.len() - 4) / 20) as nat,
        |i: int| spec_entry_at(s, 4 + 20 * i),
    )
}

/// Why a Section Map Substream cannot be read.
#[derive(Clone, Copy, Debug, PartialEq, Eq, Structural)]
pub enum SectionMapError {
    /// The substream is not empty but shorter than its 4-byte header.
    HeaderTruncated,
    /// Section map has invalid length (is not a multiple of SectionMapEntry size). The length
    /// includes the 4-byte header.
    InvalidLength(usize),
}

/// The DBI Section Map Substream.
pub struct SectionMap {
    /// The header.
    pub header: SectionMapHeader,
    /// The segment descriptors.
    pub entries: Vec<SectionMapEntry>,
}

fn entry_at(b: &[u8], off: usize) -> (r: SectionMapEntry)
    requires
        off + 20 <= b@.len(),
    ensures
        r == spec_entry_at(b@, off as int),
{
    let _len = b.len();
    SectionMapEntry {
        flags: read_u16_at(b, off),
        overlay: read_u16_at(b, off + 2),
        group: read_u16_at(b, off + 4),
        frame: read_u16_at(b, off + 6),
        section_name: read_u16_at(b, off + 8),
        class_name: read_u16_at(b, off + 10),
        offset: read_u32_at(b, off + 12),
        section_length: read_u32_at(b, off + 16),
    }
}

impl SectionMap {
    /// Parses the Section Map Substream. An empty substream has no segments.
    pub fn parse(bytes: &[u8]) -> (r: Result<Self, SectionMapError>)
        ensures
            bytes@.len() == 0 ==> (r matches Ok(m) && m.header == (SectionMapHeader {
                num_segments: 0,
                num_logical_segments: 0,
            }) && m.entries@.len() == 0),
            0 < bytes@.len() < 4 ==> r == Err::<Self, SectionMapError>(
                SectionMapError::HeaderTruncated,
            ),
            bytes@.len() >= 4 && (bytes@.len() - 4) % 20 != 0 ==> r == Err::<Self, SectionMapError>(
                SectionMapError::InvalidLength(bytes@.len() as usize),
            ),
            bytes@.len() >= 4 && (bytes@.len() - 4) % 20 == 0 ==> (r matches Ok(m) && m.header == (
            SectionMapHeader {
                num_segments: le_u16_at(bytes@, 0) as u16,
                num_logical_segments: le_u16_at(bytes@, 2) as u16,
            }) && m.entries@ == spec_entries(bytes@)),
    {
        let n = bytes.len();
        if n == 0 {
            return Ok(SectionMap {
                header: SectionMapHeader { num_segments: 0, num_logical_segments: 0 },
                entries: Vec::new(),
            });
        }
        if n < SECTION_MAP_HEADER_LEN {
            return Err(SectionMapError::HeaderTruncated);
        }
        let header = SectionMapHeader {
            num_segments: read_u16_at(bytes, 0),
            num_logical_segments: read_u16_at(bytes, 2),
        };
        if (n - SECTION_MAP_HEADER_LEN) % SECTION_MAP_ENTRY_LEN != 0 {
            return Err(SectionMapError::InvalidLength(n));
        }
        let count = (n - SECTION_MAP_HEADER_LEN) / SECTION_MAP_ENTRY_LEN;
        let mut entries: Vec<SectionMapEntry> = Vec::new();
        let mut i: usize = 0;
        while i < count
            invariant
                n == bytes@.len(),
                n >= 4,
                count == (n - 4) / 20,
                i <= count,
                entries@ =~= spec_entries(bytes@).take(i as int),
            decreases count - i,
        {
            assert(4 + 20 * i + 20 <= n) by (nonlinear_arith)
                requires
                    i < count,
                    count == (n - 4) / 20,
                    n >= 4,
            ;
            entries.push(entry_at(bytes, 4 + 20 * i));
            i = i + 1;
        }
        Ok(SectionMap { header, entries })
    }
}

/// The segment descriptors tile the Section Map Substream after its 4-byte header: there is
/// one for each whole 20 bytes that follow the header, they end where the substream ends, and
/// descriptor `i` holds the fields of the 20 bytes at `4 + 20 * i`, in order: flags, overlay,
/// group, frame, section name, class name (two bytes each), then offset and length (four
/// bytes each), all little-endian.
pub proof fn lemma_entries_tile_the_substream(s: Seq<u8>, i: int)
    requires
        s.len() >= 4,
        (s.len() - 4) % 20 == 0,
        0 <= i < (s.len() - 4) / 20,
    ensures
        4 + 20 * spec_entries(s).len() == s.len(),
        ({
            let e = spec_entries(s)[i];
            let at = 4 + 20 * i;
            &&& e.flags as int == s[at] + 0x100 * s[at + 1]
            &&& e.overlay as int == s[at + 2] + 0x100 * s[at + 3]
            &&& e.group as int == s[at + 4] + 0x100 * s[at + 5]
            &&& e.frame as int == s[at + 6] + 0x100 * s[at + 7]
            &&& e.section_name as int == s[at + 8] + 0x100 * s[at + 9]
            &&& e.class_name as int == s[at + 10] + 0x100 * s[at + 11]
            &&& e.offset as int == s[at + 12] + 0x100 * s[at + 13] + 0x1_0000 * s[at + 14]
                + 0x100_0000 * s[at + 15]
            &&& e.section_length as int == s[at + 16] + 0x100 * s[at + 17] + 0x1_0000 * s[at
                + 18] + 0x100_0000 * s[at + 19]
        }),
{
    let n = (s.len() - 4) / 20;
    assert(4 + 20 * n == s.len());
}

} // verus!

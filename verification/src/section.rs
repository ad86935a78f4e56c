//! COFF section headers and section characteristics.

use crate::text::{hex_fixed, push_hex_fixed};
use vstd::prelude::*;
use vstd::string::*;

verus! {

/// The flags of a COFF section (`IMAGE_SECTION_HEADER::characteristics`).
#[derive(Copy, Clone, Eq, PartialEq, Structural, Default, Hash, Ord, PartialOrd)]
pub struct SectionCharacteristics(pub u32);

/// obsolete
pub const IMAGE_SCN_TYPE_NO_PAD: u32 = 8;
/// Section contains code.
pub const IMAGE_SCN_CNT_CODE: u32 = 0x00000020;
/// Section contains initialized data.
pub const IMAGE_SCN_CNT_INITIALIZED_DATA: u32 = 0x00000040;
/// Section contains uninitialized data.
pub const IMAGE_SCN_CNT_UNINITIALIZED_DATA: u32 = 0x00000080;
/// Reserved.
pub const IMAGE_SCN_LNK_OTHER: u32 = 0x00000100;
/// Section contains comments or some other type of information.
pub const IMAGE_SCN_LNK_INFO: u32 = 0x00000200;
/// Section contents will not become part of image.
pub const IMAGE_SCN_LNK_REMOVE: u32 = 0x00000800;
/// Section contents comdat.
pub const IMAGE_SCN_LNK_COMDAT: u32 = 0x00001000;
/// Reset speculative exceptions handling bits in the TLB entries for this section.
pub const IMAGE_SCN_NO_DEFER_SPEC_EXC: u32 = 0x00004000;
/// Section content can be accessed relative to GP
pub const IMAGE_SCN_GPREL: u32 = 0x00008000;
/// IMAGE_SCN_MEM_SYSHEAP  - Obsolete    0x00010000
pub const IMAGE_SCN_MEM_FARDATA: u32 = 0x00008000;
/// `IMAGE_SCN_MEM_PURGEABLE`
pub const IMAGE_SCN_MEM_PURGEABLE: u32 = 0x00020000;
/// `IMAGE_SCN_MEM_16BIT`
pub const IMAGE_SCN_MEM_16BIT: u32 = 0x00020000;
/// `IMAGE_SCN_MEM_LOCKED`
pub const IMAGE_SCN_MEM_LOCKED: u32 = 0x00040000;
/// `IMAGE_SCN_MEM_PRELOAD`
pub const IMAGE_SCN_MEM_PRELOAD: u32 = 0x00080000;
/// const IMAGE_SCN_ALIGN_2BYTES               = 0x00200000;  //
pub const IMAGE_SCN_ALIGN_1BYTES: u32 = 0x00100000;
/// const IMAGE_SCN_ALIGN_8BYTES               = 0x00400000;  //
pub const IMAGE_SCN_ALIGN_4BYTES: u32 = 0x00300000;
/// Default alignment if no others are specified.
pub const IMAGE_SCN_ALIGN_16BYTES: u32 = 0x00500000;
/// const IMAGE_SCN_ALIGN_64BYTES              = 0x00700000;  //
pub const IMAGE_SCN_ALIGN_32BYTES: u32 = 0x00600000;
/// const IMAGE_SCN_ALIGN_256BYTES             = 0x00900000;  //
pub const IMAGE_SCN_ALIGN_128BYTES: u32 = 0x00800000;
/// const IMAGE_SCN_ALIGN_1024BYTES            = 0x00B00000;  //
pub const IMAGE_SCN_ALIGN_512BYTES: u32 = 0x00A00000;
/// const IMAGE_SCN_ALIGN_4096BYTES            = 0x00D00000;  //
pub const IMAGE_SCN_ALIGN_2048BYTES: u32 = 0x00C00000;
/// // Unused                                    0x00F00000
pub const IMAGE_SCN_ALIGN_8192BYTES: u32 = 0x00E00000;
/// `IMAGE_SCN_ALIGN_MASK`
pub const IMAGE_SCN_ALIGN_MASK: u32 = 0x00F00000;
/// Section contains extended relocations.
pub const IMAGE_SCN_LNK_NRELOC_OVFL: u32 = 0x01000000;
/// Section can be discarded.
pub const IMAGE_SCN_MEM_DISCARDABLE: u32 = 0x02000000;
/// Section is not cachable.
pub const IMAGE_SCN_MEM_NOT_CACHED: u32 = 0x04000000;
/// Section is not pageable.
pub const IMAGE_SCN_MEM_NOT_PAGED: u32 = 0x08000000;
/// Section is shareable.
pub const IMAGE_SCN_MEM_SHARED: u32 = 0x10000000;
/// Section is executable.
pub const IMAGE_SCN_MEM_EXECUTE: u32 = 0x20000000;
/// Section is readable.
pub const IMAGE_SCN_MEM_READ: u32 = 0x40000000;
/// Section is writeable.
pub const IMAGE_SCN_MEM_WRITE: u32 = 0x80000000;

impl SectionCharacteristics {
    /// Returns true if this contains `IMAGE_SCN_MEM_READ`
    pub fn is_read(self) -> (b: bool)
        ensures
            b == (self.0 & IMAGE_SCN_MEM_READ != 0),
    {
        self.0 & IMAGE_SCN_MEM_READ != 0
    }

    /// Returns true if this contains `IMAGE_SCN_MEM_WRITE`
    pub fn is_write(self) -> (b: bool)
        ensures
            b == (self.0 & IMAGE_SCN_MEM_WRITE != 0),
    {
        self.0 & IMAGE_SCN_MEM_WRITE != 0
    }

    /// Returns true if this contains `IMAGE_SCN_MEM_EXECUTE`
    pub fn is_exec(self) -> (b: bool)
        ensures
            b == (self.0 & IMAGE_SCN_MEM_EXECUTE != 0),
    {
        self.0 & IMAGE_SCN_MEM_EXECUTE != 0
    }

    /// The debugging text of these flags: their value as eight hexadecimal digits in square
    /// brackets.
    pub fn debug_string(self) -> (r: String)
        ensures
            r@ == "["@ + hex_fixed(self.0 as nat, 8) + "]"@,
    {
        let mut r = String::from_str("[");
        push_hex_fixed(&mut r, self.0 as u128, 8);
        r.append("]");
        r
    }
}

/// The size of the `name` field of a section header.
pub const IMAGE_SIZEOF_SHORT_NAME: usize = 8;

/// The size in bytes of an encoded section header.
pub const IMAGE_SIZEOF_SECTION_HEADER: usize = 40;

/// A COFF section header.
#[allow(non_camel_case_types)]
#[derive(Clone, Default, Eq, PartialEq, Ord, PartialOrd, Hash)]
pub struct IMAGE_SECTION_HEADER {
    pub name: [u8; IMAGE_SIZEOF_SHORT_NAME],
    pub physical_address_or_virtual_size: u32,
    pub virtual_address: u32,
    pub size_of_raw_data: u32,
    pub pointer_to_raw_data: u32,
    pub pointer_to_relocations: u32,
    pub pointer_to_linenumbers: u32,
    pub number_of_relocations: u16,
    pub number_of_linenumbers: u16,
    pub characteristics: SectionCharacteristics,
}

/// The name of a section, given the bytes of its `name` field: the bytes before the first
/// NUL, or all of them where there is no NUL.
pub open spec fn section_name(name: Seq<u8>) -> Seq<u8> {
    if exists|i: int| 0 <= i < name.len() && name[i] == 0 {
        name.take(crate::parser::first_nul(name))
    } else {
        name
    }
}

impl IMAGE_SECTION_HEADER {
    /// The name of the section: the `name` field up to its first NUL byte.
    pub fn name(&self) -> (r: &[u8])
        ensures
            r@ == section_name(self.name@),
    {
        let bytes = self.name.as_slice();
        let mut i: usize = 0;
        while i < bytes.len()
            invariant
                bytes@ == self.name@,
                i <= bytes@.len(),
                forall|j: int| 0 <= j < i ==> bytes@[j] != 0,
            decreases bytes@.len() - i,
        {
            if bytes[i] == 0 {
                proof {
                    crate::parser::lemma_first_nul(bytes@);
                    assert(crate::parser::is_first_nul(bytes@, i as int));
                }
                let (head, _) = bytes.split_at(i);
                return head;
            }
            i = i + 1;
        }
        bytes
    }
}

/// The DLL characteristics of an image (`IMAGE_OPTIONAL_HEADER::dll_characteristics`).
#[derive(Clone, Copy, Default, Eq, PartialEq, Structural, Ord, PartialOrd, Hash)]
#[allow(non_camel_case_types)]
pub struct IMAGE_DLLCHARACTERISTICS(pub u16);

/// Image can handle a high entropy 64-bit virtual address space.
pub const IMAGE_DLLCHARACTERISTICS_HIGH_ENTROPY_VA: u16 = 0x0020;
/// DLL can move.
pub const IMAGE_DLLCHARACTERISTICS_DYNAMIC_BASE: u16 = 0x0040;
/// Code Integrity Image
pub const IMAGE_DLLCHARACTERISTICS_FORCE_INTEGRITY: u16 = 0x0080;
/// Image is NX compatible
pub const IMAGE_DLLCHARACTERISTICS_NX_COMPAT: u16 = 0x0100;
/// Image understands isolation and doesn't want it
pub const IMAGE_DLLCHARACTERISTICS_NO_ISOLATION: u16 = 0x0200;
/// Image does not use SEH.  No SE handler may reside in this image
pub const IMAGE_DLLCHARACTERISTICS_NO_SEH: u16 = 0x0400;
/// Do not bind this image.
pub const IMAGE_DLLCHARACTERISTICS_NO_BIND: u16 = 0x0800;
/// Image should execute in an AppContainer
pub const IMAGE_DLLCHARACTERISTICS_APPCONTAINER: u16 = 0x1000;
/// Driver uses WDM model
pub const IMAGE_DLLCHARACTERISTICS_WDM_DRIVER: u16 = 0x2000;
/// Image supports Control Flow Guard.
pub const IMAGE_DLLCHARACTERISTICS_GUARD_CF: u16 = 0x4000;
/// `IMAGE_DLLCHARACTERISTICS_TERMINAL_SERVER_AWARE`
pub const IMAGE_DLLCHARACTERISTICS_TERMINAL_SERVER_AWARE: u16 = 0x8000;

} // verus!

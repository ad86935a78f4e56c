//! COFF machine types.

use crate::text::{hex, push_hex};
use vstd::prelude::*;
use vstd::string::*;

verus! {

/// The target machine of a COFF image (`IMAGE_FILE_HEADER::machine`).
#[derive(Copy, Clone, Eq, PartialEq, Structural, Hash, Ord, PartialOrd)]
#[allow(non_camel_case_types)]
pub struct IMAGE_FILE_MACHINE(pub u16);

/// `IMAGE_FILE_MACHINE_UNKNOWN`
pub const IMAGE_FILE_MACHINE_UNKNOWN: u16 = 0x0000;
/// `IMAGE_FILE_MACHINE_TARGET_HOST`
pub const IMAGE_FILE_MACHINE_TARGET_HOST: u16 = 0x0001;
/// `IMAGE_FILE_MACHINE_I386`
pub const IMAGE_FILE_MACHINE_I386: u16 = 0x014c;
/// `IMAGE_FILE_MACHINE_R3000`
pub const IMAGE_FILE_MACHINE_R3000: u16 = 0x0162;
/// `IMAGE_FILE_MACHINE_R4000`
pub const IMAGE_FILE_MACHINE_R4000: u16 = 0x0166;
/// `IMAGE_FILE_MACHINE_R10000`
pub const IMAGE_FILE_MACHINE_R10000: u16 = 0x0168;
/// `IMAGE_FILE_MACHINE_WCEMIPSV2`
pub const IMAGE_FILE_MACHINE_WCEMIPSV2: u16 = 0x0169;
/// `IMAGE_FILE_MACHINE_ALPHA`
pub const IMAGE_FILE_MACHINE_ALPHA: u16 = 0x0184;
/// `IMAGE_FILE_MACHINE_SH3`
pub const IMAGE_FILE_MACHINE_SH3: u16 = 0x01a2;
/// `IMAGE_FILE_MACHINE_SH3DSP`
pub const IMAGE_FILE_MACHINE_SH3DSP: u16 = 0x01a3;
/// `IMAGE_FILE_MACHINE_SH3E`
pub const IMAGE_FILE_MACHINE_SH3E: u16 = 0x01a4;
/// `IMAGE_FILE_MACHINE_SH4`
pub const IMAGE_FILE_MACHINE_SH4: u16 = 0x01a6;
/// `IMAGE_FILE_MACHINE_SH5`
pub const IMAGE_FILE_MACHINE_SH5: u16 = 0x01a8;
/// `IMAGE_FILE_MACHINE_ARM`
pub const IMAGE_FILE_MACHINE_ARM: u16 = 0x01c0;
/// `IMAGE_FILE_MACHINE_THUMB`
pub const IMAGE_FILE_MACHINE_THUMB: u16 = 0x01c2;
/// `IMAGE_FILE_MACHINE_ARMNT`
pub const IMAGE_FILE_MACHINE_ARMNT: u16 = 0x01c4;
/// `IMAGE_FILE_MACHINE_AM33`
pub const IMAGE_FILE_MACHINE_AM33: u16 = 0x01d3;
/// `IMAGE_FILE_MACHINE_POWERPC`
pub const IMAGE_FILE_MACHINE_POWERPC: u16 = 0x01F0;
/// `IMAGE_FILE_MACHINE_POWERPCFP`
pub const IMAGE_FILE_MACHINE_POWERPCFP: u16 = 0x01f1;
/// `IMAGE_FILE_MACHINE_IA64`
pub const IMAGE_FILE_MACHINE_IA64: u16 = 0x0200;
/// `IMAGE_FILE_MACHINE_MIPS16`
pub const IMAGE_FILE_MACHINE_MIPS16: u16 = 0x0266;
/// `IMAGE_FILE_MACHINE_ALPHA64`
pub const IMAGE_FILE_MACHINE_ALPHA64: u16 = 0x0284;
/// `IMAGE_FILE_MACHINE_MIPSFPU`
pub const IMAGE_FILE_MACHINE_MIPSFPU: u16 = 0x0366;
/// `IMAGE_FILE_MACHINE_MIPSFPU16`
pub const IMAGE_FILE_MACHINE_MIPSFPU16: u16 = 0x0466;
/// `IMAGE_FILE_MACHINE_TRICORE`
pub const IMAGE_FILE_MACHINE_TRICORE: u16 = 0x0520;
/// `IMAGE_FILE_MACHINE_CEF`
pub const IMAGE_FILE_MACHINE_CEF: u16 = 0x0CEF;
/// `IMAGE_FILE_MACHINE_EBC`
pub const IMAGE_FILE_MACHINE_EBC: u16 = 0x0EBC;
/// `IMAGE_FILE_MACHINE_AMD64`
pub const IMAGE_FILE_MACHINE_AMD64: u16 = 0x8664;
/// `IMAGE_FILE_MACHINE_M32R`
pub const IMAGE_FILE_MACHINE_M32R: u16 = 0x9041;
/// `IMAGE_FILE_MACHINE_ARM64`
pub const IMAGE_FILE_MACHINE_ARM64: u16 = 0xAA64;
/// `IMAGE_FILE_MACHINE_CEE`
pub const IMAGE_FILE_MACHINE_CEE: u16 = 0xC0EE;
/// `IMAGE_FILE_MACHINE_AXP64`, the same value as `IMAGE_FILE_MACHINE_ALPHA64`
pub const IMAGE_FILE_MACHINE_AXP64: u16 = 0x0284;

/// The name of the machine type `v`, such as `"IMAGE_FILE_MACHINE_AMD64"`.
pub open spec fn machine_name(v: u16) -> Option<Seq<char>> {
    match v {
        0x0000 => Some("IMAGE_FILE_MACHINE_UNKNOWN"@),
        0x0001 => Some("IMAGE_FILE_MACHINE_TARGET_HOST"@),
        0x014c => Some("IMAGE_FILE_MACHINE_I386"@),
        0x0162 => Some("IMAGE_FILE_MACHINE_R3000"@),
        0x0166 => Some("IMAGE_FILE_MACHINE_R4000"@),
        0x0168 => Some("IMAGE_FILE_MACHINE_R10000"@),
        0x0169 => Some("IMAGE_FILE_MACHINE_WCEMIPSV2"@),
        0x0184 => Some("IMAGE_FILE_MACHINE_ALPHA"@),
        0x01a2 => Some("IMAGE_FILE_MACHINE_SH3"@),
        0x01a3 => Some("IMAGE_FILE_MACHINE_SH3DSP"@),
        0x01a4 => Some("IMAGE_FILE_MACHINE_SH3E"@),
        0x01a6 => Some("IMAGE_FILE_MACHINE_SH4"@),
        0x01a8 => Some("IMAGE_FILE_MACHINE_SH5"@),
        0x01c0 => Some("IMAGE_FILE_MACHINE_ARM"@),
        0x01c2 => Some("IMAGE_FILE_MACHINE_THUMB"@),
        0x01c4 => Some("IMAGE_FILE_MACHINE_ARMNT"@),
        0x01d3 => Some("IMAGE_FILE_MACHINE_AM33"@),
        0x01F0 => Some("IMAGE_FILE_MACHINE_POWERPC"@),
        0x01f1 => Some("IMAGE_FILE_MACHINE_POWERPCFP"@),
        0x0200 => Some("IMAGE_FILE_MACHINE_IA64"@),
        0x0266 => Some("IMAGE_FILE_MACHINE_MIPS16"@),
        0x0284 => Some("IMAGE_FILE_MACHINE_ALPHA64"@),
        0x0366 => Some("IMAGE_FILE_MACHINE_MIPSFPU"@),
        0x0466 => Some("IMAGE_FILE_MACHINE_MIPSFPU16"@),
        0x0520 => Some("IMAGE_FILE_MACHINE_TRICORE"@),
        0x0CEF => Some("IMAGE_FILE_MACHINE_CEF"@),
        0x0EBC => Some("IMAGE_FILE_MACHINE_EBC"@),
        0x8664 => Some("IMAGE_FILE_MACHINE_AMD64"@),
        0x9041 => Some("IMAGE_FILE_MACHINE_M32R"@),
        0xAA64 => Some("IMAGE_FILE_MACHINE_ARM64"@),
        0xC0EE => Some("IMAGE_FILE_MACHINE_CEE"@),
        _ => None,
    }
}

impl IMAGE_FILE_MACHINE {
    /// The name of this machine type, where it is a known one.
    pub fn to_str_opt(self) -> (r: Option<&'static str>)
        ensures
            match machine_name(self.0) {
                Some(name) => r matches Some(t) && t@ == name,
                None => r is None,
            },
    {
        Some(
            match self.0 {
            0x0000 => "IMAGE_FILE_MACHINE_UNKNOWN",
            0x0001 => "IMAGE_FILE_MACHINE_TARGET_HOST",
            0x014c => "IMAGE_FILE_MACHINE_I386",
            0x0162 => "IMAGE_FILE_MACHINE_R3000",
            0x0166 => "IMAGE_FILE_MACHINE_R4000",
            0x0168 => "IMAGE_FILE_MACHINE_R10000",
            0x0169 => "IMAGE_FILE_MACHINE_WCEMIPSV2",
            0x0184 => "IMAGE_FILE_MACHINE_ALPHA",
            0x01a2 => "IMAGE_FILE_MACHINE_SH3",
            0x01a3 => "IMAGE_FILE_MACHINE_SH3DSP",
            0x01a4 => "IMAGE_FILE_MACHINE_SH3E",
            0x01a6 => "IMAGE_FILE_MACHINE_SH4",
            0x01a8 => "IMAGE_FILE_MACHINE_SH5",
            0x01c0 => "IMAGE_FILE_MACHINE_ARM",
            0x01c2 => "IMAGE_FILE_MACHINE_THUMB",
            0x01c4 => "IMAGE_FILE_MACHINE_ARMNT",
            0x01d3 => "IMAGE_FILE_MACHINE_AM33",
            0x01F0 => "IMAGE_FILE_MACHINE_POWERPC",
            0x01f1 => "IMAGE_FILE_MACHINE_POWERPCFP",
            0x0200 => "IMAGE_FILE_MACHINE_IA64",
            0x0266 => "IMAGE_FILE_MACHINE_MIPS16",
            0x0284 => "IMAGE_FILE_MACHINE_ALPHA64",
            0x0366 => "IMAGE_FILE_MACHINE_MIPSFPU",
            0x0466 => "IMAGE_FILE_MACHINE_MIPSFPU16",
            0x0520 => "IMAGE_FILE_MACHINE_TRICORE",
            0x0CEF => "IMAGE_FILE_MACHINE_CEF",
            0x0EBC => "IMAGE_FILE_MACHINE_EBC",
            0x8664 => "IMAGE_FILE_MACHINE_AMD64",
            0x9041 => "IMAGE_FILE_MACHINE_M32R",
            0xAA64 => "IMAGE_FILE_MACHINE_ARM64",
            0xC0EE => "IMAGE_FILE_MACHINE_CEE",
                _ => return None,
            },
        )
    }

    /// The name of this machine type, or `"??"`.
    pub fn to_str(self) -> (r: &'static str)
        ensures
            match machine_name(self.0) {
                Some(name) => r@ == name,
                None => r@ == "??"@,
            },
    {
        match self.to_str_opt() {
            Some(s) => s,
            None => "??",
        }
    }

    /// The debugging text of this machine type: its name, or `??0x` and its value in
    /// hexadecimal.
    pub fn debug_string(self) -> (r: String)
        ensures
            match machine_name(self.0) {
                Some(name) => r@ == name,
                None => r@ == "??0x"@ + hex(self.0 as nat),
            },
    {
        match self.to_str_opt() {
            Some(s) => String::from_str(s),
            None => {
                let mut r = String::from_str("??0x");
                push_hex(&mut r, self.0 as u128);
                r
            },
        }
    }
}

} // verus!

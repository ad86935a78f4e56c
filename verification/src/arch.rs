//! Architecture-specific definitions

use vstd::prelude::*;

verus! {

/// Identifies COFF CPU architectures.
#[derive(Copy, Clone, Eq, PartialEq, Structural, Ord, PartialOrd, Hash, Debug)]
pub enum Arch {
    /// AMD64
    AMD64,
    /// ARM64, including ARM64EC, ARM64X
    ARM64,
    /// X86
    X86,
}

/// Identifies a register in a specific architecture
#[derive(Copy, Clone, Eq, PartialEq, Structural, Ord, PartialOrd, Hash, Debug)]
pub struct ArchReg {
    /// Target architecture
    pub arch: Arch,
    /// The untyped register index
    pub reg: u16,
}

impl ArchReg {
    /// Ties an arch and a reg
    pub fn new(arch: Arch, reg: u16) -> (r: Self)
        ensures
            r.arch == arch,
            r.reg == reg,
    {
        Self { arch, reg }
    }
}

/// The architecture of an image with COFF machine type `machine`, where it is one that symbol
/// decoding supports: only AMD64.
pub fn arch_from_machine(machine: u16) -> (r: Option<Arch>)
    ensures
        machine == 0x8664 ==> r == Some(Arch::AMD64),
        machine != 0x8664 ==> r is None,
{
    if machine == 0x8664 {
        Some(Arch::AMD64)
    } else {
        None
    }
}

} // verus!

//! The key that associates an executable with its PDB, and the name of the linker module.

use crate::text::{decimal, hex, hex_fixed, push_decimal, push_hex};
use std::fmt::Write;
use vstd::prelude::*;
use vstd::string::*;

verus! {

/// The name of the special "linker" module.
///
/// The linker module is created by the linker and is not an input to the linker. It contains
/// special / well-known symbols, such as `S_COFFGROUP`.
pub const LINKER_MODULE_NAME: &'static str = "* Linker *";

/// This is the key used to associate a given PE executable (DLL or EXE) with a PDB.
/// All values come from the PDBI stream.
#[derive(Clone, Copy, PartialEq, Eq, PartialOrd, Ord, Hash)]
pub struct BindingKey {
    /// The bytes of the GUID. When MSVC tools are run in deterministic mode, this value is a
    /// hash of the PE image, rather than being assigned using an RNG.
    pub guid: [u8; 16],
    /// The age of the executable. This is incremented every time the DLL + PDB are modified.
    pub age: u32,
}

/// The two lower-case hexadecimal digits of each byte of `b`, in order.
pub open spec fn bytes_hex(b: Seq<u8>) -> Seq<char>
    decreases b.len(),
{
    if b.len() == 0 {
        Seq::empty()
    } else {
        bytes_hex(b.drop_last()) + hex_fixed(b.last() as nat, 2)
    }
}

/// The hyphenated text of the UUID with bytes `b`: the hexadecimal digits of its bytes,
/// grouped 8-4-4-4-12 by hyphens.
pub open spec fn uuid_text(b: Seq<u8>) -> Seq<char> {
    let h = bytes_hex(b);
    h.subrange(0, 8) + seq!['-'] + h.subrange(8, 12) + seq!['-'] + h.subrange(12, 16) + seq!['-']
        + h.subrange(16, 20) + seq!['-'] + h.subrange(20, 32)
}

/// Appends the `Debug` text of the `uuid::Uuid` with bytes `bytes`. The uuid crate writes it
/// as the lower-case hyphenated form; the contract states that form.
#[verifier::external_body]
fn push_uuid(s: &mut String, bytes: [u8; 16])
    ensures
        final(s)@ == old(s)@ + uuid_text(bytes@),
{
    let _ = write!(s, "{:?}", uuid::Uuid::from_bytes(bytes));
}

impl BindingKey {
    /// The debugging text of this key: the GUID, then `age` and the age, in hexadecimal with a
    /// `0x` prefix where it is above `0x1000`, in decimal otherwise.
    pub fn debug_string(&self) -> (r: String)
        ensures
            r@ == uuid_text(self.guid@) + " age "@ + if self.age > 0x1000 {
                "0x"@ + hex(self.age as nat)
            } else {
                decimal(self.age as nat)
            },
    {
        let mut s = String::new();
        push_uuid(&mut s, self.guid);
        s.append(" age ");
        if self.age > 0x1000 {
            s.append("0x");
            push_hex(&mut s, self.age as u128);
        } else {
            push_decimal(&mut s, self.age as u128);
        }
        assert(s@ =~= uuid_text(self.guid@) + " age "@ + if self.age > 0x1000 {
            "0x"@ + hex(self.age as nat)
        } else {
            decimal(self.age as nat)
        });
        s
    }
}

} // verus!

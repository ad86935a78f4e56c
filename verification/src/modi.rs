//! Reads data from Module Info (`modi`) streams.
//!
//! A module stream holds, in order: the module's symbols (beginning with a 4-byte CodeView
//! signature), C11 line data, C13 line data, and optionally a `u32` byte count followed by
//! that many bytes of global refs. The sizes of the first three substreams come from the
//! module's record in the DBI stream.

use crate::parser::le_u32_at;
use crate::syms::SymIter;
use core::ops::Range;
use vstd::prelude::*;

verus! {

/// The length of the Module Symbols substream header (the CodeView signature).
pub const MODULE_SYMBOLS_HEADER_LEN: usize = 4;

/// Actual signature is >64K
pub const CV_SIGNATURE_C6: u32 = 0;
/// First explicit signature
pub const CV_SIGNATURE_C7: u32 = 1;
/// C11 (vc5.x) 32-bit types
pub const CV_SIGNATURE_C11: u32 = 2;
/// C13 (vc7.x) zero terminated names
pub const CV_SIGNATURE_C13: u32 = 4;
/// All signatures from 5 to 64K are reserved
pub const CV_SIGNATURE_RESERVED: u32 = 5;

/// The Module Symbols substream begins with this header. It is located at stream offset 0 in the
/// Module Stream.
#[derive(Clone, Copy, Debug, PartialEq, Eq, Structural)]
pub struct ModuleSymbolsHeader {
    /// Indicates the version of the module symbol stream. Use the `CV_SIGNATURE_*` constants.
    /// The expected value is `CV_SIGNATURE_C13`.
    pub signature: u32,
}

/// The substream sizes that a module's record in the DBI stream gives for its module stream.
#[derive(Clone, Copy, Debug, PartialEq, Eq, Structural)]
pub struct ModuleInfoFixed {
    /// Size in bytes of the module symbols substream, signature included.
    pub sym_byte_size: u32,
    /// Size in bytes of the C11 line data substream.
    pub c11_byte_size: u32,
    /// Size in bytes of the C13 line data substream.
    pub c13_byte_size: u32,
}

/// Why a module stream does not match the sizes that its module record gives.
#[derive(Clone, Copy, Debug, PartialEq, Eq, Structural)]
pub enum ModiStreamError {
    /// Module info has a `sym_byte_size` that exceeds the size of the stream.
    SymByteSizeExceedsStream,
    /// Module info has a `c11_byte_size` that exceeds the size of the stream.
    C11ByteSizeExceedsStream,
    /// Module info has a `c13_byte_size` that exceeds the size of the stream.
    C13ByteSizeExceedsStream,
    /// Fewer than four bytes follow the line data, so `global_refs_size` cannot be decoded.
    GlobalRefsSizeUndecodable,
    /// The global refs substream is longer than the bytes that remain.
    GlobalRefsExceedStream,
}

/// A range within a module stream is out of bounds, or its size is not a multiple of the
/// size of its items.
#[derive(Clone, Copy, Debug, PartialEq, Eq, Structural)]
pub struct ModiRangeError;

/// What validating a module stream `s` against the substream sizes gives: the size of its
/// global refs substream, or the first size that does not fit.
pub open spec fn modi_layout(s: Seq<u8>, sym: u32, c11: u32, c13: u32) -> Result<u32, ModiStreamError> {
    let n = s.len();
    let b = sym + c11;
    let c = sym + c11 + c13;
    if sym > n {
        Err(ModiStreamError::SymByteSizeExceedsStream)
    } else if b > n {
        Err(ModiStreamError::C11ByteSizeExceedsStream)
    } else if c > n {
        Err(ModiStreamError::C13ByteSizeExceedsStream)
    } else if c == n {
        Ok(0)
    } else if n < c + 4 {
        Err(ModiStreamError::GlobalRefsSizeUndecodable)
    } else if le_u32_at(s, c) == 0xffff_ffff {
        Ok(0)
    } else if n < c + 4 + le_u32_at(s, c) {
        Err(ModiStreamError::GlobalRefsExceedStream)
    } else {
        Ok(le_u32_at(s, c) as u32)
    }
}

/// Contains the stream data for a Module Info stream.
pub struct ModiStreamData {
    /// The contents of the stream.
    pub stream_data: Vec<u8>,
    /// Size in bytes of the module symbols substream, signature included.
    pub sym_byte_size: u32,
    /// Size in bytes of the C11 line data substream.
    pub c11_byte_size: u32,
    /// Size in bytes of the C13 line data substream.
    pub c13_byte_size: u32,
    /// Size in bytes of the global refs substream.
    pub global_refs_size: u32,
}

/// The bytes `s[start..end]`, where that range lies within `s`.
pub open spec fn nested(s: Seq<u8>, start: int, end: int) -> Option<Seq<u8>> {
    if 0 <= start <= end <= s.len() {
        Some(s.subrange(start, end))
    } else {
        None
    }
}

/// The stream bytes of `s` after the symbols of size `sym` are replaced by `new_sym_data`.
pub open spec fn replaced_sym_data(s: Seq<u8>, sym: u32, new_sym_data: Seq<u8>) -> Seq<u8> {
    new_sym_data + s.skip(sym as int)
}

/// The bytes of `s` that come before offset `len`; all of `s` where it is no longer.
pub open spec fn truncated(s: Seq<u8>, len: int) -> Seq<u8> {
    if len <= s.len() {
        s.take(len)
    } else {
        s
    }
}


/// A stream that `ModiStreamData::new` accepts holds its substreams: the symbols, C11 and C13
/// line data lie within it, and so do the global refs and their size field where there are any.
pub proof fn lemma_layout_bounds(s: Seq<u8>, sym: u32, c11: u32, c13: u32)
    requires
        modi_layout(s, sym, c11, c13) is Ok,
    ensures
        sym + c11 + c13 <= s.len(),
        modi_layout(s, sym, c11, c13) matches Ok(g) && (g != 0 ==> sym + c11 + c13 + 4 + g
            <= s.len()),
{
}

/// The size of the global refs substream that an accepted stream gives is the little-endian
/// `u32` stored right after the C13 line data; it is zero where the stream ends with the C13
/// line data, or where that field holds `0xffff_ffff`. A stream is refused exactly where one
/// of the substreams, or the global refs that the field counts, runs past its end.
pub proof fn lemma_global_refs_size_field(s: Seq<u8>, sym: u32, c11: u32, c13: u32)
    ensures
        ({
            let c = sym + c11 + c13;
            &&& modi_layout(s, sym, c11, c13) is Err <==> (c > s.len() || (c < s.len() && (s.len()
                < c + 4 || (s[c] + 0x100 * s[c + 1] + 0x1_0000 * s[c + 2] + 0x100_0000 * s[c
                + 3] != 0xffff_ffff && s.len() < c + 4 + s[c] + 0x100 * s[c + 1] + 0x1_0000
                * s[c + 2] + 0x100_0000 * s[c + 3]))))
            &&& modi_layout(s, sym, c11, c13) matches Ok(g) ==> if c == s.len() {
                g == 0
            } else if s[c] + 0x100 * s[c + 1] + 0x1_0000 * s[c + 2] + 0x100_0000 * s[c + 3]
                == 0xffff_ffff {
                g == 0
            } else {
                g == s[c] + 0x100 * s[c + 1] + 0x1_0000 * s[c + 2] + 0x100_0000 * s[c + 3]
            }
        }),
{
}

/// After the symbol data is replaced, the full symbol data that is read back is the data that
/// was written, and the C11 and C13 line data that follow it are unchanged.
pub proof fn lemma_replace_sym_data_then_read(
    s: Seq<u8>,
    sym: u32,
    c11: u32,
    c13: u32,
    new_sym_data: Seq<u8>,
)
    requires
        sym + c11 + c13 <= s.len(),
        new_sym_data.len() <= u32::MAX,
    ensures
        nested(replaced_sym_data(s, sym, new_sym_data), 0, new_sym_data.len() as u32 as int)
            == Some(new_sym_data),
        nested(
            replaced_sym_data(s, sym, new_sym_data),
            new_sym_data.len() + c11,
            new_sym_data.len() + c11 + c13,
        ) == nested(s, sym + c11, sym + c11 + c13),
{
    let r = replaced_sym_data(s, sym, new_sym_data);
    let k = new_sym_data.len() as int;
    assert(r.subrange(0, k) =~= new_sym_data);
    assert(r.subrange(k + c11, k + c11 + c13) =~= s.subrange(sym + c11, sym + c11 + c13));
}

/// Replacing the symbol data keeps a valid module stream valid: under the new symbol size, the
/// new stream has the layout, and so the global refs size, that the old stream had.
pub proof fn lemma_replace_sym_data_keeps_layout(
    s: Seq<u8>,
    sym: u32,
    c11: u32,
    c13: u32,
    new_sym_data: Seq<u8>,
)
    requires
        modi_layout(s, sym, c11, c13) is Ok,
        new_sym_data.len() <= u32::MAX,
    ensures
        modi_layout(
            replaced_sym_data(s, sym, new_sym_data),
            new_sym_data.len() as u32,
            c11,
            c13,
        ) == modi_layout(s, sym, c11, c13),
{
    let r = replaced_sym_data(s, sym, new_sym_data);
    let k = new_sym_data.len() as int;
    let c = sym + c11 + c13;
    let c2 = k + c11 + c13;
    assert(r.len() == k + s.len() - sym);
    if c2 + 4 <= r.len() {
        assert(r[c2] == s[c]);
        assert(r[c2 + 1] == s[c + 1]);
        assert(r[c2 + 2] == s[c + 2]);
        assert(r[c2 + 3] == s[c + 3]);
        assert(le_u32_at(r, c2) == le_u32_at(s, c));
    }
}

/// Removing the global refs keeps a valid module stream valid, now with no global refs.
pub proof fn lemma_truncate_global_refs_keeps_layout(s: Seq<u8>, sym: u32, c11: u32, c13: u32)
    requires
        modi_layout(s, sym, c11, c13) is Ok,
    ensures
        modi_layout(truncated(s, sym + c11 + c13), sym, c11, c13) == Ok::<u32, ModiStreamError>(0),
{
}

impl ModiStreamData {
    /// Initializes a new `ModiStreamData`. This validates the byte sizes of the substreams,
    /// which are specified in the [`ModuleInfoFixed`] structure, not within the Module Stream
    /// itself. A `global_refs_size` of `0xffff_ffff` is read as 0.
    pub fn new(stream_data: Vec<u8>, module: &ModuleInfoFixed) -> (r: Result<Self, ModiStreamError>)
        ensures
            match modi_layout(stream_data@, module.sym_byte_size, module.c11_byte_size, module.c13_byte_size) {
                Ok(g) => r matches Ok(m) && {
                    &&& m.stream_data@ == stream_data@
                    &&& m.sym_byte_size == module.sym_byte_size
                    &&& m.c11_byte_size == module.c11_byte_size
                    &&& m.c13_byte_size == module.c13_byte_size
                    &&& m.global_refs_size == g
                },
                Err(e) => r == Err::<Self, ModiStreamError>(e),
            },
    {
        let n = stream_data.len();
        let sym_byte_size = module.sym_byte_size;
        let c11_byte_size = module.c11_byte_size;
        let c13_byte_size = module.c13_byte_size;
        let ghost s = stream_data@;

        if sym_byte_size as u64 > n as u64 {
            return Err(ModiStreamError::SymByteSizeExceedsStream);
        }
        let b: usize = sym_byte_size as usize;
        if c11_byte_size as u64 > (n - b) as u64 {
            return Err(ModiStreamError::C11ByteSizeExceedsStream);
        }
        let b: usize = b + c11_byte_size as usize;
        if c13_byte_size as u64 > (n - b) as u64 {
            return Err(ModiStreamError::C13ByteSizeExceedsStream);
        }
        let c: usize = b + c13_byte_size as usize;

        let mut global_refs_size: u32;
        if c < n {
            if n - c < 4 {
                return Err(ModiStreamError::GlobalRefsSizeUndecodable);
            }
            global_refs_size = crate::parser::read_u32_at(stream_data.as_slice(), c);
            if global_refs_size == 0xffff_ffff {
                global_refs_size = 0;
            } else if global_refs_size as u64 > (n - c - 4) as u64 {
                return Err(ModiStreamError::GlobalRefsExceedStream);
            }
        } else {
            global_refs_size = 0;
        }

        Ok(ModiStreamData {
            stream_data,
            sym_byte_size,
            c11_byte_size,
            c13_byte_size,
            global_refs_size,
        })
    }

    fn nested_slice(&self, start: usize, end: usize) -> (r: Result<&[u8], ModiRangeError>)
        ensures
            match nested(self.stream_data@, start as int, end as int) {
                Some(b) => r matches Ok(x) && x@ == b,
                None => r is Err,
            },
    {
        if start <= end && end <= self.stream_data.len() {
            Ok(&self.stream_data.as_slice()[start..end])
        } else {
            Err(ModiRangeError)
        }
    }

    /// Returns a reference to the encoded symbol data for this module.
    ///
    /// This _does not_ include the CodeView signature.
    pub fn sym_data(&self) -> (r: Result<&[u8], ModiRangeError>)
        ensures
            match nested(self.stream_data@, MODULE_SYMBOLS_HEADER_LEN as int, self.sym_byte_size as int) {
                Some(b) => r matches Ok(x) && x@ == b,
                None => r is Err,
            },
    {
        if self.sym_byte_size as u64 > usize::MAX as u64 {
            return Err(ModiRangeError);
        }
        self.nested_slice(MODULE_SYMBOLS_HEADER_LEN, self.sym_byte_size as usize)
    }

    /// Returns a reference to the encoded symbol data for this module.
    ///
    /// This _does_ include the CodeView signature.
    pub fn full_sym_data(&self) -> (r: Result<&[u8], ModiRangeError>)
        ensures
            match nested(self.stream_data@, 0, self.sym_byte_size as int) {
                Some(b) => r matches Ok(x) && x@ == b,
                None => r is Err,
            },
    {
        if self.sym_byte_size as u64 > usize::MAX as u64 {
            return Err(ModiRangeError);
        }
        self.nested_slice(0, self.sym_byte_size as usize)
    }

    /// Returns an iterator for the symbol data for this module. Where the symbol data is
    /// not within the stream, the iterator is empty.
    pub fn iter_syms(&self) -> (r: SymIter<'_>)
        ensures
            match nested(self.stream_data@, MODULE_SYMBOLS_HEADER_LEN as int, self.sym_byte_size as int) {
                Some(b) => r.data@ == b,
                None => r.data@.len() == 0,
            },
    {
        match self.sym_data() {
            Ok(sym_data) => SymIter::new(sym_data),
            Err(_) => {
                let (_, empty) = self.stream_data.as_slice().split_at(0);
                let (empty, _) = empty.split_at(0);
                SymIter::new(empty)
            },
        }
    }

    /// Returns the byte range of the C13 Line Data within this Module Information Stream.
    pub fn c13_line_data_range(&self) -> (r: Range<usize>)
        requires
            self.sym_byte_size + self.c11_byte_size + self.c13_byte_size <= usize::MAX,
        ensures
            self.c13_byte_size == 0 ==> r.start == 0 && r.end == 0,
            self.c13_byte_size != 0 ==> r.start == self.sym_byte_size + self.c11_byte_size
                && r.end == self.sym_byte_size + self.c11_byte_size + self.c13_byte_size,
    {
        if self.c13_byte_size == 0 {
            return 0..0;
        }
        let start = self.sym_byte_size as usize + self.c11_byte_size as usize;
        start..start + self.c13_byte_size as usize
    }

    /// Returns the byte data for the C13 line data.
    pub fn c13_line_data_bytes(&self) -> (r: &[u8])
        requires
            self.sym_byte_size + self.c11_byte_size + self.c13_byte_size <= self.stream_data@.len(),
        ensures
            self.c13_byte_size == 0 ==> r@.len() == 0,
            self.c13_byte_size != 0 ==> r@ == self.stream_data@.subrange(
                self.sym_byte_size + self.c11_byte_size,
                self.sym_byte_size + self.c11_byte_size + self.c13_byte_size,
            ),
    {
        let _n = self.stream_data.len();
        let range = self.c13_line_data_range();
        if self.c13_byte_size == 0 {
            return &self.stream_data.as_slice()[0..0];
        }
        &self.stream_data.as_slice()[range.start..range.end]
    }

    /// Gets the byte range within the stream data for the global refs
    pub fn global_refs_range(&self) -> (r: Range<usize>)
        requires
            self.sym_byte_size + self.c11_byte_size + self.c13_byte_size + 4 + self.global_refs_size
                <= usize::MAX,
        ensures
            self.global_refs_size == 0 ==> r.start == 0 && r.end == 0,
            self.global_refs_size != 0 ==> {
                &&& r.start == self.sym_byte_size + self.c11_byte_size + self.c13_byte_size + 4
                &&& r.end == r.start + self.global_refs_size
            },
    {
        if self.global_refs_size == 0 {
            return 0..0;
        }
        // The Global Refs start after the C13 line data.
        // The 4 is for the global_refs_size field itself.
        let global_refs_offset = self.sym_byte_size as usize + self.c11_byte_size as usize
            + self.c13_byte_size as usize + 4;
        global_refs_offset..global_refs_offset + self.global_refs_size as usize
    }

    /// Returns the global refs stored in this Module Stream.
    ///
    /// Each value in the returned list is a byte offset into the Global Symbol Stream of
    /// a global symbol that this module references.
    pub fn global_refs(&self) -> (r: Result<Vec<u32>, ModiRangeError>)
        requires
            self.sym_byte_size + self.c11_byte_size + self.c13_byte_size + 4 + self.global_refs_size
                <= usize::MAX,
        ensures
            ({
                let start = if self.global_refs_size == 0 {
                    0
                } else {
                    self.sym_byte_size + self.c11_byte_size + self.c13_byte_size + 4
                };
                let end = if self.global_refs_size == 0 {
                    0
                } else {
                    start + self.global_refs_size
                };
                match nested(self.stream_data@, start, end) {
                    Some(b) => if b.len() % 4 == 0 {
                        r matches Ok(v) && v@ == crate::syms::u32_array(b, 0, (b.len() / 4) as int)
                    } else {
                        r is Err
                    },
                    None => r is Err,
                }
            }),
    {
        let range = self.global_refs_range();
        let bytes = self.nested_slice(range.start, range.end)?;
        if bytes.len() % 4 != 0 {
            return Err(ModiRangeError);
        }
        Ok(crate::syms::decode_u32_array(bytes, 0, bytes.len() / 4))
    }
}

impl ModiStreamData {
    /// Replace the symbol data for this module.  `new_sym_data` includes the CodeView signature.
    pub fn replace_sym_data(&mut self, new_sym_data: &[u8])
        requires
            old(self).sym_byte_size <= old(self).stream_data@.len(),
        ensures
            final(self).stream_data@ == replaced_sym_data(
                old(self).stream_data@,
                old(self).sym_byte_size,
                new_sym_data@,
            ),
            final(self).sym_byte_size == new_sym_data@.len() as u32,
            final(self).c11_byte_size == old(self).c11_byte_size,
            final(self).c13_byte_size == old(self).c13_byte_size,
            final(self).global_refs_size == old(self).global_refs_size,
    {
        let sym = self.sym_byte_size as usize;
        let n = self.stream_data.len();
        let mut new_data: Vec<u8> = Vec::new();
        let mut i: usize = 0;
        while i < new_sym_data.len()
            invariant
                i <= new_sym_data@.len(),
                new_data@ == new_sym_data@.take(i as int),
            decreases new_sym_data@.len() - i,
        {
            new_data.push(new_sym_data[i]);
            i = i + 1;
            assert(new_data@ =~= new_sym_data@.take(i as int));
        }
        let mut j: usize = sym;
        while j < n
            invariant
                sym <= j <= n,
                n == self.stream_data@.len(),
                self.stream_data@ == old(self).stream_data@,
                sym == old(self).sym_byte_size,
                new_data@ == new_sym_data@ + self.stream_data@.subrange(sym as int, j as int),
            decreases n - j,
        {
            new_data.push(self.stream_data[j]);
            j = j + 1;
            assert(new_data@ =~= new_sym_data@ + self.stream_data@.subrange(sym as int, j as int));
        }
        assert(new_data@ =~= replaced_sym_data(old(self).stream_data@, old(self).sym_byte_size, new_sym_data@));
        self.stream_data = new_data;
        self.sym_byte_size = new_sym_data.len() as u32;
    }

    /// Remove the Global Refs section, if present.
    pub fn truncate_global_refs(&mut self)
        requires
            old(self).sym_byte_size + old(self).c11_byte_size + old(self).c13_byte_size <= usize::MAX,
        ensures
            old(self).global_refs_size == 0 ==> *final(self) == *old(self),
            old(self).global_refs_size != 0 ==> {
                &&& final(self).stream_data@ == truncated(
                    old(self).stream_data@,
                    old(self).sym_byte_size + old(self).c11_byte_size + old(self).c13_byte_size,
                )
                &&& final(self).global_refs_size == 0
                &&& final(self).sym_byte_size == old(self).sym_byte_size
                &&& final(self).c11_byte_size == old(self).c11_byte_size
                &&& final(self).c13_byte_size == old(self).c13_byte_size
            },
    {
        if self.global_refs_size == 0 {
            return;
        }
        let global_refs_offset = self.sym_byte_size as usize + self.c11_byte_size as usize
            + self.c13_byte_size as usize;
        self.stream_data.truncate(global_refs_offset);
        self.global_refs_size = 0;
    }
}

} // verus!

//! Decodes the Optional Debug Header Substream.
//!
//! This substream contains an array of stream indexes. The order of the array is significant;
//! each has a specific purpose. They are enumerated by the [`OptionalDebugHeaderStream`] type.

use crate::parser::{le_u16_at, read_u16_at};
use vstd::prelude::*;

verus! {

/// The stream index that stands for "no stream".
pub const NIL_STREAM_INDEX: u16 = 0xffff;

/// The stream indexes that the little-endian `u16` values of `s` hold, in order.
pub open spec fn u16_array(s: Seq<u8>) -> Seq<u16> {
    Seq::new((s.len() / 2) as nat, |i: int| le_u16_at(s, 2 * i) as u16)
}

/// The stream that the raw stream index `v` names: none where it is the NIL stream index.
pub open spec fn stream_of(v: u16) -> Option<u32> {
    if v == NIL_STREAM_INDEX {
        None
    } else {
        Some(v as u32)
    }
}

/// The Optional Debug Header has an odd size, so it does not hold whole stream indexes.
#[derive(Clone, Copy, Debug, PartialEq, Eq, Structural)]
pub struct OptionalDebugHeaderSizeError {
    /// The size in bytes of the substream.
    pub size: usize,
}

/// Provides access to the Optional Debug Header.
pub struct OptionalDebugHeader {
    /// Raw access to the stream indexes
    pub stream_indexes: Vec<u16>,
}

impl OptionalDebugHeader {
    /// Parses the Optional Debug Header Substream.
    pub fn parse(bytes: &[u8]) -> (r: Result<Self, OptionalDebugHeaderSizeError>)
        ensures
            bytes@.len() % 2 == 0 <==> r is Ok,
            r matches Ok(h) ==> h.stream_indexes@ == u16_array(bytes@),
            r matches Err(e) ==> e.size == bytes@.len(),
    {
        let n = bytes.len();
        if n % 2 != 0 {
            return Err(OptionalDebugHeaderSizeError { size: n });
        }
        let mut stream_indexes: Vec<u16> = Vec::new();
        let mut i: usize = 0;
        while i < n / 2
            invariant
                n == bytes@.len(),
                i <= n / 2,
                stream_indexes@ =~= u16_array(bytes@).take(i as int),
            decreases n / 2 - i,
        {
            stream_indexes.push(read_u16_at(bytes, 2 * i));
            i = i + 1;
        }
        Ok(OptionalDebugHeader { stream_indexes })
    }

    /// Gets a stream index, given an index into the Optional Debug Header.
    pub fn stream_by_index(&self, i: usize) -> (r: Option<u32>)
        ensures
            i < self.stream_indexes@.len() ==> r == stream_of(self.stream_indexes@[i as int]),
            i >= self.stream_indexes@.len() ==> r is None,
    {
        if i < self.stream_indexes.len() {
            let v = self.stream_indexes[i];
            if v == NIL_STREAM_INDEX {
                None
            } else {
                Some(v as u32)
            }
        } else {
            None
        }
    }

    /// Gets a stream index, given an identifier for a stream within the Optional Debug Header.
    pub fn stream(&self, s: OptionalDebugHeaderStream) -> (r: Option<u32>)
        ensures
            s.spec_index() < self.stream_indexes@.len() ==> r == stream_of(
                self.stream_indexes@[s.spec_index() as int],
            ),
            s.spec_index() >= self.stream_indexes@.len() ==> r is None,
    {
        self.stream_by_index(s.index())
    }

    /// The number of stream indexes in the Optional Debug Header Substream.
    pub fn num_streams(&self) -> (n: usize)
        ensures
            n == self.stream_indexes@.len(),
    {
        self.stream_indexes.len()
    }

    /// Iterates the streams within the Optional Debug Header. The iterated values are
    /// `(i, stream)` where `i` is an index into the Optional Debug Header;
    /// `OptionalDebugHeaderStream::try_from(i)` names it.
    pub fn iter_streams(&self) -> (r: IterStreams<'_>)
        ensures
            r.stream_indexes@ == self.stream_indexes@,
            r.next == 0,
    {
        IterStreams { stream_indexes: self.stream_indexes.as_slice(), next: 0 }
    }
}

/// The `(index, stream)` pairs of the stream indexes of `s` that name a stream, from index
/// `start` on, in order.
pub open spec fn present_streams(s: Seq<u16>, start: int) -> Seq<(usize, u32)>
    decreases s.len() - start,
{
    if start < 0 || start >= s.len() {
        Seq::empty()
    } else if s[start] == NIL_STREAM_INDEX {
        present_streams(s, start + 1)
    } else {
        seq![(start as usize, s[start] as u32)] + present_streams(s, start + 1)
    }
}

/// The pairs `(i, stream)` for the indexes `i` in `0..n`, in order, that `stream_of` maps to a
/// stream: what `stream_by_index` gives for each index, kept where it is `Some`.
pub open spec fn streams_by_index(s: Seq<u16>, n: int) -> Seq<(usize, u32)>
    decreases n,
{
    if n <= 0 {
        Seq::empty()
    } else {
        let before = streams_by_index(s, n - 1);
        match stream_of(s[n - 1]) {
            Some(x) => before.push(((n - 1) as usize, x)),
            None => before,
        }
    }
}

proof fn lemma_streams_by_index_prefix(s: Seq<u16>, n: int)
    requires
        0 <= n <= s.len(),
    ensures
        streams_by_index(s, n) + present_streams(s, n) == present_streams(s, 0),
    decreases n,
{
    if n > 0 {
        lemma_streams_by_index_prefix(s, n - 1);
        let before = streams_by_index(s, n - 1);
        if s[n - 1] == NIL_STREAM_INDEX {
            assert(present_streams(s, n - 1) == present_streams(s, n));
        } else {
            let head = ((n - 1) as usize, s[n - 1] as u32);
            assert(present_streams(s, n - 1) == seq![head] + present_streams(s, n));
            assert(before.push(head) + present_streams(s, n) =~= before + (seq![head]
                + present_streams(s, n)));
        }
    }
}

/// Iterating the streams of a header from the first index hands out exactly the pairs of
/// `streams_by_index` over all of its stream indexes: each present stream once, in index
/// order, NIL entries skipped. (`IterStreams::next` hands out the first pair of
/// `present_streams` and leaves the rest.)
pub proof fn lemma_iter_streams_collects_streams_by_index(s: Seq<u16>)
    ensures
        present_streams(s, 0) == streams_by_index(s, s.len() as int),
{
    lemma_streams_by_index_prefix(s, s.len() as int);
    assert(present_streams(s, s.len() as int) =~= Seq::<(usize, u32)>::empty());
    assert(streams_by_index(s, s.len() as int) + present_streams(s, s.len() as int)
        =~= streams_by_index(s, s.len() as int));
}

/// The present streams from index `start` on are exactly the entries that name a stream: each
/// once, in increasing index order, with the stream it names (what `stream_by_index` gives);
/// NIL entries are passed over. Iterating with `IterStreams::next` from `start` yields them in
/// this order.
pub proof fn lemma_present_streams(s: Seq<u16>, start: int)
    requires
        0 <= start <= s.len(),
        s.len() <= usize::MAX,
    ensures
        forall|k: int|
            0 <= k < present_streams(s, start).len() ==> {
                let e = #[trigger] present_streams(s, start)[k];
                &&& start <= e.0 < s.len()
                &&& stream_of(s[e.0 as int]) == Some(e.1)
            },
        forall|k1: int, k2: int|
            0 <= k1 < k2 < present_streams(s, start).len() ==> (#[trigger] present_streams(s, start)[k1]).0
                < (#[trigger] present_streams(s, start)[k2]).0,
        forall|j: int|
            start <= j < s.len() && s[j] != NIL_STREAM_INDEX ==> exists|k: int|
                0 <= k < present_streams(s, start).len() && (#[trigger] present_streams(s, start)[k]).0 == j
    decreases s.len() - start,
{
    if start < s.len() {
        lemma_present_streams(s, start + 1);
        let rest = present_streams(s, start + 1);
        if s[start] != NIL_STREAM_INDEX {
            let ps = present_streams(s, start);
            let head = (start as usize, s[start] as u32);
            assert(ps == seq![head] + rest);
            assert forall|k: int| 0 <= k < ps.len() implies {
                let e = #[trigger] ps[k];
                &&& start <= e.0 < s.len()
                &&& stream_of(s[e.0 as int]) == Some(e.1)
            } by {
                if k > 0 {
                    assert(ps[k] == rest[k - 1]);
                }
            }
            assert forall|k1: int, k2: int| 0 <= k1 < k2 < ps.len() implies (#[trigger] ps[k1]).0
                < (#[trigger] ps[k2]).0 by {
                assert(ps[k2] == rest[k2 - 1]);
                if k1 > 0 {
                    assert(ps[k1] == rest[k1 - 1]);
                }
            }
            assert forall|j: int| start <= j < s.len() && s[j] != NIL_STREAM_INDEX implies exists|k: int|
                0 <= k < ps.len() && (#[trigger] ps[k]).0 == j by {
                if j == start {
                    assert(ps[0].0 == j);
                } else {
                    let k = choose|k: int| 0 <= k < rest.len() && (#[trigger] rest[k]).0 == j;
                    assert(ps[k + 1] == rest[k]);
                }
            }
        } else {
            assert forall|j: int| start <= j < s.len() && s[j] != NIL_STREAM_INDEX implies exists|k: int|
                0 <= k < present_streams(s, start).len() && (#[trigger] present_streams(s, start)[k]).0 == j
                    by {
                assert(j > start);
            }
        }
    }
}

/// Iterates streams
pub struct IterStreams<'a> {
    /// The stream indexes that are iterated.
    pub stream_indexes: &'a [u16],
    /// The index of the next stream index to look at.
    pub next: usize,
}

impl<'a> IterStreams<'a> {
    /// Returns the next stream index that names a stream, with its index, and moves past it.
    /// Returns `None` once no such stream index is left.
    pub fn next(&mut self) -> (r: Option<(usize, u32)>)
        ensures
            final(self).stream_indexes@ == old(self).stream_indexes@,
            present_streams(old(self).stream_indexes@, old(self).next as int).len() == 0 ==> {
                &&& r is None
                &&& final(self).next >= old(self).stream_indexes@.len()
            },
            present_streams(old(self).stream_indexes@, old(self).next as int).len() > 0 ==> {
                &&& r == Some(present_streams(old(self).stream_indexes@, old(self).next as int)[0])
                &&& present_streams(old(self).stream_indexes@, final(self).next as int)
                    == present_streams(old(self).stream_indexes@, old(self).next as int).drop_first()
            },
    {
        let n = self.stream_indexes.len();
        let ghost s = self.stream_indexes@;
        let ghost start = self.next as int;
        while self.next < n
            invariant
                n == s.len(),
                self.stream_indexes@ == s,
                s == old(self).stream_indexes@,
                start == old(self).next,
                start <= self.next,
                present_streams(s, self.next as int) == present_streams(s, start),
            decreases n - self.next,
        {
            let i = self.next;
            let v = self.stream_indexes[i];
            self.next = self.next + 1;
            if v != NIL_STREAM_INDEX {
                assert(present_streams(s, i as int)[0] == (i, v as u32));
                assert(present_streams(s, i as int).drop_first() =~= present_streams(s, i + 1));
                return Some((i, v as u32));
            }
        }
        None
    }
}

/// Contains the list of Optional Debug Streams.
#[derive(Clone)]
pub struct OptionalDebugHeaders {
    /// Contains stream indices, indexed by OptionalDebugStreamIndex.
    pub streams: Vec<u16>,
}

impl OptionalDebugHeaders {
    /// The Optional Debug Streams that are present, in order, each with its stream index.
    pub fn iter(&self) -> (r: Vec<(OptionalDebugStream, u32)>)
        ensures
            r@.len() == present_streams(self.streams@, 0).len(),
            forall|k: int|
                0 <= k < r@.len() ==> {
                    &&& (#[trigger] r@[k]).0.0 == present_streams(self.streams@, 0)[k].0 as u32
                    &&& r@[k].1 == present_streams(self.streams@, 0)[k].1
                },
    {
        let mut out: Vec<(OptionalDebugStream, u32)> = Vec::new();
        let n = self.streams.len();
        let ghost s = self.streams@;
        let mut i: usize = 0;
        while i < n
            invariant
                n == s.len(),
                s == self.streams@,
                i <= n,
                out@.len() + present_streams(s, i as int).len() == present_streams(s, 0).len(),
                forall|k: int|
                    0 <= k < out@.len() ==> {
                        &&& (#[trigger] out@[k]).0.0 == present_streams(s, 0)[k].0 as u32
                        &&& out@[k].1 == present_streams(s, 0)[k].1
                    },
                present_streams(s, 0) =~= present_streams(s, 0).take(out@.len() as int)
                    + present_streams(s, i as int),
            decreases n - i,
        {
            let v = self.streams[i];
            if v != NIL_STREAM_INDEX {
                assert(present_streams(s, i as int) =~= seq![(i, v as u32)] + present_streams(
                    s,
                    i + 1,
                ));
                out.push((OptionalDebugStream(i as u32), v as u32));
                assert(present_streams(s, 0)[out@.len() - 1] == (i, v as u32));
                assert(present_streams(s, 0) =~= present_streams(s, 0).take(out@.len() as int)
                    + present_streams(s, i + 1));
            } else {
                assert(present_streams(s, i as int) =~= present_streams(s, i + 1));
            }
            i = i + 1;
        }
        out
    }
}

/// Identifies one of the Optional Debug Streams.
#[derive(Copy, Clone, Eq, PartialEq, Debug, Hash, Ord, PartialOrd, Structural)]
pub struct OptionalDebugStream(pub u32);

/// `FPO_DATA` stream.
pub const FPO_DATA: u32 = 0;
/// Exception data stream.
pub const EXCEPTION_DATA: u32 = 1;
/// Fixup data stream.
pub const FIXUP_DATA: u32 = 2;
/// OMAP to source stream.
pub const OMAP_TO_SRC_DATA: u32 = 3;
/// OMAP from source stream.
pub const OMAP_FROM_SRC_DATA: u32 = 4;
/// Section header data stream.
pub const SECTION_HEADER_DATA: u32 = 5;
/// Token to record id map stream.
pub const TOKEN_TO_RECORD_ID_MAP: u32 = 6;
/// Exception handler data stream.
pub const XDATA: u32 = 7;
/// Procedure data stream.
pub const PDATA: u32 = 8;
/// New `FPO_DATA` stream.
pub const NEW_FPO_DATA: u32 = 9;
/// Original section header data stream.
pub const ORIGINAL_SECTION_HEADER_DATA: u32 = 10;

/// The short name of the Optional Debug Header stream at index `i`, where there is one.
pub open spec fn stream_name(i: int) -> Option<Seq<char>> {
    if i == 0 {
        Some("fpo_data"@)
    } else if i == 1 {
        Some("exception_data"@)
    } else if i == 2 {
        Some("fixup_data"@)
    } else if i == 3 {
        Some("omap_to_src_data"@)
    } else if i == 4 {
        Some("omap_from_src_data"@)
    } else if i == 5 {
        Some("section_header_data"@)
    } else if i == 6 {
        Some("token_to_record_id_map"@)
    } else if i == 7 {
        Some("xdata"@)
    } else if i == 8 {
        Some("pdata"@)
    } else if i == 9 {
        Some("new_fpo_data"@)
    } else if i == 10 {
        Some("original_section_header_data"@)
    } else {
        None
    }
}

/// The short name (identifier) of the Optional Debug Header stream at index `i`, for each of
/// the names in `OptionalDebugHeaderStream`.
pub fn optional_debug_header_stream_name(i: usize) -> (r: Option<&'static str>)
    ensures
        match stream_name(i as int) {
            Some(n) => r matches Some(t) && t@ == n,
            None => r is None,
        },
{
    match i {
        0 => Some("fpo_data"),
        1 => Some("exception_data"),
        2 => Some("fixup_data"),
        3 => Some("omap_to_src_data"),
        4 => Some("omap_from_src_data"),
        5 => Some("section_header_data"),
        6 => Some("token_to_record_id_map"),
        7 => Some("xdata"),
        8 => Some("pdata"),
        9 => Some("new_fpo_data"),
        10 => Some("original_section_header_data"),
        _ => None,
    }
}

/// The description of the Optional Debug Header stream at index `i`, for each of the names in
/// `OptionalDebugHeaderStream`. None of them has a description.
pub fn optional_debug_header_stream_description(i: usize) -> (r: Option<&'static str>)
    ensures
        r is Some <==> i < 11,
        r matches Some(t) ==> t@ == ""@,
{
    if i < 11 {
        Some("")
    } else {
        None
    }
}

impl OptionalDebugStream {
    /// Returns the name of this optional debug stream.
    pub fn name(&self) -> (r: Option<&'static str>)
        ensures
            match stream_name(self.0 as int) {
                Some(n) => r matches Some(t) && t@ == n,
                None => r is None,
            },
    {
        if self.0 as u64 > usize::MAX as u64 {
            return None;
        }
        optional_debug_header_stream_name(self.0 as usize)
    }
}

/// Identifies the stream indexes stored in the Optional Debug Header.
#[derive(Copy, Clone, Eq, PartialEq, Debug, Structural)]
#[allow(non_camel_case_types)]
pub enum OptionalDebugHeaderStream {
    /// Stream contains an array of `FPO_DATA` structures. This contains the relocated contents of
    /// any `.debug$F` section from any of the linker inputs.
    fpo_data,
    /// Stream contains a debug data directory of type `IMAGE_DEBUG_TYPE_EXCEPTION`.
    exception_data,
    /// Stream contains a debug data directory of type `IMAGE_DEBUG_TYPE_FIXUP`.
    fixup_data,
    /// Stream contains a debug data directory of type `IMAGE_DEBUG_TYPE_OMAP_TO_SRC`.
    /// This is used for mapping addresses from instrumented code to uninstrumented code.
    omap_to_src_data,
    /// Stream contains a debug data directory of type `IMAGE_DEBUG_TYPE_OMAP_FROM_SRC`.
    /// This is used for mapping addresses from uninstrumented code to instrumented code.
    omap_from_src_data,
    /// A dump of all section headers from the original executable.
    section_header_data,
    /// Token to record id map.
    token_to_record_id_map,
    /// Exception handler data
    xdata,
    /// Procedure data
    pdata,
    /// New `FPO_DATA`.
    new_fpo_data,
    /// Original section header data.
    original_section_header_data,
}

impl OptionalDebugHeaderStream {
    /// The index of this stream within the Optional Debug Header.
    pub open spec fn spec_index(self) -> usize {
        match self {
            OptionalDebugHeaderStream::fpo_data => 0,
            OptionalDebugHeaderStream::exception_data => 1,
            OptionalDebugHeaderStream::fixup_data => 2,
            OptionalDebugHeaderStream::omap_to_src_data => 3,
            OptionalDebugHeaderStream::omap_from_src_data => 4,
            OptionalDebugHeaderStream::section_header_data => 5,
            OptionalDebugHeaderStream::token_to_record_id_map => 6,
            OptionalDebugHeaderStream::xdata => 7,
            OptionalDebugHeaderStream::pdata => 8,
            OptionalDebugHeaderStream::new_fpo_data => 9,
            OptionalDebugHeaderStream::original_section_header_data => 10,
        }
    }

    /// The index of this stream within the Optional Debug Header.
    pub fn index(self) -> (r: usize)
        ensures
            r == self.spec_index(),
    {
        match self {
            OptionalDebugHeaderStream::fpo_data => 0,
            OptionalDebugHeaderStream::exception_data => 1,
            OptionalDebugHeaderStream::fixup_data => 2,
            OptionalDebugHeaderStream::omap_to_src_data => 3,
            OptionalDebugHeaderStream::omap_from_src_data => 4,
            OptionalDebugHeaderStream::section_header_data => 5,
            OptionalDebugHeaderStream::token_to_record_id_map => 6,
            OptionalDebugHeaderStream::xdata => 7,
            OptionalDebugHeaderStream::pdata => 8,
            OptionalDebugHeaderStream::new_fpo_data => 9,
            OptionalDebugHeaderStream::original_section_header_data => 10,
        }
    }

    /// The stream at index `i` of the Optional Debug Header, where there is one.
    pub open spec fn spec_from_index(i: int) -> Option<OptionalDebugHeaderStream> {
        if i == 0 {
            Some(OptionalDebugHeaderStream::fpo_data)
        } else if i == 1 {
            Some(OptionalDebugHeaderStream::exception_data)
        } else if i == 2 {
            Some(OptionalDebugHeaderStream::fixup_data)
        } else if i == 3 {
            Some(OptionalDebugHeaderStream::omap_to_src_data)
        } else if i == 4 {
            Some(OptionalDebugHeaderStream::omap_from_src_data)
        } else if i == 5 {
            Some(OptionalDebugHeaderStream::section_header_data)
        } else if i == 6 {
            Some(OptionalDebugHeaderStream::token_to_record_id_map)
        } else if i == 7 {
            Some(OptionalDebugHeaderStream::xdata)
        } else if i == 8 {
            Some(OptionalDebugHeaderStream::pdata)
        } else if i == 9 {
            Some(OptionalDebugHeaderStream::new_fpo_data)
        } else if i == 10 {
            Some(OptionalDebugHeaderStream::original_section_header_data)
        } else {
            None
        }
    }
}

impl TryFrom<usize> for OptionalDebugHeaderStream {
    type Error = ();

    fn try_from(i: usize) -> (r: Result<Self, ()>) {
        match i {
            0 => Ok(OptionalDebugHeaderStream::fpo_data),
            1 => Ok(OptionalDebugHeaderStream::exception_data),
            2 => Ok(OptionalDebugHeaderStream::fixup_data),
            3 => Ok(OptionalDebugHeaderStream::omap_to_src_data),
            4 => Ok(OptionalDebugHeaderStream::omap_from_src_data),
            5 => Ok(OptionalDebugHeaderStream::section_header_data),
            6 => Ok(OptionalDebugHeaderStream::token_to_record_id_map),
            7 => Ok(OptionalDebugHeaderStream::xdata),
            8 => Ok(OptionalDebugHeaderStream::pdata),
            9 => Ok(OptionalDebugHeaderStream::new_fpo_data),
            10 => Ok(OptionalDebugHeaderStream::original_section_header_data),
            _ => Err(()),
        }
    }
}

impl vstd::std_specs::convert::TryFromSpecImpl<usize> for OptionalDebugHeaderStream {
    open spec fn obeys_try_from_spec() -> bool {
        true
    }

    open spec fn try_from_spec(i: usize) -> Result<Self, ()> {
        match OptionalDebugHeaderStream::spec_from_index(i as int) {
            Some(s) => Ok(s),
            None => Err(()),
        }
    }
}

/// Naming a stream by its index and taking the index of the stream named give back the index,
/// and every stream of the Optional Debug Header is named by its index.
pub proof fn lemma_stream_index_round_trip(s: OptionalDebugHeaderStream, i: int)
    ensures
        OptionalDebugHeaderStream::spec_from_index(s.spec_index() as int) == Some(s),
        OptionalDebugHeaderStream::spec_from_index(i) matches Some(t) ==> t.spec_index() == i,
        OptionalDebugHeaderStream::spec_from_index(i) is Some <==> 0 <= i < 11,
        stream_name(i) is Some <==> OptionalDebugHeaderStream::spec_from_index(i) is Some,
{
}

/// Each stream of the Optional Debug Header is looked up at the index that the format gives
/// it: the value of its constant (`FPO_DATA` = 0 through `ORIGINAL_SECTION_HEADER_DATA` = 10),
/// whose short name is the stream's own name. So `OptionalDebugHeader::stream` reads, for each
/// stream, the entry of the header that the format assigns to it.
pub proof fn lemma_stream_indexes_follow_the_format()
    ensures
        OptionalDebugHeaderStream::fpo_data.spec_index() == FPO_DATA,
        OptionalDebugHeaderStream::exception_data.spec_index() == EXCEPTION_DATA,
        OptionalDebugHeaderStream::fixup_data.spec_index() == FIXUP_DATA,
        OptionalDebugHeaderStream::omap_to_src_data.spec_index() == OMAP_TO_SRC_DATA,
        OptionalDebugHeaderStream::omap_from_src_data.spec_index() == OMAP_FROM_SRC_DATA,
        OptionalDebugHeaderStream::section_header_data.spec_index() == SECTION_HEADER_DATA,
        OptionalDebugHeaderStream::token_to_record_id_map.spec_index() == TOKEN_TO_RECORD_ID_MAP,
        OptionalDebugHeaderStream::xdata.spec_index() == XDATA,
        OptionalDebugHeaderStream::pdata.spec_index() == PDATA,
        OptionalDebugHeaderStream::new_fpo_data.spec_index() == NEW_FPO_DATA,
        OptionalDebugHeaderStream::original_section_header_data.spec_index() == ORIGINAL_SECTION_HEADER_DATA,
        stream_name(OptionalDebugHeaderStream::fpo_data.spec_index() as int) == Some("fpo_data"@),
        stream_name(OptionalDebugHeaderStream::exception_data.spec_index() as int) == Some("exception_data"@),
        stream_name(OptionalDebugHeaderStream::fixup_data.spec_index() as int) == Some("fixup_data"@),
        stream_name(OptionalDebugHeaderStream::omap_to_src_data.spec_index() as int) == Some("omap_to_src_data"@),
        stream_name(OptionalDebugHeaderStream::omap_from_src_data.spec_index() as int) == Some("omap_from_src_data"@),
        stream_name(OptionalDebugHeaderStream::section_header_data.spec_index() as int) == Some("section_header_data"@),
        stream_name(OptionalDebugHeaderStream::token_to_record_id_map.spec_index() as int) == Some("token_to_record_id_map"@),
        stream_name(OptionalDebugHeaderStream::xdata.spec_index() as int) == Some("xdata"@),
        stream_name(OptionalDebugHeaderStream::pdata.spec_index() as int) == Some("pdata"@),
        stream_name(OptionalDebugHeaderStream::new_fpo_data.spec_index() as int) == Some("new_fpo_data"@),
        stream_name(OptionalDebugHeaderStream::original_section_header_data.spec_index() as int) == Some("original_section_header_data"@),
{
    reveal_strlit("fpo_data");
    reveal_strlit("exception_data");
    reveal_strlit("fixup_data");
    reveal_strlit("omap_to_src_data");
    reveal_strlit("omap_from_src_data");
    reveal_strlit("section_header_data");
    reveal_strlit("token_to_record_id_map");
    reveal_strlit("xdata");
    reveal_strlit("pdata");
    reveal_strlit("new_fpo_data");
    reveal_strlit("original_section_header_data");
}

/// The stream indexes of an Optional Debug Header are the little-endian `u16` values of its
/// bytes, two bytes at a time from the start: one for each whole pair of bytes, entry `i`
/// made of bytes `2 * i` (low) and `2 * i + 1` (high).
pub proof fn lemma_u16_array_pairs(s: Seq<u8>, i: int)
    requires
        0 <= i < s.len() / 2,
    ensures
        u16_array(s).len() == s.len() / 2,
        u16_array(s)[i] as int == s[2 * i] + 0x100 * s[2 * i + 1],
{
}

} // verus!

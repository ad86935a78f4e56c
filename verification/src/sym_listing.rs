//! Chooses what a listing of symbol records shows: which records of a symbol stream, and which
//! modules of a program; and the options of the listings of symbols and types.

use crate::section_listing::{lemma_located_step, located_records};
use crate::syms::SymIter;
use vstd::prelude::*;

verus! {

/// Displays module symbols, for all modules or for a specific module.
#[derive(Clone, Copy, Debug, PartialEq, Eq, Structural, Default)]
pub struct DumpModuleSymbols {
    /// The module to dump
    pub module_index: Option<u32>,
    /// Skip this many symbol records before beginning the dump.
    pub skip: Option<usize>,
    /// Stop after this many symbol records have been displayed.
    pub max: Option<usize>,
    /// Dump the hex bytes of each symbol record.
    pub bytes: bool,
    /// Show the contents of the Global Refs section.
    pub global_refs: bool,
}

/// The options of a listing of a type stream.
#[derive(Clone, Copy, Debug, PartialEq, Eq, Structural, Default)]
pub struct DumpTypeStreamOptions {
    /// Skip this many type records before beginning the dump.
    pub skip: Option<usize>,
    /// Stop after this many records have been dumped.
    pub max: Option<usize>,
    /// Show a hex dump of each type record.
    pub show_bytes: bool,
    /// Show the value of `TypeIndex` references.
    pub show_type_indexes: bool,
}

/// A symbol record chosen for a listing.
#[derive(Clone, Copy, Debug, PartialEq, Eq, Structural)]
pub struct ListedRecord {
    /// The offset of the record that the listing shows: its position in the stream.
    pub offset: u32,
    /// The first byte of the record (its length field) within the buffer that was walked.
    pub start: usize,
    /// The end of the record within the buffer that was walked.
    pub end: usize,
    /// The kind of the record.
    pub kind: u16,
}

/// The number of records that a listing with the limit `max` shows, of `n` records: all of
/// them without a limit; otherwise `max` of them, or all where there are fewer.
pub open spec fn listed_count(n: int, max: Option<usize>) -> int {
    match max {
        None => n,
        Some(m) => if n < m {
            n
        } else {
            m as int
        },
    }
}

/// The record that the located record `r` of a buffer is in a listing of a stream whose
/// buffer begins at `stream_offset`.
pub open spec fn listed(r: (int, u16, Seq<u8>), stream_offset: u32) -> ListedRecord {
    ListedRecord {
        offset: vstd::wrapping::u32_specs::wrapping_add(stream_offset, r.0 as u32),
        start: r.0 as usize,
        end: (r.0 + 4 + r.2.len()) as usize,
        kind: r.1,
    }
}

/// The records of `records` that a listing shows that passes over the first `skip` records and
/// stops after `max` records.
pub open spec fn listed_records(
    records: Seq<u8>,
    skip: Option<usize>,
    max: Option<usize>,
    stream_offset: u32,
) -> Seq<ListedRecord> {
    let all = located_records(records, 0);
    let k = match skip {
        None => 0,
        Some(s) => if s < all.len() { s as int } else { all.len() as int },
    };
    let rest = all.skip(k);
    rest.take(listed_count(rest.len() as int, max)).map_values(
        |r: (int, u16, Seq<u8>)| listed(r, stream_offset),
    )
}

proof fn lemma_located_offsets(s: Seq<u8>, base: int)
    ensures
        forall|i: int|
            0 <= i < located_records(s, base).len() ==> {
                let r = #[trigger] located_records(s, base)[i];
                &&& base <= r.0
                &&& r.0 + 4 + r.2.len() <= base + s.len()
            },
    decreases s.len(),
{
    match crate::syms::first_record(s) {
        Some((kind, data, n)) => {
            if 0 < n <= s.len() {
                lemma_located_offsets(s.skip(n), base + n);
                let rest = located_records(s.skip(n), base + n);
                assert forall|i: int|
                    0 <= i < located_records(s, base).len() implies {
                    let r = #[trigger] located_records(s, base)[i];
                    &&& base <= r.0
                    &&& r.0 + 4 + r.2.len() <= base + s.len()
                } by {
                    if i > 0 {
                        assert(located_records(s, base)[i] == rest[i - 1]);
                    }
                }
            }
        },
        None => {},
    }
}

/// The records that a listing of the symbol records `symbol_records` shows: it passes over the
/// first `skip` records, then shows records until `max` of them are shown. The offset of each
/// is its position in the buffer, plus `stream_offset` (with wrap-around).
pub fn list_records(
    symbol_records: &[u8],
    skip: Option<usize>,
    max: Option<usize>,
    stream_offset: u32,
) -> (r: Vec<ListedRecord>)
    ensures
        r@ == listed_records(symbol_records@, skip, max, stream_offset),
{
    let total = symbol_records.len();
    let mut iter = SymIter::new(symbol_records);
    let ghost all = located_records(symbol_records@, 0);
    proof {
        lemma_located_offsets(symbol_records@, 0);
    }
    let mut skipped: usize = 0;
    match skip {
        Some(s) => {
            while skipped < s
                invariant_except_break
                    total == symbol_records@.len(),
                    skipped <= s,
                    iter.data@.len() <= total,
                    skipped <= all.len(),
                    skipped <= total - iter.data@.len(),
                    all == located_records(symbol_records@, 0),
                    located_records(iter.data@, total - iter.data@.len()) == all.skip(skipped as int),
                ensures
                    skipped <= total - iter.data@.len(),
                    total == symbol_records@.len(),
                    iter.data@.len() <= total,
                    skipped == if s < all.len() { s as int } else { all.len() as int },
                    located_records(iter.data@, total - iter.data@.len()) == all.skip(skipped as int),
                decreases s - skipped,
            {
                let ghost before = iter.data@;
                match iter.next() {
                    Some(_) => {
                        proof {
                            let base = total - before.len();
                            let (kind, data, n) = crate::syms::first_record(before).unwrap();
                            lemma_located_step(before, base);
                            let tail = located_records(iter.data@, total - iter.data@.len());
                            assert(all.skip(skipped as int) == seq![(base, kind, data)] + tail);
                            assert(all.skip(skipped + 1) =~= all.skip(skipped as int).drop_first());
                            assert((seq![(base, kind, data)] + tail).drop_first() =~= tail);
                        }
                        skipped = skipped + 1;
                    },
                    None => {
                        assert(all.skip(skipped as int) =~= Seq::empty());
                        break;
                    },
                }
            }
        },
        None => {
            assert(all.skip(0) =~= all);
        },
    }
    let ghost rest = all.skip(skipped as int);
    let ghost want = listed_count(rest.len() as int, max);
    let mut out: Vec<ListedRecord> = Vec::new();
    if let Some(0) = max {
        assert(rest.take(0).map_values(|r: (int, u16, Seq<u8>)| listed(r, stream_offset))
            =~= Seq::<ListedRecord>::empty());
        return out;
    }
    let mut num_found: usize = 0;
    loop
        invariant_except_break
            total == symbol_records@.len(),
            iter.data@.len() <= total,
            rest == all.skip(skipped as int),
            want == listed_count(rest.len() as int, max),
            num_found == out@.len(),
            num_found <= rest.len(),
            skipped <= all.len(),
            skipped + num_found <= total - iter.data@.len(),
            all == located_records(symbol_records@, 0),
            num_found <= want,
            num_found == want ==> num_found == rest.len(),
            located_records(iter.data@, total - iter.data@.len()) == rest.skip(num_found as int),
            out@ == rest.take(num_found as int).map_values(
                |r: (int, u16, Seq<u8>)| listed(r, stream_offset),
            ),
            forall|i: int|
                0 <= i < all.len() ==> {
                    let r = #[trigger] all[i];
                    &&& 0 <= r.0
                    &&& r.0 + 4 + r.2.len() <= total
                },
        ensures
            out@ == rest.take(want).map_values(|r: (int, u16, Seq<u8>)| listed(r, stream_offset)),
        decreases iter.data@.len(),
    {
        let ghost before = iter.data@;
        let pos: usize = total - iter.data.len();
        match iter.next() {
            Some(sym) => {
                let ghost (kind, data, n) = crate::syms::first_record(before).unwrap();
                proof {
                    lemma_located_step(before, pos as int);
                    let tail = located_records(iter.data@, total - iter.data@.len());
                    assert(rest.skip(num_found as int) == seq![(pos as int, kind, data)] + tail);
                    assert(rest.skip(num_found as int)[0] == rest[num_found as int]);
                    assert(rest[num_found as int] == (pos as int, kind, data));
                    assert(rest.skip(num_found + 1) =~= rest.skip(num_found as int).drop_first());
                    assert((seq![(pos as int, kind, data)] + tail).drop_first() =~= tail);
                    assert(all[skipped + num_found] == rest[num_found as int]);
                }
                let end: usize = pos + 4 + sym.data.len();
                out.push(
                    ListedRecord {
                        offset: stream_offset.wrapping_add(pos as u32),
                        start: pos,
                        end,
                        kind: sym.kind.0,
                    },
                );
                num_found = num_found + 1;
                proof {
                    assert(out@ =~= rest.take(num_found as int).map_values(
                        |r: (int, u16, Seq<u8>)| listed(r, stream_offset),
                    ));
                }
                match max {
                    Some(m) => {
                        if num_found >= m {
                            break;
                        }
                    },
                    None => {},
                }
            },
            None => {
                assert(rest.skip(num_found as int) =~= Seq::empty());
                break;
            },
        }
    }
    out
}

/// The module index is not that of any module.
#[derive(Clone, Copy, Debug, PartialEq, Eq, Structural)]
pub struct ModuleNotFound(pub u32);

/// The modules, by index, that a listing of module symbols shows, of `num_modules`: all of
/// them, or only the wanted one. A wanted module that does not exist is an error.
pub fn select_modules(num_modules: usize, wanted: Option<u32>) -> (r: Result<Vec<usize>, ModuleNotFound>)
    ensures
        match wanted {
            None => r matches Ok(v) && v@.len() == num_modules && forall|i: int|
                0 <= i < num_modules ==> v@[i] == i,
            Some(w) => if (w as usize) < num_modules {
                r matches Ok(v) && v@ == seq![w as usize]
            } else {
                r == Err::<Vec<usize>, ModuleNotFound>(ModuleNotFound(w))
            },
        },
{
    match wanted {
        Some(w) => {
            let wi = w as usize;
            if wi < num_modules {
                let mut v: Vec<usize> = Vec::new();
                v.push(wi);
                assert(v@ =~= seq![wi]);
                Ok(v)
            } else {
                Err(ModuleNotFound(w))
            }
        },
        None => {
            let mut v: Vec<usize> = Vec::new();
            let mut i: usize = 0;
            while i < num_modules
                invariant
                    i <= num_modules,
                    v@.len() == i,
                    forall|k: int| 0 <= k < i ==> v@[k] == k,
                decreases num_modules - i,
            {
                v.push(i);
                i = i + 1;
            }
            Ok(v)
        },
    }
}

} // verus!

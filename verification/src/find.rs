//! Searches: the query of a search of the section contributions, and the search of a symbol
//! stream for the records whose names a regular expression matches.

use crate::parser::ParserError;
use crate::section_listing::{lemma_located_step, located_records};
use crate::sym_listing::{listed, ListedRecord};
use crate::syms::{lemma_record_name, record_name, sym_parses, SymData, SymIter};
use vstd::prelude::*;
use vstd::string::StringSliceAdditionalSpecFns;

verus! {

/// Searches the DBI Section Contributions table.
#[derive(Clone, Debug, Default)]
pub struct FindOptions {
    /// The PDB to search.
    pub pdb: String,
    /// COFF section index to search
    pub section: u16,
    /// The symbol name or contribution offset to search.
    pub name: String,
}

/// Searches the TPI Stream for a given type.
#[derive(Clone, Debug, Default)]
pub struct FindNameOptions {
    /// The PDB to search.
    pub pdb: String,
    /// The type name to search for.
    pub name: String,
    /// Indicates that `name` is a regex.
    pub regex: bool,
}

/// What a search of the section contributions looks for.
#[derive(Clone, Copy, Debug, PartialEq, Eq, Structural)]
pub enum FindQuery {
    /// The contribution that contains this offset.
    Address(u32),
    /// A symbol name.
    Name,
}

/// The text after `0x` is not a hexadecimal `u32`.
#[derive(Clone, Copy, Debug, PartialEq, Eq, Structural)]
pub struct InvalidAddress;

/// The value of the hexadecimal digit `c` (either case), if it is one.
pub open spec fn hex_digit_value(c: u8) -> Option<int> {
    if 48 <= c <= 57 {
        Some(c - 48)
    } else if 97 <= c <= 102 {
        Some(c - 87)
    } else if 65 <= c <= 70 {
        Some(c - 55)
    } else {
        None
    }
}

/// The value of the hexadecimal digits `s`, most significant first, if they all are digits.
pub open spec fn hex_digits_value(s: Seq<u8>) -> Option<int>
    decreases s.len(),
{
    if s.len() == 0 {
        Some(0)
    } else {
        match (hex_digits_value(s.drop_last()), hex_digit_value(s.last())) {
            (Some(a), Some(d)) => Some(16 * a + d),
            _ => None,
        }
    }
}

/// The `u32` that the text `s` gives in base 16: an optional `+`, then at least one
/// hexadecimal digit, with a value that fits.
pub open spec fn hex_u32(s: Seq<u8>) -> Option<u32> {
    let digits = if s.len() > 1 && s[0] == 43 {
        s.drop_first()
    } else {
        s
    };
    if s.len() == 0 {
        None
    } else {
        match hex_digits_value(digits) {
            Some(v) => if v <= u32::MAX {
                Some(v as u32)
            } else {
                None
            },
            None => None,
        }
    }
}

proof fn lemma_hex_digits_nonneg(s: Seq<u8>)
    ensures
        hex_digits_value(s) matches Some(v) ==> v >= 0,
    decreases s.len(),
{
    if s.len() > 0 {
        lemma_hex_digits_nonneg(s.drop_last());
    }
}

/// Reads the text `s` as a `u32` in base 16, as `u32::from_str_radix(s, 16)` does.
pub fn parse_hex_u32(s: &[u8]) -> (r: Option<u32>)
    ensures
        r == hex_u32(s@),
{
    let n = s.len();
    if n == 0 {
        return None;
    }
    let start: usize = if n > 1 && s[0] == 43 {
        1
    } else {
        0
    };
    let ghost digits = if n > 1 && s@[0] == 43 {
        s@.drop_first()
    } else {
        s@
    };
    assert(digits =~= s@.skip(start as int));
    let mut acc: u64 = 0;
    let mut i: usize = start;
    assert(s@.subrange(start as int, start as int) =~= Seq::<u8>::empty());
    assert(s@.subrange(start as int, n as int) =~= digits);
    while i < n
        invariant
            n == s@.len(),
            hex_u32(s@) == match hex_digits_value(s@.subrange(start as int, n as int)) {
                Some(v) => if v <= u32::MAX {
                    Some(v as u32)
                } else {
                    None
                },
                None => None,
            },
            start <= i <= n,
            hex_digits_value(s@.subrange(start as int, i as int)) is Some,
            hex_digits_value(s@.subrange(start as int, i as int)) matches Some(v) && (if v
                < 0x1_0000_0000 {
                acc == v
            } else {
                acc == 0x1_0000_0000
            }),
        decreases n - i,
    {
        let c = s[i];
        let d: u64 = if 48 <= c && c <= 57 {
            (c - 48) as u64
        } else if 97 <= c && c <= 102 {
            (c - 87) as u64
        } else if 65 <= c && c <= 70 {
            (c - 55) as u64
        } else {
            proof {
                let p = s@.subrange(start as int, i + 1);
                assert(p.drop_last() =~= s@.subrange(start as int, i as int));
                assert(p.last() == c);
                lemma_no_value_extends(s@, start as int, i + 1, n as int);
            }
            return None;
        };
        let ghost p = s@.subrange(start as int, i + 1);
        assert(p.drop_last() =~= s@.subrange(start as int, i as int));
        assert(p.last() == c);
        proof {
            lemma_hex_digits_nonneg(s@.subrange(start as int, i as int));
        }
        let next: u64 = acc * 16 + d;
        acc = if next > 0x1_0000_0000 {
            0x1_0000_0000
        } else {
            next
        };
        i = i + 1;
    }
    assert(s@.subrange(start as int, n as int) =~= digits);
    if acc > 0xffff_ffff {
        None
    } else {
        Some(acc as u32)
    }
}

proof fn lemma_no_value_extends(s: Seq<u8>, start: int, i: int, n: int)
    requires
        0 <= start <= i <= n == s.len(),
        hex_digits_value(s.subrange(start, i)) is None,
    ensures
        hex_digits_value(s.subrange(start, n)) is None,
    decreases n - i,
{
    if i < n {
        let p = s.subrange(start, i + 1);
        assert(p.drop_last() =~= s.subrange(start, i));
        lemma_no_value_extends(s, start, i + 1, n);
    }
}

/// What the search of the section contributions looks for, as `name` asks: the offset that
/// follows a `0x` prefix, read in base 16, or else a name.
pub fn parse_find_query(name: &str) -> (r: Result<FindQuery, InvalidAddress>)
    ensures
        ({
            let b = name.spec_bytes();
            if b.len() >= 2 && b[0] == 48 && b[1] == 120 {
                match hex_u32(b.skip(2)) {
                    Some(v) => r == Ok::<FindQuery, InvalidAddress>(FindQuery::Address(v)),
                    None => r == Err::<FindQuery, InvalidAddress>(InvalidAddress),
                }
            } else {
                r == Ok::<FindQuery, InvalidAddress>(FindQuery::Name)
            }
        }),
{
    let b = name.as_bytes();
    if b.len() >= 2 && b[0] == 48 && b[1] == 120 {
        let (_, hex) = b.split_at(2);
        assert(hex@ =~= b@.skip(2));
        match parse_hex_u32(hex) {
            Some(v) => Ok(FindQuery::Address(v)),
            None => Err(InvalidAddress),
        }
    } else {
        Ok(FindQuery::Name)
    }
}

#[verifier::external_type_specification]
#[verifier::external_body]
pub struct ExRegex(regex::bytes::Regex);

#[verifier::external_type_specification]
#[verifier::external_body]
pub struct ExRegexError(regex::Error);

/// Whether `regex::bytes::Regex::new` accepts the pattern `pattern`: the pattern is valid and
/// its compiled form keeps within the default size limit.
pub uninterp spec fn regex_compiles(pattern: Seq<char>) -> bool;

/// Whether the regular expression compiled from `pattern` matches somewhere in `haystack`.
pub uninterp spec fn regex_matches(pattern: Seq<char>, haystack: Seq<u8>) -> bool;

/// A compiled regular expression over bytes, with the pattern it was compiled from.
pub struct NameRegex {
    pattern: String,
    rx: regex::bytes::Regex,
}

impl View for NameRegex {
    type V = Seq<char>;

    /// The pattern of this regular expression.
    closed spec fn view(&self) -> Seq<char> {
        self.pattern@
    }
}

/// Compiles `pattern` with `regex::bytes::Regex::new`, keeping the pattern beside the compiled
/// expression. The contract claims that `new` succeeds exactly on the patterns that
/// `regex_compiles` names, which depends on the pattern alone.
#[verifier::external_body]
fn compile_regex(pattern: &str) -> (r: Result<NameRegex, regex::Error>)
    ensures
        r is Ok <==> regex_compiles(pattern@),
        r matches Ok(x) ==> x@ == pattern@,
{
    match regex::bytes::Regex::new(pattern) {
        Ok(rx) => Ok(NameRegex { pattern: pattern.to_string(), rx }),
        Err(e) => Err(e),
    }
}

/// Tests `haystack` with `regex::bytes::Regex::is_match`. The contract claims that the result
/// is `regex_matches` of the pattern the expression was compiled from and the haystack.
#[verifier::external_body]
fn regex_is_match(rx: &NameRegex, haystack: &[u8]) -> (r: bool)
    ensures
        r == regex_matches(rx@, haystack@),
{
    rx.rx.is_match(haystack)
}

/// Gives the description of a `regex::Error` (its `Display` text, `to_string`). Nothing is
/// claimed of the text.
#[verifier::external_body]
fn regex_error_description(e: &regex::Error) -> (r: String) {
    e.to_string()
}

/// The pattern is not a regular expression that can be compiled. Holds the description of the
/// error that `regex` gives.
#[derive(Clone, Debug)]
pub struct InvalidRegex(pub String);

impl NameRegex {
    /// Compiles the regular expression `pattern`. Where it cannot be compiled, the error holds
    /// the description that `regex` gives of the problem.
    pub fn new(pattern: &str) -> (r: Result<NameRegex, InvalidRegex>)
        ensures
            r is Ok <==> regex_compiles(pattern@),
            r matches Ok(x) ==> x@ == pattern@,
    {
        match compile_regex(pattern) {
            Ok(x) => Ok(x),
            Err(e) => Err(InvalidRegex(regex_error_description(&e))),
        }
    }

    /// Whether this regular expression matches somewhere in `name`.
    pub fn is_match(&self, name: &[u8]) -> (r: bool)
        ensures
            r == regex_matches(self@, name@),
    {
        regex_is_match(self, name)
    }
}

/// The records of `recs` whose names the regular expression of `pattern` matches, in order,
/// up to the first record that does not decode; and whether there is such a record.
pub open spec fn names_found(recs: Seq<(int, u16, Seq<u8>)>, pattern: Seq<char>) -> (
    Seq<ListedRecord>,
    bool,
)
    decreases recs.len(),
{
    if recs.len() == 0 {
        (Seq::empty(), false)
    } else {
        let r = recs[0];
        if !sym_parses(r.1, r.2) {
            (Seq::empty(), true)
        } else {
            let (rest, failed) = names_found(recs.drop_first(), pattern);
            match record_name(r.1, r.2) {
                Some(n) => if regex_matches(pattern, n) {
                    (seq![listed(r, 0)] + rest, failed)
                } else {
                    (rest, failed)
                },
                None => (rest, failed),
            }
        }
    }
}

/// The records of `recs` that have a name, in order, each with its name, up to the first
/// record that does not decode; and whether there is such a record.
pub open spec fn named_in(recs: Seq<(int, u16, Seq<u8>)>) -> (Seq<(ListedRecord, Seq<u8>)>, bool)
    decreases recs.len(),
{
    if recs.len() == 0 {
        (Seq::empty(), false)
    } else {
        let r = recs[0];
        if !sym_parses(r.1, r.2) {
            (Seq::empty(), true)
        } else {
            let (rest, failed) = named_in(recs.drop_first());
            match record_name(r.1, r.2) {
                Some(n) => (seq![(listed(r, 0), n)] + rest, failed),
                None => (rest, failed),
            }
        }
    }
}

/// The records of `named` whose entry of `matched` is true, in order.
pub open spec fn kept(named: Seq<(ListedRecord, Seq<u8>)>, matched: Seq<bool>) -> Seq<ListedRecord>
    decreases named.len(),
{
    if named.len() == 0 {
        Seq::empty()
    } else {
        let rest = kept(named.drop_first(), matched.drop_first());
        if matched[0] {
            seq![named[0].0] + rest
        } else {
            rest
        }
    }
}

/// Whether the regular expression of `pattern` matches each of the names of `named`.
pub open spec fn name_matches(named: Seq<(ListedRecord, Seq<u8>)>, pattern: Seq<char>) -> Seq<bool> {
    named.map_values(|x: (ListedRecord, Seq<u8>)| regex_matches(pattern, x.1))
}

/// The search by name is the named records, kept where the pattern matches their names.
proof fn lemma_names_found_is_kept(recs: Seq<(int, u16, Seq<u8>)>, pattern: Seq<char>)
    ensures
        names_found(recs, pattern).0 == kept(named_in(recs).0, name_matches(named_in(recs).0, pattern)),
        names_found(recs, pattern).1 == named_in(recs).1,
    decreases recs.len(),
{
    if recs.len() > 0 {
        let r = recs[0];
        if sym_parses(r.1, r.2) {
            lemma_names_found_is_kept(recs.drop_first(), pattern);
            let rest = named_in(recs.drop_first()).0;
            if let Some(n) = record_name(r.1, r.2) {
                let all = seq![(listed(r, 0), n)] + rest;
                assert(all.drop_first() =~= rest);
                assert(name_matches(all, pattern).drop_first() =~= name_matches(rest, pattern));
            }
        }
    }
}

/// A symbol record that has a name, with its name.
#[derive(Clone, Copy, Debug)]
pub struct NamedRecord<'a> {
    /// The record.
    pub record: ListedRecord,
    /// Its name.
    pub name: &'a [u8],
}

/// The record and the name of each named record of `v`.
pub open spec fn named_views<'a>(v: Seq<NamedRecord<'a>>) -> Seq<(ListedRecord, Seq<u8>)> {
    v.map_values(|x: NamedRecord<'a>| (x.record, x.name@))
}

/// The records of the symbol records `symbol_records` that have a name, in order, each with
/// its name; and an error where a record that does not decode stopped the walk (the records
/// before it are kept).
pub fn named_records<'a>(symbol_records: &'a [u8]) -> (r: (Vec<NamedRecord<'a>>, Result<(), ParserError>))
    ensures
        named_views(r.0@) == named_in(located_records(symbol_records@, 0)).0,
        r.1 is Err <==> named_in(located_records(symbol_records@, 0)).1,
{
    let total = symbol_records.len();
    let mut iter = SymIter::new(symbol_records);
    let ghost all = located_records(symbol_records@, 0);
    let mut out: Vec<NamedRecord<'a>> = Vec::new();
    loop
        invariant
            total == symbol_records@.len(),
            iter.data@.len() <= total,
            all == located_records(symbol_records@, 0),
            ({
                let (found, failed) = named_in(all);
                let (rest, rest_failed) = named_in(
                    located_records(iter.data@, total - iter.data@.len()),
                );
                &&& found == named_views(out@) + rest
                &&& failed == rest_failed
            }),
        decreases iter.data@.len(),
    {
        let ghost before = iter.data@;
        let pos: usize = total - iter.data.len();
        match iter.next() {
            Some(sym) => {
                let ghost tail = located_records(iter.data@, total - iter.data@.len());
                let ghost x = (pos as int, sym.kind.0, sym.data@);
                proof {
                    lemma_located_step(before, pos as int);
                    assert(located_records(before, pos as int) == seq![x] + tail);
                    assert((seq![x] + tail).drop_first() =~= tail);
                    assert((seq![x] + tail)[0] == x);
                }
                match SymData::parse(sym.kind, sym.data) {
                    Err(e) => {
                        assert(named_views(out@) =~= named_views(out@) + Seq::<(ListedRecord, Seq<u8>)>::empty());
                        return (out, Err(e));
                    },
                    Ok(d) => {
                        proof {
                            lemma_record_name(sym.kind.0, sym.data@, d);
                        }
                        match d.name() {
                            Some(name) => {
                                let ghost old_out = out@;
                                let rec = ListedRecord {
                                    offset: pos as u32,
                                    start: pos,
                                    end: pos + 4 + sym.data.len(),
                                    kind: sym.kind.0,
                                };
                                out.push(NamedRecord { record: rec, name });
                                proof {
                                    let l = (listed(x, 0), name@);
                                    assert(named_views(out@) =~= named_views(old_out).push(l));
                                    assert(named_views(out@) + named_in(tail).0 =~= named_views(old_out)
                                        + (seq![l] + named_in(tail).0));
                                }
                            },
                            None => {},
                        }
                    },
                }
            },
            None => {
                assert(located_records(iter.data@, total - iter.data@.len()) =~= Seq::empty());
                assert(named_views(out@) =~= named_views(out@) + Seq::<(ListedRecord, Seq<u8>)>::empty());
                return (out, Ok(()));
            },
        }
    }
}

/// The records of `named` whose entry of `matched` is true, in order: what is left of a search
/// by name once it is known which names match.
pub fn keep_matched(named: &[NamedRecord], matched: &[bool]) -> (r: Vec<ListedRecord>)
    requires
        named@.len() == matched@.len(),
    ensures
        r@ == kept(named_views(named@), matched@),
{
    let mut out: Vec<ListedRecord> = Vec::new();
    let mut i: usize = named.len();
    let ghost nv = named_views(named@);
    while i > 0
        invariant
            i <= named@.len(),
            named@.len() == matched@.len(),
            nv == named_views(named@),
            out@ == kept(nv.skip(i as int), matched@.skip(i as int)),
        decreases i,
    {
        i = i - 1;
        let ghost s1 = nv.skip(i as int);
        let ghost m1 = matched@.skip(i as int);
        assert(s1.drop_first() =~= nv.skip(i + 1));
        assert(m1.drop_first() =~= matched@.skip(i + 1));
        assert(s1[0] == (named@[i as int].record, named@[i as int].name@));
        if matched[i] {
            let mut next: Vec<ListedRecord> = Vec::new();
            next.push(named[i].record);
            next.append(&mut out);
            out = next;
        }
    }
    assert(nv.skip(0) =~= nv);
    assert(matched@.skip(0) =~= matched@);
    out
}

/// Searches the symbol records `symbol_records` for those whose names `rx` matches. Gives the
/// records found, in order, and an error where a record that does not decode stopped the
/// search; the records found before it are kept.
pub fn find_names_matching(symbol_records: &[u8], rx: &NameRegex) -> (r: (
    Vec<ListedRecord>,
    Result<(), ParserError>,
))
    ensures
        r.0@ == names_found(located_records(symbol_records@, 0), rx@).0,
        r.1 is Err <==> names_found(located_records(symbol_records@, 0), rx@).1,
{
    let (named, status) = named_records(symbol_records);
    let ghost nv = named_views(named@);
    let mut matched: Vec<bool> = Vec::new();
    let mut i: usize = 0;
    while i < named.len()
        invariant
            i <= named@.len(),
            nv == named_views(named@),
            matched@.len() == i,
            forall|k: int| 0 <= k < i ==> matched@[k] == regex_matches(rx@, #[trigger] nv[k].1),
        decreases named@.len() - i,
    {
        let m = rx.is_match(named[i].name);
        matched.push(m);
        i = i + 1;
    }
    proof {
        lemma_names_found_is_kept(located_records(symbol_records@, 0), rx@);
        assert(matched@ =~= name_matches(nv, rx@));
    }
    (keep_matched(&named, &matched), status)
}

} // verus!

//! Lays out the listing of an image's sections: each section, the COFF groups within it, the
//! section contributions within each group (or section), and the module symbols that lie
//! within each contribution.
//!
//! The listing is computed here as a sequence of lines that refer to their inputs by index;
//! showing them as text is left to the caller.

use crate::coff_groups::{group_views, CoffGroup, CoffGroupView};
use crate::offset_segment::OffsetSegment;
use crate::section::IMAGE_SECTION_HEADER;
use crate::syms::{first_record, Data, DataFixed, Parse, Proc, ProcFixed, SymIter};
use crate::syms::{S_GDATA32, S_GPROC32, S_LDATA32, S_LPROC32};
use vstd::prelude::*;
use vstd::multiset::Multiset;

verus! {

/// A module symbol that has an address: a procedure or a data record of some module.
#[derive(Clone, Copy, Debug, PartialEq, Eq, Structural)]
pub struct ModuleSymEntry {
    /// The address of the symbol.
    pub off_seg: OffsetSegment,
    /// The index of the module whose symbol stream holds the record.
    pub module_index: u16,
    /// The byte offset of this symbol record within the module's symbol stream.
    /// This includes the 4-byte signature, i.e. if this is the very first record in the stream
    /// then `byte_offset == 4`.
    pub byte_offset: u32,
}

/// One record of the DBI Section Contributions table, as plain values.
#[derive(Clone, Copy, Debug, PartialEq, Eq, Structural)]
pub struct SectionContribution {
    /// The COFF section (1-based) that the contribution lies in.
    pub section: u16,
    /// The byte offset of the contribution within its section.
    pub offset: i32,
    /// The size in bytes of the contribution.
    pub size: i32,
    /// The characteristics of the contribution.
    pub characteristics: u32,
    /// The index of the module that contributed it.
    pub module_index: u16,
}

/// The contribution `c` lies in section `section` and its bytes hold the offset `offset`.
pub open spec fn contribution_holds(c: SectionContribution, section: u16, offset: i32) -> bool {
    c.section == section && c.offset <= offset && (offset as int) < c.offset + c.size
}

/// The index of the first contribution of `contribs` that lies in section `section` and holds
/// the byte offset `offset` of that section, if any does.
pub fn find_contribution(contribs: &[SectionContribution], section: u16, offset: i32) -> (r:
    Option<usize>)
    ensures
        match r {
            Some(i) => {
                &&& i < contribs@.len()
                &&& contribution_holds(contribs@[i as int], section, offset)
                &&& forall|j: int|
                    0 <= j < i ==> !contribution_holds(#[trigger] contribs@[j], section, offset)
            },
            None => forall|j: int|
                0 <= j < contribs@.len() ==> !contribution_holds(
                    #[trigger] contribs@[j],
                    section,
                    offset,
                ),
        },
{
    let mut i: usize = 0;
    while i < contribs.len()
        invariant
            i <= contribs@.len(),
            forall|j: int| 0 <= j < i ==> !contribution_holds(#[trigger] contribs@[j], section, offset),
        decreases contribs@.len() - i,
    {
        let c = contribs[i];
        let end: i64 = c.offset as i64 + c.size as i64;
        if c.section == section && c.offset <= offset && (offset as i64) < end {
            return Some(i);
        }
        i = i + 1;
    }
    None
}

/// The symbol records of `s`, in order, each with its byte offset: the offset of the first
/// record is `base`.
pub open spec fn located_records(s: Seq<u8>, base: int) -> Seq<(int, u16, Seq<u8>)>
    decreases s.len(),
{
    match first_record(s) {
        Some((kind, data, n)) => if 0 < n <= s.len() {
            seq![(base, kind, data)] + located_records(s.skip(n), base + n)
        } else {
            Seq::empty()
        },
        None => Seq::empty(),
    }
}

/// The entry that the record at byte offset `offset` of kind `kind` and payload `data` of module
/// `module_index` gives: procedures and data records that decode have one.
pub open spec fn sym_entry_of(module_index: u16, offset: int, kind: u16, data: Seq<u8>) -> Option<
    ModuleSymEntry,
> {
    if kind == S_GPROC32 || kind == S_LPROC32 {
        if <Proc<'static> as Parse<'static>>::parses(data) {
            Some(
                ModuleSymEntry {
                    off_seg: ProcFixed::spec_decode(data, 0).offset_segment,
                    module_index,
                    byte_offset: offset as u32,
                },
            )
        } else {
            None
        }
    } else if kind == S_GDATA32 || kind == S_LDATA32 {
        if <Data<'static> as Parse<'static>>::parses(data) {
            Some(
                ModuleSymEntry {
                    off_seg: DataFixed::spec_decode(data, 0).offset_segment,
                    module_index,
                    byte_offset: offset as u32,
                },
            )
        } else {
            None
        }
    } else {
        None
    }
}

/// The entries that the located records `rs` of module `module_index` give, in order.
pub open spec fn sym_entries_of(module_index: u16, rs: Seq<(int, u16, Seq<u8>)>) -> Seq<
    ModuleSymEntry,
>
    decreases rs.len(),
{
    if rs.len() == 0 {
        Seq::empty()
    } else {
        let r = rs[0];
        match sym_entry_of(module_index, r.0, r.1, r.2) {
            Some(e) => seq![e] + sym_entries_of(module_index, rs.drop_first()),
            None => sym_entries_of(module_index, rs.drop_first()),
        }
    }
}

/// The entries of the module symbol stream `syms` (with its 4-byte signature) of module
/// `module_index`.
pub open spec fn module_entries(module_index: u16, syms: Seq<u8>) -> Seq<ModuleSymEntry> {
    if syms.len() >= 4 {
        sym_entries_of(module_index, located_records(syms.skip(4), 4))
    } else {
        Seq::empty()
    }
}

/// The entries of the module symbol streams `all`, module by module; the module index is the
/// position of the stream, taken as a `u16`.
pub open spec fn all_module_entries(all: Seq<Seq<u8>>) -> Seq<ModuleSymEntry>
    decreases all.len(),
{
    if all.len() == 0 {
        Seq::empty()
    } else {
        all_module_entries(all.drop_last()) + module_entries(
            (all.len() - 1) as u16,
            all.last(),
        )
    }
}

/// The entries `es` are sorted by address (segment, then offset).
pub open spec fn sorted_by_address(es: Seq<ModuleSymEntry>) -> bool {
    forall|i: int, j: int|
        0 <= i < j < es.len() ==> (#[trigger] es[i]).off_seg.key() <= (#[trigger] es[j]).off_seg.key()
}

/// The located records of `s` are its first record, at `base`, then the located records of
/// what follows it.
pub proof fn lemma_located_step(s: Seq<u8>, base: int)
    requires
        first_record(s) is Some,
    ensures
        ({
            let (kind, data, n) = first_record(s).unwrap();
            located_records(s, base) == seq![(base, kind, data)] + located_records(
                s.skip(n),
                base + n,
            )
        }),
{
}

proof fn lemma_entries_step(module_index: u16, x: (int, u16, Seq<u8>), rest: Seq<(int, u16, Seq<u8>)>)
    ensures
        sym_entries_of(module_index, seq![x] + rest) == match sym_entry_of(
            module_index,
            x.0,
            x.1,
            x.2,
        ) {
            Some(e) => seq![e] + sym_entries_of(module_index, rest),
            None => sym_entries_of(module_index, rest),
        },
{
    assert((seq![x] + rest).drop_first() =~= rest);
    assert((seq![x] + rest)[0] == x);
}

/// The entries of the procedure and data records of one module symbol stream (with its
/// 4-byte signature), in record order. Records that do not decode are skipped.
pub fn module_sym_entries(module_index: u16, module_syms: &[u8]) -> (r: Vec<ModuleSymEntry>)
    ensures
        r@ == module_entries(module_index, module_syms@),
{
    let total = module_syms.len();
    let mut iter = SymIter::for_module_syms(module_syms);
    if total < 4 {
        return Vec::new();
    }
    let ghost all = located_records(iter.data@, 4);
    let mut out: Vec<ModuleSymEntry> = Vec::new();
    loop
        invariant
            total == module_syms@.len(),
            total >= 4,
            iter.data@.len() <= total - 4,
            out@ + sym_entries_of(
                module_index,
                located_records(iter.data@, total - iter.data@.len()),
            ) == sym_entries_of(module_index, all),
            all == located_records(module_syms@.skip(4), 4),
        ensures
            out@ == sym_entries_of(module_index, all),
        decreases iter.data@.len(),
    {
        let ghost before = iter.data@;
        let pos: usize = total - iter.data.len();
        match iter.next() {
            Some(sym) => {
                let ghost rest = located_records(iter.data@, total - iter.data@.len());
                proof {
                    lemma_located_step(before, pos as int);
                    lemma_entries_step(module_index, (pos as int, sym.kind.0, sym.data@), rest);
                }
                let kind = sym.kind.0;
                let ghost old_out = out@;
                if kind == S_GPROC32 || kind == S_LPROC32 {
                    match sym.parse_as::<Proc>() {
                        Ok(p) => {
                            out.push(
                                ModuleSymEntry {
                                    off_seg: p.fixed.offset_segment,
                                    module_index,
                                    byte_offset: pos as u32,
                                },
                            );
                        },
                        Err(_) => {},
                    }
                } else if kind == S_GDATA32 || kind == S_LDATA32 {
                    match sym.parse_as::<Data>() {
                        Ok(d) => {
                            out.push(
                                ModuleSymEntry {
                                    off_seg: d.header.offset_segment,
                                    module_index,
                                    byte_offset: pos as u32,
                                },
                            );
                        },
                        Err(_) => {},
                    }
                }
                proof {
                    if out@.len() > old_out.len() {
                        assert(out@ =~= old_out + seq![out@.last()]);
                        assert(out@ + sym_entries_of(module_index, rest) =~= old_out + (seq![
                            out@.last(),
                        ] + sym_entries_of(module_index, rest)));
                    }
                }
            },
            None => {
                assert(located_records(iter.data@, total - iter.data@.len()) =~= Seq::empty());
                assert(out@ =~= out@ + sym_entries_of(module_index, Seq::empty()));
                break;
            },
        }
    }
    out
}


/// The views of the byte buffers of `v`.
pub open spec fn buffer_views(v: Seq<Vec<u8>>) -> Seq<Seq<u8>> {
    v.map_values(|b: Vec<u8>| b@)
}

/// Sorts module symbol entries by address (segment, then offset).
fn sort_by_address(v: Vec<ModuleSymEntry>) -> (r: Vec<ModuleSymEntry>)
    ensures
        sorted_by_address(r@),
        r@.to_multiset() == v@.to_multiset(),
{
    broadcast use {
        vstd::seq_lib::group_to_multiset_ensures,
        vstd::multiset::group_multiset_axioms,
        vstd::multiset::lemma_multiset_empty_len,
    };

    let ghost orig = v@;
    let mut src = v;
    let mut res: Vec<ModuleSymEntry> = Vec::new();
    assert(res@.to_multiset() =~= Multiset::empty());
    while src.len() > 0
        invariant
            sorted_by_address(res@),
            res@.to_multiset().add(src@.to_multiset()) == orig.to_multiset(),
        decreases src.len(),
    {
        let ghost old_src = src@;
        let ghost old_res = res@;
        let e = match src.pop() {
            Some(e) => e,
            None => vstd::pervasive::unreached(),
        };
        assert(old_src =~= src@.push(e));
        let key = e.off_seg.as_u64();
        let mut pos: usize = 0;
        while pos < res.len() && res[pos].off_seg.as_u64() <= key
            invariant
                pos <= res@.len(),
                res@ == old_res,
                key == e.off_seg.key(),
                forall|i: int| 0 <= i < pos ==> (#[trigger] res@[i]).off_seg.key() <= key,
            decreases res@.len() - pos,
        {
            pos = pos + 1;
        }
        proof {
            if pos < res@.len() {
                assert(res@[pos as int].off_seg.key() > key);
            }
        }
        res.insert(pos, e);
        proof {
            assert(res@ =~= old_res.insert(pos as int, e));
            assert forall|i: int, j: int| 0 <= i < j < res@.len() implies (
            #[trigger] res@[i]).off_seg.key() <= (#[trigger] res@[j]).off_seg.key() by {
                if j < pos {
                    assert(res@[i] == old_res[i]);
                    assert(res@[j] == old_res[j]);
                } else if j == pos {
                    assert(res@[i] == old_res[i]);
                } else if i == pos {
                    assert(res@[j] == old_res[j - 1]);
                    if j - 1 > pos {
                        assert(old_res[pos as int].off_seg.key() <= old_res[j - 1].off_seg.key());
                    }
                } else if i < pos {
                    assert(res@[i] == old_res[i]);
                    assert(res@[j] == old_res[j - 1]);
                } else {
                    assert(res@[i] == old_res[i - 1]);
                    assert(res@[j] == old_res[j - 1]);
                }
            }
            vstd::seq_lib::to_multiset_build(src@, e);
            vstd::seq_lib::to_multiset_insert(old_res, pos as int, e);
            assert(old_src.to_multiset() == src@.to_multiset().insert(e));
            assert(res@.to_multiset() == old_res.to_multiset().insert(e));
            assert(res@.to_multiset().add(src@.to_multiset()) =~= old_res.to_multiset().add(
                old_src.to_multiset(),
            ));
        }
    }
    assert(src@.to_multiset() =~= Multiset::empty());
    assert(res@.to_multiset() =~= res@.to_multiset().add(src@.to_multiset()));
    res
}

/// The entries of the procedure and data records of all modules, sorted by address. The
/// module index of an entry is the position of its module's symbol stream in
/// `module_symbols`, taken as a `u16`.
pub fn index_module_symbols(module_symbols: &Vec<Vec<u8>>) -> (r: Vec<ModuleSymEntry>)
    ensures
        sorted_by_address(r@),
        r@.to_multiset() == all_module_entries(buffer_views(module_symbols@)).to_multiset(),
{
    let mut out: Vec<ModuleSymEntry> = Vec::new();
    let mut k: usize = 0;
    let ghost views = buffer_views(module_symbols@);
    assert(views.take(0) =~= Seq::empty());
    while k < module_symbols.len()
        invariant
            k <= module_symbols@.len(),
            views == buffer_views(module_symbols@),
            out@ == all_module_entries(views.take(k as int)),
        decreases module_symbols@.len() - k,
    {
        let mut es = module_sym_entries(k as u16, module_symbols[k].as_slice());
        proof {
            let t = views.take(k + 1);
            assert(t.drop_last() =~= views.take(k as int));
            assert(t.last() == module_symbols@[k as int]@);
        }
        out.append(&mut es);
        k = k + 1;
    }
    assert(views.take(k as int) =~= views);
    sort_by_address(out)
}


/// One line of the listing of sections. Each line refers to what it shows by its index in the
/// input that holds it.
#[derive(Clone, Copy, Debug, PartialEq, Eq, Structural)]
pub enum SectionsLine {
    /// Section header `index`, which is section number `section_num`.
    Section { index: usize, section_num: u16 },
    /// COFF group `index`, which begins at `rva`.
    Group { index: usize, rva: u32 },
    /// Section contribution `index`: it begins at `off_seg`, which is `rva`, is `size` bytes
    /// long and comes from module `module_index`.
    Contrib { index: usize, off_seg: OffsetSegment, rva: u32, size: u32, module_index: u16 },
    /// Module symbol `index` of the symbols indexed by address.
    Symbol { index: usize },
    /// The empty line that ends the COFF groups of a section.
    Blank,
}

/// The symbol lines of the contribution `[start, end)` of section `sec`, walking the symbols
/// `syms` (sorted by address) from position `si`: symbols of earlier sections, or before
/// `start`, are passed over; the walk stops at the first symbol of a later section or at or
/// after `end`. Gives the lines and the position where the walk stopped.
pub open spec fn sym_walk(syms: Seq<ModuleSymEntry>, si: int, sec: u16, start: u32, end: u32) -> (
    Seq<SectionsLine>,
    int,
)
    decreases syms.len() - si,
{
    if si < 0 || si >= syms.len() {
        (Seq::empty(), si)
    } else {
        let ms = syms[si];
        if ms.off_seg.segment < sec {
            sym_walk(syms, si + 1, sec, start, end)
        } else if ms.off_seg.segment > sec {
            (Seq::empty(), si)
        } else if ms.off_seg.offset < start {
            sym_walk(syms, si + 1, sec, start, end)
        } else if ms.off_seg.offset >= end {
            (Seq::empty(), si)
        } else {
            let (rest, k) = sym_walk(syms, si + 1, sec, start, end);
            (seq![SectionsLine::Symbol { index: si as usize }] + rest, k)
        }
    }
}

/// The lines of the contributions of the group `[gstart, gend)` of section `sec`, whose
/// section begins at `rva`, walking the contributions `cs` from position `ci` and the symbols
/// from position `si`. Contributions of earlier sections, or before `gstart`, are passed over.
/// The walk stops at the first contribution of a later section, at or after `gend`, with a
/// negative size or an end past `u32::MAX`; a contribution that ends past `gend` is passed and
/// stops it. Each contribution that is listed is followed by the lines of its symbols. Gives the
/// lines and the positions where the walks stopped.
pub open spec fn contrib_walk(
    cs: Seq<SectionContribution>,
    ci: int,
    syms: Seq<ModuleSymEntry>,
    si: int,
    sec: u16,
    rva: u32,
    gstart: u32,
    gend: u32,
) -> (Seq<SectionsLine>, int, int)
    decreases cs.len() - ci,
{
    if ci < 0 || ci >= cs.len() {
        (Seq::empty(), ci, si)
    } else {
        let c = cs[ci];
        let off = c.offset as u32;
        if c.section < sec {
            contrib_walk(cs, ci + 1, syms, si, sec, rva, gstart, gend)
        } else if c.section > sec {
            (Seq::empty(), ci, si)
        } else if off < gstart {
            contrib_walk(cs, ci + 1, syms, si, sec, rva, gstart, gend)
        } else if off >= gend {
            (Seq::empty(), ci, si)
        } else if c.size < 0 {
            (Seq::empty(), ci, si)
        } else if off + c.size > u32::MAX {
            (Seq::empty(), ci, si)
        } else if off + c.size > gend {
            (Seq::empty(), ci + 1, si)
        } else {
            let cend = (off + c.size) as u32;
            let (sl, si2) = sym_walk(syms, si, sec, off, cend);
            let (rest, ci3, si3) = contrib_walk(cs, ci + 1, syms, si2, sec, rva, gstart, gend);
            (
                seq![
                    SectionsLine::Contrib {
                        index: ci as usize,
                        off_seg: OffsetSegment { segment: sec, offset: off },
                        rva: vstd::wrapping::u32_specs::wrapping_add(rva, off),
                        size: c.size as u32,
                        module_index: c.module_index,
                    },
                ] + sl + rest,
                ci3,
                si3,
            )
        }
    }
}

/// The lines of the contributions within `[offset, offset + size)` of section `sec`, which
/// begins at `rva`: none where no contributions are listed, or where the range ends past
/// `u32::MAX`. Gives the lines and the positions where the walks stopped.
pub open spec fn contribs_in(
    cs: Option<Seq<SectionContribution>>,
    ci: int,
    syms: Seq<ModuleSymEntry>,
    si: int,
    sec: u16,
    rva: u32,
    offset: u32,
    size: u32,
) -> (Seq<SectionsLine>, int, int) {
    match cs {
        None => (Seq::empty(), ci, si),
        Some(cs) => if offset + size > u32::MAX {
            (Seq::empty(), ci, si)
        } else {
            contrib_walk(cs, ci, syms, si, sec, rva, offset, (offset + size) as u32)
        },
    }
}

/// The lines of the COFF groups of section `sec`, whose section begins at `rva`, walking the
/// groups `gs` from position `gi`: the walk stops at the first group of another segment. Each
/// group is followed by the lines of its contributions. Gives the lines and the positions
/// where the walks of groups, contributions and symbols stopped.
pub open spec fn group_walk(
    gs: Seq<CoffGroupView>,
    gi: int,
    cs: Option<Seq<SectionContribution>>,
    ci: int,
    syms: Seq<ModuleSymEntry>,
    si: int,
    sec: u16,
    rva: u32,
) -> (Seq<SectionsLine>, int, int, int)
    decreases gs.len() - gi,
{
    if gi < 0 || gi >= gs.len() {
        (Seq::empty(), gi, ci, si)
    } else {
        let g = gs[gi];
        if g.2.segment != sec {
            (Seq::empty(), gi, ci, si)
        } else {
            let (cl, ci2, si2) = contribs_in(cs, ci, syms, si, sec, rva, g.2.offset, g.3);
            let (rest, gi3, ci3, si3) = group_walk(gs, gi + 1, cs, ci2, syms, si2, sec, rva);
            (
                seq![
                    SectionsLine::Group {
                        index: gi as usize,
                        rva: vstd::wrapping::u32_specs::wrapping_add(rva, g.2.offset),
                    },
                ] + cl + rest,
                gi3,
                ci3,
                si3,
            )
        }
    }
}

/// The lines of the listing of the sections `secs` (each given by its address and size) from
/// position `i` on, the walks of groups, contributions and symbols being at positions `gi`,
/// `ci` and `si`. Section `i` is section number `i + 1`. Where COFF groups are listed, each
/// section is followed by the lines of its groups and an empty line; otherwise by the lines of
/// the contributions within the whole section.
pub open spec fn section_walk(
    secs: Seq<(u32, u32)>,
    i: int,
    gs: Option<Seq<CoffGroupView>>,
    gi: int,
    cs: Option<Seq<SectionContribution>>,
    ci: int,
    syms: Seq<ModuleSymEntry>,
    si: int,
) -> Seq<SectionsLine>
    decreases secs.len() - i,
{
    if i < 0 || i >= secs.len() {
        Seq::empty()
    } else {
        let sec = (i + 1) as u16;
        let (rva, vsize) = secs[i];
        let head = seq![SectionsLine::Section { index: i as usize, section_num: sec }];
        match gs {
            Some(g) => {
                let (gl, gi2, ci2, si2) = group_walk(g, gi, cs, ci, syms, si, sec, rva);
                head + gl + seq![SectionsLine::Blank] + section_walk(
                    secs,
                    i + 1,
                    gs,
                    gi2,
                    cs,
                    ci2,
                    syms,
                    si2,
                )
            },
            None => {
                let (cl, ci2, si2) = contribs_in(cs, ci, syms, si, sec, rva, 0, vsize);
                head + cl + section_walk(secs, i + 1, gs, gi, cs, ci2, syms, si2)
            },
        }
    }
}

/// The address and size of each section of `v`.
pub open spec fn section_extents(v: Seq<IMAGE_SECTION_HEADER>) -> Seq<(u32, u32)> {
    v.map_values(|h: IMAGE_SECTION_HEADER| (h.virtual_address, h.physical_address_or_virtual_size))
}

fn walk_syms(
    syms: &[ModuleSymEntry],
    si: usize,
    sec: u16,
    start: u32,
    end: u32,
    out: &mut Vec<SectionsLine>,
) -> (r: usize)
    requires
        si <= syms@.len(),
    ensures
        final(out)@ == old(out)@ + sym_walk(syms@, si as int, sec, start, end).0,
        r == sym_walk(syms@, si as int, sec, start, end).1,
        si <= r <= syms@.len(),
{
    let mut k = si;
    while k < syms.len()
        invariant_except_break
            si <= k <= syms@.len(),
            old(out)@ + sym_walk(syms@, si as int, sec, start, end).0 == out@ + sym_walk(
                syms@,
                k as int,
                sec,
                start,
                end,
            ).0,
            sym_walk(syms@, si as int, sec, start, end).1 == sym_walk(
                syms@,
                k as int,
                sec,
                start,
                end,
            ).1,
        ensures
            si <= k <= syms@.len(),
            old(out)@ + sym_walk(syms@, si as int, sec, start, end).0 == out@,
            sym_walk(syms@, si as int, sec, start, end).1 == k,
        decreases syms@.len() - k,
    {
        let ms = syms[k];
        if ms.off_seg.segment < sec {
            k = k + 1;
        } else if ms.off_seg.segment > sec {
            assert(out@ =~= out@ + Seq::<SectionsLine>::empty());
            break;
        } else if ms.off_seg.offset < start {
            k = k + 1;
        } else if ms.off_seg.offset >= end {
            assert(out@ =~= out@ + Seq::<SectionsLine>::empty());
            break;
        } else {
            let ghost before = out@;
            out.push(SectionsLine::Symbol { index: k });
            assert(before + sym_walk(syms@, k as int, sec, start, end).0 =~= out@ + sym_walk(
                syms@,
                k + 1,
                sec,
                start,
                end,
            ).0);
            k = k + 1;
        }
    }
    proof {
        if k >= syms@.len() {
            assert(out@ =~= out@ + Seq::<SectionsLine>::empty());
        }
    }
    k
}


fn walk_contribs(
    cs: &[SectionContribution],
    ci: usize,
    syms: &[ModuleSymEntry],
    si: usize,
    sec: u16,
    rva: u32,
    gstart: u32,
    gend: u32,
    out: &mut Vec<SectionsLine>,
) -> (r: (usize, usize))
    requires
        ci <= cs@.len(),
        si <= syms@.len(),
    ensures
        final(out)@ == old(out)@ + contrib_walk(cs@, ci as int, syms@, si as int, sec, rva, gstart, gend).0,
        r.0 == contrib_walk(cs@, ci as int, syms@, si as int, sec, rva, gstart, gend).1,
        r.1 == contrib_walk(cs@, ci as int, syms@, si as int, sec, rva, gstart, gend).2,
        ci <= r.0 <= cs@.len(),
        si <= r.1 <= syms@.len(),
{
    let ghost w = contrib_walk(cs@, ci as int, syms@, si as int, sec, rva, gstart, gend);
    let mut k = ci;
    let mut j = si;
    while k < cs.len()
        invariant_except_break
            ci <= k <= cs@.len(),
            si <= j <= syms@.len(),
            w == contrib_walk(cs@, ci as int, syms@, si as int, sec, rva, gstart, gend),
            old(out)@ + w.0 == out@ + contrib_walk(cs@, k as int, syms@, j as int, sec, rva, gstart, gend).0,
            w.1 == contrib_walk(cs@, k as int, syms@, j as int, sec, rva, gstart, gend).1,
            w.2 == contrib_walk(cs@, k as int, syms@, j as int, sec, rva, gstart, gend).2,
        ensures
            ci <= k <= cs@.len(),
            si <= j <= syms@.len(),
            old(out)@ + w.0 == out@,
            w.1 == k,
            w.2 == j,
        decreases cs@.len() - k,
    {
        let c = cs[k];
        let off = c.offset as u32;
        if c.section < sec {
            k = k + 1;
        } else if c.section > sec {
            assert(out@ =~= out@ + Seq::<SectionsLine>::empty());
            break;
        } else if off < gstart {
            k = k + 1;
        } else if off >= gend {
            assert(out@ =~= out@ + Seq::<SectionsLine>::empty());
            break;
        } else if c.size < 0 {
            assert(out@ =~= out@ + Seq::<SectionsLine>::empty());
            break;
        } else {
            let size = c.size as u32;
            match off.checked_add(size) {
                None => {
                    assert(out@ =~= out@ + Seq::<SectionsLine>::empty());
                    break;
                },
                Some(cend) => {
                    k = k + 1;
                    if cend > gend {
                        assert(out@ =~= out@ + Seq::<SectionsLine>::empty());
                        break;
                    }
                    let ghost before = out@;
                    let ghost j0 = j as int;
                    out.push(
                        SectionsLine::Contrib {
                            index: k - 1,
                            off_seg: OffsetSegment::new(off, sec),
                            rva: rva.wrapping_add(off),
                            size,
                            module_index: c.module_index,
                        },
                    );
                    let ghost after_push = out@;
                    j = walk_syms(syms, j, sec, off, cend, out);
                    proof {
                        let sl = sym_walk(syms@, j0, sec, off, cend).0;
                        let rest = contrib_walk(cs@, k as int, syms@, j as int, sec, rva, gstart, gend).0;
                        assert(before + contrib_walk(cs@, k - 1, syms@, j0, sec, rva, gstart, gend).0
                            =~= out@ + rest);
                    }
                },
            }
        }
    }
    proof {
        if k >= cs@.len() {
            assert(out@ =~= out@ + Seq::<SectionsLine>::empty());
        }
    }
    (k, j)
}


/// The view of the contributions, where they are listed.
pub open spec fn contribs_view(cs: Option<&[SectionContribution]>) -> Option<Seq<SectionContribution>> {
    match cs {
        Some(c) => Some(c@),
        None => None,
    }
}

/// The length of the contributions, where they are listed; zero otherwise.
pub open spec fn contribs_len(cs: Option<&[SectionContribution]>) -> int {
    match cs {
        Some(c) => c@.len() as int,
        None => 0,
    }
}

fn show_contribs_in(
    cs: Option<&[SectionContribution]>,
    ci: usize,
    syms: &[ModuleSymEntry],
    si: usize,
    sec: u16,
    rva: u32,
    offset: u32,
    size: u32,
    out: &mut Vec<SectionsLine>,
) -> (r: (usize, usize))
    requires
        ci <= contribs_len(cs),
        si <= syms@.len(),
    ensures
        final(out)@ == old(out)@ + contribs_in(contribs_view(cs), ci as int, syms@, si as int, sec, rva, offset, size).0,
        r.0 == contribs_in(contribs_view(cs), ci as int, syms@, si as int, sec, rva, offset, size).1,
        r.1 == contribs_in(contribs_view(cs), ci as int, syms@, si as int, sec, rva, offset, size).2,
        ci <= r.0 <= contribs_len(cs),
        si <= r.1 <= syms@.len(),
{
    match cs {
        None => {
            assert(out@ =~= out@ + Seq::<SectionsLine>::empty());
            (ci, si)
        },
        Some(c) => match offset.checked_add(size) {
            None => {
                assert(out@ =~= out@ + Seq::<SectionsLine>::empty());
                (ci, si)
            },
            Some(end) => walk_contribs(c, ci, syms, si, sec, rva, offset, end, out),
        },
    }
}

fn walk_groups(
    gs: &[CoffGroup],
    gi: usize,
    cs: Option<&[SectionContribution]>,
    ci: usize,
    syms: &[ModuleSymEntry],
    si: usize,
    sec: u16,
    rva: u32,
    out: &mut Vec<SectionsLine>,
) -> (r: (usize, usize, usize))
    requires
        gi <= gs@.len(),
        ci <= contribs_len(cs),
        si <= syms@.len(),
    ensures
        final(out)@ == old(out)@ + group_walk(group_views(gs@), gi as int, contribs_view(cs), ci as int, syms@, si as int, sec, rva).0,
        r.0 == group_walk(group_views(gs@), gi as int, contribs_view(cs), ci as int, syms@, si as int, sec, rva).1,
        r.1 == group_walk(group_views(gs@), gi as int, contribs_view(cs), ci as int, syms@, si as int, sec, rva).2,
        r.2 == group_walk(group_views(gs@), gi as int, contribs_view(cs), ci as int, syms@, si as int, sec, rva).3,
        gi <= r.0 <= gs@.len(),
        ci <= r.1 <= contribs_len(cs),
        si <= r.2 <= syms@.len(),
{
    let ghost gv = group_views(gs@);
    let ghost w = group_walk(gv, gi as int, contribs_view(cs), ci as int, syms@, si as int, sec, rva);
    let mut g = gi;
    let mut k = ci;
    let mut j = si;
    while g < gs.len()
        invariant_except_break
            gi <= g <= gs@.len(),
            ci <= k <= contribs_len(cs),
            si <= j <= syms@.len(),
            gv == group_views(gs@),
            w == group_walk(gv, gi as int, contribs_view(cs), ci as int, syms@, si as int, sec, rva),
            old(out)@ + w.0 == out@ + group_walk(gv, g as int, contribs_view(cs), k as int, syms@, j as int, sec, rva).0,
            w.1 == group_walk(gv, g as int, contribs_view(cs), k as int, syms@, j as int, sec, rva).1,
            w.2 == group_walk(gv, g as int, contribs_view(cs), k as int, syms@, j as int, sec, rva).2,
            w.3 == group_walk(gv, g as int, contribs_view(cs), k as int, syms@, j as int, sec, rva).3,
        ensures
            gi <= g <= gs@.len(),
            ci <= k <= contribs_len(cs),
            si <= j <= syms@.len(),
            old(out)@ + w.0 == out@,
            w.1 == g,
            w.2 == k,
            w.3 == j,
        decreases gs@.len() - g,
    {
        let group = &gs[g];
        assert(gv[g as int] == group@);
        if group.offset_segment.segment != sec {
            assert(out@ =~= out@ + Seq::<SectionsLine>::empty());
            break;
        }
        let goff = group.offset_segment.offset;
        let gsize = group.size;
        let ghost before = out@;
        let ghost k0 = k as int;
        let ghost j0 = j as int;
        out.push(SectionsLine::Group { index: g, rva: rva.wrapping_add(goff) });
        let r = show_contribs_in(cs, k, syms, j, sec, rva, goff, gsize, out);
        k = r.0;
        j = r.1;
        g = g + 1;
        proof {
            let rest = group_walk(gv, g as int, contribs_view(cs), k as int, syms@, j as int, sec, rva).0;
            assert(before + group_walk(gv, g - 1, contribs_view(cs), k0, syms@, j0, sec, rva).0
                =~= out@ + rest);
        }
    }
    proof {
        if g >= gs@.len() {
            assert(out@ =~= out@ + Seq::<SectionsLine>::empty());
        }
    }
    (g, k, j)
}

/// The lines of the listing of the sections `sections`: each section, then, where the COFF
/// groups `groups` (sorted by location) are given, the groups of the section and an empty
/// line, each group followed by the contributions within it; where no groups are given, the
/// contributions within the whole section. Contributions are listed only where `contribs`
/// (sorted by section, then offset) are given; each is followed by the module symbols
/// `syms` (sorted by address) that lie within it.
pub fn plan_sections(
    sections: &[IMAGE_SECTION_HEADER],
    groups: Option<&[CoffGroup]>,
    contribs: Option<&[SectionContribution]>,
    syms: &[ModuleSymEntry],
) -> (r: Vec<SectionsLine>)
    ensures
        r@ == section_walk(
            section_extents(sections@),
            0,
            match groups {
                Some(g) => Some(group_views(g@)),
                None => None,
            },
            0,
            contribs_view(contribs),
            0,
            syms@,
            0,
        ),
{
    let ghost secs = section_extents(sections@);
    let ghost gsv = match groups {
        Some(g) => Some(group_views(g@)),
        None => None,
    };
    let mut out: Vec<SectionsLine> = Vec::new();
    let mut i: usize = 0;
    let mut g: usize = 0;
    let mut k: usize = 0;
    let mut j: usize = 0;
    while i < sections.len()
        invariant
            i <= sections@.len(),
            secs == section_extents(sections@),
            gsv == match groups {
                Some(gg) => Some(group_views(gg@)),
                None => None,
            },
            groups matches Some(gg) ==> g <= gg@.len(),
            k <= contribs_len(contribs),
            j <= syms@.len(),
            section_walk(secs, 0, gsv, 0, contribs_view(contribs), 0, syms@, 0) == out@
                + section_walk(secs, i as int, gsv, g as int, contribs_view(contribs), k as int, syms@, j as int),
        decreases sections@.len() - i,
    {
        let section = &sections[i];
        let sec = (i + 1) as u16;
        let rva = section.virtual_address;
        assert(secs[i as int] == (section.virtual_address, section.physical_address_or_virtual_size));
        let ghost before = out@;
        let ghost g0 = g as int;
        let ghost k0 = k as int;
        let ghost j0 = j as int;
        out.push(SectionsLine::Section { index: i, section_num: sec });
        match groups {
            Some(gs) => {
                let r = walk_groups(gs, g, contribs, k, syms, j, sec, rva, &mut out);
                g = r.0;
                k = r.1;
                j = r.2;
                out.push(SectionsLine::Blank);
            },
            None => {
                let r = show_contribs_in(contribs, k, syms, j, sec, rva, 0, section.physical_address_or_virtual_size, &mut out);
                k = r.0;
                j = r.1;
            },
        }
        i = i + 1;
        proof {
            let rest = section_walk(secs, i as int, gsv, g as int, contribs_view(contribs), k as int, syms@, j as int);
            assert(before + section_walk(secs, i - 1, gsv, g0, contribs_view(contribs), k0, syms@, j0)
                =~= out@ + rest);
        }
    }
    assert(out@ =~= out@ + Seq::<SectionsLine>::empty());
    out
}


/// The index of the symbol that a symbol line lists; `-1` for other lines.
pub open spec fn symbol_index(l: SectionsLine) -> int {
    match l {
        SectionsLine::Symbol { index } => index as int,
        _ => -1,
    }
}

/// Every line of a walk of the symbols lists a symbol of section `sec` that lies within
/// `[start, end)`; the symbols are listed in the order of the walk, each once (their indices
/// rise), and lie between the position where the walk began and the one where it stopped.
pub proof fn lemma_sym_walk_within(
    syms: Seq<ModuleSymEntry>,
    si: int,
    sec: u16,
    start: u32,
    end: u32,
)
    requires
        0 <= si <= syms.len(),
        syms.len() <= usize::MAX,
    ensures
        ({
            let (ls, k) = sym_walk(syms, si, sec, start, end);
            &&& si <= k <= syms.len()
            &&& forall|p: int|
                0 <= p < ls.len() ==> match #[trigger] ls[p] {
                    SectionsLine::Symbol { index } => {
                        &&& si <= index < k
                        &&& syms[index as int].off_seg.segment == sec
                        &&& start <= syms[index as int].off_seg.offset < end
                    },
                    _ => false,
                }
            &&& forall|p: int, q: int|
                0 <= p < q < ls.len() ==> symbol_index(#[trigger] ls[p]) < symbol_index(
                    #[trigger] ls[q],
                )
        }),
    decreases syms.len() - si,
{
    if si < syms.len() {
        lemma_sym_walk_within(syms, si + 1, sec, start, end);
        let ms = syms[si];
        if ms.off_seg.segment >= sec && ms.off_seg.offset >= start && ms.off_seg.segment <= sec
            && ms.off_seg.offset < end {
            let (rest, k) = sym_walk(syms, si + 1, sec, start, end);
            let ls = seq![SectionsLine::Symbol { index: si as usize }] + rest;
            assert forall|p: int| 0 <= p < ls.len() implies match #[trigger] ls[p] {
                SectionsLine::Symbol { index } => {
                    &&& si <= index < k
                    &&& syms[index as int].off_seg.segment == sec
                    &&& start <= syms[index as int].off_seg.offset < end
                },
                _ => false,
            } by {
                if p > 0 {
                    assert(ls[p] == rest[p - 1]);
                }
            }
            assert forall|p: int, q: int| 0 <= p < q < ls.len() implies symbol_index(
                #[trigger] ls[p],
            ) < symbol_index(#[trigger] ls[q]) by {
                assert(ls[q] == rest[q - 1]);
                if p > 0 {
                    assert(ls[p] == rest[p - 1]);
                } else {
                    assert(rest[q - 1] matches SectionsLine::Symbol { index } && si < index);
                }
            }
        }
    }
}

/// The symbol `ms` lies in section `sec`, within the offsets `[start, end)`.
pub open spec fn sym_in_range(ms: ModuleSymEntry, sec: u16, start: u32, end: u32) -> bool {
    ms.off_seg.segment == sec && start <= ms.off_seg.offset && ms.off_seg.offset < end
}

/// Over symbols sorted by address, the walk of the symbols of `[start, end)` of section `sec`
/// from position `si` misses none: every symbol from `si` on that lies in section `sec` within
/// `[start, end)` has a line. With `lemma_sym_walk_within`, the lines are exactly the symbols
/// from `si` on that lie in that range, in order.
pub proof fn lemma_sym_walk_complete(
    syms: Seq<ModuleSymEntry>,
    si: int,
    sec: u16,
    start: u32,
    end: u32,
)
    requires
        0 <= si <= syms.len(),
        syms.len() <= usize::MAX,
        sorted_by_address(syms),
    ensures
        forall|j: int|
            si <= j < syms.len() && #[trigger] sym_in_range(syms[j], sec, start, end) ==> exists|
                p: int,
            |
                0 <= p < sym_walk(syms, si, sec, start, end).0.len() && symbol_index(
                    #[trigger] sym_walk(syms, si, sec, start, end).0[p],
                ) == j,
    decreases syms.len() - si,
{
    if si < syms.len() {
        lemma_sym_walk_complete(syms, si + 1, sec, start, end);
        let ms = syms[si];
        let ls = sym_walk(syms, si, sec, start, end).0;
        let rest = sym_walk(syms, si + 1, sec, start, end).0;
        assert forall|j: int|
            si <= j < syms.len() && #[trigger] sym_in_range(syms[j], sec, start, end) implies exists|
                p: int,
            | 0 <= p < ls.len() && symbol_index(#[trigger] ls[p]) == j by {
            if j > si {
                crate::offset_segment::lemma_key_orders_by_segment_then_offset(
                    ms.off_seg,
                    syms[j].off_seg,
                );
                assert(ms.off_seg.key() <= syms[j].off_seg.key());
            }
            if sym_in_range(ms, sec, start, end) {
                assert(ls == seq![SectionsLine::Symbol { index: si as usize }] + rest);
                if j == si {
                    assert(symbol_index(ls[0]) == j);
                } else {
                    let q = choose|q: int| 0 <= q < rest.len() && symbol_index(#[trigger] rest[q]) == j;
                    assert(ls[q + 1] == rest[q]);
                }
            } else {
                assert(ls == rest);
            }
        }
    }
}

/// Every line of a walk of the contributions of the range `[gstart, gend)` of section `sec` is
/// a contribution line or a symbol line. A contribution line lists a contribution of section
/// `sec` that lies within the range, between the position where the walk began and the one
/// where it stopped, with the contribution's own offset, size and module.
pub proof fn lemma_contrib_walk_within(
    cs: Seq<SectionContribution>,
    ci: int,
    syms: Seq<ModuleSymEntry>,
    si: int,
    sec: u16,
    rva: u32,
    gstart: u32,
    gend: u32,
)
    requires
        0 <= ci <= cs.len(),
        0 <= si <= syms.len(),
        cs.len() <= usize::MAX,
        syms.len() <= usize::MAX,
    ensures
        ({
            let (ls, k, j) = contrib_walk(cs, ci, syms, si, sec, rva, gstart, gend);
            &&& ci <= k <= cs.len()
            &&& si <= j <= syms.len()
            &&& forall|p: int|
                0 <= p < ls.len() ==> match #[trigger] ls[p] {
                    SectionsLine::Contrib { index, off_seg, rva: _, size, module_index } => {
                        &&& ci <= index < k
                        &&& cs[index as int].section == sec
                        &&& off_seg.segment == sec
                        &&& off_seg.offset == cs[index as int].offset as u32
                        &&& size == cs[index as int].size as u32
                        &&& 0 <= cs[index as int].size
                        &&& module_index == cs[index as int].module_index
                        &&& gstart <= off_seg.offset
                        &&& off_seg.offset + size <= gend
                    },
                    SectionsLine::Symbol { index } => si <= index < j,
                    _ => false,
                }
        }),
    decreases cs.len() - ci,
{
    if ci < cs.len() {
        let c = cs[ci];
        let off = c.offset as u32;
        if c.section == sec && off >= gstart && off < gend && c.size >= 0 && off + c.size
            <= u32::MAX && off + c.size <= gend {
            let cend = (off + c.size) as u32;
            lemma_sym_walk_within(syms, si, sec, off, cend);
            let (sl, si2) = sym_walk(syms, si, sec, off, cend);
            lemma_contrib_walk_within(cs, ci + 1, syms, si2, sec, rva, gstart, gend);
            let (rest, ci3, si3) = contrib_walk(cs, ci + 1, syms, si2, sec, rva, gstart, gend);
            let head = seq![
                SectionsLine::Contrib {
                    index: ci as usize,
                    off_seg: OffsetSegment { segment: sec, offset: off },
                    rva: vstd::wrapping::u32_specs::wrapping_add(rva, off),
                    size: c.size as u32,
                    module_index: c.module_index,
                },
            ];
            let ls = head + sl + rest;
            assert forall|p: int| 0 <= p < ls.len() implies match #[trigger] ls[p] {
                SectionsLine::Contrib { index, off_seg, rva: _, size, module_index } => {
                    &&& ci <= index < ci3
                    &&& cs[index as int].section == sec
                    &&& off_seg.segment == sec
                    &&& off_seg.offset == cs[index as int].offset as u32
                    &&& size == cs[index as int].size as u32
                    &&& 0 <= cs[index as int].size
                    &&& module_index == cs[index as int].module_index
                    &&& gstart <= off_seg.offset
                    &&& off_seg.offset + size <= gend
                },
                SectionsLine::Symbol { index } => si <= index < si3,
                _ => false,
            } by {
                if p == 0 {
                } else if p < 1 + sl.len() {
                    assert(ls[p] == sl[p - 1]);
                } else {
                    assert(ls[p] == rest[p - 1 - sl.len()]);
                }
            }
        } else if c.section < sec || (c.section == sec && off < gstart) {
            lemma_contrib_walk_within(cs, ci + 1, syms, si, sec, rva, gstart, gend);
        }
    }
}


/// `c` separates the directories of a path: `\\` or `/`.
pub open spec fn is_path_separator(c: u8) -> bool {
    c == 92 || c == 47
}

/// The file name of the module path `name`: what follows its last path separator, or all of
/// it where it has none.
pub open spec fn file_name_of(name: Seq<u8>) -> Seq<u8>
    decreases name.len(),
{
    if name.len() == 0 {
        name
    } else if is_path_separator(name.last()) {
        Seq::empty()
    } else {
        file_name_of(name.drop_last()).push(name.last())
    }
}

/// The file name of the module path `name`: what follows its last `\\` or `/`, or all of it
/// where it has neither.
pub fn module_file_name(name: &[u8]) -> (r: &[u8])
    ensures
        r@ == file_name_of(name@),
{
    let mut i: usize = name.len();
    assert(name@.take(i as int) =~= name@);
    assert(name@ + name@.skip(i as int) =~= name@);
    while i > 0 && !(name[i - 1] == 92 || name[i - 1] == 47)
        invariant
            i <= name@.len(),
            file_name_of(name@) == file_name_of(name@.take(i as int)) + name@.skip(i as int),
        decreases i,
    {
        let ghost t = name@.take(i as int);
        assert(t.drop_last() =~= name@.take(i - 1));
        assert(t.last() == name@[i - 1]);
        assert(name@.skip(i - 1) =~= seq![name@[i - 1]] + name@.skip(i as int));
        assert(file_name_of(t) == file_name_of(name@.take(i - 1)).push(name@[i - 1]));
        assert(file_name_of(name@.take(i - 1)).push(name@[i - 1]) + name@.skip(i as int)
            =~= file_name_of(name@.take(i - 1)) + name@.skip(i - 1));
        i = i - 1;
    }
    proof {
        if i > 0 {
            let t = name@.take(i as int);
            assert(t.last() == name@[i - 1]);
        } else {
            assert(name@.take(0) =~= Seq::<u8>::empty());
        }
    }
    assert(Seq::<u8>::empty() + name@.skip(i as int) =~= name@.skip(i as int));
    let (_, rest) = name.split_at(i);
    assert(rest@ =~= name@.skip(i as int));
    rest
}


/// The contribution line that the line at position `p` of `ls` falls under: scanning back from
/// `p` over symbol lines, the first contribution line; `None` where another line, or the start,
/// comes first.
pub open spec fn contrib_before(ls: Seq<SectionsLine>, p: int) -> Option<SectionsLine>
    decreases p,
{
    if p <= 0 || p > ls.len() {
        None
    } else {
        match ls[p - 1] {
            SectionsLine::Contrib { .. } => Some(ls[p - 1]),
            SectionsLine::Symbol { .. } => contrib_before(ls, p - 1),
            _ => None,
        }
    }
}

/// The symbol `ms` lies within the contribution that the line `c` lists.
pub open spec fn within_contrib_line(c: Option<SectionsLine>, ms: ModuleSymEntry) -> bool {
    match c {
        Some(SectionsLine::Contrib { index: _, off_seg, rva: _, size, module_index: _ }) => {
            &&& ms.off_seg.segment == off_seg.segment
            &&& off_seg.offset <= ms.off_seg.offset
            &&& ms.off_seg.offset < off_seg.offset + size
        },
        _ => false,
    }
}

/// Each symbol line of `ls` lists a symbol of `syms` that lies within the contribution line it
/// falls under.
pub open spec fn symbols_within(ls: Seq<SectionsLine>, syms: Seq<ModuleSymEntry>) -> bool {
    forall|p: int|
        0 <= p < ls.len() ==> match #[trigger] ls[p] {
            SectionsLine::Symbol { index } => index < syms.len() && within_contrib_line(
                contrib_before(ls, p),
                syms[index as int],
            ),
            _ => true,
        }
}

proof fn lemma_contrib_before_prefix(x: Seq<SectionsLine>, y: Seq<SectionsLine>, p: int)
    requires
        0 <= p <= x.len(),
    ensures
        contrib_before(x + y, p) == contrib_before(x, p),
    decreases p,
{
    if p > 0 {
        assert((x + y)[p - 1] == x[p - 1]);
        lemma_contrib_before_prefix(x, y, p - 1);
    }
}

proof fn lemma_contrib_before_suffix(x: Seq<SectionsLine>, y: Seq<SectionsLine>, q: int)
    requires
        0 <= q <= y.len(),
        contrib_before(y, q) is Some,
    ensures
        contrib_before(x + y, x.len() + q) == contrib_before(y, q),
    decreases q,
{
    if q > 0 {
        assert((x + y)[x.len() + q - 1] == y[q - 1]);
        if y[q - 1] is Symbol {
            lemma_contrib_before_suffix(x, y, q - 1);
        }
    }
}

proof fn lemma_symbols_within_concat(
    x: Seq<SectionsLine>,
    y: Seq<SectionsLine>,
    syms: Seq<ModuleSymEntry>,
)
    requires
        symbols_within(x, syms),
        symbols_within(y, syms),
    ensures
        symbols_within(x + y, syms),
{
    let z = x + y;
    assert forall|p: int| 0 <= p < z.len() implies match #[trigger] z[p] {
        SectionsLine::Symbol { index } => index < syms.len() && within_contrib_line(
            contrib_before(z, p),
            syms[index as int],
        ),
        _ => true,
    } by {
        if p < x.len() {
            assert(z[p] == x[p]);
            lemma_contrib_before_prefix(x, y, p);
        } else {
            let q = p - x.len();
            assert(z[p] == y[q]);
            if y[q] is Symbol {
                lemma_contrib_before_suffix(x, y, q);
            }
        }
    }
}

proof fn lemma_symbols_after_contrib(
    c: SectionsLine,
    sl: Seq<SectionsLine>,
    syms: Seq<ModuleSymEntry>,
    q: int,
)
    requires
        c is Contrib,
        forall|k: int| 0 <= k < sl.len() ==> (#[trigger] sl[k]) is Symbol,
        0 <= q <= sl.len(),
    ensures
        contrib_before(seq![c] + sl, q + 1) == Some(c),
    decreases q,
{
    let ls = seq![c] + sl;
    if q == 0 {
        assert(ls[0] == c);
    } else {
        assert(ls[q] == sl[q - 1]);
        lemma_symbols_after_contrib(c, sl, syms, q - 1);
    }
}

/// Every symbol line of a walk of the contributions lists a symbol that lies within the
/// contribution line that it falls under.
pub proof fn lemma_contrib_walk_symbols_within(
    cs: Seq<SectionContribution>,
    ci: int,
    syms: Seq<ModuleSymEntry>,
    si: int,
    sec: u16,
    rva: u32,
    gstart: u32,
    gend: u32,
)
    requires
        0 <= ci <= cs.len(),
        0 <= si <= syms.len(),
        cs.len() <= usize::MAX,
        syms.len() <= usize::MAX,
    ensures
        symbols_within(contrib_walk(cs, ci, syms, si, sec, rva, gstart, gend).0, syms),
    decreases cs.len() - ci,
{
    if ci < cs.len() {
        let c = cs[ci];
        let off = c.offset as u32;
        if c.section == sec && off >= gstart && off < gend && c.size >= 0 && off + c.size
            <= u32::MAX && off + c.size <= gend {
            let cend = (off + c.size) as u32;
            lemma_sym_walk_within(syms, si, sec, off, cend);
            let (sl, si2) = sym_walk(syms, si, sec, off, cend);
            lemma_contrib_walk_symbols_within(cs, ci + 1, syms, si2, sec, rva, gstart, gend);
            let rest = contrib_walk(cs, ci + 1, syms, si2, sec, rva, gstart, gend).0;
            let line = SectionsLine::Contrib {
                index: ci as usize,
                off_seg: OffsetSegment { segment: sec, offset: off },
                rva: vstd::wrapping::u32_specs::wrapping_add(rva, off),
                size: c.size as u32,
                module_index: c.module_index,
            };
            let head = seq![line] + sl;
            assert forall|k: int| 0 <= k < sl.len() implies (#[trigger] sl[k]) is Symbol by {
                assert(match sl[k] {
                    SectionsLine::Symbol { .. } => true,
                    _ => false,
                });
            }
            assert forall|p: int| 0 <= p < head.len() implies match #[trigger] head[p] {
                SectionsLine::Symbol { index } => index < syms.len() && within_contrib_line(
                    contrib_before(head, p),
                    syms[index as int],
                ),
                _ => true,
            } by {
                if p > 0 {
                    assert(head[p] == sl[p - 1]);
                    lemma_symbols_after_contrib(line, sl, syms, p - 1);
                }
            }
            lemma_symbols_within_concat(head, rest, syms);
            assert(seq![line] + sl + rest =~= head + rest);
        } else if c.section < sec || (c.section == sec && off < gstart) {
            lemma_contrib_walk_symbols_within(cs, ci + 1, syms, si, sec, rva, gstart, gend);
        }
    }
}


proof fn lemma_no_symbols_within(ls: Seq<SectionsLine>, syms: Seq<ModuleSymEntry>)
    requires
        forall|k: int| 0 <= k < ls.len() ==> !((#[trigger] ls[k]) is Symbol),
    ensures
        symbols_within(ls, syms),
{
    assert forall|p: int| 0 <= p < ls.len() implies match #[trigger] ls[p] {
        SectionsLine::Symbol { index } => index < syms.len() && within_contrib_line(
            contrib_before(ls, p),
            syms[index as int],
        ),
        _ => true,
    } by {
        assert(!(ls[p] is Symbol));
    }
}

proof fn lemma_contribs_in_symbols_within(
    cs: Option<Seq<SectionContribution>>,
    ci: int,
    syms: Seq<ModuleSymEntry>,
    si: int,
    sec: u16,
    rva: u32,
    offset: u32,
    size: u32,
)
    requires
        cs matches Some(c) ==> 0 <= ci <= c.len() && c.len() <= usize::MAX,
        0 <= si <= syms.len(),
        syms.len() <= usize::MAX,
    ensures
        symbols_within(contribs_in(cs, ci, syms, si, sec, rva, offset, size).0, syms),
        cs matches Some(c) ==> ({
            let (_, k, j) = contribs_in(cs, ci, syms, si, sec, rva, offset, size);
            ci <= k <= c.len() && si <= j <= syms.len()
        }),
        cs is None ==> contribs_in(cs, ci, syms, si, sec, rva, offset, size).1 == ci,
        si <= contribs_in(cs, ci, syms, si, sec, rva, offset, size).2 <= syms.len(),
{
    match cs {
        None => {
            lemma_no_symbols_within(Seq::empty(), syms);
        },
        Some(c) => {
            if offset + size > u32::MAX {
                lemma_no_symbols_within(Seq::empty(), syms);
            } else {
                lemma_contrib_walk_within(c, ci, syms, si, sec, rva, offset, (offset + size) as u32);
                lemma_contrib_walk_symbols_within(c, ci, syms, si, sec, rva, offset, (offset + size) as u32);
            }
        },
    }
}

proof fn lemma_group_walk_symbols_within(
    gs: Seq<CoffGroupView>,
    gi: int,
    cs: Option<Seq<SectionContribution>>,
    ci: int,
    syms: Seq<ModuleSymEntry>,
    si: int,
    sec: u16,
    rva: u32,
)
    requires
        0 <= gi <= gs.len(),
        cs matches Some(c) ==> 0 <= ci <= c.len() && c.len() <= usize::MAX,
        cs is None ==> ci == 0,
        0 <= si <= syms.len(),
        syms.len() <= usize::MAX,
    ensures
        symbols_within(group_walk(gs, gi, cs, ci, syms, si, sec, rva).0, syms),
        ({
            let (_, g, k, j) = group_walk(gs, gi, cs, ci, syms, si, sec, rva);
            &&& gi <= g <= gs.len()
            &&& cs matches Some(c) ==> ci <= k <= c.len()
            &&& cs is None ==> k == 0
            &&& si <= j <= syms.len()
        }),
    decreases gs.len() - gi,
{
    if gi < gs.len() {
        let g = gs[gi];
        if g.2.segment == sec {
            lemma_contribs_in_symbols_within(cs, ci, syms, si, sec, rva, g.2.offset, g.3);
            let (cl, ci2, si2) = contribs_in(cs, ci, syms, si, sec, rva, g.2.offset, g.3);
            lemma_group_walk_symbols_within(gs, gi + 1, cs, ci2, syms, si2, sec, rva);
            let rest = group_walk(gs, gi + 1, cs, ci2, syms, si2, sec, rva).0;
            let head = seq![
                SectionsLine::Group {
                    index: gi as usize,
                    rva: vstd::wrapping::u32_specs::wrapping_add(rva, g.2.offset),
                },
            ];
            lemma_no_symbols_within(head, syms);
            lemma_symbols_within_concat(head, cl, syms);
            lemma_symbols_within_concat(head + cl, rest, syms);
        } else {
            lemma_no_symbols_within(Seq::empty(), syms);
        }
    } else {
        lemma_no_symbols_within(Seq::empty(), syms);
    }
}

proof fn lemma_section_walk_symbols_within(
    secs: Seq<(u32, u32)>,
    i: int,
    gs: Option<Seq<CoffGroupView>>,
    gi: int,
    cs: Option<Seq<SectionContribution>>,
    ci: int,
    syms: Seq<ModuleSymEntry>,
    si: int,
)
    requires
        0 <= i <= secs.len(),
        gs matches Some(g) ==> 0 <= gi <= g.len(),
        cs matches Some(c) ==> 0 <= ci <= c.len() && c.len() <= usize::MAX,
        cs is None ==> ci == 0,
        0 <= si <= syms.len(),
        syms.len() <= usize::MAX,
    ensures
        symbols_within(section_walk(secs, i, gs, gi, cs, ci, syms, si), syms),
    decreases secs.len() - i,
{
    if i < secs.len() {
        let sec = (i + 1) as u16;
        let (rva, vsize) = secs[i];
        let head = seq![SectionsLine::Section { index: i as usize, section_num: sec }];
        lemma_no_symbols_within(head, syms);
        match gs {
            Some(g) => {
                lemma_group_walk_symbols_within(g, gi, cs, ci, syms, si, sec, rva);
                let (gl, gi2, ci2, si2) = group_walk(g, gi, cs, ci, syms, si, sec, rva);
                lemma_section_walk_symbols_within(secs, i + 1, gs, gi2, cs, ci2, syms, si2);
                let rest = section_walk(secs, i + 1, gs, gi2, cs, ci2, syms, si2);
                let blank = seq![SectionsLine::Blank];
                lemma_no_symbols_within(blank, syms);
                lemma_symbols_within_concat(head, gl, syms);
                lemma_symbols_within_concat(head + gl, blank, syms);
                lemma_symbols_within_concat(head + gl + blank, rest, syms);
            },
            None => {
                lemma_contribs_in_symbols_within(cs, ci, syms, si, sec, rva, 0, vsize);
                let (cl, ci2, si2) = contribs_in(cs, ci, syms, si, sec, rva, 0, vsize);
                lemma_section_walk_symbols_within(secs, i + 1, gs, gi, cs, ci2, syms, si2);
                let rest = section_walk(secs, i + 1, gs, gi, cs, ci2, syms, si2);
                lemma_symbols_within_concat(head, cl, syms);
                lemma_symbols_within_concat(head + cl, rest, syms);
            },
        }
    } else {
        lemma_no_symbols_within(Seq::empty(), syms);
    }
}

/// In the listing of sections, every module symbol that is listed lies within the section
/// contribution that it is listed under: the nearest contribution line before it, with only
/// symbol lines between them.
pub proof fn lemma_listed_symbols_within_contribs(
    secs: Seq<(u32, u32)>,
    gs: Option<Seq<CoffGroupView>>,
    cs: Option<Seq<SectionContribution>>,
    syms: Seq<ModuleSymEntry>,
)
    requires
        cs matches Some(c) ==> c.len() <= usize::MAX,
        syms.len() <= usize::MAX,
    ensures
        symbols_within(section_walk(secs, 0, gs, 0, cs, 0, syms, 0), syms),
{
    lemma_section_walk_symbols_within(secs, 0, gs, 0, cs, 0, syms, 0);
}

/// `a + b`, wrapped around to 32 bits.
pub open spec fn add_mod_2_32(a: int, b: int) -> int {
    if a + b >= 0x1_0000_0000 {
        a + b - 0x1_0000_0000
    } else {
        a + b
    }
}

/// The line `l` agrees with the sections `secs` (numbered from 1) and the COFF groups `gv`: a
/// section line is that of section header `index`, numbered `index + 1`; a group line is of a
/// group of `gv` that lies in one of the sections, and its address is the address of that
/// section plus the group's offset; a contribution line is of one of the sections, and its
/// address is the address of that section plus the contribution's offset. Addresses wrap to
/// 32 bits.
pub open spec fn line_addresses(l: SectionsLine, secs: Seq<(u32, u32)>, gv: Seq<CoffGroupView>) -> bool {
    match l {
        SectionsLine::Section { index, section_num } => {
            &&& index < secs.len()
            &&& section_num == index + 1
        },
        SectionsLine::Group { index, rva } => {
            &&& index < gv.len()
            &&& 1 <= gv[index as int].2.segment <= secs.len()
            &&& rva as int == add_mod_2_32(
                secs[gv[index as int].2.segment - 1].0 as int,
                gv[index as int].2.offset as int,
            )
        },
        SectionsLine::Contrib { off_seg, rva, .. } => {
            &&& 1 <= off_seg.segment <= secs.len()
            &&& rva as int == add_mod_2_32(secs[off_seg.segment - 1].0 as int, off_seg.offset as int)
        },
        _ => true,
    }
}

/// Every line of `ls` agrees with the sections `secs` and the groups `gv` (`line_addresses`).
pub open spec fn contrib_addresses(
    ls: Seq<SectionsLine>,
    secs: Seq<(u32, u32)>,
    gv: Seq<CoffGroupView>,
) -> bool {
    forall|p: int| 0 <= p < ls.len() ==> line_addresses(#[trigger] ls[p], secs, gv)
}

proof fn lemma_contrib_addresses_concat(
    a: Seq<SectionsLine>,
    b: Seq<SectionsLine>,
    secs: Seq<(u32, u32)>,
    gv: Seq<CoffGroupView>,
)
    requires
        contrib_addresses(a, secs, gv),
        contrib_addresses(b, secs, gv),
    ensures
        contrib_addresses(a + b, secs, gv),
{
    assert forall|p: int| 0 <= p < (a + b).len() implies line_addresses(#[trigger] (a + b)[p], secs, gv) by {
        if p < a.len() {
            assert((a + b)[p] == a[p]);
        } else {
            assert((a + b)[p] == b[p - a.len()]);
        }
    }
}

proof fn lemma_sym_walk_no_contribs(
    syms: Seq<ModuleSymEntry>,
    si: int,
    sec: u16,
    start: u32,
    end: u32,
    secs: Seq<(u32, u32)>,
    gv: Seq<CoffGroupView>,
)
    ensures
        contrib_addresses(sym_walk(syms, si, sec, start, end).0, secs, gv),
    decreases syms.len() - si,
{
    if 0 <= si < syms.len() {
        lemma_sym_walk_no_contribs(syms, si + 1, sec, start, end, secs, gv);
        let rest = sym_walk(syms, si + 1, sec, start, end).0;
        lemma_contrib_addresses_concat(seq![SectionsLine::Symbol { index: si as usize }], rest, secs, gv);
    }
}

proof fn lemma_contrib_walk_addresses(
    cs: Seq<SectionContribution>,
    ci: int,
    syms: Seq<ModuleSymEntry>,
    si: int,
    sec: u16,
    rva: u32,
    gstart: u32,
    gend: u32,
    secs: Seq<(u32, u32)>,
    gv: Seq<CoffGroupView>,
)
    requires
        1 <= sec <= secs.len(),
        secs[sec - 1].0 == rva,
    ensures
        contrib_addresses(contrib_walk(cs, ci, syms, si, sec, rva, gstart, gend).0, secs, gv),
    decreases cs.len() - ci,
{
    if 0 <= ci < cs.len() {
        lemma_contrib_walk_addresses(cs, ci + 1, syms, si, sec, rva, gstart, gend, secs, gv);
        let c = cs[ci];
        let off = c.offset as u32;
        if c.section == sec && off >= gstart && off < gend && c.size >= 0 && off + c.size
            <= u32::MAX && off + c.size <= gend {
            let cend = (off + c.size) as u32;
            let (sl, si2) = sym_walk(syms, si, sec, off, cend);
            lemma_sym_walk_no_contribs(syms, si, sec, off, cend, secs, gv);
            lemma_contrib_walk_addresses(cs, ci + 1, syms, si2, sec, rva, gstart, gend, secs, gv);
            let rest = contrib_walk(cs, ci + 1, syms, si2, sec, rva, gstart, gend).0;
            let head = seq![
                SectionsLine::Contrib {
                    index: ci as usize,
                    off_seg: OffsetSegment { segment: sec, offset: off },
                    rva: vstd::wrapping::u32_specs::wrapping_add(rva, off),
                    size: c.size as u32,
                    module_index: c.module_index,
                },
            ];
            lemma_contrib_addresses_concat(head, sl, secs, gv);
            lemma_contrib_addresses_concat(head + sl, rest, secs, gv);
        }
    }
}

proof fn lemma_contribs_in_addresses(
    cs: Option<Seq<SectionContribution>>,
    ci: int,
    syms: Seq<ModuleSymEntry>,
    si: int,
    sec: u16,
    rva: u32,
    offset: u32,
    size: u32,
    secs: Seq<(u32, u32)>,
    gv: Seq<CoffGroupView>,
)
    requires
        1 <= sec <= secs.len(),
        secs[sec - 1].0 == rva,
    ensures
        contrib_addresses(contribs_in(cs, ci, syms, si, sec, rva, offset, size).0, secs, gv),
{
    if let Some(c) = cs {
        if offset + size <= u32::MAX {
            lemma_contrib_walk_addresses(c, ci, syms, si, sec, rva, offset, (offset + size) as u32, secs, gv);
        }
    }
}

proof fn lemma_group_walk_addresses(
    gs: Seq<CoffGroupView>,
    gi: int,
    cs: Option<Seq<SectionContribution>>,
    ci: int,
    syms: Seq<ModuleSymEntry>,
    si: int,
    sec: u16,
    rva: u32,
    secs: Seq<(u32, u32)>,
    gv: Seq<CoffGroupView>,
)
    requires
        1 <= sec <= secs.len(),
        secs[sec - 1].0 == rva,
        gs == gv,
        gv.len() <= usize::MAX,
    ensures
        contrib_addresses(group_walk(gs, gi, cs, ci, syms, si, sec, rva).0, secs, gv),
    decreases gs.len() - gi,
{
    if 0 <= gi < gs.len() {
        let g = gs[gi];
        if g.2.segment == sec {
            let (cl, ci2, si2) = contribs_in(cs, ci, syms, si, sec, rva, g.2.offset, g.3);
            lemma_contribs_in_addresses(cs, ci, syms, si, sec, rva, g.2.offset, g.3, secs, gv);
            lemma_group_walk_addresses(gs, gi + 1, cs, ci2, syms, si2, sec, rva, secs, gv);
            let rest = group_walk(gs, gi + 1, cs, ci2, syms, si2, sec, rva).0;
            let head = seq![
                SectionsLine::Group {
                    index: gi as usize,
                    rva: vstd::wrapping::u32_specs::wrapping_add(rva, g.2.offset),
                },
            ];
            lemma_contrib_addresses_concat(head, cl, secs, gv);
            lemma_contrib_addresses_concat(head + cl, rest, secs, gv);
        }
    }
}

proof fn lemma_section_walk_addresses(
    secs: Seq<(u32, u32)>,
    i: int,
    gs: Option<Seq<CoffGroupView>>,
    gi: int,
    cs: Option<Seq<SectionContribution>>,
    ci: int,
    syms: Seq<ModuleSymEntry>,
    si: int,
    gv: Seq<CoffGroupView>,
)
    requires
        0 <= i,
        secs.len() <= 0xffff,
        gs matches Some(g) ==> g == gv,
        gv.len() <= usize::MAX,
    ensures
        contrib_addresses(section_walk(secs, i, gs, gi, cs, ci, syms, si), secs, gv),
    decreases secs.len() - i,
{
    if i < secs.len() {
        let sec = (i + 1) as u16;
        assert(sec == i + 1);
        let (rva, vsize) = secs[i];
        let head = seq![SectionsLine::Section { index: i as usize, section_num: sec }];
        match gs {
            Some(g) => {
                let (gl, gi2, ci2, si2) = group_walk(g, gi, cs, ci, syms, si, sec, rva);
                lemma_group_walk_addresses(g, gi, cs, ci, syms, si, sec, rva, secs, gv);
                lemma_section_walk_addresses(secs, i + 1, gs, gi2, cs, ci2, syms, si2, gv);
                let rest = section_walk(secs, i + 1, gs, gi2, cs, ci2, syms, si2);
                lemma_contrib_addresses_concat(head, gl, secs, gv);
                lemma_contrib_addresses_concat(head + gl, seq![SectionsLine::Blank], secs, gv);
                lemma_contrib_addresses_concat(head + gl + seq![SectionsLine::Blank], rest, secs, gv);
            },
            None => {
                let (cl, ci2, si2) = contribs_in(cs, ci, syms, si, sec, rva, 0, vsize);
                lemma_contribs_in_addresses(cs, ci, syms, si, sec, rva, 0, vsize, secs, gv);
                lemma_section_walk_addresses(secs, i + 1, gs, gi, cs, ci2, syms, si2, gv);
                let rest = section_walk(secs, i + 1, gs, gi, cs, ci2, syms, si2);
                lemma_contrib_addresses_concat(head, cl, secs, gv);
                lemma_contrib_addresses_concat(head + cl, rest, secs, gv);
            },
        }
    }
}

/// In the listing of the sections `sections` with the COFF groups `gs`, each section line is
/// that of section header `index`, numbered `index + 1`; each group line is of a group of `gs`
/// that lies in one of the sections, and gives as its address the virtual address of that
/// section plus the group's offset; each contribution line is of one of the sections (numbered
/// from 1), and gives as its address the virtual address of that section plus the
/// contribution's offset within it. Addresses wrap to 32 bits.
pub proof fn lemma_listed_contribution_addresses(
    sections: Seq<IMAGE_SECTION_HEADER>,
    gs: Option<Seq<CoffGroupView>>,
    cs: Option<Seq<SectionContribution>>,
    syms: Seq<ModuleSymEntry>,
)
    requires
        sections.len() <= 0xffff,
        gs matches Some(g) ==> g.len() <= usize::MAX,
    ensures
        forall|p: int|
            0 <= p < section_walk(section_extents(sections), 0, gs, 0, cs, 0, syms, 0).len() ==> match
                #[trigger] section_walk(section_extents(sections), 0, gs, 0, cs, 0, syms, 0)[p] {
                SectionsLine::Section { index, section_num } => {
                    &&& index < sections.len()
                    &&& section_num == index + 1
                },
                SectionsLine::Group { index, rva } => {
                    &&& gs matches Some(g) && index < g.len()
                    &&& 1 <= gs->0[index as int].2.segment <= sections.len()
                    &&& rva as int == add_mod_2_32(
                        sections[gs->0[index as int].2.segment - 1].virtual_address as int,
                        gs->0[index as int].2.offset as int,
                    )
                },
                SectionsLine::Contrib { off_seg, rva, .. } => {
                    &&& 1 <= off_seg.segment <= sections.len()
                    &&& rva as int == add_mod_2_32(
                        sections[off_seg.segment - 1].virtual_address as int,
                        off_seg.offset as int,
                    )
                },
                _ => true,
            },
{
    let secs = section_extents(sections);
    let gv = match gs {
        Some(g) => g,
        None => Seq::empty(),
    };
    lemma_section_walk_addresses(secs, 0, gs, 0, cs, 0, syms, 0, gv);
    let ls = section_walk(secs, 0, gs, 0, cs, 0, syms, 0);
    assert forall|p: int| 0 <= p < ls.len() implies match #[trigger] ls[p] {
        SectionsLine::Group { index, .. } => gs is Some,
        _ => true,
    } by {
        assert(line_addresses(ls[p], secs, gv));
    }
}

} // verus!

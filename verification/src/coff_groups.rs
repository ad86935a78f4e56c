//! The COFF groups of an image, as the linker module of a PDB lists them.

use crate::offset_segment::OffsetSegment;
use crate::parser::{strz_value, ParserError};
use crate::syms::{records, CoffGroupFixed, Parse, SymIter, S_COFFGROUP};
use crate::binding::LINKER_MODULE_NAME;
use crate::text::{bstr_display, push_bstr, str_eq};
use vstd::prelude::*;
use vstd::multiset::Multiset;

verus! {

/// Contains a list of COFF groups.
#[derive(Clone, Default, Debug)]
pub struct CoffGroups {
    /// The COFF groups
    pub vec: Vec<CoffGroup>,
}

/// Describes a single COFF group.
///
/// A COFF group is a contiguous region within a COFF section. For this reason, they are sometimes
/// called "subsections".
#[derive(Clone, Debug)]
pub struct CoffGroup {
    /// Name of the section
    pub name: String,
    /// Bit flags
    pub characteristics: u32,
    /// The location where this COFF group begins. The COFF group is contained entirely within
    /// a single COFF section.
    pub offset_segment: OffsetSegment,
    /// The size in bytes of the COFF group.
    pub size: u32,
}

/// A COFF group as plain values: name, characteristics, location and size.
pub type CoffGroupView = (Seq<char>, u32, OffsetSegment, u32);

impl View for CoffGroup {
    type V = CoffGroupView;

    open spec fn view(&self) -> CoffGroupView {
        (self.name@, self.characteristics, self.offset_segment, self.size)
    }
}

/// How the COFF group `g` lies relative to the location `segment:offset`: `-1` when it lies
/// wholly before it, `0` when it contains it, `1` when it lies after it. A group lies before
/// every location of a later segment and after every location of an earlier one.
pub open spec fn group_order(g: CoffGroupView, segment: u16, offset: u32) -> int {
    let g_seg = g.2.segment;
    let g_off = g.2.offset;
    if g_seg < segment {
        -1
    } else if g_seg > segment {
        1
    } else if offset < g_off {
        1
    } else if offset - g_off < g.3 {
        0
    } else {
        -1
    }
}

/// The group `g` contains the location `segment:offset`.
pub open spec fn group_contains(g: CoffGroupView, segment: u16, offset: u32) -> bool {
    group_order(g, segment, offset) == 0
}

/// The groups `gs` are ordered for a search for `segment:offset`: the groups that lie before
/// the location come first, then those that contain it, then those after it.
pub open spec fn ordered_for(gs: Seq<CoffGroupView>, segment: u16, offset: u32) -> bool {
    forall|i: int, j: int|
        0 <= i < j < gs.len() ==> #[trigger] group_order(gs[i], segment, offset) <= #[trigger] group_order(
            gs[j],
            segment,
            offset,
        )
}

/// The groups `gs` are sorted by location, and each ends before the next one of its segment
/// begins.
pub open spec fn sorted_disjoint(gs: Seq<CoffGroupView>) -> bool {
    forall|i: int, j: int|
        0 <= i < j < gs.len() ==> {
            let a = #[trigger] gs[i];
            let b = #[trigger] gs[j];
            &&& a.2.key() <= b.2.key()
            &&& a.2.segment == b.2.segment ==> a.2.offset + a.3 <= b.2.offset
        }
}

/// The location order of COFF groups, by segment, then offset.
pub open spec fn sorted_by_location(gs: Seq<CoffGroupView>) -> bool {
    forall|i: int, j: int| 0 <= i < j < gs.len() ==> (#[trigger] gs[i]).2.key() <= (#[trigger] gs[j]).2.key()
}

/// Groups that are sorted by location and do not overlap are ordered for a search for any
/// location.
pub proof fn lemma_sorted_disjoint_ordered(gs: Seq<CoffGroupView>, segment: u16, offset: u32)
    requires
        sorted_disjoint(gs),
    ensures
        ordered_for(gs, segment, offset),
{
    assert forall|i: int, j: int| 0 <= i < j < gs.len() implies #[trigger] group_order(
        gs[i],
        segment,
        offset,
    ) <= #[trigger] group_order(gs[j], segment, offset) by {
        let a = gs[i];
        let b = gs[j];
        assert(a.2.key() <= b.2.key());
    }
}

impl CoffGroups {
    /// Find the COFF group which contains `offset_segment`.
    ///
    /// The search is a binary search: it finds the group when the groups are ordered for it,
    /// as groups sorted by location without overlap are.
    pub fn find_group_at(&self, offset_segment: OffsetSegment) -> (r: Option<&CoffGroup>)
        ensures
            r matches Some(g) ==> {
                &&& self.vec@.contains(*g)
                &&& group_contains(g@, offset_segment.segment, offset_segment.offset)
            },
            ordered_for(self.vec@.map_values(|g: CoffGroup| g@), offset_segment.segment, offset_segment.offset)
                ==> (r is None <==> forall|i: int|
                0 <= i < self.vec@.len() ==> !group_contains(
                    #[trigger] self.vec@[i]@,
                    offset_segment.segment,
                    offset_segment.offset,
                )),
    {
        let seg = offset_segment.segment;
        let off = offset_segment.offset;
        let ghost gs = self.vec@.map_values(|g: CoffGroup| g@);
        let mut lo: usize = 0;
        let mut hi: usize = self.vec.len();
        while lo < hi
            invariant
                0 <= lo <= hi <= self.vec@.len(),
                gs == self.vec@.map_values(|g: CoffGroup| g@),
                seg == offset_segment.segment,
                off == offset_segment.offset,
                ordered_for(gs, seg, off) ==> forall|i: int|
                    0 <= i < lo ==> group_order(#[trigger] gs[i], seg, off) < 0,
                ordered_for(gs, seg, off) ==> forall|i: int|
                    hi <= i < gs.len() ==> group_order(#[trigger] gs[i], seg, off) > 0,
            decreases hi - lo,
        {
            let mid = lo + (hi - lo) / 2;
            let g = &self.vec[mid];
            let g_seg = g.offset_segment.segment;
            let g_off = g.offset_segment.offset;
            assert(gs[mid as int] == g@);
            let c: i8 = if g_seg < seg {
                -1
            } else if g_seg > seg {
                1
            } else if off < g_off {
                1
            } else if off - g_off < g.size {
                0
            } else {
                -1
            };
            assert(c == group_order(gs[mid as int], seg, off));
            if c == 0 {
                assert(self.vec@[mid as int] == *g);
                assert(group_contains(self.vec@[mid as int]@, seg, off));
                return Some(g);
            } else if c < 0 {
                lo = mid + 1;
            } else {
                hi = mid;
            }
        }
        proof {
            if ordered_for(gs, seg, off) {
                assert forall|i: int| 0 <= i < self.vec@.len() implies !group_contains(
                    #[trigger] self.vec@[i]@,
                    seg,
                    off,
                ) by {
                    assert(gs[i] == self.vec@[i]@);
                }
            }
        }
        None
    }
}


/// The COFF group that a symbol record of kind `kind` and payload `data` describes: the
/// `S_COFFGROUP` records whose payload decodes give one, with the name shown as `bstr`
/// shows a byte string.
pub open spec fn coff_group_of_record(kind: u16, data: Seq<u8>) -> Option<CoffGroupView> {
    if kind == S_COFFGROUP && <crate::syms::CoffGroup<'static> as Parse<'static>>::parses(data) {
        let f = CoffGroupFixed::spec_decode(data, 0);
        Some((bstr_display(strz_value(data.skip(14))), f.characteristics, f.off_seg, f.cb))
    } else {
        None
    }
}

/// The COFF groups that the symbol records `rs` describe, in record order.
pub open spec fn coff_groups_of(rs: Seq<(u16, Seq<u8>)>) -> Seq<CoffGroupView>
    decreases rs.len(),
{
    if rs.len() == 0 {
        Seq::empty()
    } else {
        match coff_group_of_record(rs[0].0, rs[0].1) {
            Some(g) => seq![g] + coff_groups_of(rs.drop_first()),
            None => coff_groups_of(rs.drop_first()),
        }
    }
}

/// The symbol records of a module symbol stream: the records after its 4-byte signature.
pub open spec fn module_symbol_records(syms: Seq<u8>) -> Seq<(u16, Seq<u8>)> {
    if syms.len() >= 4 {
        records(syms.skip(4))
    } else {
        Seq::empty()
    }
}

/// The view of each group of `v`.
pub open spec fn group_views(v: Seq<CoffGroup>) -> Seq<CoffGroupView> {
    v.map_values(|g: CoffGroup| g@)
}

proof fn lemma_records_step(s: Seq<u8>)
    requires
        crate::syms::first_record(s) is Some,
    ensures
        ({
            let (kind, data, n) = crate::syms::first_record(s).unwrap();
            records(s) == seq![(kind, data)] + records(s.skip(n))
        }),
{
}

proof fn lemma_coff_groups_of_step(x: (u16, Seq<u8>), rest: Seq<(u16, Seq<u8>)>)
    ensures
        coff_groups_of(seq![x] + rest) == match coff_group_of_record(x.0, x.1) {
            Some(g) => seq![g] + coff_groups_of(rest),
            None => coff_groups_of(rest),
        },
{
    assert((seq![x] + rest).drop_first() =~= rest);
    assert((seq![x] + rest)[0] == x);
}

/// Sorts COFF groups by location (segment, then offset).
fn sort_by_location(v: Vec<CoffGroup>) -> (r: Vec<CoffGroup>)
    ensures
        sorted_by_location(group_views(r@)),
        group_views(r@).to_multiset() == group_views(v@).to_multiset(),
{
    broadcast use {
        vstd::seq_lib::group_to_multiset_ensures,
        vstd::multiset::group_multiset_axioms,
        vstd::multiset::lemma_multiset_empty_len,
    };

    let ghost orig = v@;
    let mut src = v;
    let mut res: Vec<CoffGroup> = Vec::new();
    assert(group_views(res@).to_multiset() =~= Multiset::empty());
    while src.len() > 0
        invariant
            sorted_by_location(group_views(res@)),
            group_views(res@).to_multiset().add(group_views(src@).to_multiset())
                == group_views(orig).to_multiset(),
        decreases src.len(),
    {
        let ghost old_src = src@;
        let ghost old_res = res@;
        let g = match src.pop() {
            Some(g) => g,
            None => vstd::pervasive::unreached(),
        };
        assert(group_views(old_src) =~= group_views(src@).push(g@));
        let key = g.offset_segment.as_u64();
        let mut pos: usize = 0;
        while pos < res.len() && res[pos].offset_segment.as_u64() <= key
            invariant
                pos <= res@.len(),
                res@ == old_res,
                key == g.offset_segment.key(),
                forall|i: int| 0 <= i < pos ==> (#[trigger] res@[i]).offset_segment.key() <= key,
            decreases res@.len() - pos,
        {
            pos = pos + 1;
        }
        proof {
            if pos < res@.len() {
                assert(res@[pos as int].offset_segment.key() > key);
            }
        }
        res.insert(pos, g);
        proof {
            assert(group_views(res@) =~= group_views(old_res).insert(pos as int, g@));
            assert forall|i: int, j: int| 0 <= i < j < group_views(res@).len() implies (
            #[trigger] group_views(res@)[i]).2.key() <= (#[trigger] group_views(res@)[j]).2.key() by {
                let gv = group_views(old_res);
                if j < pos {
                    assert(group_views(res@)[i] == gv[i]);
                    assert(group_views(res@)[j] == gv[j]);
                } else if j == pos {
                    assert(group_views(res@)[i] == gv[i]);
                    assert(old_res[i].offset_segment.key() <= key);
                } else if i == pos {
                    assert(group_views(res@)[j] == gv[j - 1]);
                    assert(gv[pos as int].2.key() > key);
                    if j - 1 > pos {
                        assert(gv[pos as int].2.key() <= gv[j - 1].2.key());
                    }
                } else if i < pos {
                    assert(group_views(res@)[i] == gv[i]);
                    assert(group_views(res@)[j] == gv[j - 1]);
                } else {
                    assert(group_views(res@)[i] == gv[i - 1]);
                    assert(group_views(res@)[j] == gv[j - 1]);
                }
            }
            let gv_res = group_views(res@);
            let gv_src = group_views(src@);
            vstd::seq_lib::to_multiset_build(gv_src, g@);
            vstd::seq_lib::to_multiset_insert(group_views(old_res), pos as int, g@);
            assert(group_views(old_src).to_multiset() == gv_src.to_multiset().insert(g@));
            assert(gv_res.to_multiset() == group_views(old_res).to_multiset().insert(g@));
            assert(gv_res.to_multiset().add(gv_src.to_multiset()) =~= group_views(
                old_res,
            ).to_multiset().add(group_views(old_src).to_multiset()));
        }
    }
    assert(src@.len() == 0);
    assert(group_views(src@).to_multiset() =~= Multiset::empty());
    assert(group_views(res@).to_multiset() =~= group_views(res@).to_multiset().add(group_views(src@).to_multiset()));
    res
}

/// The index of the first module named `* Linker *` among the module names `module_names`:
/// the module that holds the `S_COFFGROUP` records. `None` where no module has that name.
pub fn find_linker_module(module_names: &[String]) -> (r: Option<usize>)
    ensures
        match r {
            Some(i) => {
                &&& i < module_names@.len()
                &&& module_names@[i as int]@ == LINKER_MODULE_NAME@
                &&& forall|j: int| 0 <= j < i ==> module_names@[j]@ != LINKER_MODULE_NAME@
            },
            None => forall|j: int|
                0 <= j < module_names@.len() ==> module_names@[j]@ != LINKER_MODULE_NAME@,
        },
{
    let mut i: usize = 0;
    while i < module_names.len()
        invariant
            i <= module_names@.len(),
            forall|j: int| 0 <= j < i ==> module_names@[j]@ != LINKER_MODULE_NAME@,
        decreases module_names@.len() - i,
    {
        if str_eq(module_names[i].as_str(), LINKER_MODULE_NAME) {
            return Some(i);
        }
        i = i + 1;
    }
    None
}

impl CoffGroups {
    /// Builds the list of COFF groups from the symbols of the linker module (a module symbol
    /// stream, with its 4-byte signature): one group for each `S_COFFGROUP` record that
    /// decodes, sorted by location. Records that do not decode are skipped.
    pub fn from_linker_module_symbols(linker_module_syms: &[u8]) -> (r: CoffGroups)
        ensures
            sorted_by_location(group_views(r.vec@)),
            group_views(r.vec@).to_multiset() == coff_groups_of(
                module_symbol_records(linker_module_syms@),
            ).to_multiset(),
    {
        // Count the number of S_COFFGROUP symbols. We can use this to do a precise allocation.
        let mut num_coff_groups: usize = 0;
        let total = linker_module_syms.len();
        let mut count_iter = SymIter::for_module_syms(linker_module_syms);
        loop
            invariant
                total == linker_module_syms@.len(),
                num_coff_groups <= linker_module_syms@.len(),
                count_iter.data@.len() + num_coff_groups <= linker_module_syms@.len(),
            decreases count_iter.data@.len(),
        {
            match count_iter.next() {
                Some(sym) => {
                    if sym.kind.0 == S_COFFGROUP {
                        num_coff_groups = num_coff_groups + 1;
                    }
                },
                None => break,
            }
        }

        let mut iter = SymIter::for_module_syms(linker_module_syms);
        let ghost all = records(iter.data@);
        assert(all == module_symbol_records(linker_module_syms@)) by {
            if linker_module_syms@.len() < 4 {
                assert(records(iter.data@) =~= Seq::empty());
            }
        }
        let mut groups: Vec<CoffGroup> = Vec::with_capacity(num_coff_groups);
        loop
            invariant
                group_views(groups@) + coff_groups_of(records(iter.data@)) == coff_groups_of(all),
            ensures
                group_views(groups@) == coff_groups_of(all),
            decreases iter.data@.len(),
        {
            let ghost before = iter.data@;
            match iter.next() {
                Some(sym) => {
                    proof {
                        lemma_records_step(before);
                        lemma_coff_groups_of_step((sym.kind.0, sym.data@), records(iter.data@));
                    }
                    let ghost old_groups = groups@;
                    if sym.kind.0 == S_COFFGROUP {
                        match sym.parse_as::<crate::syms::CoffGroup>() {
                            Ok(group) => {
                                let mut name = String::new();
                                push_bstr(&mut name, group.name);
                                groups.push(
                                    CoffGroup {
                                        name,
                                        characteristics: group.fixed.characteristics,
                                        offset_segment: group.fixed.off_seg,
                                        size: group.fixed.cb,
                                    },
                                );
                                proof {
                                    assert(group_views(groups@) =~= group_views(old_groups).push(
                                        groups@.last()@,
                                    ));
                                    assert(group_views(groups@) + coff_groups_of(records(iter.data@))
                                        =~= group_views(old_groups) + (seq![groups@.last()@]
                                        + coff_groups_of(records(iter.data@))));
                                }
                            },
                            Err(_) => {},
                        }
                    }
                },
                None => {
                    assert(records(iter.data@) =~= Seq::empty());
                    assert(coff_groups_of(records(iter.data@)) =~= Seq::empty());
                    assert(group_views(groups@) =~= group_views(groups@) + coff_groups_of(records(iter.data@)));
                    break;
                },
            }
        }
        let vec = sort_by_location(groups);
        proof {
            broadcast use vstd::seq_lib::group_to_multiset_ensures;
        }
        CoffGroups { vec }
    }
}

} // verus!

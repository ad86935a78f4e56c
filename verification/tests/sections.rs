use ms_pdb::coff_groups::{find_linker_module, CoffGroup, CoffGroups};
use ms_pdb::listing_text::{
    coff_group_list_line_text, contrib_line_text, group_line_text, section_line_text,
    symbol_line_text,
};
use ms_pdb::offset_segment::OffsetSegment;
use ms_pdb::section::{
    SectionCharacteristics, IMAGE_SCN_MEM_EXECUTE, IMAGE_SCN_MEM_READ, IMAGE_SCN_MEM_WRITE,
    IMAGE_SECTION_HEADER,
};
use ms_pdb::section_listing::{
    find_contribution, index_module_symbols, module_file_name, module_sym_entries, plan_sections, ModuleSymEntry, SectionContribution,
    SectionsLine,
};
use ms_pdb::sections::{
    coff_group_description, coff_group_descriptions, section_description, Rwx,
};
use ms_pdb::syms::{S_COFFGROUP, S_GDATA32, S_GPROC32, S_UDT};

#[test]
fn test_coff_group_descriptions_sorted() {
    let table = coff_group_descriptions();
    for w in table.windows(2) {
        assert!(
            w[0].0 < w[1].0,
            "group descriptions should be sorted: {} >= {}",
            w[0].0,
            w[1].0
        );
    }
}

#[test]
fn section_descriptions_known_and_unknown() {
    assert_eq!(section_description(".text"), Some("executable code"));
    assert_eq!(section_description(".xdata"), Some("exception unwinding data"));
    assert_eq!(section_description(".bss"), None);
    assert_eq!(section_description(""), None);
}

#[test]
fn coff_group_descriptions_lookup() {
    assert_eq!(coff_group_description(".00cfg"), Some("Control-Flow Guard (CFG)"));
    assert_eq!(coff_group_description(".text$mn"), Some("\"main\" code"));
    assert_eq!(coff_group_description(".xdata"), Some(""));
    assert_eq!(coff_group_description(".text$zz"), None);
    for (name, desc) in coff_group_descriptions() {
        assert_eq!(coff_group_description(name), Some(desc));
    }
}

#[test]
fn rwx_text() {
    let all = SectionCharacteristics(IMAGE_SCN_MEM_READ | IMAGE_SCN_MEM_WRITE | IMAGE_SCN_MEM_EXECUTE);
    assert_eq!(Rwx(all).to_string(), "rwx");
    assert_eq!(Rwx(SectionCharacteristics(IMAGE_SCN_MEM_READ)).to_string(), "r--");
    assert_eq!(Rwx(SectionCharacteristics(0)).to_string(), "---");
}

fn record(kind: u16, payload: &[u8]) -> Vec<u8> {
    let len = (payload.len() + 2) as u16;
    let mut v = vec![len as u8, (len >> 8) as u8, kind as u8, (kind >> 8) as u8];
    v.extend_from_slice(payload);
    v
}

fn proc_payload(offset: u32, segment: u16, name: &str) -> Vec<u8> {
    let mut p = vec![0u8; 28];
    p.extend_from_slice(&offset.to_le_bytes());
    p.extend_from_slice(&segment.to_le_bytes());
    p.push(0);
    p.extend_from_slice(name.as_bytes());
    p.push(0);
    p
}

fn data_payload(offset: u32, segment: u16, name: &str) -> Vec<u8> {
    let mut p = vec![0u8; 4];
    p.extend_from_slice(&offset.to_le_bytes());
    p.extend_from_slice(&segment.to_le_bytes());
    p.extend_from_slice(name.as_bytes());
    p.push(0);
    p
}

fn coff_group_payload(cb: u32, characteristics: u32, offset: u32, segment: u16, name: &str) -> Vec<u8> {
    let mut p = Vec::new();
    p.extend_from_slice(&cb.to_le_bytes());
    p.extend_from_slice(&characteristics.to_le_bytes());
    p.extend_from_slice(&offset.to_le_bytes());
    p.extend_from_slice(&segment.to_le_bytes());
    p.extend_from_slice(name.as_bytes());
    p.push(0);
    p
}

fn module_stream(records: &[Vec<u8>]) -> Vec<u8> {
    let mut v = vec![4, 0, 0, 0];
    for r in records {
        v.extend_from_slice(r);
    }
    v
}

#[test]
fn module_sym_entries_finds_procs_and_data() {
    let recs = vec![
        record(S_GPROC32, &proc_payload(0x10, 1, "f")),
        record(S_UDT, &[1, 0, 0, 0, b'T', 0]),
        record(S_GDATA32, &data_payload(0x20, 2, "g")),
    ];
    let stream = module_stream(&recs);
    let es = module_sym_entries(7, &stream);
    assert_eq!(es.len(), 2);
    assert_eq!(es[0], ModuleSymEntry { off_seg: OffsetSegment::new(0x10, 1), module_index: 7, byte_offset: 4 });
    let second = 4 + recs[0].len() + recs[1].len();
    assert_eq!(
        es[1],
        ModuleSymEntry { off_seg: OffsetSegment::new(0x20, 2), module_index: 7, byte_offset: second as u32 }
    );
    // A stream shorter than its signature has no records.
    assert!(module_sym_entries(0, &[4, 0]).is_empty());
}

#[test]
fn index_module_symbols_sorts_by_address() {
    let m0 = module_stream(&[
        record(S_GPROC32, &proc_payload(0x30, 1, "c")),
        record(S_GPROC32, &proc_payload(0x10, 2, "z")),
    ]);
    let m1 = module_stream(&[record(S_GDATA32, &data_payload(0x20, 1, "b"))]);
    let all = index_module_symbols(&vec![m0, m1]);
    let addrs: Vec<(u16, u32, u16)> =
        all.iter().map(|e| (e.off_seg.segment, e.off_seg.offset, e.module_index)).collect();
    assert_eq!(addrs, vec![(1, 0x20, 1), (1, 0x30, 0), (2, 0x10, 0)]);
}

fn section(va: u32, vsize: u32) -> IMAGE_SECTION_HEADER {
    let mut h = IMAGE_SECTION_HEADER::default();
    h.virtual_address = va;
    h.physical_address_or_virtual_size = vsize;
    h
}

fn group(name: &str, segment: u16, offset: u32, size: u32) -> CoffGroup {
    CoffGroup {
        name: name.to_string(),
        characteristics: 0,
        offset_segment: OffsetSegment::new(offset, segment),
        size,
    }
}

fn contrib(section: u16, offset: i32, size: i32, module_index: u16) -> SectionContribution {
    SectionContribution { section, offset, size, characteristics: 0, module_index }
}

fn sym(segment: u16, offset: u32) -> ModuleSymEntry {
    ModuleSymEntry { off_seg: OffsetSegment::new(offset, segment), module_index: 0, byte_offset: 4 }
}

#[test]
fn plan_sections_without_groups_or_contribs() {
    let secs = vec![section(0x1000, 0x200), section(0x2000, 0x100)];
    let lines = plan_sections(&secs, None, None, &[]);
    assert_eq!(
        lines,
        vec![
            SectionsLine::Section { index: 0, section_num: 1 },
            SectionsLine::Section { index: 1, section_num: 2 },
        ]
    );
}

#[test]
fn plan_sections_with_groups_contribs_and_symbols() {
    let secs = vec![section(0x1000, 0x200), section(0x2000, 0x100)];
    let groups = vec![group(".text$mn", 1, 0, 0x100), group(".text$x", 1, 0x100, 0x100), group(".data", 2, 0, 0x100)];
    let contribs = vec![
        contrib(1, 0x0, 0x80, 3),
        contrib(1, 0x80, 0x80, 4),
        contrib(1, 0x100, 0x40, 5),
        contrib(2, 0x10, 0x10, 6),
    ];
    let syms = vec![sym(1, 0x10), sym(1, 0x90), sym(1, 0x120), sym(2, 0x18)];
    let lines = plan_sections(&secs, Some(&groups), Some(&contribs), &syms);
    let c = |index: usize, segment: u16, offset: u32, rva: u32, size: u32, module_index: u16| {
        SectionsLine::Contrib { index, off_seg: OffsetSegment::new(offset, segment), rva, size, module_index }
    };
    assert_eq!(
        lines,
        vec![
            SectionsLine::Section { index: 0, section_num: 1 },
            SectionsLine::Group { index: 0, rva: 0x1000 },
            c(0, 1, 0, 0x1000, 0x80, 3),
            SectionsLine::Symbol { index: 0 },
            c(1, 1, 0x80, 0x1080, 0x80, 4),
            SectionsLine::Symbol { index: 1 },
            SectionsLine::Group { index: 1, rva: 0x1100 },
            c(2, 1, 0x100, 0x1100, 0x40, 5),
            SectionsLine::Symbol { index: 2 },
            SectionsLine::Blank,
            SectionsLine::Section { index: 1, section_num: 2 },
            SectionsLine::Group { index: 2, rva: 0x2000 },
            c(3, 2, 0x10, 0x2010, 0x10, 6),
            SectionsLine::Symbol { index: 3 },
            SectionsLine::Blank,
        ]
    );
}

#[test]
fn plan_sections_contribution_crossing_its_group_stops_the_group() {
    let secs = vec![section(0x1000, 0x200)];
    let groups = vec![group("a", 1, 0, 0x40), group("b", 1, 0x40, 0x40)];
    // The first contribution ends past the end of group "a": it is passed over and ends the
    // walk of that group; the second is listed in group "b".
    let contribs = vec![contrib(1, 0x20, 0x30, 1), contrib(1, 0x40, 0x10, 2)];
    let lines = plan_sections(&secs, Some(&groups), Some(&contribs), &[]);
    assert_eq!(
        lines,
        vec![
            SectionsLine::Section { index: 0, section_num: 1 },
            SectionsLine::Group { index: 0, rva: 0x1000 },
            SectionsLine::Group { index: 1, rva: 0x1040 },
            SectionsLine::Contrib { index: 1, off_seg: OffsetSegment::new(0x40, 1), rva: 0x1040, size: 0x10, module_index: 2 },
            SectionsLine::Blank,
        ]
    );
}

#[test]
fn plan_sections_negative_size_stops_the_walk() {
    let secs = vec![section(0x1000, 0x200)];
    let contribs = vec![contrib(1, 0x0, -1, 1), contrib(1, 0x10, 0x10, 2)];
    let lines = plan_sections(&secs, None, Some(&contribs), &[]);
    assert_eq!(lines, vec![SectionsLine::Section { index: 0, section_num: 1 }]);
}

#[test]
fn plan_sections_contribs_without_groups() {
    let secs = vec![section(0x1000, 0x100), section(0x3000, 0x100)];
    let contribs = vec![contrib(1, 0x10, 0x10, 1), contrib(2, 0x0, 0x20, 2)];
    let syms = vec![sym(1, 0x0), sym(1, 0x18), sym(2, 0x30)];
    let lines = plan_sections(&secs, None, Some(&contribs), &syms);
    assert_eq!(
        lines,
        vec![
            SectionsLine::Section { index: 0, section_num: 1 },
            SectionsLine::Contrib { index: 0, off_seg: OffsetSegment::new(0x10, 1), rva: 0x1010, size: 0x10, module_index: 1 },
            SectionsLine::Symbol { index: 1 },
            SectionsLine::Section { index: 1, section_num: 2 },
            SectionsLine::Contrib { index: 1, off_seg: OffsetSegment::new(0, 2), rva: 0x3000, size: 0x20, module_index: 2 },
        ]
    );
}

#[test]
fn coff_groups_from_linker_module_are_sorted() {
    let stream = module_stream(&[
        record(S_COFFGROUP, &coff_group_payload(0x20, 0x40000040, 0x100, 2, ".data")),
        record(S_COFFGROUP, &coff_group_payload(0x10, 0x60000020, 0x0, 1, ".text$mn")),
        record(S_UDT, &[1, 0, 0, 0, b'T', 0]),
        record(S_COFFGROUP, &coff_group_payload(0x08, 0x60000020, 0x10, 1, ".text$x")),
    ]);
    let groups = CoffGroups::from_linker_module_symbols(&stream);
    let names: Vec<&str> = groups.vec.iter().map(|g| g.name.as_str()).collect();
    assert_eq!(names, vec![".text$mn", ".text$x", ".data"]);
    assert_eq!(groups.vec[2].characteristics, 0x40000040);
    assert_eq!(groups.vec[2].size, 0x20);

    let found = groups.find_group_at(OffsetSegment::new(0x14, 1)).unwrap();
    assert_eq!(found.name, ".text$x");
    let found = groups.find_group_at(OffsetSegment::new(0x0f, 1)).unwrap();
    assert_eq!(found.name, ".text$mn");
    assert!(groups.find_group_at(OffsetSegment::new(0x18, 1)).is_none());
    assert!(groups.find_group_at(OffsetSegment::new(0x0, 3)).is_none());
    assert_eq!(groups.find_group_at(OffsetSegment::new(0x11f, 2)).unwrap().name, ".data");
}

#[test]
fn coff_groups_of_empty_stream() {
    let groups = CoffGroups::from_linker_module_symbols(&[]);
    assert!(groups.vec.is_empty());
    assert!(groups.find_group_at(OffsetSegment::new(0, 1)).is_none());
}

#[test]
fn section_header_name_stops_at_nul() {
    let mut h = IMAGE_SECTION_HEADER::default();
    h.name = *b".text\0\0\0";
    assert_eq!(h.name(), b".text");
    h.name = *b".textbss";
    assert_eq!(h.name(), b".textbss");
}

#[test]
fn module_file_names() {
    assert_eq!(module_file_name(b"d:\\src\\obj\\foo.obj"), b"foo.obj");
    assert_eq!(module_file_name(b"/tmp/x/bar.o"), b"bar.o");
    assert_eq!(module_file_name(b"* Linker *"), b"* Linker *");
    assert_eq!(module_file_name(b"dir/"), b"");
}

#[test]
fn offset_segment_text() {
    assert_eq!(OffsetSegment::new(0x1234, 3).to_string(), "[0003:00001234]");
    assert_eq!(OffsetSegment::new(0xffff_ffff, 0xffff).to_string(), "[ffff:ffffffff]");
}

#[test]
fn section_and_group_line_texts() {
    let mut h = section(0x1000, 0x234);
    h.name = *b".text\0\0\0";
    h.characteristics = SectionCharacteristics(IMAGE_SCN_MEM_READ | IMAGE_SCN_MEM_EXECUTE);
    assert_eq!(
        section_line_text(&h, 1),
        format!(
            "s [{:04x}:00000000] rva: {:08x} + {:08x} : {} : {:<8}     {}",
            1, 0x1000, 0x234, "r-x", ".text", "executable code"
        )
    );
    let mut h2 = section(0x5000, 0x10);
    h2.name = *b".weird\0\0";
    assert_eq!(
        section_line_text(&h2, 12),
        "s [000c:00000000] rva: 00005000 + 00000010 : --- : .weird       "
    );
    let g = group(".text$mn", 1, 0x10, 0x20);
    assert_eq!(
        group_line_text(&g, 0x1010, SectionCharacteristics(IMAGE_SCN_MEM_READ)),
        format!(
            "g [0001:00000010] rva: 00001010 + 00000020 : r-- :     {:<30}  {}",
            ".text$mn", "\"main\" code"
        )
    );
    assert_eq!(
        contrib_line_text(OffsetSegment::new(0x10, 1), 0x1010, 0x20, 7, "foo.obj"),
        "c [0001:00000010] rva: 00001010 + 00000020 : module 7 - foo.obj"
    );
    assert_eq!(symbol_line_text("  S_GPROC32: f\n"), "    ... S_GPROC32: f");
    assert_eq!(symbol_line_text(" \t\n"), "    ... ");
    assert_eq!(
        coff_group_list_line_text(3, &g),
        format!("  [{:4}]  [0001:00000010] + {:08x}, {:08x} : {:<16}", 3, 0x20, 0, ".text$mn")
    );
}

#[test]
fn finds_the_first_linker_module() {
    let names = vec!["a.obj".to_string(), "* Linker *".to_string(), "* Linker *".to_string()];
    assert_eq!(find_linker_module(&names), Some(1));
    assert_eq!(find_linker_module(&names[..1]), None);
    assert_eq!(find_linker_module(&[]), None);
}

#[test]
fn finds_the_contribution_holding_an_offset() {
    let c = |section: u16, offset: i32, size: i32, module_index: u16| SectionContribution {
        section,
        offset,
        size,
        characteristics: 0,
        module_index,
    };
    let contribs = vec![c(1, 0, 0x10, 0), c(2, 0x100, 0x20, 1), c(2, 0x110, 0x40, 2)];
    assert_eq!(find_contribution(&contribs, 2, 0x100), Some(1));
    assert_eq!(find_contribution(&contribs, 2, 0x11f), Some(1));
    assert_eq!(find_contribution(&contribs, 2, 0x120), Some(2));
    assert_eq!(find_contribution(&contribs, 2, 0x150), None);
    assert_eq!(find_contribution(&contribs, 1, 0x10), None);
    assert_eq!(find_contribution(&contribs, 3, 0), None);
}

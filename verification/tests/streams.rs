use ms_pdb::dbi::optional_dbg::{
    optional_debug_header_stream_name, OptionalDebugHeader, OptionalDebugHeaderStream,
    OptionalDebugHeaders, OptionalDebugStream, FPO_DATA, ORIGINAL_SECTION_HEADER_DATA, PDATA,
};
use ms_pdb::dbi::section_map::{
    SectionMap, SectionMapEntryFlags, SectionMapError, EXECUTE, IS_GROUP, READ, WRITE,
};
use ms_pdb::modi::{ModiStreamData, ModiStreamError, ModuleInfoFixed};

fn modi_stream(sym: &[u8], c11: &[u8], c13: &[u8], tail: &[u8]) -> (Vec<u8>, ModuleInfoFixed) {
    let mut v = Vec::new();
    v.extend_from_slice(sym);
    v.extend_from_slice(c11);
    v.extend_from_slice(c13);
    v.extend_from_slice(tail);
    let info = ModuleInfoFixed {
        sym_byte_size: sym.len() as u32,
        c11_byte_size: c11.len() as u32,
        c13_byte_size: c13.len() as u32,
    };
    (v, info)
}

#[test]
fn modi_new_reads_substreams() {
    let sym = [4u8, 0, 0, 0, 2, 0, 6, 0];
    let c13 = [9u8, 9, 9, 9];
    let tail = [8u8, 0, 0, 0, 0x10, 0, 0, 0, 0x20, 0, 0, 0];
    let (v, info) = modi_stream(&sym, &[], &c13, &tail);
    let m = ModiStreamData::new(v, &info).unwrap();
    assert_eq!(m.global_refs_size, 8);
    assert_eq!(m.full_sym_data().unwrap(), &sym);
    assert_eq!(m.sym_data().unwrap(), &sym[4..]);
    assert_eq!(m.c13_line_data_bytes(), &c13);
    assert_eq!(m.c13_line_data_range(), 8..12);
    assert_eq!(m.global_refs_range(), 16..24);
    assert_eq!(m.global_refs().unwrap(), vec![0x10, 0x20]);
    let mut it = m.iter_syms();
    let s = it.next().unwrap();
    assert_eq!(s.kind.0, 6);
    assert!(it.next().is_none());
}

#[test]
fn modi_new_errors() {
    let info = ModuleInfoFixed { sym_byte_size: 8, c11_byte_size: 0, c13_byte_size: 0 };
    assert_eq!(ModiStreamData::new(vec![0; 4], &info).err(), Some(ModiStreamError::SymByteSizeExceedsStream));
    let info = ModuleInfoFixed { sym_byte_size: 4, c11_byte_size: 4, c13_byte_size: 0 };
    assert_eq!(ModiStreamData::new(vec![0; 6], &info).err(), Some(ModiStreamError::C11ByteSizeExceedsStream));
    let info = ModuleInfoFixed { sym_byte_size: 4, c11_byte_size: 0, c13_byte_size: 4 };
    assert_eq!(ModiStreamData::new(vec![0; 6], &info).err(), Some(ModiStreamError::C13ByteSizeExceedsStream));
    let info = ModuleInfoFixed { sym_byte_size: 4, c11_byte_size: 0, c13_byte_size: 0 };
    assert_eq!(ModiStreamData::new(vec![0; 6], &info).err(), Some(ModiStreamError::GlobalRefsSizeUndecodable));
    assert_eq!(
        ModiStreamData::new(vec![4, 0, 0, 0, 8, 0, 0, 0, 1, 2], &info).err(),
        Some(ModiStreamError::GlobalRefsExceedStream)
    );
    // A global refs size of 0xffff_ffff is read as no global refs.
    let m = ModiStreamData::new(vec![4, 0, 0, 0, 0xff, 0xff, 0xff, 0xff], &info).unwrap();
    assert_eq!(m.global_refs_size, 0);
    assert_eq!(m.global_refs().unwrap(), Vec::<u32>::new());
}

#[test]
fn modi_replace_sym_data_then_read() {
    let sym = [4u8, 0, 0, 0];
    let c13 = [7u8, 7];
    let (v, info) = modi_stream(&sym, &[], &c13, &[]);
    let mut m = ModiStreamData::new(v, &info).unwrap();
    let new_sym = [4u8, 0, 0, 0, 2, 0, 6, 0];
    m.replace_sym_data(&new_sym);
    assert_eq!(m.sym_byte_size, 8);
    assert_eq!(m.full_sym_data().unwrap(), &new_sym);
    assert_eq!(m.c13_line_data_bytes(), &c13);
    // Same size: overwritten in place.
    let same = [4u8, 0, 0, 0, 2, 0, 0x4c, 0x11];
    m.replace_sym_data(&same);
    assert_eq!(m.full_sym_data().unwrap(), &same);
    assert_eq!(m.stream_data.len(), 10);
    // The new stream, read with the new symbol size, has the layout of the old one.
    let info2 = ModuleInfoFixed { sym_byte_size: 8, c11_byte_size: 0, c13_byte_size: 2 };
    let again = ModiStreamData::new(m.stream_data.clone(), &info2).unwrap();
    assert_eq!(again.global_refs_size, 0);
    assert_eq!(again.c13_line_data_bytes(), &c13);
}

#[test]
fn modi_replace_sym_data_keeps_global_refs() {
    let (v, info) = modi_stream(&[4, 0, 0, 0], &[], &[], &[4, 0, 0, 0, 9, 0, 0, 0]);
    let mut m = ModiStreamData::new(v, &info).unwrap();
    m.replace_sym_data(&[4, 0, 0, 0, 2, 0, 6, 0, 2, 0, 6, 0]);
    assert_eq!(m.global_refs().unwrap(), vec![9]);
    let info2 = ModuleInfoFixed { sym_byte_size: 12, c11_byte_size: 0, c13_byte_size: 0 };
    let again = ModiStreamData::new(m.stream_data.clone(), &info2).unwrap();
    assert_eq!(again.global_refs_size, 4);
    assert_eq!(again.global_refs().unwrap(), vec![9]);
}

#[test]
fn modi_truncate_global_refs() {
    let (v, info) = modi_stream(&[4, 0, 0, 0], &[], &[1], &[4, 0, 0, 0, 5, 0, 0, 0]);
    let mut m = ModiStreamData::new(v, &info).unwrap();
    assert_eq!(m.global_refs().unwrap(), vec![5]);
    m.truncate_global_refs();
    assert_eq!(m.global_refs_size, 0);
    assert_eq!(m.stream_data, vec![4, 0, 0, 0, 1]);
    assert_eq!(m.global_refs().unwrap(), Vec::<u32>::new());
    let again = ModiStreamData::new(m.stream_data.clone(), &info).unwrap();
    assert_eq!(again.global_refs_size, 0);
}

#[test]
fn optional_debug_header_parse() {
    assert!(OptionalDebugHeader::parse(&[1, 2, 3]).is_err());
    let h = OptionalDebugHeader::parse(&[5, 0, 0xff, 0xff, 7, 0]).unwrap();
    assert_eq!(h.num_streams(), 3);
    assert_eq!(h.stream_by_index(0), Some(5));
    assert_eq!(h.stream_by_index(1), None);
    assert_eq!(h.stream_by_index(2), Some(7));
    assert_eq!(h.stream_by_index(3), None);
    assert_eq!(h.stream(OptionalDebugHeaderStream::fpo_data), Some(5));
    assert_eq!(h.stream(OptionalDebugHeaderStream::fixup_data), Some(7));
    assert_eq!(h.stream(OptionalDebugHeaderStream::xdata), None);
    let mut it = h.iter_streams();
    assert_eq!(it.next(), Some((0, 5)));
    assert_eq!(it.next(), Some((2, 7)));
    assert_eq!(it.next(), None);
    assert_eq!(it.next(), None);
}

#[test]
fn optional_debug_headers_iter() {
    let hs = OptionalDebugHeaders { streams: vec![0xffff, 12, 0xffff, 13] };
    assert_eq!(hs.iter(), vec![(OptionalDebugStream(1), 12), (OptionalDebugStream(3), 13)]);
}

#[test]
fn optional_debug_stream_names() {
    assert_eq!(OptionalDebugStream(FPO_DATA).name(), Some("fpo_data"));
    assert_eq!(OptionalDebugStream(PDATA).name(), Some("pdata"));
    assert_eq!(OptionalDebugStream(ORIGINAL_SECTION_HEADER_DATA).name(), Some("original_section_header_data"));
    assert_eq!(OptionalDebugStream(11).name(), None);
    assert_eq!(optional_debug_header_stream_name(3), Some("omap_to_src_data"));
    for i in 0..11usize {
        let s = OptionalDebugHeaderStream::try_from(i).unwrap();
        assert_eq!(s.index(), i);
    }
    assert!(OptionalDebugHeaderStream::try_from(11usize).is_err());
}

#[test]
fn section_map_parse() {
    let empty = SectionMap::parse(&[]).unwrap();
    assert_eq!(empty.header.num_segments, 0);
    assert!(empty.entries.is_empty());
    assert_eq!(SectionMap::parse(&[1, 0]).err(), Some(SectionMapError::HeaderTruncated));
    assert_eq!(SectionMap::parse(&[1, 0, 1, 0, 9]).err(), Some(SectionMapError::InvalidLength(5)));
    let mut bytes = vec![2, 0, 1, 0];
    bytes.extend_from_slice(&[0x0d, 0x01, 0, 0, 0, 0, 1, 0, 0xff, 0xff, 0xff, 0xff]);
    bytes.extend_from_slice(&0x10u32.to_le_bytes());
    bytes.extend_from_slice(&0x2000u32.to_le_bytes());
    let m = SectionMap::parse(&bytes).unwrap();
    assert_eq!(m.header.num_segments, 2);
    assert_eq!(m.header.num_logical_segments, 1);
    assert_eq!(m.entries.len(), 1);
    let e = m.entries[0];
    assert_eq!(e.flags, 0x010d);
    assert_eq!(e.frame, 1);
    assert_eq!(e.section_name, 0xffff);
    assert_eq!(e.offset, 0x10);
    assert_eq!(e.section_length, 0x2000);
    let f = e.flags();
    assert!(f.contains(READ));
    assert!(f.contains(EXECUTE));
    assert!(!f.contains(WRITE));
    assert!(!f.contains(IS_GROUP));
    assert_eq!(SectionMapEntryFlags::from_bits_retain(0x0d).bits(), 0x0d);
}

use ms_pdb::offset_segment::OffsetSegment;
use ms_pdb::parser::{Parser, ParserError};
use ms_pdb::sym_text::sym_line;
use ms_pdb::syms::{
    ArmSwitchTable, ArmSwitchType, Data, DataFixed, Proc, Sym, SymData, SymIter, SymKind, S_BUILDINFO,
    S_CONSTANT, S_END, S_GPROC32, S_GTHREAD32, S_REGREL32, S_UDT,
};

// Basic framing and decoding test
#[test]
fn test_parse_proc() {
    let data = &[
        /* 0x0000 */ 0x2e, 0, 0x10, 0x11,       // size and S_GPROC32
        /* 0x0004 */ 0, 0, 0, 0,                // p_parent
        /* 0x0008 */ 0x40, 0, 0, 0,             // p_end
        /* 0x000c */ 0, 0, 0, 0,                // p_next
        /* 0x0010 */ 42, 0, 0, 0,               // proc_len
        /* 0x0014 */ 10, 0, 0, 0,               // debug_start
        /* 0x0018 */ 20, 0, 0, 0,               // debug_end
        /* 0x001c */ 0xee, 0x10, 0, 0,          // proc_type
        /* 0x0020 */ 0xcc, 0x1, 0, 0,           // offset
        /* 0x0024 */ 1, 0, 0x50, b'm',          // segment, flags, beginning of name
        /* 0x0028 */ b'e', b'm', b's', b'e',    // name
        /* 0x002c */ b't', 0, 0xf1, 0xf2,       // end and padding
        /* 0x0030 */ 2, 0, 6, 0                 // size = 2 and S_END
        /* 0x0034 */
    ];

    let mut i = SymIter::new(data);

    let s0 = i.next().unwrap();
    assert_eq!(s0.kind, SymKind(S_GPROC32));
    assert_eq!(s0.data.len(), 0x2c);

    match s0.parse().unwrap() {
        SymData::Proc(proc) => {
            assert_eq!(proc.fixed.p_parent, 0);
            assert_eq!(proc.fixed.p_end, 0x40);
            assert_eq!(proc.name, b"memset");
        }
        _ => panic!(),
    }

    let s1 = i.next().unwrap();
    assert_eq!(s1.kind, SymKind(S_END));
    assert!(s1.data.is_empty());
}

#[test]
fn proc_fields_and_name() {
    let data = &[
        0x2e, 0, 0x10, 0x11, 0, 0, 0, 0, 0x40, 0, 0, 0, 0, 0, 0, 0, 42, 0, 0, 0, 10, 0, 0, 0, 20,
        0, 0, 0, 0xee, 0x10, 0, 0, 0xcc, 0x1, 0, 0, 1, 0, 0x50, b'm', b'e', b'm', b's', b'e', b't',
        0, 0xf1, 0xf2,
    ];
    let mut i = SymIter::new(data);
    let s0 = i.next().unwrap();
    let d = s0.parse().unwrap();
    assert_eq!(d.name(), Some(&b"memset"[..]));
    match d {
        SymData::Proc(proc) => {
            assert_eq!(proc.fixed.proc_len, 42);
            assert_eq!(proc.fixed.debug_start, 10);
            assert_eq!(proc.fixed.debug_end, 20);
            assert_eq!(proc.fixed.proc_type, 0x10ee);
            assert_eq!(proc.fixed.offset_segment, OffsetSegment::new(0x1cc, 1));
            assert_eq!(proc.fixed.flags, 0x50);
        }
        _ => panic!(),
    }
    assert!(i.next().is_none());
}

#[test]
fn iter_stops_at_a_partial_record() {
    // The length claims 6 bytes of payload, but only 2 follow.
    let data = &[8, 0, 0x06, 0, 1, 2];
    let mut i = SymIter::new(data);
    assert!(i.next().is_none());
    assert!(i.next().is_none());
}

#[test]
fn truncated_payload_does_not_parse() {
    // S_UDT needs a type index and a NUL-terminated name.
    let data = &[6, 0, (S_UDT & 0xff) as u8, (S_UDT >> 8) as u8, 1, 0, 0, 0];
    let mut i = SymIter::new(data);
    let s = i.next().unwrap();
    assert!(s.parse().is_err());
}

#[test]
fn offset_segment_accessors() {
    let o = OffsetSegment::new(0x1234, 3);
    assert_eq!(o.offset(), 0x1234);
    assert_eq!(o.segment(), 3);
    assert_eq!(o.as_u64(), (3u64 << 32) | 0x1234);
    assert!(OffsetSegment::new(0xffff_ffff, 1) < OffsetSegment::new(0, 2));
}

#[test]
fn offset_segment_bytes_round_trip() {
    let o = OffsetSegment::new(0x1234_5678, 0x9abc);
    let b = o.to_bytes();
    assert_eq!(b, vec![0x78, 0x56, 0x34, 0x12, 0xbc, 0x9a]);
    assert_eq!(OffsetSegment::decode(&b, 0), o);
}

#[test]
fn offset_segment_orders_as_tuple_and_key() {
    let a = OffsetSegment::new(0xffff_ffff, 1);
    let b = OffsetSegment::new(0, 2);
    let c = OffsetSegment::new(5, 2);
    assert_eq!(a.as_tuple(), (1, 0xffff_ffff));
    for (x, y) in [(a, b), (b, c), (a, c), (c, a), (b, b)] {
        assert_eq!(x < y, x.as_tuple() < y.as_tuple());
        assert_eq!(x < y, x.as_u64() < y.as_u64());
        assert_eq!(x == y, x.as_tuple() == y.as_tuple());
        assert_eq!(x.partial_cmp(&y), x.as_u64().partial_cmp(&y.as_u64()));
    }
}

#[test]
fn parse_as_ignores_kind_and_trailing_bytes() {
    let body: &[u8] = &[
        0, 0, 0, 0, 0x40, 0, 0, 0, 0, 0, 0, 0, 42, 0, 0, 0, 10, 0, 0, 0, 20, 0, 0, 0, 0xee, 0x10,
        0, 0, 0xcc, 1, 0, 0, 1, 0, 0x50, b'm', b'e', b'm', b's', b'e', b't', 0, 0xf1, 0xf2,
    ];
    for kind in [S_GPROC32, S_END] {
        let sym = Sym { kind: SymKind(kind), data: body };
        let proc: Proc = sym.parse_as().unwrap();
        assert_eq!(proc.name, b"memset");
        assert_eq!(proc.fixed.proc_len, 42);
        let mut p = Parser::new(body);
        let direct = <Proc as ms_pdb::syms::Parse>::from_parser(&mut p).unwrap();
        assert_eq!(direct.name, proc.name);
        assert_eq!(direct.fixed.proc_len, proc.fixed.proc_len);
        assert_eq!(p.len(), 2);
    }
    let short = Sym { kind: SymKind(S_GPROC32), data: &body[..20] };
    assert!(short.parse_as::<Proc>().is_err());
}

#[test]
fn data_debug_text() {
    let d = Data {
        header: DataFixed { type_: 0x1003, offset_segment: OffsetSegment::new(0x20, 2) },
        name: b"g_value",
    };
    assert_eq!(d.debug_string(), "Data: [0002:00000020] 4099 g_value");
}

#[test]
fn arm_switch_table_debug_text() {
    let t = ArmSwitchTable {
        offset_base: 0x10,
        sect_base: 1,
        switch_type: 4,
        offset_branch: 0x20,
        offset_table: 0x30,
        sect_branch: 1,
        sect_table: 2,
        num_entries: 5,
    };
    assert_eq!(
        t.debug_string(),
        "ArmSwitchTable { base: [0001:00000010], branch: [0001:00000020], table: [0002:00000030], switch_type: INT4, num_entries: 5 }"
    );
    assert_eq!(ArmSwitchType(11).debug_string(), "??11");
}

#[test]
fn names_of_public_and_label_records() {
    use_pub_record();
}

fn use_pub_record() {
    // S_PUB32: flags, offset, segment, name.
    let mut data = vec![0x10, 0, 0x0e, 0x11, 2, 0, 0, 0, 0x20, 0, 0, 0, 1, 0];
    data.extend_from_slice(b"main\0");
    data[0] = (data.len() - 2) as u8;
    let mut i = SymIter::new(&data);
    let s = i.next().unwrap();
    let d = s.parse().unwrap();
    assert_eq!(d.name(), Some(&b"main"[..]));

    // S_LABEL32: offset, segment, flags, name.
    let mut label = vec![0, 0, 0x05, 0x11, 0x30, 0, 0, 0, 1, 0, 0];
    label.extend_from_slice(b"done\0");
    label[0] = (label.len() - 2) as u8;
    let s = SymIter::new(&label).next().unwrap();
    assert_eq!(s.parse().unwrap().name(), Some(&b"done"[..]));

    // An S_END record has no name.
    assert_eq!(SymData::parse(SymKind(S_END), &[]).unwrap().name(), None);
}

#[test]
fn from_parser_consumes_exactly_the_record() {
    let body: Vec<u8> = vec![
        0, 0, 0, 0, 0x40, 0, 0, 0, 0, 0, 0, 0, 42, 0, 0, 0, 10, 0, 0, 0, 20, 0, 0, 0, 0xee, 0x10,
        0, 0, 0xcc, 0x1, 0, 0, 1, 0, 0x50, b'm', b'e', b'm', b's', b'e', b't', 0, 0xf1, 0xf2,
    ];
    let mut p = Parser::new(&body);
    let d = SymData::from_parser(SymKind(S_GPROC32), &mut p).unwrap();
    assert!(matches!(d, SymData::Proc(_)));
    assert_eq!(p.len(), 2);
    let mut p = Parser::new(&body);
    assert!(matches!(SymData::from_parser(SymKind(S_END), &mut p).unwrap(), SymData::End));
    assert_eq!(p.len(), body.len());
    let mut p = Parser::new(&body);
    assert!(matches!(SymData::from_parser(SymKind(0x7777), &mut p).unwrap(), SymData::Unknown));
    assert_eq!(p.len(), body.len());
}

fn ok((text, depth): (String, Result<u32, ParserError>)) -> (String, u32) {
    (text, depth.unwrap())
}

fn type_label(t: u32) -> String {
    format!("T{:x}", t)
}

fn item_name(t: u32) -> String {
    format!("I{:x}", t)
}

fn reg_name(r: u16) -> String {
    format!("R{}", r)
}

fn real_value(bits: u64, wide: bool) -> String {
    if wide {
        format!("{}", f64::from_bits(bits))
    } else {
        format!("{}", f32::from_bits(bits as u32))
    }
}

#[test]
fn sym_line_of_procedure_and_end() {
    let data = [
        0x2e, 0, 0x10, 0x11, 0, 0, 0, 0, 0x40, 0, 0, 0, 0, 0, 0, 0, 42, 0, 0, 0, 10, 0, 0, 0, 20, 0,
        0, 0, 0xee, 0x10, 0, 0, 0xcc, 0x1, 0, 0, 1, 0, 0x50, b'm', b'e', b'm', b's', b'e', b't', 0,
        0xf1, 0xf2, 2, 0, 6, 0,
    ];
    let mut i = SymIter::new(&data);
    let s0 = i.next().unwrap();
    let (text, depth) =
        ok(sym_line(s0.kind, s0.data, 0, 0, true, &type_label, &item_name, &reg_name, &real_value));
    assert_eq!(text, "\n00000000 : S_GPROC32: [0001:000001cc] ..+ 0x2a, T10ee memset\n");
    assert_eq!(depth, 1);
    let s1 = i.next().unwrap();
    let (text, depth) =
        ok(sym_line(s1.kind, s1.data, 0x30, depth, false, &type_label, &item_name, &reg_name, &real_value));
    assert_eq!(text, "  S_END: \n");
    assert_eq!(depth, 0);
    // An end at depth 0 leaves the depth at 0.
    let (_, depth) =
        ok(sym_line(s1.kind, s1.data, 0x30, 0, false, &type_label, &item_name, &reg_name, &real_value));
    assert_eq!(depth, 0);
}

#[test]
fn sym_line_of_other_kinds() {
    use_other_kinds();
}

fn use_other_kinds() {
    // S_UDT
    let udt = [0x03, 0x10, 0, 0, b'P', b't', 0];
    let (t, _) = ok(sym_line(SymKind(S_UDT), &udt, 0, 1, false, &type_label, &item_name, &reg_name, &real_value));
    assert_eq!(t, "  S_UDT: T1003 Pt\n");
    // S_CONSTANT with an LF_REAL32 value.
    let c = [0x74, 0, 0, 0, 0x05, 0x80, 0xdb, 0x0f, 0x49, 0x40, b'p', b'i', 0];
    let (t, _) = ok(sym_line(SymKind(S_CONSTANT), &c, 0, 0, false, &type_label, &item_name, &reg_name, &real_value));
    assert_eq!(t, "S_CONSTANT: T74 pi = 3.1415927\n");
    // S_CONSTANT with an immediate value.
    let c = [0x74, 0, 0, 0, 0x05, 0x00, b'n', 0];
    let (t, _) = ok(sym_line(SymKind(S_CONSTANT), &c, 0, 0, false, &type_label, &item_name, &reg_name, &real_value));
    assert_eq!(t, "S_CONSTANT: T74 n = 5\n");
    // S_REGREL32: offset, type, register, name.
    let r = [8, 0, 0, 0, 0x74, 0, 0, 0, 0x4f, 0x01, b'x', 0];
    let (t, _) = ok(sym_line(SymKind(S_REGREL32), &r, 0, 0, false, &type_label, &item_name, &reg_name, &real_value));
    assert_eq!(t, "S_REGREL32: R335 + 0x8, T74 x\n");
    // S_BUILDINFO
    let b = [0x34, 0x12, 0, 0];
    let (t, _) = ok(sym_line(SymKind(S_BUILDINFO), &b, 0, 0, false, &type_label, &item_name, &reg_name, &real_value));
    assert_eq!(t, "S_BUILDINFO: I1234\n");
    // S_GTHREAD32: type, offset, segment, name; the type in upper-case hex, four digits at least.
    let th = [0xab, 0, 0, 0, 0x10, 0, 0, 0, 3, 0, b't', 0];
    let (t, _) = ok(sym_line(SymKind(S_GTHREAD32), &th, 0, 0, false, &type_label, &item_name, &reg_name, &real_value));
    assert_eq!(t, "S_GTHREAD32: [0003:00000010], Type: 0x00AB, t\n");
    // An unknown kind.
    let (t, _) = ok(sym_line(SymKind(0x7777), &[], 0, 0, false, &type_label, &item_name, &reg_name, &real_value));
    assert_eq!(t, "??(0x7777): Unknown\n");
    // A payload that does not decode.
    // A payload that does not decode: the start of the line is given back with the error.
    let (t, r) = sym_line(SymKind(S_UDT), &[1, 0], 0, 1, false, &type_label, &item_name, &reg_name, &real_value);
    assert!(r.is_err());
    assert_eq!(t, "  S_UDT: ");
    let (t, r) = sym_line(SymKind(S_GPROC32), &[1, 0], 0x10, 0, true, &type_label, &item_name, &reg_name, &real_value);
    assert!(r.is_err());
    assert_eq!(t, "\n00000010 : S_GPROC32: ");
}

#[test]
fn sym_at_finds_the_record_at_an_offset() {
    // An S_END record at offset 0, then an S_UDT record at offset 4.
    let recs = [2, 0, 6, 0, 0x08, 0, 0x08, 0x11, 0x74, 0, 0, 0, b'n', 0];
    let s = ms_pdb::syms::sym_at(&recs, 4).unwrap();
    assert_eq!(s.kind, SymKind(S_UDT));
    assert_eq!(s.data, &recs[4..][4..]);
    assert_eq!(ms_pdb::syms::sym_at(&recs, 0).unwrap().kind, SymKind(S_END));
    assert!(ms_pdb::syms::sym_at(&recs, 12).is_none());
    assert!(ms_pdb::syms::sym_at(&recs, 14).is_none());
    assert!(ms_pdb::syms::sym_at(&recs, 100).is_none());
}

use ms_pdb::arch::{arch_from_machine, Arch, ArchReg};
use ms_pdb::binding::{BindingKey, LINKER_MODULE_NAME};
use ms_pdb::find::{find_names_matching, keep_matched, named_records, parse_find_query, parse_hex_u32, FindQuery, InvalidAddress, NameRegex};
use ms_pdb::machine::{IMAGE_FILE_MACHINE, IMAGE_FILE_MACHINE_AMD64};
use ms_pdb::once::get_or_init_err;
use ms_pdb::sym_listing::{list_records, select_modules, ModuleNotFound};
use ms_pdb::syms::{S_END, S_GDATA32, S_UDT};
use ms_pdb::text::str_eq;

fn record(kind: u16, payload: &[u8]) -> Vec<u8> {
    let len = (payload.len() + 2) as u16;
    let mut v = vec![len as u8, (len >> 8) as u8, kind as u8, (kind >> 8) as u8];
    v.extend_from_slice(payload);
    v
}

fn data_record(name: &str) -> Vec<u8> {
    let mut p = vec![0u8; 10];
    p.extend_from_slice(name.as_bytes());
    p.push(0);
    record(S_GDATA32, &p)
}

#[test]
fn machine_names() {
    assert_eq!(IMAGE_FILE_MACHINE(IMAGE_FILE_MACHINE_AMD64).to_str(), "IMAGE_FILE_MACHINE_AMD64");
    assert_eq!(IMAGE_FILE_MACHINE(0x1234).to_str_opt(), None);
    assert_eq!(IMAGE_FILE_MACHINE(0x1234).debug_string(), "??0x1234");
}

#[test]
fn hex_parsing() {
    assert_eq!(parse_hex_u32(b"1aF"), Some(0x1af));
    assert_eq!(parse_hex_u32(b"+10"), Some(0x10));
    assert_eq!(parse_hex_u32(b"ffffffff"), Some(0xffff_ffff));
    assert_eq!(parse_hex_u32(b"100000000"), None);
    assert_eq!(parse_hex_u32(b""), None);
    assert_eq!(parse_hex_u32(b"+"), None);
    assert_eq!(parse_hex_u32(b"-1"), None);
    assert_eq!(parse_hex_u32(b"12g"), None);
    // The same answers as std.
    for s in ["1aF", "+10", "ffffffff", "100000000", "", "+", "-1", "12g", "0000000000001"] {
        assert_eq!(parse_hex_u32(s.as_bytes()), u32::from_str_radix(s, 16).ok(), "{s}");
    }
}

#[test]
fn find_query() {
    assert_eq!(parse_find_query("0x1000"), Ok(FindQuery::Address(0x1000)));
    assert_eq!(parse_find_query("0xzz"), Err(InvalidAddress));
    assert_eq!(parse_find_query("0x"), Err(InvalidAddress));
    assert_eq!(parse_find_query("memset"), Ok(FindQuery::Name));
    assert_eq!(parse_find_query("0X10"), Ok(FindQuery::Name));
}

#[test]
fn regex_search_of_names() {
    let mut stream = Vec::new();
    stream.extend_from_slice(&data_record("alpha"));
    stream.extend_from_slice(&record(S_END, &[]));
    let second = stream.len();
    stream.extend_from_slice(&data_record("beta"));
    stream.extend_from_slice(&data_record("alphabet"));
    let rx = NameRegex::new("^alpha").unwrap();
    assert!(rx.is_match(b"alphabet"));
    assert!(!rx.is_match(b"beta"));
    let (found, status) = find_names_matching(&stream, &rx);
    assert!(status.is_ok());
    let offsets: Vec<u32> = found.iter().map(|r| r.offset).collect();
    let third = second + data_record("beta").len();
    assert_eq!(offsets, vec![0, third as u32]);
    assert_eq!(found[0].kind, S_GDATA32);
    assert_eq!(found[0].end, data_record("alpha").len());
    assert!(NameRegex::new("(unclosed").is_err());
    // The error holds the description that regex gives.
    let e = NameRegex::new("(unclosed").err().unwrap();
    assert!(e.0.contains("unclosed group"), "{}", e.0);
}

#[test]
fn named_records_then_kept_by_outcome() {
    let mut stream = Vec::new();
    stream.extend_from_slice(&data_record("one"));
    stream.extend_from_slice(&record(S_END, &[]));
    let second = stream.len();
    stream.extend_from_slice(&data_record("two"));
    stream.extend_from_slice(&data_record("three"));
    let (named, status) = named_records(&stream);
    assert!(status.is_ok());
    let names: Vec<&[u8]> = named.iter().map(|n| n.name).collect();
    assert_eq!(names, vec![&b"one"[..], &b"two"[..], &b"three"[..]]);
    assert_eq!(named[1].record.offset, second as u32);
    // Only the records whose outcome is true are kept, in order.
    let kept = keep_matched(&named, &[false, true, true]);
    assert_eq!(kept.iter().map(|r| r.offset).collect::<Vec<_>>(), vec![named[1].record.offset, named[2].record.offset]);
    assert!(keep_matched(&named, &[false, false, false]).is_empty());
    assert_eq!(keep_matched(&named, &[true, false, false]), vec![named[0].record]);
}

#[test]
fn regex_search_stops_at_undecodable_record() {
    let mut stream = Vec::new();
    stream.extend_from_slice(&data_record("alpha"));
    stream.extend_from_slice(&record(S_UDT, &[1, 0]));
    stream.extend_from_slice(&data_record("alpha2"));
    let rx = NameRegex::new("alpha").unwrap();
    let (found, status) = find_names_matching(&stream, &rx);
    assert!(status.is_err());
    assert_eq!(found.len(), 1);
}

#[test]
fn listing_skip_and_max() {
    let mut stream = Vec::new();
    for name in ["a", "b", "c", "d"] {
        stream.extend_from_slice(&data_record(name));
    }
    let n = data_record("a").len() as u32;
    let all = list_records(&stream, None, None, 4);
    assert_eq!(all.iter().map(|r| r.offset).collect::<Vec<_>>(), vec![4, 4 + n, 4 + 2 * n, 4 + 3 * n]);
    let some = list_records(&stream, Some(1), Some(2), 0);
    assert_eq!(some.iter().map(|r| r.start).collect::<Vec<_>>(), vec![n as usize, 2 * n as usize]);
    // A limit of zero shows no record.
    assert!(list_records(&stream, None, Some(0), 0).is_empty());
    assert_eq!(list_records(&stream, None, Some(10), 0).len(), 4);
    assert!(list_records(&stream, Some(10), None, 0).is_empty());
}

#[test]
fn module_selection() {
    assert_eq!(select_modules(3, None), Ok(vec![0, 1, 2]));
    assert_eq!(select_modules(3, Some(1)), Ok(vec![1]));
    assert_eq!(select_modules(3, Some(3)), Err(ModuleNotFound(3)));
}

#[test]
fn binding_key_text() {
    let guid = [
        0x67, 0xe5, 0x54, 0x50, 0xb0, 0xe8, 0x11, 0xd1, 0x8a, 0xc1, 0x00, 0xa0, 0xc9, 0x0e, 0x5c,
        0x9a,
    ];
    let k = BindingKey { guid, age: 3 };
    assert_eq!(k.debug_string(), "67e55450-b0e8-11d1-8ac1-00a0c90e5c9a age 3");
    let k = BindingKey { guid, age: 0x2000 };
    assert_eq!(k.debug_string(), "67e55450-b0e8-11d1-8ac1-00a0c90e5c9a age 0x2000");
    assert_eq!(LINKER_MODULE_NAME, "* Linker *");
}

#[test]
fn once_cell_fills_once() {
    let mut cell: Option<u32> = None;
    let r: Result<&u32, ()> = get_or_init_err(&mut cell, || Err(()));
    assert!(r.is_err());
    assert_eq!(cell, None);
    assert_eq!(*get_or_init_err(&mut cell, || Ok::<u32, ()>(5)).unwrap(), 5);
    assert_eq!(*get_or_init_err(&mut cell, || Ok::<u32, ()>(6)).unwrap(), 5);
    assert_eq!(cell, Some(5));
}

#[test]
fn string_equality() {
    assert!(str_eq("abc", "abc"));
    assert!(!str_eq("abc", "abd"));
    assert!(!str_eq("ab", "abc"));
    assert!(str_eq("é", "é"));
}

#[test]
fn arch_of_machine() {
    assert_eq!(arch_from_machine(0x8664), Some(Arch::AMD64));
    assert_eq!(arch_from_machine(0x014c), None);
    assert_eq!(arch_from_machine(0xaa64), None);
    let r = ArchReg::new(Arch::X86, 17);
    assert_eq!((r.arch, r.reg), (Arch::X86, 17));
}

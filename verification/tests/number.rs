use ms_pdb::number::{
    parse_number, Leaf, Number, NumberText, LF_COMPLEX128, LF_COMPLEX32, LF_COMPLEX64,
    LF_COMPLEX80, LF_DATE, LF_DECIMAL, LF_REAL128, LF_REAL16, LF_REAL48, LF_REAL80,
    LF_UTF8STRING, LF_VARSTRING,
};
use ms_pdb::parser::Parser;

fn f32_of(n: &Number<'_>) -> Option<f32> {
    let b = n.real32_bytes().ok()?;
    Some(f32::from_le_bytes([b[0], b[1], b[2], b[3]]))
}

/// The `f64` value of an `LF_REAL64`, or of an `LF_REAL32` by way of its `f32` value.
fn f64_of(n: &Number<'_>) -> Option<f64> {
    if let Ok(b) = n.real64_bytes() {
        return Some(f64::from_le_bytes([b[0], b[1], b[2], b[3], b[4], b[5], b[6], b[7]]));
    }
    f32_of(n).map(f64::from)
}

fn text_of(n: &Number<'_>) -> String {
    match n.display_text() {
        NumberText::Text(t) => t,
        NumberText::Real32(b) => format!("{}", f32::from_le_bytes([b[0], b[1], b[2], b[3]])),
        NumberText::Real64(b) => format!(
            "{}",
            f64::from_le_bytes([b[0], b[1], b[2], b[3], b[4], b[5], b[6], b[7]])
        ),
    }
}

#[test]
fn number_error() {
    assert!(Number::parse(&[]).is_err()); // too short
    assert!(Number::parse(&[0]).is_err()); // also too short
    assert!(Number::parse(&[0xff, 0xff]).is_err()); // unrecognized kind
}

#[test]
fn number_immediate() {
    // Values below 0x8000 are literal uint16 constants.
    let n = parse_number(&[0xaa, 0x70]);
    assert_eq!(n.as_bytes(), &[0xaa, 0x70]);
    assert_eq!(u32::try_from(n).unwrap(), 0x70aa);
}

#[test]
fn number_char() {
    // LF_CHAR
    let n = parse_number(&[0x00, 0x80, (-33i8) as u8]);
    assert_eq!(i32::try_from(n).unwrap(), -33);

    assert!(f32_of(&n).is_none());
    assert!(f64_of(&n).is_none());
    assert!(n.to_str_bytes().is_err());
}

#[test]
fn number_short() {
    // LF_SHORT
    let n = parse_number(&[0x01, 0x80, 0xaa, 0x55]);
    assert_eq!(i32::try_from(n).unwrap(), 0x55aa_i32);
    assert_eq!(u32::try_from(n).unwrap(), 0x55aa_u32);

    let n = parse_number(&[0x01, 0x80, 0x55, 0xaa]);
    assert_eq!(i32::try_from(n).unwrap(), -21931_i32);
    assert!(u32::try_from(n).is_err());

    assert!(f32_of(&n).is_none());
    assert!(f64_of(&n).is_none());
    assert!(n.to_str_bytes().is_err());
}

#[test]
fn number_long() {
    // LF_LONG
    let n = parse_number(&[0x03, 0x80, 1, 2, 3, 4]);
    assert_eq!(u32::try_from(n).unwrap(), 0x04030201_u32);
    assert_eq!(i32::try_from(n).unwrap(), 0x04030201_i32);
    assert!(u16::try_from(n).is_err());
    assert!(i16::try_from(n).is_err());
    assert!(u8::try_from(n).is_err());
    assert!(i8::try_from(n).is_err());

    // unsigned cannot decode negative numbers
    let n = parse_number(&[0x03, 0x80, 0xfe, 0xff, 0xff, 0xff]);
    assert!(u8::try_from(n).is_err());
    assert!(u16::try_from(n).is_err());
    assert!(u32::try_from(n).is_err());
    assert!(u64::try_from(n).is_err());
    assert!(u128::try_from(n).is_err());
    assert_eq!(i8::try_from(n).unwrap(), -2);
    assert_eq!(i16::try_from(n).unwrap(), -2);
    assert_eq!(i32::try_from(n).unwrap(), -2);
    assert_eq!(i64::try_from(n).unwrap(), -2);
    assert_eq!(i128::try_from(n).unwrap(), -2);

    assert!(f32_of(&n).is_none());
    assert!(f64_of(&n).is_none());
    assert!(n.to_str_bytes().is_err());
}

#[test]
fn number_real32() {
    let pi = std::f32::consts::PI;

    let b: [u8; 4] = pi.to_le_bytes();
    assert_eq!(b, [0xdb, 0x0f, 0x49, 0x40]); // 0x400490fdb, pi in f32
    println!("f32 PI bytes: {:#x?}", b);

    // 8005 is LF_REAL32
    let n = parse_number(&[0x05, 0x80, 0xdb, 0x0f, 0x49, 0x40]);

    // LF_REAL32 is not convertible to any of the integer types
    assert!(u8::try_from(n).is_err());
    assert!(u16::try_from(n).is_err());
    assert!(u32::try_from(n).is_err());
    assert!(u64::try_from(n).is_err());
    assert!(u128::try_from(n).is_err());

    assert!(i8::try_from(n).is_err());
    assert!(i16::try_from(n).is_err());
    assert!(i32::try_from(n).is_err());
    assert!(i64::try_from(n).is_err());
    assert!(i128::try_from(n).is_err());

    // Floating-point exact equality can be weird.
    assert_eq!(f32_of(&n).unwrap(), pi);

    // An LF_REAL32 also converts to f64; the value is not compared, since floating-point is
    // weird.
    let _ = f64_of(&n).unwrap();
}

#[test]
fn number_real64() {
    let pi = std::f64::consts::PI;

    let b: [u8; 8] = pi.to_le_bytes();
    assert_eq!(b, [0x18, 0x2d, 0x44, 0x54, 0xfb, 0x21, 0x9, 0x40]);
    println!("f64 PI bytes: {:#x?}", b);

    // 8006 is LF_REAL64
    let n = parse_number(&[0x06, 0x80, 0x18, 0x2d, 0x44, 0x54, 0xfb, 0x21, 0x9, 0x40]);

    // LF_REAL64 is not convertible to any of the integer types
    assert!(u8::try_from(n).is_err());
    assert!(u16::try_from(n).is_err());
    assert!(u32::try_from(n).is_err());
    assert!(u64::try_from(n).is_err());
    assert!(u128::try_from(n).is_err());

    assert!(i8::try_from(n).is_err());
    assert!(i16::try_from(n).is_err());
    assert!(i32::try_from(n).is_err());
    assert!(i64::try_from(n).is_err());
    assert!(i128::try_from(n).is_err());

    // Floating-point exact equality can be weird.
    assert_eq!(f64_of(&n).unwrap(), pi);
}

#[test]
fn number_strz() {
    let n = parse_number(b"\x1b\x80Hello, world\0");
    assert_eq!(n.kind(), Leaf(LF_UTF8STRING));
    assert_eq!(n.to_str_bytes().unwrap(), b"Hello, world");

    let n = parse_number(&[0x00, 0x80, (-33i8) as u8]);
    assert!(n.to_str_bytes().is_err());
}

#[test]
fn number_varstring() {
    let s = parse_number(b"\x10\x80\x0c\x00Hello, world");
    assert_eq!(s.kind(), Leaf(LF_VARSTRING));
    assert_eq!(s.to_str_bytes().unwrap(), b"Hello, world");
}

#[test]
fn number_unsupported_types() {
    // We can test decoding the prefix for these types, even if we can't currently display them
    // or convert them to something useful.
    let cases: &[(Leaf, usize)] = &[
        (Leaf(LF_REAL80), 10),
        (Leaf(LF_REAL128), 16),
        (Leaf(LF_REAL48), 6),
        (Leaf(LF_COMPLEX32), 8),
        (Leaf(LF_COMPLEX64), 16),
        (Leaf(LF_COMPLEX80), 20),
        (Leaf(LF_COMPLEX128), 32),
        (Leaf(LF_DECIMAL), 16),
        (Leaf(LF_DATE), 8),
        (Leaf(LF_REAL16), 2),
    ];

    for &(kind, num_zeroes) in cases.iter() {
        let mut input = vec![0; 2 + num_zeroes];
        input[0] = kind.0 as u8;
        input[1] = (kind.0 >> 8) as u8;
        let n = parse_number(&input);
        assert_eq!(kind, n.kind());
    }
}

#[test]
fn display() {
    let cases: &[(&[u8], &str)] = &[
        (&[0x01, 0x04], "immediate 1025"),
        (&[0x00, 0x80, 0xff], "LF_CHAR -1"),
        (&[0x01, 0x80, 0xfe, 0xff], "LF_SHORT -2"),
        (&[0x02, 0x80, 0xfd, 0xff], "LF_USHORT 65533"),
        (&[0x03, 0x80, 0xfc, 0xff, 0xff, 0xff], "LF_LONG -4"),
        (&[0x04, 0x80, 0x00, 0x00, 0x02, 0x00], "LF_ULONG 131072"),
        (&[0x05, 0x80, 0xdb, 0x0f, 0x49, 0x40], "LF_REAL32 3.1415927"),
        (
            &[0x06, 0x80, 0x18, 0x2d, 0x44, 0x54, 0xfb, 0x21, 0x9, 0x40],
            "LF_REAL64 3.141592653589793",
        ),
        (
            &[0x09, 0x80, 0xfb, 0xff, 0xff, 0xff, 0xff, 0xff, 0xff, 0xff],
            "LF_QUADWORD -5",
        ),
        (
            &[0x0a, 0x80, 0x00, 0xe4, 0x0b, 0x54, 0x02, 0x00, 0x00, 0x00],
            "LF_UQUADWORD 10000000000",
        ),
        (
            &[
                0x17, 0x80, 0xfa, 0xff, 0xff, 0xff, 0xff, 0xff, 0xff, 0xff, 0xff, 0xff, 0xff, 0xff,
                0xff, 0xff, 0xff, 0xff,
            ],
            "LF_OCTWORD -6",
        ),
        (
            &[
                0x18, 0x80, 0x01, 0x00, 0x00, 0x00, 0x00, 0x00, 0x00, 0x00, 0x00, 0x00, 0x00, 0x00,
                0x00, 0x00, 0x00, 0x00,
            ],
            "LF_UOCTWORD 1",
        ),
    ];

    for &(input, expected_output) in cases.iter() {
        let mut p = Parser::new(input);
        let leaf = Leaf(p.u16().unwrap());

        let n = parse_number(input);

        let actual_output = if leaf.is_immediate_numeric() {
            format!("immediate {}", text_of(&n))
        } else {
            format!("{} {}", leaf.debug_string(), text_of(&n))
        };

        assert_eq!(actual_output, expected_output, "bytes: {:#x?}", input);
    }
}

#[test]
fn display_bogus() {
    // A number over a kind that parsing does not accept still has a text: `??`, the kind
    // and a hex dump of its bytes.
    let bogus_num = Number::from_raw_bytes(&[0xff, 0xff, 0xaa, 0xaa, 0xaa]);
    println!("bogus_num = {}", text_of(&bogus_num));
}

#[test]
fn display_bogus_text_names_the_kind() {
    let bogus_num = Number::from_raw_bytes(&[0xff, 0xff, 0xaa, 0xaa, 0xaa]);
    let t = text_of(&bogus_num);
    assert!(t.starts_with("?? "));
    assert!(t.contains(&Leaf(0xffff).debug_string()));
    assert!(t.contains("Length: 5 (0x5) bytes"));
    assert!(t.contains("ff ff aa aa"));
}

#[test]
fn number_string_display() {
    let n = parse_number(b"\x10\x80\x0c\x00Hello, world");
    assert_eq!(text_of(&n), "Hello, world");
    let n = parse_number(b"\x1b\x80Hi\0");
    assert_eq!(text_of(&n), "Hi");
}

#[test]
fn number_parse_consumes_only_the_number() {
    let bytes = [0x02, 0x80, 0x34, 0x12, 0xee, 0xee];
    let n = Number::parse(&bytes).unwrap();
    assert_eq!(n.as_bytes(), &[0x02, 0x80, 0x34, 0x12]);
    assert_eq!(u16::try_from(n).unwrap(), 0x1234);
}

#[test]
fn number_truncated_payload_is_error() {
    assert!(Number::parse(&[0x03, 0x80, 1, 2, 3]).is_err());
    assert!(Number::parse(&[0x1b, 0x80, b'a', b'b']).is_err());
    assert!(Number::parse(&[0x10, 0x80, 5, 0, b'a']).is_err());
}

#[test]
fn number_wide_values() {
    let n = parse_number(&[0x0a, 0x80, 0, 0xe4, 0x0b, 0x54, 0x02, 0, 0, 0]);
    assert_eq!(u64::try_from(n).unwrap(), 10_000_000_000);
    assert!(u32::try_from(n).is_err());
    assert_eq!(i64::try_from(n).unwrap(), 10_000_000_000);
    let n = parse_number(&[
        0x17, 0x80, 0xfa, 0xff, 0xff, 0xff, 0xff, 0xff, 0xff, 0xff, 0xff, 0xff, 0xff, 0xff, 0xff,
        0xff, 0xff, 0xff,
    ]);
    assert_eq!(i128::try_from(n).unwrap(), -6);
    assert!(u128::try_from(n).is_err());
}

#[test]
fn leaf_names() {
    assert_eq!(Leaf(0x8000).debug_string(), "LF_CHAR");
    assert_eq!(Leaf(0x801b).numeric_name(), Some("LF_UTF8STRING"));
    assert_eq!(Leaf(0x1234).numeric_name(), None);
}

#[test]
fn number_displayable_only_when_whole() {
    // An immediate value, a whole LF_LONG and a whole string display.
    assert!(Number::from_raw_bytes(&[0x34, 0x12]).is_displayable());
    assert!(Number::from_raw_bytes(&[0x03, 0x80, 1, 2, 3, 4]).is_displayable());
    assert!(Number::from_raw_bytes(&[0x10, 0x80, 2, 0, b'h', b'i']).is_displayable());
    // Without its kind, or with its value cut short, a number does not display.
    assert!(!Number::from_raw_bytes(&[0x34]).is_displayable());
    assert!(!Number::from_raw_bytes(&[0x03, 0x80, 1, 2]).is_displayable());
    assert!(!Number::from_raw_bytes(&[0x10, 0x80, 5, 0, b'h']).is_displayable());
    // Whatever decodes as a number displays.
    let n = parse_number(&[0x01, 0x80, 0xfe, 0xff]);
    assert!(n.is_displayable());
    assert_eq!(text_of(&n), "-2");
}

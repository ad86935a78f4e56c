//! Numeric leaves: the variable-length numeric constants embedded in CodeView type and
//! symbol records.
//!
//! A numeric leaf begins with a little-endian `u16`. A value below `0x8000` is itself the
//! number (an immediate). Otherwise the `u16` is a leaf kind (`LF_CHAR`, `LF_LONG`, ...)
//! and the value follows it.

use crate::parser::{lemma_le_skip, lemma_skip_skip, lemma_first_nul, le_u128_at, le_u16_at, le_u32_at, le_u64_at, twos_complement, has_nul, first_nul, Parser, ParserError};
use crate::text::{push_char, push_signed_decimal, push_hex_fixed, push_bstr, push_hex_dump, signed_decimal, hex_fixed, bstr_display, pretty_hex_dump};
use core::num::TryFromIntError;
use vstd::prelude::*;
use vstd::string::*;

verus! {

/// A CodeView leaf kind.
#[derive(Clone, Copy, Debug, PartialEq, Eq, Structural, PartialOrd, Ord, Hash)]
pub struct Leaf(pub u16);

/// `LF_CHAR`: a signed 1-byte value follows.
pub const LF_CHAR: u16 = 0x8000;
/// `LF_SHORT`: a signed 2-byte value follows.
pub const LF_SHORT: u16 = 0x8001;
/// `LF_USHORT`: an unsigned 2-byte value follows.
pub const LF_USHORT: u16 = 0x8002;
/// `LF_LONG`: a signed 4-byte value follows.
pub const LF_LONG: u16 = 0x8003;
/// `LF_ULONG`: an unsigned 4-byte value follows.
pub const LF_ULONG: u16 = 0x8004;
/// `LF_REAL32`: a 4-byte floating-point value follows.
pub const LF_REAL32: u16 = 0x8005;
/// `LF_REAL64`: an 8-byte floating-point value follows.
pub const LF_REAL64: u16 = 0x8006;
/// `LF_REAL80`: a 10-byte floating-point value follows.
pub const LF_REAL80: u16 = 0x8007;
/// `LF_REAL128`: a 16-byte floating-point value follows.
pub const LF_REAL128: u16 = 0x8008;
/// `LF_QUADWORD`: a signed 8-byte value follows.
pub const LF_QUADWORD: u16 = 0x8009;
/// `LF_UQUADWORD`: an unsigned 8-byte value follows.
pub const LF_UQUADWORD: u16 = 0x800a;
/// `LF_REAL48`: a 6-byte floating-point value follows.
pub const LF_REAL48: u16 = 0x800b;
/// `LF_COMPLEX32`: an 8-byte complex value follows.
pub const LF_COMPLEX32: u16 = 0x800c;
/// `LF_COMPLEX64`: a 16-byte complex value follows.
pub const LF_COMPLEX64: u16 = 0x800d;
/// `LF_COMPLEX80`: a 20-byte complex value follows.
pub const LF_COMPLEX80: u16 = 0x800e;
/// `LF_COMPLEX128`: a 32-byte complex value follows.
pub const LF_COMPLEX128: u16 = 0x800f;
/// `LF_VARSTRING`: a `u16` length and that many bytes follow.
pub const LF_VARSTRING: u16 = 0x8010;
/// `LF_OCTWORD`: a signed 16-byte value follows.
pub const LF_OCTWORD: u16 = 0x8017;
/// `LF_UOCTWORD`: an unsigned 16-byte value follows.
pub const LF_UOCTWORD: u16 = 0x8018;
/// `LF_DECIMAL`: a 16-byte decimal value follows.
pub const LF_DECIMAL: u16 = 0x8019;
/// `LF_DATE`: an 8-byte date follows.
pub const LF_DATE: u16 = 0x801a;
/// `LF_UTF8STRING`: a NUL-terminated UTF-8 string follows.
pub const LF_UTF8STRING: u16 = 0x801b;
/// `LF_REAL16`: a 2-byte floating-point value follows.
pub const LF_REAL16: u16 = 0x801c;

impl Leaf {
    /// A value below `0x8000` in the leaf position is an immediate number, not a leaf kind.
    pub fn is_immediate_numeric(self) -> (b: bool)
        ensures
            b == (self.0 < 0x8000),
    {
        self.0 < 0x8000
    }
}


/// The number of bytes that follow the kind of a numeric leaf whose payload has a fixed
/// size; `None` for the immediates, `LF_VARSTRING`, `LF_UTF8STRING` and kinds that are
/// not numeric leaves.
pub open spec fn fixed_payload_len(leaf: u16) -> Option<int> {
    if leaf == LF_CHAR {
        Some(1)
    } else if leaf == LF_SHORT || leaf == LF_USHORT || leaf == LF_REAL16 {
        Some(2)
    } else if leaf == LF_LONG || leaf == LF_ULONG || leaf == LF_REAL32 {
        Some(4)
    } else if leaf == LF_REAL48 {
        Some(6)
    } else if leaf == LF_REAL64 || leaf == LF_QUADWORD || leaf == LF_UQUADWORD || leaf
        == LF_COMPLEX32 || leaf == LF_DATE {
        Some(8)
    } else if leaf == LF_REAL80 {
        Some(10)
    } else if leaf == LF_REAL128 || leaf == LF_COMPLEX64 || leaf == LF_OCTWORD || leaf
        == LF_UOCTWORD || leaf == LF_DECIMAL {
        Some(16)
    } else if leaf == LF_COMPLEX80 {
        Some(20)
    } else if leaf == LF_COMPLEX128 {
        Some(32)
    } else {
        None
    }
}

/// The length in bytes of the numeric leaf at the start of `s`, kind included; `None`
/// where `s` does not begin with a complete numeric leaf of a recognized kind.
pub open spec fn number_len(s: Seq<u8>) -> Option<int> {
    if s.len() < 2 {
        None
    } else {
        let leaf = le_u16_at(s, 0);
        if leaf < 0x8000 {
            Some(2)
        } else if leaf == LF_VARSTRING {
            if s.len() < 4 || s.len() < 4 + le_u16_at(s, 2) {
                None
            } else {
                Some(4 + le_u16_at(s, 2))
            }
        } else if leaf == LF_UTF8STRING {
            if has_nul(s.skip(2)) {
                Some(2 + first_nul(s.skip(2)) + 1)
            } else {
                None
            }
        } else {
            match fixed_payload_len(leaf as u16) {
                Some(k) => if 2 + k <= s.len() {
                    Some(2 + k)
                } else {
                    None
                },
                None => None,
            }
        }
    }
}

/// The integer value of the numeric leaf encoded by `s`: the immediate, or the value of an
/// integer leaf kind (`LF_CHAR`, `LF_SHORT`, `LF_USHORT`, `LF_LONG`, `LF_ULONG`,
/// `LF_QUADWORD`, `LF_UQUADWORD`, `LF_OCTWORD`, `LF_UOCTWORD`). `None` for other kinds and
/// for input too short to hold the value.
pub open spec fn number_int_value(s: Seq<u8>) -> Option<int> {
    if s.len() < 2 {
        None
    } else {
        let leaf = le_u16_at(s, 0);
        if leaf < 0x8000 {
            Some(leaf)
        } else if leaf == LF_CHAR {
            if s.len() < 3 { None } else { Some(twos_complement(s[2] as int, 0x80)) }
        } else if leaf == LF_SHORT {
            if s.len() < 4 { None } else { Some(twos_complement(le_u16_at(s, 2), 0x8000)) }
        } else if leaf == LF_USHORT {
            if s.len() < 4 { None } else { Some(le_u16_at(s, 2)) }
        } else if leaf == LF_LONG {
            if s.len() < 6 { None } else { Some(twos_complement(le_u32_at(s, 2), 0x8000_0000)) }
        } else if leaf == LF_ULONG {
            if s.len() < 6 { None } else { Some(le_u32_at(s, 2)) }
        } else if leaf == LF_QUADWORD {
            if s.len() < 10 {
                None
            } else {
                Some(twos_complement(le_u64_at(s, 2), 0x8000_0000_0000_0000))
            }
        } else if leaf == LF_UQUADWORD {
            if s.len() < 10 { None } else { Some(le_u64_at(s, 2)) }
        } else if leaf == LF_OCTWORD {
            if s.len() < 18 {
                None
            } else {
                Some(twos_complement(le_u128_at(s, 2), 0x8000_0000_0000_0000_0000_0000_0000_0000))
            }
        } else if leaf == LF_UOCTWORD {
            if s.len() < 18 { None } else { Some(le_u128_at(s, 2)) }
        } else {
            None
        }
    }
}

/// A numeric constant defined within a CodeView type or symbol record.
///
/// # References
/// * "Numeric Leaves" section of PDB specification.
#[derive(Clone, Copy, Debug)]
pub struct Number<'a> {
    bytes: &'a [u8],
}

impl<'a> View for Number<'a> {
    type V = Seq<u8>;

    /// The encoded bytes of the number, kind included.
    closed spec fn view(&self) -> Seq<u8> {
        self.bytes@
    }
}

/// The integer value of a number, held in the widest type of its signedness.
enum IntValue {
    Unsigned(u128),
    Signed(i128),
}

impl IntValue {
    spec fn value(self) -> int {
        match self {
            IntValue::Unsigned(u) => u as int,
            IntValue::Signed(i) => i as int,
        }
    }
}

/// The error value of the integer conversions of [`Number`]: the one that std's own
/// out-of-range integer conversions produce.
pub fn try_from_int_error() -> (e: TryFromIntError)
    ensures
        e == vstd::pervasive::arbitrary::<TryFromIntError>(),
{
    match u32::try_from(-1i8) {
        Err(e) => e,
        Ok(_) => vstd::pervasive::unreached(),
    }
}

/// Turns a [`ParserError`] into the error of the integer conversions.
pub fn map_parser_error_to_int_error<T>(r: Result<T, ParserError>) -> (out: Result<T, TryFromIntError>)
    ensures
        match r {
            Ok(x) => out == Ok::<T, TryFromIntError>(x),
            Err(_) => out == Err::<T, TryFromIntError>(vstd::pervasive::arbitrary()),
        },
{
    match r {
        Ok(x) => Ok(x),
        Err(_) => Err(try_from_int_error()),
    }
}

/// The result of converting the numeric leaf `s` to an integer type whose values are
/// `min..=max`.
pub open spec fn int_conversion(s: Seq<u8>, min: int, max: int) -> Option<int> {
    match number_int_value(s) {
        Some(v) => if min <= v <= max {
            Some(v)
        } else {
            None
        },
        None => None,
    }
}

/// Two numbers with the same bytes are the same number.
pub proof fn lemma_number_view_determines<'a>(a: Number<'a>, b: Number<'a>)
    requires
        a@ == b@,
    ensures
        a == b,
{
    assert(a.bytes@ == b.bytes@ ==> a.bytes == b.bytes);
}

impl<'a> Number<'a> {
    /// Wraps `bytes` as a number without checking that they encode one.
    pub fn from_raw_bytes(bytes: &'a [u8]) -> (n: Self)
        ensures
            n@ == bytes@,
    {
        Number { bytes }
    }

    /// Gets the raw bytes of this `Number`.
    pub fn as_bytes(&self) -> (b: &'a [u8])
        ensures
            b@ == self@,
    {
        self.bytes
    }

    /// Gets the kind (representation) of this value.
    /// If this is an immediate value (integer in `0..=0x7fff`), gets the actual value.
    pub fn kind(&self) -> (k: Leaf)
        requires
            self@.len() >= 2,
        ensures
            k.0 == le_u16_at(self@, 0),
    {
        let mut p = Parser::new(self.bytes);
        match p.u16() {
            Ok(v) => Leaf(v),
            Err(_) => vstd::pervasive::unreached(),
        }
    }

    /// Decodes a numeric leaf from the front of `p`, consuming exactly its bytes.
    pub fn from_parser(p: &mut Parser<'a>) -> (r: Result<Self, ParserError>)
        ensures
            match r {
                Ok(n) => {
                    &&& n@.len() <= old(p).bytes@.len()
                    &&& number_len(old(p).bytes@) == Some(n@.len() as int)
                    &&& n@ == old(p).bytes@.take(n@.len() as int)
                    &&& final(p).bytes@ == old(p).bytes@.skip(n@.len() as int)
                },
                Err(_) => number_len(old(p).bytes@) is None,
            },
    {
        let start = p.peek_rest();
        let ghost s = start@;
        let leaf = p.u16()?;
        let more_len: usize;
        let ghost used: int = 2;
        if leaf < 0x8000 {
            more_len = 0;
        } else if leaf == LF_VARSTRING {
            let n = p.u16()?;
            more_len = n as usize;
            proof {
                lemma_le_skip(s, 2, 0);
                lemma_skip_skip(s, 2, 2);
                used = 4;
            }
        } else if leaf == LF_UTF8STRING {
            p.skip_strz()?;
            more_len = 0;
            proof {
                lemma_first_nul(s.skip(2));
                lemma_skip_skip(s, 2, first_nul(s.skip(2)) + 1);
                used = 2 + first_nul(s.skip(2)) + 1;
            }
        } else {
            match fixed_payload_len_exec(leaf) {
                Some(k) => {
                    more_len = k;
                },
                None => {
                    return Err(ParserError);
                },
            }
        }
        assert(p.bytes@ == s.skip(used) && used <= s.len());
        p.skip(more_len)?;
        proof {
            lemma_skip_skip(s, used, more_len as int);
        }
        let consumed = start.len() - p.len();
        assert(consumed == used + more_len);
        let (bytes, _) = start.split_at(consumed);
        Ok(Number { bytes })
    }

    /// Decodes the numeric leaf at the start of `bytes`.
    pub fn parse(bytes: &'a [u8]) -> (r: Result<Self, ParserError>)
        ensures
            match r {
                Ok(n) => number_len(bytes@) == Some(n@.len() as int) && n@ == bytes@.take(
                    n@.len() as int,
                ),
                Err(_) => number_len(bytes@) is None,
            },
    {
        let mut p = Parser::new(bytes);
        Self::from_parser(&mut p)
    }

    fn int_value(&self) -> (r: Option<IntValue>)
        ensures
            match r {
                Some(v) => number_int_value(self@) == Some(v.value()),
                None => number_int_value(self@) is None,
            },
    {
        let mut p = Parser::new(self.bytes);
        let ghost s = self.bytes@;
        let leaf = match p.u16() {
            Ok(l) => l,
            Err(_) => return None,
        };
        proof {
            lemma_le_skip(s, 2, 0);
        }
        if leaf < 0x8000 {
            Some(IntValue::Unsigned(leaf as u128))
        } else if leaf == LF_CHAR {
            match p.i8() {
                Ok(v) => Some(IntValue::Signed(v as i128)),
                Err(_) => None,
            }
        } else if leaf == LF_SHORT {
            match p.i16() {
                Ok(v) => Some(IntValue::Signed(v as i128)),
                Err(_) => None,
            }
        } else if leaf == LF_USHORT {
            match p.u16() {
                Ok(v) => Some(IntValue::Unsigned(v as u128)),
                Err(_) => None,
            }
        } else if leaf == LF_LONG {
            match p.i32() {
                Ok(v) => Some(IntValue::Signed(v as i128)),
                Err(_) => None,
            }
        } else if leaf == LF_ULONG {
            match p.u32() {
                Ok(v) => Some(IntValue::Unsigned(v as u128)),
                Err(_) => None,
            }
        } else if leaf == LF_QUADWORD {
            match p.i64() {
                Ok(v) => Some(IntValue::Signed(v as i128)),
                Err(_) => None,
            }
        } else if leaf == LF_UQUADWORD {
            match p.u64() {
                Ok(v) => Some(IntValue::Unsigned(v as u128)),
                Err(_) => None,
            }
        } else if leaf == LF_OCTWORD {
            match p.i128() {
                Ok(v) => Some(IntValue::Signed(v)),
                Err(_) => None,
            }
        } else if leaf == LF_UOCTWORD {
            match p.u128() {
                Ok(v) => Some(IntValue::Unsigned(v)),
                Err(_) => None,
            }
        } else {
            None
        }
    }
}

/// The fixed payload length of `leaf`, as [`fixed_payload_len`] gives it.
fn fixed_payload_len_exec(leaf: u16) -> (r: Option<usize>)
    ensures
        match fixed_payload_len(leaf) {
            Some(k) => r == Some(k as usize),
            None => r is None,
        },
{
    if leaf == LF_CHAR {
        Some(1)
    } else if leaf == LF_SHORT || leaf == LF_USHORT || leaf == LF_REAL16 {
        Some(2)
    } else if leaf == LF_LONG || leaf == LF_ULONG || leaf == LF_REAL32 {
        Some(4)
    } else if leaf == LF_REAL48 {
        Some(6)
    } else if leaf == LF_REAL64 || leaf == LF_QUADWORD || leaf == LF_UQUADWORD || leaf
        == LF_COMPLEX32 || leaf == LF_DATE {
        Some(8)
    } else if leaf == LF_REAL80 {
        Some(10)
    } else if leaf == LF_REAL128 || leaf == LF_COMPLEX64 || leaf == LF_OCTWORD || leaf
        == LF_UOCTWORD || leaf == LF_DECIMAL {
        Some(16)
    } else if leaf == LF_COMPLEX80 {
        Some(20)
    } else if leaf == LF_COMPLEX128 {
        Some(32)
    } else {
        None
    }
}

impl<'a> Number<'a> {
    /// Converts the value to `u8`. Fails when the number is not an integer leaf or its
    /// value is out of the range of `u8`.
    pub fn to_u8(&self) -> (r: Result<u8, TryFromIntError>)
        ensures
            match int_conversion(self@, 0, 0xff) {
                Some(v) => r == Ok::<u8, TryFromIntError>(v as u8),
                None => r == Err::<u8, TryFromIntError>(vstd::pervasive::arbitrary()),
            },
    {
        match self.int_value() {
            Some(IntValue::Unsigned(u)) => if u <= 0xff {
                Ok(u as u8)
            } else {
                Err(try_from_int_error())
            },
            Some(IntValue::Signed(i)) => if 0 <= i && i <= 0xff {
                Ok(i as u8)
            } else {
                Err(try_from_int_error())
            },
            None => Err(try_from_int_error()),
        }
    }

    /// Converts the value to `u16`. Fails when the number is not an integer leaf or its
    /// value is out of the range of `u16`.
    pub fn to_u16(&self) -> (r: Result<u16, TryFromIntError>)
        ensures
            match int_conversion(self@, 0, 0xffff) {
                Some(v) => r == Ok::<u16, TryFromIntError>(v as u16),
                None => r == Err::<u16, TryFromIntError>(vstd::pervasive::arbitrary()),
            },
    {
        match self.int_value() {
            Some(IntValue::Unsigned(u)) => if u <= 0xffff {
                Ok(u as u16)
            } else {
                Err(try_from_int_error())
            },
            Some(IntValue::Signed(i)) => if 0 <= i && i <= 0xffff {
                Ok(i as u16)
            } else {
                Err(try_from_int_error())
            },
            None => Err(try_from_int_error()),
        }
    }

    /// Converts the value to `u32`. Fails when the number is not an integer leaf or its
    /// value is out of the range of `u32`.
    pub fn to_u32(&self) -> (r: Result<u32, TryFromIntError>)
        ensures
            match int_conversion(self@, 0, 0xffff_ffff) {
                Some(v) => r == Ok::<u32, TryFromIntError>(v as u32),
                None => r == Err::<u32, TryFromIntError>(vstd::pervasive::arbitrary()),
            },
    {
        match self.int_value() {
            Some(IntValue::Unsigned(u)) => if u <= 0xffff_ffff {
                Ok(u as u32)
            } else {
                Err(try_from_int_error())
            },
            Some(IntValue::Signed(i)) => if 0 <= i && i <= 0xffff_ffff {
                Ok(i as u32)
            } else {
                Err(try_from_int_error())
            },
            None => Err(try_from_int_error()),
        }
    }

    /// Converts the value to `u64`. Fails when the number is not an integer leaf or its
    /// value is out of the range of `u64`.
    pub fn to_u64(&self) -> (r: Result<u64, TryFromIntError>)
        ensures
            match int_conversion(self@, 0, 0xffff_ffff_ffff_ffff) {
                Some(v) => r == Ok::<u64, TryFromIntError>(v as u64),
                None => r == Err::<u64, TryFromIntError>(vstd::pervasive::arbitrary()),
            },
    {
        match self.int_value() {
            Some(IntValue::Unsigned(u)) => if u <= 0xffff_ffff_ffff_ffff {
                Ok(u as u64)
            } else {
                Err(try_from_int_error())
            },
            Some(IntValue::Signed(i)) => if 0 <= i && i <= 0xffff_ffff_ffff_ffff {
                Ok(i as u64)
            } else {
                Err(try_from_int_error())
            },
            None => Err(try_from_int_error()),
        }
    }

    /// Converts the value to `u128`. Fails when the number is not an integer leaf or its
    /// value is out of the range of `u128`.
    pub fn to_u128(&self) -> (r: Result<u128, TryFromIntError>)
        ensures
            match int_conversion(self@, 0, 0xffff_ffff_ffff_ffff_ffff_ffff_ffff_ffff) {
                Some(v) => r == Ok::<u128, TryFromIntError>(v as u128),
                None => r == Err::<u128, TryFromIntError>(vstd::pervasive::arbitrary()),
            },
    {
        match self.int_value() {
            Some(IntValue::Unsigned(u)) => if true {
                Ok(u as u128)
            } else {
                Err(try_from_int_error())
            },
            Some(IntValue::Signed(i)) => if 0 <= i {
                Ok(i as u128)
            } else {
                Err(try_from_int_error())
            },
            None => Err(try_from_int_error()),
        }
    }

    /// Converts the value to `i8`. Fails when the number is not an integer leaf or its
    /// value is out of the range of `i8`.
    pub fn to_i8(&self) -> (r: Result<i8, TryFromIntError>)
        ensures
            match int_conversion(self@, -0x80, 0x7f) {
                Some(v) => r == Ok::<i8, TryFromIntError>(v as i8),
                None => r == Err::<i8, TryFromIntError>(vstd::pervasive::arbitrary()),
            },
    {
        match self.int_value() {
            Some(IntValue::Unsigned(u)) => if u <= 0x7f {
                Ok(u as i8)
            } else {
                Err(try_from_int_error())
            },
            Some(IntValue::Signed(i)) => if -0x80 <= i && i <= 0x7f {
                Ok(i as i8)
            } else {
                Err(try_from_int_error())
            },
            None => Err(try_from_int_error()),
        }
    }

    /// Converts the value to `i16`. Fails when the number is not an integer leaf or its
    /// value is out of the range of `i16`.
    pub fn to_i16(&self) -> (r: Result<i16, TryFromIntError>)
        ensures
            match int_conversion(self@, -0x8000, 0x7fff) {
                Some(v) => r == Ok::<i16, TryFromIntError>(v as i16),
                None => r == Err::<i16, TryFromIntError>(vstd::pervasive::arbitrary()),
            },
    {
        match self.int_value() {
            Some(IntValue::Unsigned(u)) => if u <= 0x7fff {
                Ok(u as i16)
            } else {
                Err(try_from_int_error())
            },
            Some(IntValue::Signed(i)) => if -0x8000 <= i && i <= 0x7fff {
                Ok(i as i16)
            } else {
                Err(try_from_int_error())
            },
            None => Err(try_from_int_error()),
        }
    }

    /// Converts the value to `i32`. Fails when the number is not an integer leaf or its
    /// value is out of the range of `i32`.
    pub fn to_i32(&self) -> (r: Result<i32, TryFromIntError>)
        ensures
            match int_conversion(self@, -0x8000_0000, 0x7fff_ffff) {
                Some(v) => r == Ok::<i32, TryFromIntError>(v as i32),
                None => r == Err::<i32, TryFromIntError>(vstd::pervasive::arbitrary()),
            },
    {
        match self.int_value() {
            Some(IntValue::Unsigned(u)) => if u <= 0x7fff_ffff {
                Ok(u as i32)
            } else {
                Err(try_from_int_error())
            },
            Some(IntValue::Signed(i)) => if -0x8000_0000 <= i && i <= 0x7fff_ffff {
                Ok(i as i32)
            } else {
                Err(try_from_int_error())
            },
            None => Err(try_from_int_error()),
        }
    }

    /// Converts the value to `i64`. Fails when the number is not an integer leaf or its
    /// value is out of the range of `i64`.
    pub fn to_i64(&self) -> (r: Result<i64, TryFromIntError>)
        ensures
            match int_conversion(self@, -0x8000_0000_0000_0000, 0x7fff_ffff_ffff_ffff) {
                Some(v) => r == Ok::<i64, TryFromIntError>(v as i64),
                None => r == Err::<i64, TryFromIntError>(vstd::pervasive::arbitrary()),
            },
    {
        match self.int_value() {
            Some(IntValue::Unsigned(u)) => if u <= 0x7fff_ffff_ffff_ffff {
                Ok(u as i64)
            } else {
                Err(try_from_int_error())
            },
            Some(IntValue::Signed(i)) => if -0x8000_0000_0000_0000 <= i && i <= 0x7fff_ffff_ffff_ffff {
                Ok(i as i64)
            } else {
                Err(try_from_int_error())
            },
            None => Err(try_from_int_error()),
        }
    }

    /// Converts the value to `i128`. Fails when the number is not an integer leaf or its
    /// value is out of the range of `i128`.
    pub fn to_i128(&self) -> (r: Result<i128, TryFromIntError>)
        ensures
            match int_conversion(self@, -0x8000_0000_0000_0000_0000_0000_0000_0000, 0x7fff_ffff_ffff_ffff_ffff_ffff_ffff_ffff) {
                Some(v) => r == Ok::<i128, TryFromIntError>(v as i128),
                None => r == Err::<i128, TryFromIntError>(vstd::pervasive::arbitrary()),
            },
    {
        match self.int_value() {
            Some(IntValue::Unsigned(u)) => if u <= 0x7fff_ffff_ffff_ffff_ffff_ffff_ffff_ffff {
                Ok(u as i128)
            } else {
                Err(try_from_int_error())
            },
            Some(IntValue::Signed(i)) => if true {
                Ok(i as i128)
            } else {
                Err(try_from_int_error())
            },
            None => Err(try_from_int_error()),
        }
    }

}

impl<'a> TryFrom<Number<'a>> for u8 {
    type Error = TryFromIntError;

    fn try_from(value: Number<'a>) -> (r: Result<u8, TryFromIntError>) {
        value.to_u8()
    }
}

impl<'a> vstd::std_specs::convert::TryFromSpecImpl<Number<'a>> for u8 {
    open spec fn obeys_try_from_spec() -> bool {
        true
    }

    open spec fn try_from_spec(value: Number<'a>) -> Result<u8, TryFromIntError> {
        match int_conversion(value@, 0, 0xff) {
            Some(v) => Ok(v as u8),
            None => Err(vstd::pervasive::arbitrary()),
        }
    }
}

impl<'a> TryFrom<Number<'a>> for u16 {
    type Error = TryFromIntError;

    fn try_from(value: Number<'a>) -> (r: Result<u16, TryFromIntError>) {
        value.to_u16()
    }
}

impl<'a> vstd::std_specs::convert::TryFromSpecImpl<Number<'a>> for u16 {
    open spec fn obeys_try_from_spec() -> bool {
        true
    }

    open spec fn try_from_spec(value: Number<'a>) -> Result<u16, TryFromIntError> {
        match int_conversion(value@, 0, 0xffff) {
            Some(v) => Ok(v as u16),
            None => Err(vstd::pervasive::arbitrary()),
        }
    }
}

impl<'a> TryFrom<Number<'a>> for u32 {
    type Error = TryFromIntError;

    fn try_from(value: Number<'a>) -> (r: Result<u32, TryFromIntError>) {
        value.to_u32()
    }
}

impl<'a> vstd::std_specs::convert::TryFromSpecImpl<Number<'a>> for u32 {
    open spec fn obeys_try_from_spec() -> bool {
        true
    }

    open spec fn try_from_spec(value: Number<'a>) -> Result<u32, TryFromIntError> {
        match int_conversion(value@, 0, 0xffff_ffff) {
            Some(v) => Ok(v as u32),
            None => Err(vstd::pervasive::arbitrary()),
        }
    }
}

impl<'a> TryFrom<Number<'a>> for u64 {
    type Error = TryFromIntError;

    fn try_from(value: Number<'a>) -> (r: Result<u64, TryFromIntError>) {
        value.to_u64()
    }
}

impl<'a> vstd::std_specs::convert::TryFromSpecImpl<Number<'a>> for u64 {
    open spec fn obeys_try_from_spec() -> bool {
        true
    }

    open spec fn try_from_spec(value: Number<'a>) -> Result<u64, TryFromIntError> {
        match int_conversion(value@, 0, 0xffff_ffff_ffff_ffff) {
            Some(v) => Ok(v as u64),
            None => Err(vstd::pervasive::arbitrary()),
        }
    }
}

impl<'a> TryFrom<Number<'a>> for u128 {
    type Error = TryFromIntError;

    fn try_from(value: Number<'a>) -> (r: Result<u128, TryFromIntError>) {
        value.to_u128()
    }
}

impl<'a> vstd::std_specs::convert::TryFromSpecImpl<Number<'a>> for u128 {
    open spec fn obeys_try_from_spec() -> bool {
        true
    }

    open spec fn try_from_spec(value: Number<'a>) -> Result<u128, TryFromIntError> {
        match int_conversion(value@, 0, 0xffff_ffff_ffff_ffff_ffff_ffff_ffff_ffff) {
            Some(v) => Ok(v as u128),
            None => Err(vstd::pervasive::arbitrary()),
        }
    }
}

impl<'a> TryFrom<Number<'a>> for i8 {
    type Error = TryFromIntError;

    fn try_from(value: Number<'a>) -> (r: Result<i8, TryFromIntError>) {
        value.to_i8()
    }
}

impl<'a> vstd::std_specs::convert::TryFromSpecImpl<Number<'a>> for i8 {
    open spec fn obeys_try_from_spec() -> bool {
        true
    }

    open spec fn try_from_spec(value: Number<'a>) -> Result<i8, TryFromIntError> {
        match int_conversion(value@, -0x80, 0x7f) {
            Some(v) => Ok(v as i8),
            None => Err(vstd::pervasive::arbitrary()),
        }
    }
}

impl<'a> TryFrom<Number<'a>> for i16 {
    type Error = TryFromIntError;

    fn try_from(value: Number<'a>) -> (r: Result<i16, TryFromIntError>) {
        value.to_i16()
    }
}

impl<'a> vstd::std_specs::convert::TryFromSpecImpl<Number<'a>> for i16 {
    open spec fn obeys_try_from_spec() -> bool {
        true
    }

    open spec fn try_from_spec(value: Number<'a>) -> Result<i16, TryFromIntError> {
        match int_conversion(value@, -0x8000, 0x7fff) {
            Some(v) => Ok(v as i16),
            None => Err(vstd::pervasive::arbitrary()),
        }
    }
}

impl<'a> TryFrom<Number<'a>> for i32 {
    type Error = TryFromIntError;

    fn try_from(value: Number<'a>) -> (r: Result<i32, TryFromIntError>) {
        value.to_i32()
    }
}

impl<'a> vstd::std_specs::convert::TryFromSpecImpl<Number<'a>> for i32 {
    open spec fn obeys_try_from_spec() -> bool {
        true
    }

    open spec fn try_from_spec(value: Number<'a>) -> Result<i32, TryFromIntError> {
        match int_conversion(value@, -0x8000_0000, 0x7fff_ffff) {
            Some(v) => Ok(v as i32),
            None => Err(vstd::pervasive::arbitrary()),
        }
    }
}

impl<'a> TryFrom<Number<'a>> for i64 {
    type Error = TryFromIntError;

    fn try_from(value: Number<'a>) -> (r: Result<i64, TryFromIntError>) {
        value.to_i64()
    }
}

impl<'a> vstd::std_specs::convert::TryFromSpecImpl<Number<'a>> for i64 {
    open spec fn obeys_try_from_spec() -> bool {
        true
    }

    open spec fn try_from_spec(value: Number<'a>) -> Result<i64, TryFromIntError> {
        match int_conversion(value@, -0x8000_0000_0000_0000, 0x7fff_ffff_ffff_ffff) {
            Some(v) => Ok(v as i64),
            None => Err(vstd::pervasive::arbitrary()),
        }
    }
}

impl<'a> TryFrom<Number<'a>> for i128 {
    type Error = TryFromIntError;

    fn try_from(value: Number<'a>) -> (r: Result<i128, TryFromIntError>) {
        value.to_i128()
    }
}

impl<'a> vstd::std_specs::convert::TryFromSpecImpl<Number<'a>> for i128 {
    open spec fn obeys_try_from_spec() -> bool {
        true
    }

    open spec fn try_from_spec(value: Number<'a>) -> Result<i128, TryFromIntError> {
        match int_conversion(value@, -0x8000_0000_0000_0000_0000_0000_0000_0000, 0x7fff_ffff_ffff_ffff_ffff_ffff_ffff_ffff) {
            Some(v) => Ok(v as i128),
            None => Err(vstd::pervasive::arbitrary()),
        }
    }
}

/// The name of a numeric leaf kind, such as `"LF_LONG"`.
pub open spec fn numeric_leaf_name(leaf: u16) -> Option<Seq<char>> {
    match leaf {
        LF_CHAR => Some("LF_CHAR"@),
        LF_SHORT => Some("LF_SHORT"@),
        LF_USHORT => Some("LF_USHORT"@),
        LF_LONG => Some("LF_LONG"@),
        LF_ULONG => Some("LF_ULONG"@),
        LF_REAL32 => Some("LF_REAL32"@),
        LF_REAL64 => Some("LF_REAL64"@),
        LF_REAL80 => Some("LF_REAL80"@),
        LF_REAL128 => Some("LF_REAL128"@),
        LF_QUADWORD => Some("LF_QUADWORD"@),
        LF_UQUADWORD => Some("LF_UQUADWORD"@),
        LF_REAL48 => Some("LF_REAL48"@),
        LF_COMPLEX32 => Some("LF_COMPLEX32"@),
        LF_COMPLEX64 => Some("LF_COMPLEX64"@),
        LF_COMPLEX80 => Some("LF_COMPLEX80"@),
        LF_COMPLEX128 => Some("LF_COMPLEX128"@),
        LF_VARSTRING => Some("LF_VARSTRING"@),
        LF_OCTWORD => Some("LF_OCTWORD"@),
        LF_UOCTWORD => Some("LF_UOCTWORD"@),
        LF_DECIMAL => Some("LF_DECIMAL"@),
        LF_DATE => Some("LF_DATE"@),
        LF_UTF8STRING => Some("LF_UTF8STRING"@),
        LF_REAL16 => Some("LF_REAL16"@),
        _ => None,
    }
}

/// The text that [`Leaf::debug_string`] gives for `leaf`: its name, or `??(0x....)` with
/// four hexadecimal digits.
pub open spec fn leaf_debug_text(leaf: u16) -> Seq<char> {
    match numeric_leaf_name(leaf) {
        Some(name) => name,
        None => "??(0x"@ + hex_fixed(leaf as nat, 4) + ")"@,
    }
}

impl Leaf {
    /// The name of this leaf kind where it is a numeric leaf kind.
    pub fn numeric_name(self) -> (r: Option<&'static str>)
        ensures
            match numeric_leaf_name(self.0) {
                Some(name) => r matches Some(t) && t@ == name,
                None => r is None,
            },
    {
        match self.0 {
            LF_CHAR => Some("LF_CHAR"),
            LF_SHORT => Some("LF_SHORT"),
            LF_USHORT => Some("LF_USHORT"),
            LF_LONG => Some("LF_LONG"),
            LF_ULONG => Some("LF_ULONG"),
            LF_REAL32 => Some("LF_REAL32"),
            LF_REAL64 => Some("LF_REAL64"),
            LF_REAL80 => Some("LF_REAL80"),
            LF_REAL128 => Some("LF_REAL128"),
            LF_QUADWORD => Some("LF_QUADWORD"),
            LF_UQUADWORD => Some("LF_UQUADWORD"),
            LF_REAL48 => Some("LF_REAL48"),
            LF_COMPLEX32 => Some("LF_COMPLEX32"),
            LF_COMPLEX64 => Some("LF_COMPLEX64"),
            LF_COMPLEX80 => Some("LF_COMPLEX80"),
            LF_COMPLEX128 => Some("LF_COMPLEX128"),
            LF_VARSTRING => Some("LF_VARSTRING"),
            LF_OCTWORD => Some("LF_OCTWORD"),
            LF_UOCTWORD => Some("LF_UOCTWORD"),
            LF_DECIMAL => Some("LF_DECIMAL"),
            LF_DATE => Some("LF_DATE"),
            LF_UTF8STRING => Some("LF_UTF8STRING"),
            LF_REAL16 => Some("LF_REAL16"),
            _ => None,
        }
    }

    /// The debugging text of this leaf kind: its name, or `??(0x....)` for a kind that is not
    /// a numeric leaf kind.
    pub fn debug_string(self) -> (r: String)
        ensures
            r@ == leaf_debug_text(self.0),
    {
        match self.numeric_name() {
            Some(name) => String::from_str(name),
            None => {
                let mut r = String::from_str("??(0x");
                push_hex_fixed(&mut r, self.0 as u128, 4);
                r.append(")");
                r
            },
        }
    }
}

/// Error type for conversions from `Number` to floating-point values.
#[derive(Copy, Clone, Eq, PartialEq, Debug, Structural)]
pub struct TryFromFloatError;

/// Error type for conversions from `Number` to strings.
#[derive(Copy, Clone, Eq, PartialEq, Debug, Structural)]
pub struct TryFromStrError;

impl From<ParserError> for TryFromFloatError {
    fn from(e: ParserError) -> (r: Self) {
        TryFromFloatError
    }
}

impl vstd::std_specs::convert::FromSpecImpl<ParserError> for TryFromFloatError {
    open spec fn obeys_from_spec() -> bool {
        true
    }

    open spec fn from_spec(e: ParserError) -> Self {
        TryFromFloatError
    }
}

impl From<ParserError> for TryFromStrError {
    fn from(e: ParserError) -> (r: Self) {
        TryFromStrError
    }
}

impl vstd::std_specs::convert::FromSpecImpl<ParserError> for TryFromStrError {
    open spec fn obeys_from_spec() -> bool {
        true
    }

    open spec fn from_spec(e: ParserError) -> Self {
        TryFromStrError
    }
}

/// The string held by the numeric leaf `s`: the bytes before the NUL of an
/// `LF_UTF8STRING`, or the counted bytes of an `LF_VARSTRING`. `None` for other kinds and
/// for input too short to hold the string.
pub open spec fn number_str_value(s: Seq<u8>) -> Option<Seq<u8>> {
    if s.len() < 2 {
        None
    } else if le_u16_at(s, 0) == LF_UTF8STRING {
        if has_nul(s.skip(2)) {
            Some(s.skip(2).take(first_nul(s.skip(2))))
        } else {
            None
        }
    } else if le_u16_at(s, 0) == LF_VARSTRING {
        if s.len() < 4 || s.len() < 4 + le_u16_at(s, 2) {
            None
        } else {
            Some(s.subrange(4, 4 + le_u16_at(s, 2)))
        }
    } else {
        None
    }
}

/// The little-endian bytes of the floating-point value of kind `leaf` (`LF_REAL32` or
/// `LF_REAL64`) held by the numeric leaf `s`; `None` for other kinds and short input.
pub open spec fn number_real_bytes(s: Seq<u8>, leaf: u16, size: int) -> Option<Seq<u8>> {
    if s.len() < 2 + size || le_u16_at(s, 0) != leaf {
        None
    } else {
        Some(s.subrange(2, 2 + size))
    }
}

/// The text form of a [`Number`], as [`Number::display_text`] gives it. Floating-point
/// values are handed out as their bytes, for the caller to format.
pub enum NumberText<'a> {
    /// The finished text.
    Text(String),
    /// The four little-endian bytes of an `LF_REAL32` value.
    Real32(&'a [u8]),
    /// The eight little-endian bytes of an `LF_REAL64` value.
    Real64(&'a [u8]),
}

/// `leaf` is the immediate range or one of the integer leaf kinds.
pub open spec fn is_int_leaf(leaf: int) -> bool {
    leaf < 0x8000 || leaf == LF_CHAR || leaf == LF_SHORT || leaf == LF_USHORT || leaf == LF_LONG
        || leaf == LF_ULONG || leaf == LF_QUADWORD || leaf == LF_UQUADWORD || leaf == LF_OCTWORD
        || leaf == LF_UOCTWORD
}

/// The numeric leaf `s` can be displayed: it holds at least its kind, and for the kinds
/// whose value is shown it holds the whole value.
pub open spec fn number_displayable(s: Seq<u8>) -> bool {
    &&& s.len() >= 2
    &&& is_int_leaf(le_u16_at(s, 0)) ==> number_int_value(s) is Some
    &&& (le_u16_at(s, 0) == LF_UTF8STRING || le_u16_at(s, 0) == LF_VARSTRING)
        ==> number_str_value(s) is Some
    &&& le_u16_at(s, 0) == LF_REAL32 ==> s.len() >= 6
    &&& le_u16_at(s, 0) == LF_REAL64 ==> s.len() >= 10
}

/// A numeric leaf that decodes can be displayed: the bytes it takes hold its whole value.
pub proof fn lemma_decoded_number_displayable(s: Seq<u8>)
    requires
        number_len(s) is Some,
    ensures
        number_displayable(s.take(number_len(s).unwrap())),
{
    let k = number_len(s).unwrap();
    let t = s.take(k);
    let leaf = le_u16_at(s, 0);
    if leaf == LF_UTF8STRING {
        crate::parser::lemma_first_nul(s.skip(2));
    }
    assert(2 <= k <= s.len());
    assert(t[0] == s[0] && t[1] == s[1]);
    assert(le_u16_at(t, 0) == leaf);
    if leaf == LF_UTF8STRING {
        let z = s.skip(2);
        crate::parser::lemma_first_nul(z);
        let n = first_nul(z);
        assert(t.skip(2) =~= z.take(n + 1));
        assert(t.skip(2)[n] == 0);
        assert forall|j: int| 0 <= j < n implies t.skip(2)[j] != 0 by {
            assert(t.skip(2)[j] == z[j]);
        }
        crate::parser::lemma_first_nul(t.skip(2));
        assert(has_nul(t.skip(2)));
    } else if leaf == LF_VARSTRING {
        assert(t[2] == s[2] && t[3] == s[3]);
    }
}

/// The displayed text of the numeric leaf `s`, for kinds other than `LF_REAL32` and
/// `LF_REAL64`: the decimal value of an integer, the displayed string of a string kind,
/// and otherwise `??`, the kind and a hex dump of all the bytes.
pub open spec fn number_display(s: Seq<u8>) -> Seq<char> {
    let leaf = le_u16_at(s, 0);
    if is_int_leaf(leaf) {
        signed_decimal(number_int_value(s).unwrap())
    } else if leaf == LF_VARSTRING || leaf == LF_UTF8STRING {
        bstr_display(number_str_value(s).unwrap())
    } else {
        "?? "@ + leaf_debug_text(leaf as u16) + " "@ + pretty_hex_dump(s)
    }
}

/// A number that converts to an integer type converts, to the same value, to every integer
/// type whose values include those of the first.
pub proof fn lemma_int_conversion_widens(s: Seq<u8>, min1: int, max1: int, min2: int, max2: int)
    requires
        min2 <= min1,
        max1 <= max2,
    ensures
        int_conversion(s, min1, max1) matches Some(v) ==> int_conversion(s, min2, max2) == Some(v),
{
}

impl<'a> Number<'a> {
    /// Whether this number can be displayed: it holds its kind, and, for the kinds whose value
    /// is shown, the whole value.
    pub fn is_displayable(&self) -> (r: bool)
        ensures
            r == number_displayable(self@),
    {
        if self.bytes.len() < 2 {
            return false;
        }
        let leaf = self.kind().0;
        if leaf < 0x8000 || leaf == LF_CHAR || leaf == LF_SHORT || leaf == LF_USHORT || leaf == LF_LONG
            || leaf == LF_ULONG || leaf == LF_QUADWORD || leaf == LF_UQUADWORD || leaf == LF_OCTWORD
            || leaf == LF_UOCTWORD {
            return self.int_value().is_some();
        }
        if leaf == LF_UTF8STRING || leaf == LF_VARSTRING {
            return self.to_str_bytes().is_ok();
        }
        if leaf == LF_REAL32 {
            return self.bytes.len() >= 6;
        }
        if leaf == LF_REAL64 {
            return self.bytes.len() >= 10;
        }
        true
    }

    /// The string held by an `LF_UTF8STRING` or `LF_VARSTRING` number.
    pub fn to_str_bytes(&self) -> (r: Result<&'a [u8], TryFromStrError>)
        ensures
            match number_str_value(self@) {
                Some(v) => r matches Ok(b) && b@ == v,
                None => r is Err,
            },
    {
        let mut p = Parser::new(self.bytes);
        let ghost s = self.bytes@;
        let leaf = match p.u16() {
            Ok(l) => l,
            Err(_) => return Err(TryFromStrError),
        };
        if leaf == LF_UTF8STRING {
            match p.strz() {
                Ok(z) => {
                    proof {
                        lemma_first_nul(s.skip(2));
                    }
                    Ok(z)
                },
                Err(_) => Err(TryFromStrError),
            }
        } else if leaf == LF_VARSTRING {
            let len = match p.u16() {
                Ok(l) => l,
                Err(_) => return Err(TryFromStrError),
            };
            proof {
                lemma_le_skip(s, 2, 0);
            }
            match p.bytes(len as usize) {
                Ok(b) => {
                    assert(b@ =~= s.subrange(4, 4 + le_u16_at(s, 2)));
                    Ok(b)
                },
                Err(_) => Err(TryFromStrError),
            }
        } else {
            Err(TryFromStrError)
        }
    }

    /// The four little-endian bytes of an `LF_REAL32` number.
    pub fn real32_bytes(&self) -> (r: Result<&'a [u8], TryFromFloatError>)
        ensures
            match number_real_bytes(self@, LF_REAL32, 4) {
                Some(v) => r matches Ok(b) && b@ == v,
                None => r is Err,
            },
    {
        let mut p = Parser::new(self.bytes);
        let ghost s = self.bytes@;
        let leaf = match p.u16() {
            Ok(l) => l,
            Err(_) => return Err(TryFromFloatError),
        };
        if leaf == LF_REAL32 {
            match p.bytes(4) {
                Ok(b) => {
                    assert(b@ =~= s.subrange(2, 6));
                    Ok(b)
                },
                Err(_) => Err(TryFromFloatError),
            }
        } else {
            Err(TryFromFloatError)
        }
    }

    /// The eight little-endian bytes of an `LF_REAL64` number.
    pub fn real64_bytes(&self) -> (r: Result<&'a [u8], TryFromFloatError>)
        ensures
            match number_real_bytes(self@, LF_REAL64, 8) {
                Some(v) => r matches Ok(b) && b@ == v,
                None => r is Err,
            },
    {
        let mut p = Parser::new(self.bytes);
        let ghost s = self.bytes@;
        let leaf = match p.u16() {
            Ok(l) => l,
            Err(_) => return Err(TryFromFloatError),
        };
        if leaf == LF_REAL64 {
            match p.bytes(8) {
                Ok(b) => {
                    assert(b@ =~= s.subrange(2, 10));
                    Ok(b)
                },
                Err(_) => Err(TryFromFloatError),
            }
        } else {
            Err(TryFromFloatError)
        }
    }

    /// The text of this number: the decimal value of an integer kind, the string of a
    /// string kind, the bytes of a floating-point kind, and for any other kind `??`
    /// followed by the kind and a hex dump.
    pub fn display_text(&self) -> (r: NumberText<'a>)
        requires
            number_displayable(self@),
        ensures
            le_u16_at(self@, 0) == LF_REAL32 ==> (r matches NumberText::Real32(b) && b@
                == self@.subrange(2, 6)),
            le_u16_at(self@, 0) == LF_REAL64 ==> (r matches NumberText::Real64(b) && b@
                == self@.subrange(2, 10)),
            le_u16_at(self@, 0) != LF_REAL32 && le_u16_at(self@, 0) != LF_REAL64 ==> (r matches NumberText::Text(t) && t@ == number_display(self@)),
    {
        let leaf = self.kind();
        if leaf.0 == LF_REAL32 {
            match self.real32_bytes() {
                Ok(b) => return NumberText::Real32(b),
                Err(_) => return vstd::pervasive::unreached(),
            }
        }
        if leaf.0 == LF_REAL64 {
            match self.real64_bytes() {
                Ok(b) => return NumberText::Real64(b),
                Err(_) => return vstd::pervasive::unreached(),
            }
        }
        let mut out = String::new();
        match self.int_value() {
            Some(IntValue::Unsigned(u)) => {
                push_unsigned_decimal(&mut out, u);
                return NumberText::Text(out);
            },
            Some(IntValue::Signed(i)) => {
                push_signed_decimal(&mut out, i);
                return NumberText::Text(out);
            },
            None => {},
        }
        if leaf.0 == LF_VARSTRING || leaf.0 == LF_UTF8STRING {
            match self.to_str_bytes() {
                Ok(b) => push_bstr(&mut out, b),
                Err(_) => return vstd::pervasive::unreached(),
            }
        } else {
            out.append("?? ");
            let d = leaf.debug_string();
            out.append(d.as_str());
            out.append(" ");
            push_hex_dump(&mut out, self.bytes);
        }
        assert(out@ =~= number_display(self@));
        NumberText::Text(out)
    }
}

/// Appends the decimal digits of the unsigned value `v` to `s`.
fn push_unsigned_decimal(s: &mut String, v: u128)
    ensures
        final(s)@ == old(s)@ + signed_decimal(v as int),
{
    crate::text::push_decimal(s, v);
}

/// Decodes `bytes`, which must hold exactly one numeric leaf.
pub fn parse_number(bytes: &[u8]) -> (n: Number<'_>)
    requires
        number_len(bytes@) == Some(bytes@.len() as int),
    ensures
        n@ == bytes@,
{
    let mut p = Parser::new(bytes);
    match Number::from_parser(&mut p) {
        Ok(n) => {
            assert(n@ =~= bytes@);
            n
        },
        Err(_) => vstd::pervasive::unreached(),
    }
}

} // verus!

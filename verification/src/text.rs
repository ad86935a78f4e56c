//! Building the text forms of numbers and byte strings.

use vstd::prelude::*;
use vstd::string::*;
use vstd::utf8::*;
use pretty_hex::PrettyHex;
use std::fmt::Write;

verus! {

/// The character of a decimal or hexadecimal digit `d`, lower case.
pub open spec fn digit_char(d: int) -> char {
    if d < 10 {
        (48 + d) as char
    } else {
        (87 + d) as char
    }
}

/// The decimal digits of `v`, most significant first, without leading zeros
/// (`"0"` for zero).
pub open spec fn decimal(v: nat) -> Seq<char>
    decreases v,
{
    if v < 10 {
        seq![digit_char(v as int)]
    } else {
        decimal(v / 10).push(digit_char((v % 10) as int))
    }
}

/// The decimal text of the signed value `v`: a minus sign before the digits of a
/// negative value.
pub open spec fn signed_decimal(v: int) -> Seq<char> {
    if v < 0 {
        seq!['-'] + decimal((-v) as nat)
    } else {
        decimal(v as nat)
    }
}

/// The lower-case hexadecimal digits of `v`, most significant first, without leading zeros
/// (`"0"` for zero).
pub open spec fn hex(v: nat) -> Seq<char>
    decreases v,
{
    if v < 16 {
        seq![digit_char(v as int)]
    } else {
        hex(v / 16).push(digit_char((v % 16) as int))
    }
}

/// The lower-case hexadecimal digits of `v`, exactly `width` of them (the low `width`
/// digits, with leading zeros).
pub open spec fn hex_fixed(v: nat, width: nat) -> Seq<char>
    decreases width,
{
    if width == 0 {
        Seq::empty()
    } else {
        hex_fixed(v / 16, (width - 1) as nat).push(digit_char((v % 16) as int))
    }
}

/// Appends `c` to `s` (`String::push`).
#[verifier::external_body]
pub(crate) fn push_char(s: &mut String, c: char)
    ensures
        final(s)@ == old(s)@.push(c),
{
    s.push(c)
}

/// The character of the digit `d`.
pub fn digit(d: u8) -> (c: char)
    requires
        d < 16,
    ensures
        c == digit_char(d as int),
{
    match d {
        0 => '0',
        1 => '1',
        2 => '2',
        3 => '3',
        4 => '4',
        5 => '5',
        6 => '6',
        7 => '7',
        8 => '8',
        9 => '9',
        10 => 'a',
        11 => 'b',
        12 => 'c',
        13 => 'd',
        14 => 'e',
        _ => 'f',
    }
}

/// Appends the decimal digits of `v` to `s`.
pub fn push_decimal(s: &mut String, v: u128)
    ensures
        final(s)@ == old(s)@ + decimal(v as nat),
    decreases v,
{
    if v >= 10 {
        push_decimal(s, v / 10);
    }
    push_char(s, digit((v % 10) as u8));
    assert(final(s)@ =~= old(s)@ + decimal(v as nat)) by {
        if v >= 10 {
            assert(decimal(v as nat) == decimal((v / 10) as nat).push(
                digit_char((v % 10) as int),
            ));
        }
    }
}

/// Appends the decimal text of the signed value `v` to `s`.
pub fn push_signed_decimal(s: &mut String, v: i128)
    ensures
        final(s)@ == old(s)@ + signed_decimal(v as int),
{
    if v < 0 {
        push_char(s, '-');
        let m: u128 = ((-(v + 1)) as u128) + 1;
        push_decimal(s, m);
        assert(final(s)@ =~= old(s)@ + signed_decimal(v as int));
    } else {
        push_decimal(s, v as u128);
    }
}

/// Appends the hexadecimal digits of `v` to `s`, without leading zeros.
pub fn push_hex(s: &mut String, v: u128)
    ensures
        final(s)@ == old(s)@ + hex(v as nat),
    decreases v,
{
    if v >= 16 {
        push_hex(s, v / 16);
    }
    push_char(s, digit((v % 16) as u8));
    assert(final(s)@ =~= old(s)@ + hex(v as nat)) by {
        if v >= 16 {
            assert(hex(v as nat) == hex((v / 16) as nat).push(digit_char((v % 16) as int)));
        }
    }
}

/// Appends the low `width` hexadecimal digits of `v` to `s`, with leading zeros.
pub fn push_hex_fixed(s: &mut String, v: u128, width: u32)
    ensures
        final(s)@ == old(s)@ + hex_fixed(v as nat, width as nat),
    decreases width,
{
    if width > 0 {
        push_hex_fixed(s, v / 16, width - 1);
        push_char(s, digit((v % 16) as u8));
        assert(final(s)@ =~= old(s)@ + hex_fixed(v as nat, width as nat));
    } else {
        assert(final(s)@ =~= old(s)@ + hex_fixed(v as nat, width as nat));
    }
}

/// The text that `bstr` displays for a byte string (`<BStr as Display>::fmt`): the bytes
/// decoded as UTF-8, each invalid sequence shown as U+FFFD.
pub uninterp spec fn bstr_display(bytes: Seq<u8>) -> Seq<char>;

/// Appends the displayed form of the byte string `bytes` to `s`, as
/// `<bstr::BStr as Display>::fmt` writes it. Where `bytes` is valid UTF-8 the text is its
/// decoding; otherwise each invalid sequence becomes U+FFFD.
#[verifier::external_body]
pub(crate) fn push_bstr(s: &mut String, bytes: &[u8])
    ensures
        final(s)@ == old(s)@ + bstr_display(bytes@),
        valid_utf8(bytes@) ==> final(s)@ == old(s)@ + decode_utf8(bytes@),
{
    let _ = write!(s, "{}", bstr::BStr::new(bytes));
}

/// The text of the pretty hex dump that `pretty_hex` writes for a byte slice
/// (`<Hex<'_, [u8]> as Debug>::fmt` with the default configuration).
pub uninterp spec fn pretty_hex_dump(bytes: Seq<u8>) -> Seq<char>;

/// Appends the pretty hex dump of `bytes` (`format!("{:?}", bytes.hex_dump())`) to `s`.
#[verifier::external_body]
pub(crate) fn push_hex_dump(s: &mut String, bytes: &[u8])
    ensures
        final(s)@ == old(s)@ + pretty_hex_dump(bytes@),
{
    let _ = write!(s, "{:?}", bytes.hex_dump());
}


/// Whether the strings `a` and `b` hold the same characters.
pub fn str_eq(a: &str, b: &str) -> (r: bool)
    ensures
        r == (a@ == b@),
{
    let x = a.as_bytes();
    let y = b.as_bytes();
    proof {
        encode_utf8_decode_utf8(a@);
        encode_utf8_decode_utf8(b@);
    }
    if x.len() != y.len() {
        return false;
    }
    let mut i: usize = 0;
    while i < x.len()
        invariant
            x@ == a.spec_bytes(),
            y@ == b.spec_bytes(),
            decode_utf8(encode_utf8(a@)) == a@,
            decode_utf8(encode_utf8(b@)) == b@,
            x@.len() == y@.len(),
            i <= x@.len(),
            x@.take(i as int) == y@.take(i as int),
        decreases x@.len() - i,
    {
        if x[i] != y[i] {
            assert(x@[i as int] != y@[i as int]);
            assert(x@ != y@);
            return false;
        }
        assert(x@.take(i + 1) =~= x@.take(i as int).push(x@[i as int]));
        assert(y@.take(i + 1) =~= y@.take(i as int).push(y@[i as int]));
        i = i + 1;
    }
    assert(x@ =~= x@.take(i as int));
    assert(y@ =~= y@.take(i as int));
    true
}


/// The characters of `s`, in order.
pub fn str_chars(s: &str) -> (r: Vec<char>)
    ensures
        r@ == s@,
{
    broadcast use vstd::string::group_string_axioms;

    let mut v: Vec<char> = Vec::new();
    for c in it: s.chars()
        invariant
            v@ == it.seq().take(it.index() as int),
    {
        v.push(c);
    }
    assert(v@ =~= s@);
    v
}

} // verus!

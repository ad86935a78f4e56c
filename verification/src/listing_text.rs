//! The text of each line of the listings of sections and COFF groups.

use crate::coff_groups::CoffGroup;
use crate::offset_segment::OffsetSegment;
use crate::section::{section_name, SectionCharacteristics, IMAGE_SECTION_HEADER};
use crate::sections::{
    coff_group_description, coff_group_table, description_in, rwx_text, section_description,
    section_table, Rwx,
};
use crate::text::{
    bstr_display, decimal, hex_fixed, push_bstr, push_char, push_decimal, push_hex_fixed, str_chars,
};
use vstd::prelude::*;
use vstd::string::*;

verus! {

/// `n` spaces; none where `n` is not positive.
pub open spec fn spaces(n: int) -> Seq<char> {
    Seq::new(if n > 0 { n as nat } else { 0 }, |i: int| ' ')
}

/// `t` followed by spaces up to `width` characters, as `{:<width}` pads.
pub open spec fn pad_right(t: Seq<char>, width: int) -> Seq<char> {
    t + spaces(width - t.len())
}

/// Spaces up to `width` characters followed by `t`, as `{:width}` pads a number.
pub open spec fn pad_left(t: Seq<char>, width: int) -> Seq<char> {
    spaces(width - t.len()) + t
}

/// The description that a listing shows for a found description: the description, or nothing.
pub open spec fn description_text(d: Option<Seq<char>>) -> Seq<char> {
    match d {
        Some(t) => t,
        None => Seq::empty(),
    }
}

/// Appends `n` spaces to `s`.
fn push_spaces(s: &mut String, n: usize)
    ensures
        final(s)@ == old(s)@ + spaces(n as int),
{
    let mut i: usize = 0;
    while i < n
        invariant
            i <= n,
            s@ == old(s)@ + spaces(i as int),
        decreases n - i,
    {
        push_char(s, ' ');
        i = i + 1;
        assert(s@ =~= old(s)@ + spaces(i as int));
    }
    assert(s@ =~= old(s)@ + spaces(n as int));
}

/// Appends `t` to `s`, then spaces up to `width` characters of `t`.
fn push_padded_right(s: &mut String, t: &str, width: usize)
    ensures
        final(s)@ == old(s)@ + pad_right(t@, width as int),
{
    let n = str_chars(t).len();
    s.append(t);
    if n < width {
        push_spaces(s, width - n);
    } else {
        push_spaces(s, 0);
    }
    assert(final(s)@ =~= old(s)@ + pad_right(t@, width as int)) by {
        assert(spaces(0) =~= spaces(width - t@.len()) || n < width);
    }
}

/// Appends the description `d`, where there is one.
fn push_description(s: &mut String, d: Option<&'static str>)
    ensures
        final(s)@ == old(s)@ + description_text(match d {
            Some(t) => Some(t@),
            None => None,
        }),
{
    match d {
        Some(t) => s.append(t),
        None => {
            assert(old(s)@ =~= old(s)@ + Seq::<char>::empty());
        },
    }
}

/// The text of the line of section `section_num` with header `h`.
pub open spec fn section_line(h: IMAGE_SECTION_HEADER, section_num: u16) -> Seq<char> {
    let name = bstr_display(section_name(h.name@));
    "s "@ + OffsetSegment { segment: section_num, offset: 0 }.text() + " rva: "@ + hex_fixed(
        h.virtual_address as nat,
        8,
    ) + " + "@ + hex_fixed(h.physical_address_or_virtual_size as nat, 8) + " : "@ + rwx_text(
        h.characteristics.0,
    ) + " : "@ + pad_right(name, 8) + "     "@ + description_text(
        description_in(section_table(), name),
    )
}

/// The text of the line of section number `section_num`, whose header is `h`: its location,
/// address, size, access rights, name (padded to 8 characters) and description.
pub fn section_line_text(h: &IMAGE_SECTION_HEADER, section_num: u16) -> (r: String)
    ensures
        r@ == section_line(*h, section_num),
{
    let mut name = String::new();
    push_bstr(&mut name, h.name());
    let mut s = String::from_str("s ");
    let o = OffsetSegment::new(0, section_num).to_string();
    s.append(o.as_str());
    s.append(" rva: ");
    push_hex_fixed(&mut s, h.virtual_address as u128, 8);
    s.append(" + ");
    push_hex_fixed(&mut s, h.physical_address_or_virtual_size as u128, 8);
    s.append(" : ");
    let rwx = Rwx(h.characteristics).to_string();
    s.append(rwx.as_str());
    s.append(" : ");
    push_padded_right(&mut s, name.as_str(), 8);
    s.append("     ");
    let d = section_description(name.as_str());
    push_description(&mut s, d);
    assert(s@ =~= section_line(*h, section_num));
    s
}

/// The text of the line of COFF group `g`, which begins at `rva`, in a section with the access
/// rights `characteristics`.
pub open spec fn group_line(g: (Seq<char>, u32, OffsetSegment, u32), rva: u32, characteristics: u32) -> Seq<char> {
    "g "@ + g.2.text() + " rva: "@ + hex_fixed(rva as nat, 8) + " + "@ + hex_fixed(g.3 as nat, 8)
        + " : "@ + rwx_text(characteristics) + " :     "@ + pad_right(g.0, 30) + "  "@
        + description_text(description_in(coff_group_table(), g.0))
}

/// The text of the line of COFF group `g`, which begins at `rva`, in a section with the
/// access rights `characteristics`: its location, address, size, access rights, name (padded
/// to 30 characters) and description.
pub fn group_line_text(g: &CoffGroup, rva: u32, characteristics: SectionCharacteristics) -> (r: String)
    ensures
        r@ == group_line(g@, rva, characteristics.0),
{
    let mut s = String::from_str("g ");
    let o = g.offset_segment.to_string();
    s.append(o.as_str());
    s.append(" rva: ");
    push_hex_fixed(&mut s, rva as u128, 8);
    s.append(" + ");
    push_hex_fixed(&mut s, g.size as u128, 8);
    s.append(" : ");
    let rwx = Rwx(characteristics).to_string();
    s.append(rwx.as_str());
    s.append(" :     ");
    push_padded_right(&mut s, g.name.as_str(), 30);
    s.append("  ");
    let d = coff_group_description(g.name.as_str());
    push_description(&mut s, d);
    assert(s@ =~= group_line(g@, rva, characteristics.0));
    s
}

/// The text of the line of a section contribution at `off_seg`, which is `rva`, of `size`
/// bytes, from module `module_index`, whose name is `module_name`.
pub open spec fn contrib_line(
    off_seg: OffsetSegment,
    rva: u32,
    size: u32,
    module_index: u16,
    module_name: Seq<char>,
) -> Seq<char> {
    "c "@ + off_seg.text() + " rva: "@ + hex_fixed(rva as nat, 8) + " + "@ + hex_fixed(
        size as nat,
        8,
    ) + " : module "@ + decimal(module_index as nat) + " - "@ + module_name
}

/// The text of the line of a section contribution at `off_seg`, which is `rva`, of `size`
/// bytes, from module `module_index`, whose name is `module_name`.
pub fn contrib_line_text(
    off_seg: OffsetSegment,
    rva: u32,
    size: u32,
    module_index: u16,
    module_name: &str,
) -> (r: String)
    ensures
        r@ == contrib_line(off_seg, rva, size, module_index, module_name@),
{
    let mut s = String::from_str("c ");
    let o = off_seg.to_string();
    s.append(o.as_str());
    s.append(" rva: ");
    push_hex_fixed(&mut s, rva as u128, 8);
    s.append(" + ");
    push_hex_fixed(&mut s, size as u128, 8);
    s.append(" : module ");
    push_decimal(&mut s, module_index as u128);
    s.append(" - ");
    s.append(module_name);
    assert(s@ =~= contrib_line(off_seg, rva, size, module_index, module_name@));
    s
}

/// `c` is ASCII whitespace: space, tab, line feed, form feed or carriage return.
pub open spec fn is_ascii_space(c: char) -> bool {
    c == ' ' || c == '\t' || c == '\n' || c == '\x0C' || c == '\r'
}

/// The number of ASCII whitespace characters that `t` begins with.
pub open spec fn leading_spaces(t: Seq<char>) -> int
    decreases t.len(),
{
    if t.len() > 0 && is_ascii_space(t[0]) {
        1 + leading_spaces(t.drop_first())
    } else {
        0
    }
}

/// The number of ASCII whitespace characters that `t` ends with.
pub open spec fn trailing_spaces(t: Seq<char>) -> int
    decreases t.len(),
{
    if t.len() > 0 && is_ascii_space(t.last()) {
        1 + trailing_spaces(t.drop_last())
    } else {
        0
    }
}

/// `t` without its leading and trailing ASCII whitespace.
pub open spec fn trim_ascii(t: Seq<char>) -> Seq<char> {
    let a = leading_spaces(t);
    if a == t.len() {
        Seq::empty()
    } else {
        t.subrange(a, t.len() - trailing_spaces(t))
    }
}

proof fn lemma_leading_spaces(t: Seq<char>, i: int)
    requires
        0 <= i <= t.len(),
        forall|k: int| 0 <= k < i ==> is_ascii_space(#[trigger] t[k]),
    ensures
        leading_spaces(t) == i + leading_spaces(t.skip(i)),
    decreases i,
{
    if i > 0 {
        assert(t.drop_first().skip(i - 1) =~= t.skip(i));
        lemma_leading_spaces(t.drop_first(), i - 1);
    } else {
        assert(t.skip(0) =~= t);
    }
}

proof fn lemma_trailing_spaces(t: Seq<char>, j: int)
    requires
        0 <= j <= t.len(),
        forall|k: int| j <= k < t.len() ==> is_ascii_space(#[trigger] t[k]),
    ensures
        trailing_spaces(t) == (t.len() - j) + trailing_spaces(t.take(j)),
    decreases t.len() - j,
{
    if j < t.len() {
        assert(t.drop_last().take(j) =~= t.take(j));
        lemma_trailing_spaces(t.drop_last(), j);
    } else {
        assert(t.take(j) =~= t);
    }
}

/// The text of the line of a module symbol whose text is `sym_text`: `    ... ` and the text
/// without its leading and trailing ASCII whitespace.
pub fn symbol_line_text(sym_text: &str) -> (r: String)
    ensures
        r@ == "    ... "@ + trim_ascii(sym_text@),
{
    let cs = str_chars(sym_text);
    let n = cs.len();
    let mut a: usize = 0;
    while a < n && (cs[a] == ' ' || cs[a] == '\t' || cs[a] == '\n' || cs[a] == '\x0C' || cs[a]
        == '\r')
        invariant
            a <= n,
            n == cs@.len(),
            forall|k: int| 0 <= k < a ==> is_ascii_space(#[trigger] cs@[k]),
        decreases n - a,
    {
        a = a + 1;
    }
    proof {
        lemma_leading_spaces(cs@, a as int);
        if a < n {
            assert(cs@.skip(a as int)[0] == cs@[a as int]);
        } else {
            assert(cs@.skip(a as int).len() == 0);
        }
    }
    let mut b: usize = n;
    while b > a && (cs[b - 1] == ' ' || cs[b - 1] == '\t' || cs[b - 1] == '\n' || cs[b - 1]
        == '\x0C' || cs[b - 1] == '\r')
        invariant
            a <= b <= n,
            n == cs@.len(),
            forall|k: int| b <= k < n ==> is_ascii_space(#[trigger] cs@[k]),
        decreases b,
    {
        b = b - 1;
    }
    proof {
        lemma_trailing_spaces(cs@, b as int);
        if a < n {
            assert(!is_ascii_space(cs@[a as int]));
            assert(b > a);
            assert(cs@.take(b as int).last() == cs@[b - 1]);
            assert(!is_ascii_space(cs@[b - 1]));
        }
    }
    let mut s = String::from_str("    ... ");
    let mut i: usize = a;
    while i < b
        invariant
            a <= i <= b <= n,
            n == cs@.len(),
            s@ == "    ... "@ + cs@.subrange(a as int, i as int),
        decreases b - i,
    {
        push_char(&mut s, cs[i]);
        i = i + 1;
        assert(s@ =~= "    ... "@ + cs@.subrange(a as int, i as int));
    }
    proof {
        assert(cs@ == sym_text@);
        if a == n {
            assert(cs@.subrange(a as int, b as int) =~= Seq::<char>::empty());
        }
    }
    s
}

/// The text of the line of COFF group number `i` of the list of COFF groups: the number
/// (right-aligned in 4 characters), location, size, characteristics and name (padded to 16
/// characters).
pub open spec fn coff_group_list_line(i: usize, g: (Seq<char>, u32, OffsetSegment, u32)) -> Seq<char> {
    "  ["@ + pad_left(decimal(i as nat), 4) + "]  "@ + g.2.text() + " + "@ + hex_fixed(g.3 as nat, 8)
        + ", "@ + hex_fixed(g.1 as nat, 8) + " : "@ + pad_right(g.0, 16)
}

/// The text of the line of COFF group number `i` of the list of COFF groups.
pub fn coff_group_list_line_text(i: usize, g: &CoffGroup) -> (r: String)
    ensures
        r@ == coff_group_list_line(i, g@),
{
    let mut num = String::new();
    push_decimal(&mut num, i as u128);
    let k = str_chars(num.as_str()).len();
    let mut s = String::from_str("  [");
    if k < 4 {
        push_spaces(&mut s, 4 - k);
    } else {
        push_spaces(&mut s, 0);
    }
    s.append(num.as_str());
    s.append("]  ");
    let o = g.offset_segment.to_string();
    s.append(o.as_str());
    s.append(" + ");
    push_hex_fixed(&mut s, g.size as u128, 8);
    s.append(", ");
    push_hex_fixed(&mut s, g.characteristics as u128, 8);
    s.append(" : ");
    push_padded_right(&mut s, g.name.as_str(), 16);
    assert(s@ =~= coff_group_list_line(i, g@));
    s
}

} // verus!

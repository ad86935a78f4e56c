//! The text line of one symbol record in a listing of symbols: where the scopes of procedures
//! and blocks nest, and what each kind of record shows of its fields.
//!
//! Type and item references, register names and floating-point values are shown by
//! callbacks of the caller, which holds the type streams, the register tables and the
//! floating-point formatting.

use crate::number::{number_display, NumberText, LF_REAL32, LF_REAL64, lemma_decoded_number_displayable};
use crate::offset_segment::OffsetSegment;
use crate::parser::{has_nul, le_u32_at, le_u64_at, read_u32_at, strz_len, strz_value, ParserError};
use crate::syms::{SymData, SymKind, sym_parsed, sym_parses};
use crate::syms::{S_COMPILE, S_SSEARCH, S_SKIP, S_CVRESERVE, S_OBJNAME_ST, S_ENDARG, S_RETURN, S_ENTRYTHIS, S_BPREL16, S_LDATA16, S_GDATA16, S_PUB16, S_LPROC16, S_GPROC16, S_THUNK16, S_BLOCK16, S_WITH16, S_LABEL16, S_CEXMODEL16, S_VFTABLE16, S_REGREL16, S_THUNK32_ST, S_BLOCK32_ST, S_WITH32_ST, S_LABEL32_ST, S_CEXMODEL32, S_SLINK32, S_PROCREF_ST, S_DATAREF_ST, S_ALIGN, S_LPROCREF_ST, S_OEM, S_TI16_MAX, S_REGISTER_ST, S_CONSTANT_ST, S_UDT_ST, S_COBOLUDT_ST, S_MANYREG_ST, S_BPREL32_ST, S_LDATA32_ST, S_GDATA32_ST, S_PUB32_ST, S_LPROC32_ST, S_GPROC32_ST, S_VFTABLE32, S_REGREL32_ST, S_LTHREAD32_ST, S_GTHREAD32_ST, S_LPROCMIPS_ST, S_GPROCMIPS_ST, S_COMPILE2_ST, S_MANYREG2_ST, S_LPROCIA64_ST, S_GPROCIA64_ST, S_LOCALSLOT_ST, S_PARAMSLOT_ST, S_GMANPROC_ST, S_LMANPROC_ST, S_RESERVED1, S_RESERVED2, S_RESERVED3, S_RESERVED4, S_LMANDATA_ST, S_GMANDATA_ST, S_MANFRAMEREL_ST, S_MANREGISTER_ST, S_MANSLOT_ST, S_MANMANYREG_ST, S_MANREGREL_ST, S_MANMANYREG2_ST, S_MANTYPREF, S_UNAMESPACE_ST, S_ST_MAX, S_WITH32, S_MANYREG, S_LPROCMIPS, S_GPROCMIPS, S_MANYREG2, S_LPROCIA64, S_GPROCIA64, S_LOCALSLOT, S_PARAMSLOT, S_MANFRAMEREL, S_MANREGISTER, S_MANSLOT, S_MANMANYREG, S_MANREGREL, S_MANMANYREG2, S_DATAREF, S_ANNOTATIONREF, S_TOKENREF, S_GMANPROC, S_LMANPROC, S_ATTR_FRAMEREL, S_ATTR_REGISTER, S_ATTR_REGREL, S_ATTR_MANYREG, S_SEPCODE, S_LOCAL_2005, S_DEFRANGE_2005, S_DEFRANGE2_2005, S_DISCARDED, S_LPROCMIPS_ID, S_GPROCMIPS_ID, S_LPROCIA64_ID, S_GPROCIA64_ID, S_DEFRANGE_HLSL, S_GDATA_HLSL, S_LDATA_HLSL, S_LOCAL_DPC_GROUPSHARED, S_DEFRANGE_DPC_PTR_TAG, S_DPC_SYM_TAG_MAP, S_ARMSWITCHTABLE, S_POGODATA, S_INLINESITE2, S_MOD_TYPEREF, S_REF_MINIPDB, S_PDBMAP, S_GDATA_HLSL32, S_LDATA_HLSL32, S_GDATA_HLSL32_EX, S_LDATA_HLSL32_EX, S_FASTLINK, S_INLINEES, S_END, S_INLINESITE_END, S_PROC_ID_END, S_THUNK32, S_TRAMPOLINE, S_SECTION, S_COFFGROUP, S_EXPORT, S_LPROC32, S_GPROC32, S_LPROC32_ID, S_GPROC32_ID, S_LPROC32_DPC, S_LPROC32_DPC_ID, S_REGISTER, S_PUB32, S_PROCREF, S_LPROCREF, S_ENVBLOCK, S_INLINESITE, S_LOCAL, S_DEFRANGE, S_DEFRANGE_SUBFIELD, S_DEFRANGE_REGISTER, S_DEFRANGE_FRAMEPOINTER_REL, S_DEFRANGE_SUBFIELD_REGISTER, S_DEFRANGE_FRAMEPOINTER_REL_FULL_SCOPE, S_DEFRANGE_REGISTER_REL, S_BLOCK32, S_LABEL32, S_OBJNAME, S_COMPILE2, S_COMPILE3, S_FRAMEPROC, S_CALLSITEINFO, S_FILESTATIC, S_HEAPALLOCSITE, S_FRAMECOOKIE, S_CALLEES, S_CALLERS, S_UDT, S_COBOLUDT, S_BUILDINFO, S_BPREL32, S_REGREL32, S_CONSTANT, S_MANCONSTANT, S_LDATA32, S_GDATA32, S_LMANDATA, S_GMANDATA, S_LTHREAD32, S_GTHREAD32, S_UNAMESPACE, S_ANNOTATION, S_HOTPATCHFUNC};
use crate::text::{
    bstr_display, decimal, hex, hex_fixed, push_bstr, push_char, push_decimal, push_hex,
    push_hex_fixed, push_signed_decimal, signed_decimal,
};
use vstd::prelude::*;
use vstd::string::*;

verus! {

/// Records of kind `k` open a scope (procedures, blocks, thunks, inline sites).
pub open spec fn opens_scope(k: u16) -> bool {
    k == S_GPROC32 || k == S_LPROC32 || k == S_LPROC32_ID || k == S_GPROC32_ID || k == S_BLOCK32
        || k == S_SEPCODE || k == S_THUNK32 || k == S_INLINESITE || k == S_INLINESITE2
}

/// Records of kind `k` close a scope.
pub open spec fn ends_scope(k: u16) -> bool {
    k == S_END || k == S_PROC_ID_END || k == S_INLINESITE_END
}

/// The scope depth after a record of kind `k` at depth `depth`: one deeper after a record that
/// opens a scope, one shallower after one that closes a scope (never below zero).
pub open spec fn next_depth(k: u16, depth: u32) -> int {
    if opens_scope(k) {
        depth + 1
    } else if ends_scope(k) && depth > 0 {
        depth - 1
    } else {
        depth as int
    }
}

/// No record kind both opens and closes a scope; a record that opens a scope and one that
/// closes it, in turn, bring the depth back to where it was; and the depth never goes below
/// zero.
pub proof fn lemma_scope_depth_balances(open: u16, close: u16, depth: u32)
    requires
        opens_scope(open),
        ends_scope(close),
        depth < u32::MAX,
    ensures
        !ends_scope(open),
        !opens_scope(close),
        next_depth(close, next_depth(open, depth) as u32) == depth,
        forall|k: u16, d: u32| next_depth(k, d) >= 0,
{
}

/// Records that decode as a procedure, a block or an inline site (the records whose bodies
/// run up to a matching end record) open a scope: the depth after one is one more than the
/// depth before it. Records that decode as an `S_END` or an inline site end close one: the
/// depth after one is one less, where it was above zero.
pub proof fn lemma_scope_records_move_the_depth<'a>(k: u16, s: Seq<u8>, d: SymData<'a>, depth: u32)
    requires
        sym_parsed(k, s, d),
    ensures
        d is Proc || d is Block || d is InlineSite || d is InlineSite2 ==> next_depth(k, depth)
            == depth + 1,
        (d is End || d is InlineSiteEnd) && depth > 0 ==> next_depth(k, depth) == depth - 1,
        (d is End || d is InlineSiteEnd) && depth == 0 ==> next_depth(k, depth) == 0,
{
}

/// The name of the record kind `k`, where it is a known kind.
pub open spec fn sym_kind_name(k: u16) -> Option<Seq<char>> {
    if k == S_COMPILE {
        Some("S_COMPILE"@)
    } else if k == S_SSEARCH {
        Some("S_SSEARCH"@)
    } else if k == S_SKIP {
        Some("S_SKIP"@)
    } else if k == S_CVRESERVE {
        Some("S_CVRESERVE"@)
    } else if k == S_OBJNAME_ST {
        Some("S_OBJNAME_ST"@)
    } else if k == S_ENDARG {
        Some("S_ENDARG"@)
    } else if k == S_RETURN {
        Some("S_RETURN"@)
    } else if k == S_ENTRYTHIS {
        Some("S_ENTRYTHIS"@)
    } else if k == S_BPREL16 {
        Some("S_BPREL16"@)
    } else if k == S_LDATA16 {
        Some("S_LDATA16"@)
    } else if k == S_GDATA16 {
        Some("S_GDATA16"@)
    } else if k == S_PUB16 {
        Some("S_PUB16"@)
    } else if k == S_LPROC16 {
        Some("S_LPROC16"@)
    } else if k == S_GPROC16 {
        Some("S_GPROC16"@)
    } else if k == S_THUNK16 {
        Some("S_THUNK16"@)
    } else if k == S_BLOCK16 {
        Some("S_BLOCK16"@)
    } else if k == S_WITH16 {
        Some("S_WITH16"@)
    } else if k == S_LABEL16 {
        Some("S_LABEL16"@)
    } else if k == S_CEXMODEL16 {
        Some("S_CEXMODEL16"@)
    } else if k == S_VFTABLE16 {
        Some("S_VFTABLE16"@)
    } else if k == S_REGREL16 {
        Some("S_REGREL16"@)
    } else if k == S_THUNK32_ST {
        Some("S_THUNK32_ST"@)
    } else if k == S_BLOCK32_ST {
        Some("S_BLOCK32_ST"@)
    } else if k == S_WITH32_ST {
        Some("S_WITH32_ST"@)
    } else if k == S_LABEL32_ST {
        Some("S_LABEL32_ST"@)
    } else if k == S_CEXMODEL32 {
        Some("S_CEXMODEL32"@)
    } else if k == S_SLINK32 {
        Some("S_SLINK32"@)
    } else if k == S_PROCREF_ST {
        Some("S_PROCREF_ST"@)
    } else if k == S_DATAREF_ST {
        Some("S_DATAREF_ST"@)
    } else if k == S_ALIGN {
        Some("S_ALIGN"@)
    } else if k == S_LPROCREF_ST {
        Some("S_LPROCREF_ST"@)
    } else if k == S_OEM {
        Some("S_OEM"@)
    } else if k == S_TI16_MAX {
        Some("S_TI16_MAX"@)
    } else if k == S_REGISTER_ST {
        Some("S_REGISTER_ST"@)
    } else if k == S_CONSTANT_ST {
        Some("S_CONSTANT_ST"@)
    } else if k == S_UDT_ST {
        Some("S_UDT_ST"@)
    } else if k == S_COBOLUDT_ST {
        Some("S_COBOLUDT_ST"@)
    } else if k == S_MANYREG_ST {
        Some("S_MANYREG_ST"@)
    } else if k == S_BPREL32_ST {
        Some("S_BPREL32_ST"@)
    } else if k == S_LDATA32_ST {
        Some("S_LDATA32_ST"@)
    } else if k == S_GDATA32_ST {
        Some("S_GDATA32_ST"@)
    } else if k == S_PUB32_ST {
        Some("S_PUB32_ST"@)
    } else if k == S_LPROC32_ST {
        Some("S_LPROC32_ST"@)
    } else if k == S_GPROC32_ST {
        Some("S_GPROC32_ST"@)
    } else if k == S_VFTABLE32 {
        Some("S_VFTABLE32"@)
    } else if k == S_REGREL32_ST {
        Some("S_REGREL32_ST"@)
    } else if k == S_LTHREAD32_ST {
        Some("S_LTHREAD32_ST"@)
    } else if k == S_GTHREAD32_ST {
        Some("S_GTHREAD32_ST"@)
    } else if k == S_LPROCMIPS_ST {
        Some("S_LPROCMIPS_ST"@)
    } else if k == S_GPROCMIPS_ST {
        Some("S_GPROCMIPS_ST"@)
    } else if k == S_COMPILE2_ST {
        Some("S_COMPILE2_ST"@)
    } else if k == S_MANYREG2_ST {
        Some("S_MANYREG2_ST"@)
    } else if k == S_LPROCIA64_ST {
        Some("S_LPROCIA64_ST"@)
    } else if k == S_GPROCIA64_ST {
        Some("S_GPROCIA64_ST"@)
    } else if k == S_LOCALSLOT_ST {
        Some("S_LOCALSLOT_ST"@)
    } else if k == S_PARAMSLOT_ST {
        Some("S_PARAMSLOT_ST"@)
    } else if k == S_GMANPROC_ST {
        Some("S_GMANPROC_ST"@)
    } else if k == S_LMANPROC_ST {
        Some("S_LMANPROC_ST"@)
    } else if k == S_RESERVED1 {
        Some("S_RESERVED1"@)
    } else if k == S_RESERVED2 {
        Some("S_RESERVED2"@)
    } else if k == S_RESERVED3 {
        Some("S_RESERVED3"@)
    } else if k == S_RESERVED4 {
        Some("S_RESERVED4"@)
    } else if k == S_LMANDATA_ST {
        Some("S_LMANDATA_ST"@)
    } else if k == S_GMANDATA_ST {
        Some("S_GMANDATA_ST"@)
    } else if k == S_MANFRAMEREL_ST {
        Some("S_MANFRAMEREL_ST"@)
    } else if k == S_MANREGISTER_ST {
        Some("S_MANREGISTER_ST"@)
    } else if k == S_MANSLOT_ST {
        Some("S_MANSLOT_ST"@)
    } else if k == S_MANMANYREG_ST {
        Some("S_MANMANYREG_ST"@)
    } else if k == S_MANREGREL_ST {
        Some("S_MANREGREL_ST"@)
    } else if k == S_MANMANYREG2_ST {
        Some("S_MANMANYREG2_ST"@)
    } else if k == S_MANTYPREF {
        Some("S_MANTYPREF"@)
    } else if k == S_UNAMESPACE_ST {
        Some("S_UNAMESPACE_ST"@)
    } else if k == S_ST_MAX {
        Some("S_ST_MAX"@)
    } else if k == S_WITH32 {
        Some("S_WITH32"@)
    } else if k == S_MANYREG {
        Some("S_MANYREG"@)
    } else if k == S_LPROCMIPS {
        Some("S_LPROCMIPS"@)
    } else if k == S_GPROCMIPS {
        Some("S_GPROCMIPS"@)
    } else if k == S_MANYREG2 {
        Some("S_MANYREG2"@)
    } else if k == S_LPROCIA64 {
        Some("S_LPROCIA64"@)
    } else if k == S_GPROCIA64 {
        Some("S_GPROCIA64"@)
    } else if k == S_LOCALSLOT {
        Some("S_LOCALSLOT"@)
    } else if k == S_PARAMSLOT {
        Some("S_PARAMSLOT"@)
    } else if k == S_MANFRAMEREL {
        Some("S_MANFRAMEREL"@)
    } else if k == S_MANREGISTER {
        Some("S_MANREGISTER"@)
    } else if k == S_MANSLOT {
        Some("S_MANSLOT"@)
    } else if k == S_MANMANYREG {
        Some("S_MANMANYREG"@)
    } else if k == S_MANREGREL {
        Some("S_MANREGREL"@)
    } else if k == S_MANMANYREG2 {
        Some("S_MANMANYREG2"@)
    } else if k == S_DATAREF {
        Some("S_DATAREF"@)
    } else if k == S_ANNOTATIONREF {
        Some("S_ANNOTATIONREF"@)
    } else if k == S_TOKENREF {
        Some("S_TOKENREF"@)
    } else if k == S_GMANPROC {
        Some("S_GMANPROC"@)
    } else if k == S_LMANPROC {
        Some("S_LMANPROC"@)
    } else if k == S_ATTR_FRAMEREL {
        Some("S_ATTR_FRAMEREL"@)
    } else if k == S_ATTR_REGISTER {
        Some("S_ATTR_REGISTER"@)
    } else if k == S_ATTR_REGREL {
        Some("S_ATTR_REGREL"@)
    } else if k == S_ATTR_MANYREG {
        Some("S_ATTR_MANYREG"@)
    } else if k == S_SEPCODE {
        Some("S_SEPCODE"@)
    } else if k == S_LOCAL_2005 {
        Some("S_LOCAL_2005"@)
    } else if k == S_DEFRANGE_2005 {
        Some("S_DEFRANGE_2005"@)
    } else if k == S_DEFRANGE2_2005 {
        Some("S_DEFRANGE2_2005"@)
    } else if k == S_DISCARDED {
        Some("S_DISCARDED"@)
    } else if k == S_LPROCMIPS_ID {
        Some("S_LPROCMIPS_ID"@)
    } else if k == S_GPROCMIPS_ID {
        Some("S_GPROCMIPS_ID"@)
    } else if k == S_LPROCIA64_ID {
        Some("S_LPROCIA64_ID"@)
    } else if k == S_GPROCIA64_ID {
        Some("S_GPROCIA64_ID"@)
    } else if k == S_DEFRANGE_HLSL {
        Some("S_DEFRANGE_HLSL"@)
    } else if k == S_GDATA_HLSL {
        Some("S_GDATA_HLSL"@)
    } else if k == S_LDATA_HLSL {
        Some("S_LDATA_HLSL"@)
    } else if k == S_LOCAL_DPC_GROUPSHARED {
        Some("S_LOCAL_DPC_GROUPSHARED"@)
    } else if k == S_DEFRANGE_DPC_PTR_TAG {
        Some("S_DEFRANGE_DPC_PTR_TAG"@)
    } else if k == S_DPC_SYM_TAG_MAP {
        Some("S_DPC_SYM_TAG_MAP"@)
    } else if k == S_ARMSWITCHTABLE {
        Some("S_ARMSWITCHTABLE"@)
    } else if k == S_POGODATA {
        Some("S_POGODATA"@)
    } else if k == S_INLINESITE2 {
        Some("S_INLINESITE2"@)
    } else if k == S_MOD_TYPEREF {
        Some("S_MOD_TYPEREF"@)
    } else if k == S_REF_MINIPDB {
        Some("S_REF_MINIPDB"@)
    } else if k == S_PDBMAP {
        Some("S_PDBMAP"@)
    } else if k == S_GDATA_HLSL32 {
        Some("S_GDATA_HLSL32"@)
    } else if k == S_LDATA_HLSL32 {
        Some("S_LDATA_HLSL32"@)
    } else if k == S_GDATA_HLSL32_EX {
        Some("S_GDATA_HLSL32_EX"@)
    } else if k == S_LDATA_HLSL32_EX {
        Some("S_LDATA_HLSL32_EX"@)
    } else if k == S_FASTLINK {
        Some("S_FASTLINK"@)
    } else if k == S_INLINEES {
        Some("S_INLINEES"@)
    } else if k == S_END {
        Some("S_END"@)
    } else if k == S_INLINESITE_END {
        Some("S_INLINESITE_END"@)
    } else if k == S_PROC_ID_END {
        Some("S_PROC_ID_END"@)
    } else if k == S_THUNK32 {
        Some("S_THUNK32"@)
    } else if k == S_TRAMPOLINE {
        Some("S_TRAMPOLINE"@)
    } else if k == S_SECTION {
        Some("S_SECTION"@)
    } else if k == S_COFFGROUP {
        Some("S_COFFGROUP"@)
    } else if k == S_EXPORT {
        Some("S_EXPORT"@)
    } else if k == S_LPROC32 {
        Some("S_LPROC32"@)
    } else if k == S_GPROC32 {
        Some("S_GPROC32"@)
    } else if k == S_LPROC32_ID {
        Some("S_LPROC32_ID"@)
    } else if k == S_GPROC32_ID {
        Some("S_GPROC32_ID"@)
    } else if k == S_LPROC32_DPC {
        Some("S_LPROC32_DPC"@)
    } else if k == S_LPROC32_DPC_ID {
        Some("S_LPROC32_DPC_ID"@)
    } else if k == S_REGISTER {
        Some("S_REGISTER"@)
    } else if k == S_PUB32 {
        Some("S_PUB32"@)
    } else if k == S_PROCREF {
        Some("S_PROCREF"@)
    } else if k == S_LPROCREF {
        Some("S_LPROCREF"@)
    } else if k == S_ENVBLOCK {
        Some("S_ENVBLOCK"@)
    } else if k == S_INLINESITE {
        Some("S_INLINESITE"@)
    } else if k == S_LOCAL {
        Some("S_LOCAL"@)
    } else if k == S_DEFRANGE {
        Some("S_DEFRANGE"@)
    } else if k == S_DEFRANGE_SUBFIELD {
        Some("S_DEFRANGE_SUBFIELD"@)
    } else if k == S_DEFRANGE_REGISTER {
        Some("S_DEFRANGE_REGISTER"@)
    } else if k == S_DEFRANGE_FRAMEPOINTER_REL {
        Some("S_DEFRANGE_FRAMEPOINTER_REL"@)
    } else if k == S_DEFRANGE_SUBFIELD_REGISTER {
        Some("S_DEFRANGE_SUBFIELD_REGISTER"@)
    } else if k == S_DEFRANGE_FRAMEPOINTER_REL_FULL_SCOPE {
        Some("S_DEFRANGE_FRAMEPOINTER_REL_FULL_SCOPE"@)
    } else if k == S_DEFRANGE_REGISTER_REL {
        Some("S_DEFRANGE_REGISTER_REL"@)
    } else if k == S_BLOCK32 {
        Some("S_BLOCK32"@)
    } else if k == S_LABEL32 {
        Some("S_LABEL32"@)
    } else if k == S_OBJNAME {
        Some("S_OBJNAME"@)
    } else if k == S_COMPILE2 {
        Some("S_COMPILE2"@)
    } else if k == S_COMPILE3 {
        Some("S_COMPILE3"@)
    } else if k == S_FRAMEPROC {
        Some("S_FRAMEPROC"@)
    } else if k == S_CALLSITEINFO {
        Some("S_CALLSITEINFO"@)
    } else if k == S_FILESTATIC {
        Some("S_FILESTATIC"@)
    } else if k == S_HEAPALLOCSITE {
        Some("S_HEAPALLOCSITE"@)
    } else if k == S_FRAMECOOKIE {
        Some("S_FRAMECOOKIE"@)
    } else if k == S_CALLEES {
        Some("S_CALLEES"@)
    } else if k == S_CALLERS {
        Some("S_CALLERS"@)
    } else if k == S_UDT {
        Some("S_UDT"@)
    } else if k == S_COBOLUDT {
        Some("S_COBOLUDT"@)
    } else if k == S_BUILDINFO {
        Some("S_BUILDINFO"@)
    } else if k == S_BPREL32 {
        Some("S_BPREL32"@)
    } else if k == S_REGREL32 {
        Some("S_REGREL32"@)
    } else if k == S_CONSTANT {
        Some("S_CONSTANT"@)
    } else if k == S_MANCONSTANT {
        Some("S_MANCONSTANT"@)
    } else if k == S_LDATA32 {
        Some("S_LDATA32"@)
    } else if k == S_GDATA32 {
        Some("S_GDATA32"@)
    } else if k == S_LMANDATA {
        Some("S_LMANDATA"@)
    } else if k == S_GMANDATA {
        Some("S_GMANDATA"@)
    } else if k == S_LTHREAD32 {
        Some("S_LTHREAD32"@)
    } else if k == S_GTHREAD32 {
        Some("S_GTHREAD32"@)
    } else if k == S_UNAMESPACE {
        Some("S_UNAMESPACE"@)
    } else if k == S_ANNOTATION {
        Some("S_ANNOTATION"@)
    } else if k == S_HOTPATCHFUNC {
        Some("S_HOTPATCHFUNC"@)
    } else {
        None
    }
}

/// The text of the record kind `k`: its name, or `??(0x....)` with four hexadecimal digits.
pub open spec fn sym_kind_text(k: u16) -> Seq<char> {
    match sym_kind_name(k) {
        Some(n) => n,
        None => "??(0x"@ + hex_fixed(k as nat, 4) + ")"@,
    }
}

/// The name of the record kind `k`, where it is a known kind.
pub fn sym_kind_name_str(k: u16) -> (r: Option<&'static str>)
    ensures
        match sym_kind_name(k) {
            Some(n) => r matches Some(t) && t@ == n,
            None => r is None,
        },
{
    match k {
        S_COMPILE => Some("S_COMPILE"),
        S_SSEARCH => Some("S_SSEARCH"),
        S_SKIP => Some("S_SKIP"),
        S_CVRESERVE => Some("S_CVRESERVE"),
        S_OBJNAME_ST => Some("S_OBJNAME_ST"),
        S_ENDARG => Some("S_ENDARG"),
        S_RETURN => Some("S_RETURN"),
        S_ENTRYTHIS => Some("S_ENTRYTHIS"),
        S_BPREL16 => Some("S_BPREL16"),
        S_LDATA16 => Some("S_LDATA16"),
        S_GDATA16 => Some("S_GDATA16"),
        S_PUB16 => Some("S_PUB16"),
        S_LPROC16 => Some("S_LPROC16"),
        S_GPROC16 => Some("S_GPROC16"),
        S_THUNK16 => Some("S_THUNK16"),
        S_BLOCK16 => Some("S_BLOCK16"),
        S_WITH16 => Some("S_WITH16"),
        S_LABEL16 => Some("S_LABEL16"),
        S_CEXMODEL16 => Some("S_CEXMODEL16"),
        S_VFTABLE16 => Some("S_VFTABLE16"),
        S_REGREL16 => Some("S_REGREL16"),
        S_THUNK32_ST => Some("S_THUNK32_ST"),
        S_BLOCK32_ST => Some("S_BLOCK32_ST"),
        S_WITH32_ST => Some("S_WITH32_ST"),
        S_LABEL32_ST => Some("S_LABEL32_ST"),
        S_CEXMODEL32 => Some("S_CEXMODEL32"),
        S_SLINK32 => Some("S_SLINK32"),
        S_PROCREF_ST => Some("S_PROCREF_ST"),
        S_DATAREF_ST => Some("S_DATAREF_ST"),
        S_ALIGN => Some("S_ALIGN"),
        S_LPROCREF_ST => Some("S_LPROCREF_ST"),
        S_OEM => Some("S_OEM"),
        S_TI16_MAX => Some("S_TI16_MAX"),
        S_REGISTER_ST => Some("S_REGISTER_ST"),
        S_CONSTANT_ST => Some("S_CONSTANT_ST"),
        S_UDT_ST => Some("S_UDT_ST"),
        S_COBOLUDT_ST => Some("S_COBOLUDT_ST"),
        S_MANYREG_ST => Some("S_MANYREG_ST"),
        S_BPREL32_ST => Some("S_BPREL32_ST"),
        S_LDATA32_ST => Some("S_LDATA32_ST"),
        S_GDATA32_ST => Some("S_GDATA32_ST"),
        S_PUB32_ST => Some("S_PUB32_ST"),
        S_LPROC32_ST => Some("S_LPROC32_ST"),
        S_GPROC32_ST => Some("S_GPROC32_ST"),
        S_VFTABLE32 => Some("S_VFTABLE32"),
        S_REGREL32_ST => Some("S_REGREL32_ST"),
        S_LTHREAD32_ST => Some("S_LTHREAD32_ST"),
        S_GTHREAD32_ST => Some("S_GTHREAD32_ST"),
        S_LPROCMIPS_ST => Some("S_LPROCMIPS_ST"),
        S_GPROCMIPS_ST => Some("S_GPROCMIPS_ST"),
        S_COMPILE2_ST => Some("S_COMPILE2_ST"),
        S_MANYREG2_ST => Some("S_MANYREG2_ST"),
        S_LPROCIA64_ST => Some("S_LPROCIA64_ST"),
        S_GPROCIA64_ST => Some("S_GPROCIA64_ST"),
        S_LOCALSLOT_ST => Some("S_LOCALSLOT_ST"),
        S_PARAMSLOT_ST => Some("S_PARAMSLOT_ST"),
        S_GMANPROC_ST => Some("S_GMANPROC_ST"),
        S_LMANPROC_ST => Some("S_LMANPROC_ST"),
        S_RESERVED1 => Some("S_RESERVED1"),
        S_RESERVED2 => Some("S_RESERVED2"),
        S_RESERVED3 => Some("S_RESERVED3"),
        S_RESERVED4 => Some("S_RESERVED4"),
        S_LMANDATA_ST => Some("S_LMANDATA_ST"),
        S_GMANDATA_ST => Some("S_GMANDATA_ST"),
        S_MANFRAMEREL_ST => Some("S_MANFRAMEREL_ST"),
        S_MANREGISTER_ST => Some("S_MANREGISTER_ST"),
        S_MANSLOT_ST => Some("S_MANSLOT_ST"),
        S_MANMANYREG_ST => Some("S_MANMANYREG_ST"),
        S_MANREGREL_ST => Some("S_MANREGREL_ST"),
        S_MANMANYREG2_ST => Some("S_MANMANYREG2_ST"),
        S_MANTYPREF => Some("S_MANTYPREF"),
        S_UNAMESPACE_ST => Some("S_UNAMESPACE_ST"),
        S_ST_MAX => Some("S_ST_MAX"),
        S_WITH32 => Some("S_WITH32"),
        S_MANYREG => Some("S_MANYREG"),
        S_LPROCMIPS => Some("S_LPROCMIPS"),
        S_GPROCMIPS => Some("S_GPROCMIPS"),
        S_MANYREG2 => Some("S_MANYREG2"),
        S_LPROCIA64 => Some("S_LPROCIA64"),
        S_GPROCIA64 => Some("S_GPROCIA64"),
        S_LOCALSLOT => Some("S_LOCALSLOT"),
        S_PARAMSLOT => Some("S_PARAMSLOT"),
        S_MANFRAMEREL => Some("S_MANFRAMEREL"),
        S_MANREGISTER => Some("S_MANREGISTER"),
        S_MANSLOT => Some("S_MANSLOT"),
        S_MANMANYREG => Some("S_MANMANYREG"),
        S_MANREGREL => Some("S_MANREGREL"),
        S_MANMANYREG2 => Some("S_MANMANYREG2"),
        S_DATAREF => Some("S_DATAREF"),
        S_ANNOTATIONREF => Some("S_ANNOTATIONREF"),
        S_TOKENREF => Some("S_TOKENREF"),
        S_GMANPROC => Some("S_GMANPROC"),
        S_LMANPROC => Some("S_LMANPROC"),
        S_ATTR_FRAMEREL => Some("S_ATTR_FRAMEREL"),
        S_ATTR_REGISTER => Some("S_ATTR_REGISTER"),
        S_ATTR_REGREL => Some("S_ATTR_REGREL"),
        S_ATTR_MANYREG => Some("S_ATTR_MANYREG"),
        S_SEPCODE => Some("S_SEPCODE"),
        S_LOCAL_2005 => Some("S_LOCAL_2005"),
        S_DEFRANGE_2005 => Some("S_DEFRANGE_2005"),
        S_DEFRANGE2_2005 => Some("S_DEFRANGE2_2005"),
        S_DISCARDED => Some("S_DISCARDED"),
        S_LPROCMIPS_ID => Some("S_LPROCMIPS_ID"),
        S_GPROCMIPS_ID => Some("S_GPROCMIPS_ID"),
        S_LPROCIA64_ID => Some("S_LPROCIA64_ID"),
        S_GPROCIA64_ID => Some("S_GPROCIA64_ID"),
        S_DEFRANGE_HLSL => Some("S_DEFRANGE_HLSL"),
        S_GDATA_HLSL => Some("S_GDATA_HLSL"),
        S_LDATA_HLSL => Some("S_LDATA_HLSL"),
        S_LOCAL_DPC_GROUPSHARED => Some("S_LOCAL_DPC_GROUPSHARED"),
        S_DEFRANGE_DPC_PTR_TAG => Some("S_DEFRANGE_DPC_PTR_TAG"),
        S_DPC_SYM_TAG_MAP => Some("S_DPC_SYM_TAG_MAP"),
        S_ARMSWITCHTABLE => Some("S_ARMSWITCHTABLE"),
        S_POGODATA => Some("S_POGODATA"),
        S_INLINESITE2 => Some("S_INLINESITE2"),
        S_MOD_TYPEREF => Some("S_MOD_TYPEREF"),
        S_REF_MINIPDB => Some("S_REF_MINIPDB"),
        S_PDBMAP => Some("S_PDBMAP"),
        S_GDATA_HLSL32 => Some("S_GDATA_HLSL32"),
        S_LDATA_HLSL32 => Some("S_LDATA_HLSL32"),
        S_GDATA_HLSL32_EX => Some("S_GDATA_HLSL32_EX"),
        S_LDATA_HLSL32_EX => Some("S_LDATA_HLSL32_EX"),
        S_FASTLINK => Some("S_FASTLINK"),
        S_INLINEES => Some("S_INLINEES"),
        S_END => Some("S_END"),
        S_INLINESITE_END => Some("S_INLINESITE_END"),
        S_PROC_ID_END => Some("S_PROC_ID_END"),
        S_THUNK32 => Some("S_THUNK32"),
        S_TRAMPOLINE => Some("S_TRAMPOLINE"),
        S_SECTION => Some("S_SECTION"),
        S_COFFGROUP => Some("S_COFFGROUP"),
        S_EXPORT => Some("S_EXPORT"),
        S_LPROC32 => Some("S_LPROC32"),
        S_GPROC32 => Some("S_GPROC32"),
        S_LPROC32_ID => Some("S_LPROC32_ID"),
        S_GPROC32_ID => Some("S_GPROC32_ID"),
        S_LPROC32_DPC => Some("S_LPROC32_DPC"),
        S_LPROC32_DPC_ID => Some("S_LPROC32_DPC_ID"),
        S_REGISTER => Some("S_REGISTER"),
        S_PUB32 => Some("S_PUB32"),
        S_PROCREF => Some("S_PROCREF"),
        S_LPROCREF => Some("S_LPROCREF"),
        S_ENVBLOCK => Some("S_ENVBLOCK"),
        S_INLINESITE => Some("S_INLINESITE"),
        S_LOCAL => Some("S_LOCAL"),
        S_DEFRANGE => Some("S_DEFRANGE"),
        S_DEFRANGE_SUBFIELD => Some("S_DEFRANGE_SUBFIELD"),
        S_DEFRANGE_REGISTER => Some("S_DEFRANGE_REGISTER"),
        S_DEFRANGE_FRAMEPOINTER_REL => Some("S_DEFRANGE_FRAMEPOINTER_REL"),
        S_DEFRANGE_SUBFIELD_REGISTER => Some("S_DEFRANGE_SUBFIELD_REGISTER"),
        S_DEFRANGE_FRAMEPOINTER_REL_FULL_SCOPE => Some("S_DEFRANGE_FRAMEPOINTER_REL_FULL_SCOPE"),
        S_DEFRANGE_REGISTER_REL => Some("S_DEFRANGE_REGISTER_REL"),
        S_BLOCK32 => Some("S_BLOCK32"),
        S_LABEL32 => Some("S_LABEL32"),
        S_OBJNAME => Some("S_OBJNAME"),
        S_COMPILE2 => Some("S_COMPILE2"),
        S_COMPILE3 => Some("S_COMPILE3"),
        S_FRAMEPROC => Some("S_FRAMEPROC"),
        S_CALLSITEINFO => Some("S_CALLSITEINFO"),
        S_FILESTATIC => Some("S_FILESTATIC"),
        S_HEAPALLOCSITE => Some("S_HEAPALLOCSITE"),
        S_FRAMECOOKIE => Some("S_FRAMECOOKIE"),
        S_CALLEES => Some("S_CALLEES"),
        S_CALLERS => Some("S_CALLERS"),
        S_UDT => Some("S_UDT"),
        S_COBOLUDT => Some("S_COBOLUDT"),
        S_BUILDINFO => Some("S_BUILDINFO"),
        S_BPREL32 => Some("S_BPREL32"),
        S_REGREL32 => Some("S_REGREL32"),
        S_CONSTANT => Some("S_CONSTANT"),
        S_MANCONSTANT => Some("S_MANCONSTANT"),
        S_LDATA32 => Some("S_LDATA32"),
        S_GDATA32 => Some("S_GDATA32"),
        S_LMANDATA => Some("S_LMANDATA"),
        S_GMANDATA => Some("S_GMANDATA"),
        S_LTHREAD32 => Some("S_LTHREAD32"),
        S_GTHREAD32 => Some("S_GTHREAD32"),
        S_UNAMESPACE => Some("S_UNAMESPACE"),
        S_ANNOTATION => Some("S_ANNOTATION"),
        S_HOTPATCHFUNC => Some("S_HOTPATCHFUNC"),
        _ => None,
    }
}

impl SymKind {
    /// The debugging text of this record kind: its name, or `??(0x....)`.
    pub fn debug_string(self) -> (r: String)
        ensures
            r@ == sym_kind_text(self.0),
    {
        match sym_kind_name_str(self.0) {
            Some(n) => String::from_str(n),
            None => {
                let mut r = String::from_str("??(0x");
                push_hex_fixed(&mut r, self.0 as u128, 4);
                r.append(")");
                r
            },
        }
    }

    /// Whether records of this kind open a scope.
    pub fn starts_scope(self) -> (r: bool)
        ensures
            r == opens_scope(self.0),
    {
        let k = self.0;
        k == S_GPROC32 || k == S_LPROC32 || k == S_LPROC32_ID || k == S_GPROC32_ID || k == S_BLOCK32
            || k == S_SEPCODE || k == S_THUNK32 || k == S_INLINESITE || k == S_INLINESITE2
    }

    /// Whether records of this kind close a scope.
    pub fn ends_scope(self) -> (r: bool)
        ensures
            r == ends_scope(self.0),
    {
        let k = self.0;
        k == S_END || k == S_PROC_ID_END || k == S_INLINESITE_END
    }
}

/// The upper-case character of the hexadecimal digit `d`.
pub open spec fn upper_digit_char(d: int) -> char {
    if d < 10 {
        (48 + d) as char
    } else {
        (55 + d) as char
    }
}

/// The upper-case hexadecimal digits of `v`, most significant first, without leading zeros.
pub open spec fn hex_upper(v: nat) -> Seq<char>
    decreases v,
{
    if v < 16 {
        seq![upper_digit_char(v as int)]
    } else {
        hex_upper(v / 16).push(upper_digit_char((v % 16) as int))
    }
}

/// `n` zero digits; none where `n` is not positive.
pub open spec fn zeros(n: int) -> Seq<char> {
    Seq::new(if n > 0 { n as nat } else { 0 }, |i: int| '0')
}

fn push_hex_upper(s: &mut String, v: u128)
    ensures
        final(s)@ == old(s)@ + hex_upper(v as nat),
    decreases v,
{
    if v >= 16 {
        push_hex_upper(s, v / 16);
    }
    let d = (v % 16) as u8;
    let c: char = if d < 10 { (48 + d) as char } else { (55 + d) as char };
    assert(c == upper_digit_char(d as int));
    push_char(s, c);
    assert(final(s)@ =~= old(s)@ + hex_upper(v as nat));
}

/// Appends the upper-case hexadecimal digits of `v`, with leading zeros up to four digits.
fn push_hex_upper4(s: &mut String, v: u32)
    ensures
        final(s)@ == old(s)@ + zeros(4 - hex_upper(v as nat).len()) + hex_upper(v as nat),
{
    let mut t = String::new();
    push_hex_upper(&mut t, v as u128);
    let n = crate::text::str_chars(t.as_str()).len();
    let mut i: usize = n;
    while i < 4
        invariant
            n <= i <= 4 || (n > 4 && i == n),
            n == hex_upper(v as nat).len(),
            s@ == old(s)@ + zeros(i - n),
        decreases 4 - i,
    {
        push_char(s, '0');
        i = i + 1;
        assert(s@ =~= old(s)@ + zeros(i - n));
    }
    s.append(t.as_str());
}

/// The text that a callback gives for `t`.
pub open spec fn callback_text_u32<F: Fn(u32) -> String>(f: F, t: u32) -> Seq<char> {
    (choose|r: String| f.ensures((t,), r))@
}

/// The text that a callback gives for `t`.
pub open spec fn callback_text_u16<F: Fn(u16) -> String>(f: F, t: u16) -> Seq<char> {
    (choose|r: String| f.ensures((t,), r))@
}

/// The text that a callback gives for the floating-point bits `b` (of an `f64` where `wide`,
/// of an `f32` otherwise).
pub open spec fn callback_text_real<F: Fn(u64, bool) -> String>(f: F, b: u64, wide: bool) -> Seq<char> {
    (choose|r: String| f.ensures((b, wide), r))@
}

/// The callback `f` can be called on every value and gives one text for each.
pub open spec fn text_fn_u32<F: Fn(u32) -> String>(f: F) -> bool {
    &&& forall|t: u32| f.requires((t,))
    &&& forall|t: u32, a: String, b: String| f.ensures((t,), a) && f.ensures((t,), b) ==> a@ == b@
}

/// The callback `f` can be called on every value and gives one text for each.
pub open spec fn text_fn_u16<F: Fn(u16) -> String>(f: F) -> bool {
    &&& forall|t: u16| f.requires((t,))
    &&& forall|t: u16, a: String, b: String| f.ensures((t,), a) && f.ensures((t,), b) ==> a@ == b@
}

/// The callback `f` can be called on every value and gives one text for each.
pub open spec fn text_fn_real<F: Fn(u64, bool) -> String>(f: F) -> bool {
    &&& forall|b: u64, w: bool| f.requires((b, w))
    &&& forall|b: u64, w: bool, x: String, y: String| f.ensures((b, w), x) && f.ensures((b, w), y)
        ==> x@ == y@
}

fn push_u32_text<F: Fn(u32) -> String>(s: &mut String, f: &F, t: u32)
    requires
        text_fn_u32(*f),
    ensures
        final(s)@ == old(s)@ + callback_text_u32(*f, t),
{
    let r = f(t);
    proof {
        let c = choose|x: String| f.ensures((t,), x);
        assert(f.ensures((t,), c));
    }
    s.append(r.as_str());
}

fn push_u16_text<F: Fn(u16) -> String>(s: &mut String, f: &F, t: u16)
    requires
        text_fn_u16(*f),
    ensures
        final(s)@ == old(s)@ + callback_text_u16(*f, t),
{
    let r = f(t);
    proof {
        let c = choose|x: String| f.ensures((t,), x);
        assert(f.ensures((t,), c));
    }
    s.append(r.as_str());
}

fn push_real_text<F: Fn(u64, bool) -> String>(s: &mut String, f: &F, b: u64, wide: bool)
    requires
        text_fn_real(*f),
    ensures
        final(s)@ == old(s)@ + callback_text_real(*f, b, wide),
{
    let r = f(b, wide);
    proof {
        let c = choose|x: String| f.ensures((b, wide), x);
        assert(f.ensures((b, wide), c));
    }
    s.append(r.as_str());
}

/// The text of the numeric value `v` of a constant: a floating-point value by the callback
/// `rt`, anything else as the number displays.
pub open spec fn value_text(v: Seq<u8>, rt: spec_fn(u64, bool) -> Seq<char>) -> Seq<char> {
    if crate::parser::le_u16_at(v, 0) == LF_REAL32 {
        rt(le_u32_at(v, 2) as u64, false)
    } else if crate::parser::le_u16_at(v, 0) == LF_REAL64 {
        rt(le_u64_at(v, 2) as u64, true)
    } else {
        number_display(v)
    }
}

/// The lines of the strings of an annotation: at most `n` NUL-terminated strings of `b`, each
/// shown indented on a line of its own.
pub open spec fn annotation_lines(b: Seq<u8>, n: u16) -> Seq<char>
    decreases n,
{
    if n == 0 || !has_nul(b) {
        Seq::empty()
    } else {
        "    "@ + bstr_display(strz_value(b)) + "\n"@ + annotation_lines(
            b.skip(strz_len(b)),
            (n - 1) as u16,
        )
    }
}

/// The lines of the items of a function list: each item shown on a line of its own.
pub open spec fn item_lines(fs: Seq<u32>, it: spec_fn(u32) -> Seq<char>) -> Seq<char>
    decreases fs.len(),
{
    if fs.len() == 0 {
        Seq::empty()
    } else {
        item_lines(fs.drop_last(), it) + it(fs.last()) + "\n"@
    }
}

/// The text of the fields of the decoded record `d`: type references by `tt`, item references
/// by `it`, registers by `rg` and floating-point values by `rt`.
pub open spec fn fields_text<'a>(
    d: SymData<'a>,
    tt: spec_fn(u32) -> Seq<char>,
    it: spec_fn(u32) -> Seq<char>,
    rg: spec_fn(u16) -> Seq<char>,
    rt: spec_fn(u64, bool) -> Seq<char>,
) -> Seq<char> {
    match d {
        SymData::Pub(x) => x.fixed.offset_segment.text() + ", flags: "@ + hex_fixed(x.fixed.flags as nat, 8)
            + ", "@ + bstr_display(x.name@),
        SymData::Udt(x) => tt(x.type_) + " "@ + bstr_display(x.name@),
        SymData::Constant(x) => tt(x.type_) + " "@ + bstr_display(x.name@) + " = "@ + value_text(x.value@, rt),
        SymData::ManagedConstant(x) => "Token 0x"@ + hex(x.token as nat) + " "@ + bstr_display(x.name@)
            + " = "@ + value_text(x.value@, rt),
        SymData::RefSym2(x) => "("@ + decimal(x.header.module_index as nat) + ", "@ + hex_fixed(
            x.header.symbol_offset as nat,
            8,
        ) + ") "@ + bstr_display(x.name@),
        SymData::Data(x) => x.header.offset_segment.text() + " "@ + tt(x.header.type_) + " "@
            + bstr_display(x.name@),
        SymData::ThreadData(x) => x.header.offset_segment.text() + ", Type: 0x"@ + zeros(
            4 - hex_upper(x.header.type_ as nat).len(),
        ) + hex_upper(x.header.type_ as nat) + ", "@ + bstr_display(x.name@),
        SymData::ObjName(x) => "sig: 0x"@ + hex_fixed(x.signature as nat, 8) + " "@ + bstr_display(x.name@),
        SymData::Compile3(x) => bstr_display(x.name@),
        SymData::Proc(x) => x.fixed.offset_segment.text() + " ..+ 0x"@ + hex(x.fixed.proc_len as nat)
            + ", "@ + tt(x.fixed.proc_type) + " "@ + bstr_display(x.name@),
        SymData::ManagedProc(x) => "Token 0x"@ + hex(x.fixed.token as nat) + " "@ + bstr_display(x.name@),
        SymData::End => Seq::empty(),
        SymData::Unknown => "Unknown"@,
        SymData::Annotation(x) => x.fixed.offset.text() + "\n"@ + annotation_lines(
            x.strings@,
            x.fixed.num_strings,
        ),
        SymData::FrameProc(_) => Seq::empty(),
        SymData::RegRel(x) => rg(x.fixed.register) + " + 0x"@ + hex(x.fixed.offset as nat) + ", "@ + tt(
            x.fixed.ty,
        ) + " "@ + bstr_display(x.name@),
        SymData::Block(x) => "length: 0x"@ + hex(x.fixed.length as nat) + if x.name@.len() > 0 {
            " name: "@ + bstr_display(x.name@)
        } else {
            Seq::empty()
        },
        SymData::Local(x) => tt(x.fixed.ty) + " "@ + bstr_display(x.name@),
        SymData::DefRangeFramePointerRel(x) => "bp+ 0x"@ + hex(x.fixed.offset_to_frame_pointer as nat) + ", "@
            + x.fixed.range.start.text() + " ..+ 0x"@ + hex(x.fixed.range.range_size as nat) + if x.gaps@.len()
            > 0 {
            ", num_gaps: "@ + decimal(x.gaps@.len())
        } else {
            Seq::empty()
        },
        SymData::Trampoline(_) => Seq::empty(),
        SymData::UsingNamespace(x) => "using "@ + bstr_display(x.namespace@),
        SymData::BuildInfo(x) => it(x.item),
        SymData::InlineSite(x) => it(x.fixed.inlinee),
        SymData::InlineSite2(x) => it(x.fixed.inlinee),
        SymData::InlineSiteEnd => Seq::empty(),
        SymData::DefRangeRegister(x) => "register: "@ + rg(x.fixed.reg),
        SymData::DefRangeRegisterRel(x) => "base register: 0x"@ + hex(x.fixed.base_reg as nat)
            + ", base pointer offset: "@ + signed_decimal(x.fixed.base_pointer_offset as int),
        SymData::DefRangeSubFieldRegister(_) => Seq::empty(),
        SymData::DefRangeFramePointerRelFullScope(x) => "frame pointer offset: "@ + signed_decimal(
            x.frame_pointer_offset as int,
        ),
        SymData::Label(x) => x.fixed.offset_segment.text() + " : "@ + bstr_display(x.name@),
        SymData::FunctionList(x) => if x.funcs@.len() > 0 {
            "\n"@ + item_lines(x.funcs@, it)
        } else {
            Seq::empty()
        },
        SymData::FrameCookie(_) => Seq::empty(),
        SymData::CallSiteInfo(x) => x.offset.text() + " "@ + tt(x.func_type),
        SymData::HeapAllocSite(x) => x.offset.text() + " "@ + tt(x.func_type),
        SymData::HotPatchFunc(x) => "0x"@ + hex(x.func as nat) + " : "@ + bstr_display(x.name@),
        SymData::CoffGroup(x) => bstr_display(x.name@) + " : "@ + x.fixed.off_seg.text() + " + "@ + decimal(
            x.fixed.cb as nat,
        ),
        SymData::ArmSwitchTable(x) => crate::syms::arm_switch_table_text(x),
    }
}

/// The start of the line of a record of kind `k` at byte offset `offset`, at scope depth
/// `depth`, which is written before the record is decoded: an empty line first where the
/// record opens a scope at depth 0; the offset in eight hexadecimal digits and ` : ` where
/// offsets are shown; two spaces for each level of depth; the kind and `: `.
pub open spec fn line_prefix(k: u16, offset: u32, depth: u32, show_offsets: bool) -> Seq<char> {
    (if depth == 0 && opens_scope(k) {
        "\n"@
    } else {
        Seq::empty()
    }) + (if show_offsets {
        hex_fixed(offset as nat, 8) + " : "@
    } else {
        Seq::empty()
    }) + crate::listing_text::spaces(2 * depth) + sym_kind_text(k) + ": "@
}

/// The text of the line of a record of kind `k` decoded as `d`, at byte offset `offset`, at
/// scope depth `depth`: its start (`line_prefix`), the fields, and a line end.
pub open spec fn line_text<'a>(
    k: u16,
    d: SymData<'a>,
    offset: u32,
    depth: u32,
    show_offsets: bool,
    tt: spec_fn(u32) -> Seq<char>,
    it: spec_fn(u32) -> Seq<char>,
    rg: spec_fn(u16) -> Seq<char>,
    rt: spec_fn(u64, bool) -> Seq<char>,
) -> Seq<char> {
    line_prefix(k, offset, depth, show_offsets) + fields_text(d, tt, it, rg, rt) + "\n"@
}

/// The numeric values of the decoded record `d` can be displayed.
pub open spec fn values_displayable<'a>(d: SymData<'a>) -> bool {
    match d {
        SymData::Constant(x) => crate::number::number_displayable(x.value@),
        SymData::ManagedConstant(x) => crate::number::number_displayable(x.value@),
        _ => true,
    }
}

fn push_value_text<'a, R: Fn(u64, bool) -> String>(s: &mut String, v: &crate::number::Number<'a>, rf: &R)
    requires
        text_fn_real(*rf),
        crate::number::number_displayable(v@),
    ensures
        final(s)@ == old(s)@ + value_text(v@, |b: u64, w: bool| callback_text_real(*rf, b, w)),
{
    match v.display_text() {
        NumberText::Text(t) => {
            s.append(t.as_str());
        },
        NumberText::Real32(b) => {
            let bits = read_u32_at(b, 0);
            assert(le_u32_at(b@, 0) == le_u32_at(v@, 2)) by {
                assert(b@[0] == v@[2] && b@[1] == v@[3] && b@[2] == v@[4] && b@[3] == v@[5]);
            }
            push_real_text(s, rf, bits as u64, false);
        },
        NumberText::Real64(b) => {
            let lo = read_u32_at(b, 0);
            let hi = read_u32_at(b, 4);
            let bits: u64 = lo as u64 + (hi as u64) * 0x1_0000_0000;
            assert(le_u64_at(b@, 0) == le_u64_at(v@, 2)) by {
                assert(b@[0] == v@[2] && b@[1] == v@[3] && b@[2] == v@[4] && b@[3] == v@[5]);
                assert(b@[4] == v@[6] && b@[5] == v@[7] && b@[6] == v@[8] && b@[7] == v@[9]);
            }
            push_real_text(s, rf, bits, true);
        },
    }
}

fn push_annotation_lines(s: &mut String, it: &mut crate::syms::AnnotationIterStrings<'_>)
    ensures
        final(s)@ == old(s)@ + annotation_lines(old(it).bytes@, old(it).num_strings),
{
    loop
        invariant
            old(s)@ + annotation_lines(old(it).bytes@, old(it).num_strings) == s@ + annotation_lines(
                it.bytes@,
                it.num_strings,
            ),
        ensures
            s@ == old(s)@ + annotation_lines(old(it).bytes@, old(it).num_strings),
        decreases it.num_strings,
    {
        let ghost b = it.bytes@;
        let ghost n = it.num_strings;
        match it.next() {
            Some(z) => {
                s.append("    ");
                push_bstr(s, z);
                s.append("\n");
                assert(annotation_lines(b, n) == "    "@ + bstr_display(strz_value(b)) + "\n"@
                    + annotation_lines(it.bytes@, it.num_strings));
            },
            None => {
                assert(annotation_lines(b, n) =~= Seq::<char>::empty());
                assert(annotation_lines(it.bytes@, it.num_strings) =~= Seq::<char>::empty());
                assert(s@ =~= s@ + Seq::<char>::empty());
                break;
            },
        }
    }
}

fn push_item_lines<G: Fn(u32) -> String>(s: &mut String, fs: &Vec<u32>, g: &G)
    requires
        text_fn_u32(*g),
    ensures
        final(s)@ == old(s)@ + item_lines(fs@, |t: u32| callback_text_u32(*g, t)),
{
    let ghost itf = |t: u32| callback_text_u32(*g, t);
    let mut i: usize = 0;
    assert(fs@.take(0) =~= Seq::<u32>::empty());
    while i < fs.len()
        invariant
            i <= fs@.len(),
            text_fn_u32(*g),
            itf == |t: u32| callback_text_u32(*g, t),
            s@ == old(s)@ + item_lines(fs@.take(i as int), itf),
        decreases fs@.len() - i,
    {
        push_u32_text(s, g, fs[i]);
        s.append("\n");
        proof {
            let t = fs@.take(i + 1);
            assert(t.drop_last() =~= fs@.take(i as int));
            assert(t.last() == fs@[i as int]);
        }
        i = i + 1;
    }
    assert(fs@.take(i as int) =~= fs@);
}

/// Appends the text of the fields of the decoded record `d`.
#[verifier::rlimit(100)]
#[verifier::spinoff_prover]
fn push_fields<'a, F: Fn(u32) -> String, G: Fn(u32) -> String, H: Fn(u16) -> String, R: Fn(u64, bool) -> String>(
    s: &mut String,
    d: &SymData<'a>,
    f: &F,
    g: &G,
    h: &H,
    rf: &R,
)
    requires
        text_fn_u32(*f),
        text_fn_u32(*g),
        text_fn_u16(*h),
        text_fn_real(*rf),
        values_displayable(*d),
    ensures
        final(s)@ == old(s)@ + fields_text(
            *d,
            |t: u32| callback_text_u32(*f, t),
            |t: u32| callback_text_u32(*g, t),
            |t: u16| callback_text_u16(*h, t),
            |b: u64, w: bool| callback_text_real(*rf, b, w),
        ),
{
    let ghost tt = |t: u32| callback_text_u32(*f, t);
    let ghost it = |t: u32| callback_text_u32(*g, t);
    let ghost rg = |t: u16| callback_text_u16(*h, t);
    let ghost rt = |b: u64, w: bool| callback_text_real(*rf, b, w);
    match d {
        SymData::Pub(x) => {
            let o = x.fixed.offset_segment.to_string();
            s.append(o.as_str());
            s.append(", flags: ");
            push_hex_fixed(s, x.fixed.flags as u128, 8);
            s.append(", ");
            push_bstr(s, x.name);
        },
        SymData::Udt(x) => {
            push_u32_text(s, f, x.type_);
            s.append(" ");
            push_bstr(s, x.name);
        },
        SymData::Constant(x) => {
            push_u32_text(s, f, x.type_);
            s.append(" ");
            push_bstr(s, x.name);
            s.append(" = ");
            push_value_text(s, &x.value, rf);
        },
        SymData::ManagedConstant(x) => {
            s.append("Token 0x");
            push_hex(s, x.token as u128);
            s.append(" ");
            push_bstr(s, x.name);
            s.append(" = ");
            push_value_text(s, &x.value, rf);
        },
        SymData::RefSym2(x) => {
            s.append("(");
            push_decimal(s, x.header.module_index as u128);
            s.append(", ");
            push_hex_fixed(s, x.header.symbol_offset as u128, 8);
            s.append(") ");
            push_bstr(s, x.name);
        },
        SymData::Data(x) => {
            let o = x.header.offset_segment.to_string();
            s.append(o.as_str());
            s.append(" ");
            push_u32_text(s, f, x.header.type_);
            s.append(" ");
            push_bstr(s, x.name);
        },
        SymData::ThreadData(x) => {
            let o = x.header.offset_segment.to_string();
            s.append(o.as_str());
            s.append(", Type: 0x");
            push_hex_upper4(s, x.header.type_);
            s.append(", ");
            push_bstr(s, x.name);
        },
        SymData::ObjName(x) => {
            s.append("sig: 0x");
            push_hex_fixed(s, x.signature as u128, 8);
            s.append(" ");
            push_bstr(s, x.name);
        },
        SymData::Compile3(x) => {
            push_bstr(s, x.name);
        },
        SymData::Proc(x) => {
            let o = x.fixed.offset_segment.to_string();
            s.append(o.as_str());
            s.append(" ..+ 0x");
            push_hex(s, x.fixed.proc_len as u128);
            s.append(", ");
            push_u32_text(s, f, x.fixed.proc_type);
            s.append(" ");
            push_bstr(s, x.name);
        },
        SymData::ManagedProc(x) => {
            s.append("Token 0x");
            push_hex(s, x.fixed.token as u128);
            s.append(" ");
            push_bstr(s, x.name);
        },
        SymData::End => {},
        SymData::Unknown => {
            s.append("Unknown");
        },
        SymData::Annotation(x) => {
            let o = x.fixed.offset.to_string();
            s.append(o.as_str());
            s.append("\n");
            let mut iter = x.iter_strings();
            push_annotation_lines(s, &mut iter);
        },
        SymData::FrameProc(_) => {},
        SymData::RegRel(x) => {
            push_u16_text(s, h, x.fixed.register);
            s.append(" + 0x");
            push_hex(s, x.fixed.offset as u128);
            s.append(", ");
            push_u32_text(s, f, x.fixed.ty);
            s.append(" ");
            push_bstr(s, x.name);
        },
        SymData::Block(x) => {
            s.append("length: 0x");
            push_hex(s, x.fixed.length as u128);
            if x.name.len() > 0 {
                s.append(" name: ");
                push_bstr(s, x.name);
            }
        },
        SymData::Local(x) => {
            push_u32_text(s, f, x.fixed.ty);
            s.append(" ");
            push_bstr(s, x.name);
        },
        SymData::DefRangeFramePointerRel(x) => {
            s.append("bp+ 0x");
            push_hex(s, x.fixed.offset_to_frame_pointer as u128);
            s.append(", ");
            let o = x.fixed.range.start.to_string();
            s.append(o.as_str());
            s.append(" ..+ 0x");
            push_hex(s, x.fixed.range.range_size as u128);
            if x.gaps.len() > 0 {
                s.append(", num_gaps: ");
                push_decimal(s, x.gaps.len() as u128);
            }
        },
        SymData::Trampoline(_) => {},
        SymData::UsingNamespace(x) => {
            s.append("using ");
            push_bstr(s, x.namespace);
        },
        SymData::BuildInfo(x) => {
            push_u32_text(s, g, x.item);
        },
        SymData::InlineSite(x) => {
            push_u32_text(s, g, x.fixed.inlinee);
        },
        SymData::InlineSite2(x) => {
            push_u32_text(s, g, x.fixed.inlinee);
        },
        SymData::InlineSiteEnd => {},
        SymData::DefRangeRegister(x) => {
            s.append("register: ");
            push_u16_text(s, h, x.fixed.reg);
        },
        SymData::DefRangeRegisterRel(x) => {
            s.append("base register: 0x");
            push_hex(s, x.fixed.base_reg as u128);
            s.append(", base pointer offset: ");
            push_signed_decimal(s, x.fixed.base_pointer_offset as i128);
        },
        SymData::DefRangeSubFieldRegister(_) => {},
        SymData::DefRangeFramePointerRelFullScope(x) => {
            s.append("frame pointer offset: ");
            push_signed_decimal(s, x.frame_pointer_offset as i128);
        },
        SymData::Label(x) => {
            let o = x.fixed.offset_segment.to_string();
            s.append(o.as_str());
            s.append(" : ");
            push_bstr(s, x.name);
        },
        SymData::FunctionList(x) => {
            if x.funcs.len() > 0 {
                s.append("\n");
                push_item_lines(s, &x.funcs, g);
            }
        },
        SymData::FrameCookie(_) => {},
        SymData::CallSiteInfo(x) => {
            let o = x.offset.to_string();
            s.append(o.as_str());
            s.append(" ");
            push_u32_text(s, f, x.func_type);
        },
        SymData::HeapAllocSite(x) => {
            let o = x.offset.to_string();
            s.append(o.as_str());
            s.append(" ");
            push_u32_text(s, f, x.func_type);
        },
        SymData::HotPatchFunc(x) => {
            s.append("0x");
            push_hex(s, x.func as u128);
            s.append(" : ");
            push_bstr(s, x.name);
        },
        SymData::CoffGroup(x) => {
            push_bstr(s, x.name);
            s.append(" : ");
            let o = x.fixed.off_seg.to_string();
            s.append(o.as_str());
            s.append(" + ");
            push_decimal(s, x.fixed.cb as u128);
        },
        SymData::ArmSwitchTable(x) => {
            let t = x.debug_string();
            s.append(t.as_str());
        },
    }
    assert(s@ =~= old(s)@ + fields_text(*d, tt, it, rg, rt));
}

/// Two decodings of one payload show the same fields: the text of a record is a function of
/// its kind and payload.
pub proof fn lemma_fields_text_unique<'a, 'b>(
    k: u16,
    s: Seq<u8>,
    d1: SymData<'a>,
    d2: SymData<'b>,
    tt: spec_fn(u32) -> Seq<char>,
    it: spec_fn(u32) -> Seq<char>,
    rg: spec_fn(u16) -> Seq<char>,
    rt: spec_fn(u64, bool) -> Seq<char>,
)
    requires
        sym_parsed(k, s, d1),
        sym_parsed(k, s, d2),
    ensures
        fields_text(d1, tt, it, rg, rt) == fields_text(d2, tt, it, rg, rt),
{
}

proof fn lemma_parsed_values_displayable<'a>(k: u16, s: Seq<u8>, d: SymData<'a>)
    requires
        sym_parses(k, s),
        sym_parsed(k, s, d),
    ensures
        values_displayable(d),
{
    if k == crate::syms::S_CONSTANT || k == crate::syms::S_MANCONSTANT {
        lemma_decoded_number_displayable(s.skip(4));
    }
}

/// The text line of one symbol record of kind `kind` with payload `data`, at byte offset
/// `record_offset` of its stream, at scope depth `depth`, and the scope depth after it. Type
/// references are shown by `type_text`, item references by `item_text`, registers by
/// `reg_text` and floating-point values (their bits, and whether they are an `f64`) by
/// `real_text`. The start of the line is written before the payload is decoded; where the
/// payload does not decode, that start is the text given back, with the error.
pub fn sym_line<'a, F: Fn(u32) -> String, G: Fn(u32) -> String, H: Fn(u16) -> String, R: Fn(u64, bool) -> String>(
    kind: SymKind,
    data: &'a [u8],
    record_offset: u32,
    depth: u32,
    show_record_offsets: bool,
    type_text: &F,
    item_text: &G,
    reg_text: &H,
    real_text: &R,
) -> (r: (String, Result<u32, ParserError>))
    requires
        text_fn_u32(*type_text),
        text_fn_u32(*item_text),
        text_fn_u16(*reg_text),
        text_fn_real(*real_text),
        depth < 0x8000_0000,
    ensures
        r.1 is Ok <==> sym_parses(kind.0, data@),
        r.1 is Err ==> r.0@ == line_prefix(kind.0, record_offset, depth, show_record_offsets),
        r.1 matches Ok(d) ==> {
            &&& d == next_depth(kind.0, depth)
            &&& forall|x: SymData<'a>|
                sym_parsed(kind.0, data@, x) ==> r.0@ == line_text(
                    kind.0,
                    x,
                    record_offset,
                    depth,
                    show_record_offsets,
                    |t: u32| callback_text_u32(*type_text, t),
                    |t: u32| callback_text_u32(*item_text, t),
                    |t: u16| callback_text_u16(*reg_text, t),
                    |b: u64, w: bool| callback_text_real(*real_text, b, w),
                )
        },
{
    let mut s = String::new();
    if depth == 0 && kind.starts_scope() {
        s.append("\n");
    }
    if show_record_offsets {
        push_hex_fixed(&mut s, record_offset as u128, 8);
        s.append(" : ");
    }
    let ghost before_indent = s@;
    let mut i: u32 = 0;
    while i < depth * 2
        invariant
            i <= depth * 2,
            depth < 0x8000_0000,
            s@ == before_indent + crate::listing_text::spaces(i as int),
        decreases depth * 2 - i,
    {
        push_char(&mut s, ' ');
        i = i + 1;
        assert(s@ =~= before_indent + crate::listing_text::spaces(i as int));
    }
    let name = kind.debug_string();
    s.append(name.as_str());
    s.append(": ");
    assert(s@ =~= line_prefix(kind.0, record_offset, depth, show_record_offsets));
    let d = match SymData::parse(kind, data) {
        Ok(d) => d,
        Err(e) => return (s, Err(e)),
    };
    proof {
        lemma_parsed_values_displayable(kind.0, data@, d);
    }
    let ghost tt = |t: u32| callback_text_u32(*type_text, t);
    let ghost it = |t: u32| callback_text_u32(*item_text, t);
    let ghost rg = |t: u16| callback_text_u16(*reg_text, t);
    let ghost rt = |b: u64, w: bool| callback_text_real(*real_text, b, w);
    push_fields(&mut s, &d, type_text, item_text, reg_text, real_text);
    s.append("\n");
    assert(s@ =~= line_text(kind.0, d, record_offset, depth, show_record_offsets, tt, it, rg, rt));
    let mut next = depth;
    if kind.starts_scope() {
        next = depth + 1;
    }
    if kind.ends_scope() {
        if next > 0 {
            next = next - 1;
        }
    }
    proof {
        assert forall|x: SymData<'a>| sym_parsed(kind.0, data@, x) implies s@ == line_text(
            kind.0,
            x,
            record_offset,
            depth,
            show_record_offsets,
            tt,
            it,
            rg,
            rt,
        ) by {
            lemma_fields_text_unique(kind.0, data@, d, x, tt, it, rg, rt);
        }
    }
    (s, Ok(next))
}

} // verus!

//! Decodes symbols records. Reads the "Global Symbols" stream and per-module symbol streams.
//!
//! Each record is a little-endian `u16` length (counting the kind but not itself), a
//! little-endian `u16` kind, and the payload. The payload of each kind of record starts
//! with a fixed-size part, decoded here into a plain structure, often followed by a
//! NUL-terminated name.

use crate::number::{number_len, Number};
use crate::offset_segment::OffsetSegment;
use crate::parser::{
    first_nul, has_nul, le_u16_at, le_u32_at, lemma_first_nul, lemma_skip_skip, read_i32_at,
    read_u16_at, read_u32_at, read_u8_at, strz_len, strz_value, twos_complement, Parser,
    ParserError,
};
use crate::text::{bstr_display, decimal, push_bstr, push_decimal};
use vstd::prelude::*;
use vstd::string::*;

verus! {

/// A type that can be decoded from the front of a [`Parser`].
pub trait Parse<'a>: Sized {
    /// `s` begins with an encoding of a value of this type.
    spec fn parses(s: Seq<u8>) -> bool;

    /// `v` is the value that the front of `s` encodes.
    spec fn parsed(s: Seq<u8>, v: Self) -> bool;

    /// The number of bytes that decoding consumes from the front of `s`.
    spec fn parse_len(s: Seq<u8>) -> int;

    /// `a` and `b` are the same value: equal, with each list field compared by its items.
    spec fn same_value(a: Self, b: Self) -> bool;

    /// Bytes encode at most one value: two values that are both what `s` encodes are the same
    /// value.
    proof fn lemma_parsed_unique(s: Seq<u8>, a: Self, b: Self)
        requires
            Self::parsed(s, a),
            Self::parsed(s, b),
        ensures
            Self::same_value(a, b),
    ;

    /// Decodes a value from the front of `p`, consuming its bytes. Fails exactly when the
    /// bytes of `p` do not begin with an encoding of a value of this type.
    fn from_parser(p: &mut Parser<'a>) -> (r: Result<Self, ParserError>)
        ensures
            r is Ok <==> Self::parses(old(p).bytes@),
            r matches Ok(v) ==> {
                &&& Self::parsed(old(p).bytes@, v)
                &&& 0 <= Self::parse_len(old(p).bytes@) <= old(p).bytes@.len()
                &&& final(p).bytes@ == old(p).bytes@.skip(Self::parse_len(old(p).bytes@))
            },
    ;
}

impl<'a> Parse<'a> for Number<'a> {

    open spec fn same_value(a: Self, b: Self) -> bool {
        a == b
    }

    proof fn lemma_parsed_unique(s: Seq<u8>, a: Self, b: Self) {
        crate::number::lemma_number_view_determines(a, b);
    }
    open spec fn parses(s: Seq<u8>) -> bool {
        number_len(s) is Some
    }

    open spec fn parsed(s: Seq<u8>, v: Self) -> bool {
        v@ == s.take(number_len(s).unwrap())
    }

    open spec fn parse_len(s: Seq<u8>) -> int {
        number_len(s).unwrap()
    }

    fn from_parser(p: &mut Parser<'a>) -> (r: Result<Self, ParserError>) {
        Number::from_parser(p)
    }
}

/// The kind of a symbol record.
#[derive(Clone, Copy, Debug, PartialEq, Eq, Structural, PartialOrd, Ord, Hash)]
pub struct SymKind(pub u16);


/// `S_COMPILE`
pub const S_COMPILE: u16 = 0x0001;
/// `S_REGISTER_16t`
pub const S_REGISTER_16t: u16 = 0x0002;
/// `S_CONSTANT_16t`
pub const S_CONSTANT_16t: u16 = 0x0003;
/// `S_UDT_16t`
pub const S_UDT_16t: u16 = 0x0004;
/// `S_SSEARCH`
pub const S_SSEARCH: u16 = 0x0005;
/// `S_SKIP`
pub const S_SKIP: u16 = 0x0007;
/// `S_CVRESERVE`
pub const S_CVRESERVE: u16 = 0x0008;
/// `S_OBJNAME_ST`
pub const S_OBJNAME_ST: u16 = 0x0009;
/// `S_ENDARG`
pub const S_ENDARG: u16 = 0x000a;
/// `S_COBOLUDT_16t`
pub const S_COBOLUDT_16t: u16 = 0x000b;
/// `S_MANYREG_16t`
pub const S_MANYREG_16t: u16 = 0x000c;
/// `S_RETURN`
pub const S_RETURN: u16 = 0x000d;
/// `S_ENTRYTHIS`
pub const S_ENTRYTHIS: u16 = 0x000e;
/// `S_BPREL16`
pub const S_BPREL16: u16 = 0x0100;
/// `S_LDATA16`
pub const S_LDATA16: u16 = 0x0101;
/// `S_GDATA16`
pub const S_GDATA16: u16 = 0x0102;
/// `S_PUB16`
pub const S_PUB16: u16 = 0x0103;
/// `S_LPROC16`
pub const S_LPROC16: u16 = 0x0104;
/// `S_GPROC16`
pub const S_GPROC16: u16 = 0x0105;
/// `S_THUNK16`
pub const S_THUNK16: u16 = 0x0106;
/// `S_BLOCK16`
pub const S_BLOCK16: u16 = 0x0107;
/// `S_WITH16`
pub const S_WITH16: u16 = 0x0108;
/// `S_LABEL16`
pub const S_LABEL16: u16 = 0x0109;
/// `S_CEXMODEL16`
pub const S_CEXMODEL16: u16 = 0x010a;
/// `S_VFTABLE16`
pub const S_VFTABLE16: u16 = 0x010b;
/// `S_REGREL16`
pub const S_REGREL16: u16 = 0x010c;
/// `S_BPREL32_16t`
pub const S_BPREL32_16t: u16 = 0x0200;
/// `S_LDATA32_16t`
pub const S_LDATA32_16t: u16 = 0x0201;
/// `S_GDATA32_16t`
pub const S_GDATA32_16t: u16 = 0x0202;
/// `S_PUB32_16t`
pub const S_PUB32_16t: u16 = 0x0203;
/// `S_LPROC32_16t`
pub const S_LPROC32_16t: u16 = 0x0204;
/// `S_GPROC32_16t`
pub const S_GPROC32_16t: u16 = 0x0205;
/// `S_THUNK32_ST`
pub const S_THUNK32_ST: u16 = 0x0206;
/// `S_BLOCK32_ST`
pub const S_BLOCK32_ST: u16 = 0x0207;
/// `S_WITH32_ST`
pub const S_WITH32_ST: u16 = 0x0208;
/// `S_LABEL32_ST`
pub const S_LABEL32_ST: u16 = 0x0209;
/// `S_CEXMODEL32`
pub const S_CEXMODEL32: u16 = 0x020a;
/// `S_VFTABLE32_16t`
pub const S_VFTABLE32_16t: u16 = 0x020b;
/// `S_REGREL32_16t`
pub const S_REGREL32_16t: u16 = 0x020c;
/// `S_LTHREAD32_16t`
pub const S_LTHREAD32_16t: u16 = 0x020d;
/// `S_GTHREAD32_16t`
pub const S_GTHREAD32_16t: u16 = 0x020e;
/// `S_SLINK32`
pub const S_SLINK32: u16 = 0x020f;
/// `S_LPROCMIPS_16t`
pub const S_LPROCMIPS_16t: u16 = 0x0300;
/// `S_GPROCMIPS_16t`
pub const S_GPROCMIPS_16t: u16 = 0x0301;
/// `S_PROCREF_ST`
pub const S_PROCREF_ST: u16 = 0x0400;
/// `S_DATAREF_ST`
pub const S_DATAREF_ST: u16 = 0x0401;
/// `S_ALIGN`
pub const S_ALIGN: u16 = 0x0402;
/// `S_LPROCREF_ST`
pub const S_LPROCREF_ST: u16 = 0x0403;
/// `S_OEM`
pub const S_OEM: u16 = 0x0404;
/// `S_TI16_MAX`
pub const S_TI16_MAX: u16 = 0x1000;
/// `S_REGISTER_ST`
pub const S_REGISTER_ST: u16 = 0x1001;
/// `S_CONSTANT_ST`
pub const S_CONSTANT_ST: u16 = 0x1002;
/// `S_UDT_ST`
pub const S_UDT_ST: u16 = 0x1003;
/// `S_COBOLUDT_ST`
pub const S_COBOLUDT_ST: u16 = 0x1004;
/// `S_MANYREG_ST`
pub const S_MANYREG_ST: u16 = 0x1005;
/// `S_BPREL32_ST`
pub const S_BPREL32_ST: u16 = 0x1006;
/// `S_LDATA32_ST`
pub const S_LDATA32_ST: u16 = 0x1007;
/// `S_GDATA32_ST`
pub const S_GDATA32_ST: u16 = 0x1008;
/// `S_PUB32_ST`
pub const S_PUB32_ST: u16 = 0x1009;
/// `S_LPROC32_ST`
pub const S_LPROC32_ST: u16 = 0x100a;
/// `S_GPROC32_ST`
pub const S_GPROC32_ST: u16 = 0x100b;
/// `S_VFTABLE32`
pub const S_VFTABLE32: u16 = 0x100c;
/// `S_REGREL32_ST`
pub const S_REGREL32_ST: u16 = 0x100d;
/// `S_LTHREAD32_ST`
pub const S_LTHREAD32_ST: u16 = 0x100e;
/// `S_GTHREAD32_ST`
pub const S_GTHREAD32_ST: u16 = 0x100f;
/// `S_LPROCMIPS_ST`
pub const S_LPROCMIPS_ST: u16 = 0x1010;
/// `S_GPROCMIPS_ST`
pub const S_GPROCMIPS_ST: u16 = 0x1011;
/// `S_COMPILE2_ST`
pub const S_COMPILE2_ST: u16 = 0x1013;
/// `S_MANYREG2_ST`
pub const S_MANYREG2_ST: u16 = 0x1014;
/// `S_LPROCIA64_ST`
pub const S_LPROCIA64_ST: u16 = 0x1015;
/// `S_GPROCIA64_ST`
pub const S_GPROCIA64_ST: u16 = 0x1016;
/// `S_LOCALSLOT_ST`
pub const S_LOCALSLOT_ST: u16 = 0x1017;
/// `S_PARAMSLOT_ST`
pub const S_PARAMSLOT_ST: u16 = 0x1018;
/// `S_GMANPROC_ST`
pub const S_GMANPROC_ST: u16 = 0x101a;
/// `S_LMANPROC_ST`
pub const S_LMANPROC_ST: u16 = 0x101b;
/// `S_RESERVED1`
pub const S_RESERVED1: u16 = 0x101c;
/// `S_RESERVED2`
pub const S_RESERVED2: u16 = 0x101d;
/// `S_RESERVED3`
pub const S_RESERVED3: u16 = 0x101e;
/// `S_RESERVED4`
pub const S_RESERVED4: u16 = 0x101f;
/// `S_LMANDATA_ST`
pub const S_LMANDATA_ST: u16 = 0x1020;
/// `S_GMANDATA_ST`
pub const S_GMANDATA_ST: u16 = 0x1021;
/// `S_MANFRAMEREL_ST`
pub const S_MANFRAMEREL_ST: u16 = 0x1022;
/// `S_MANREGISTER_ST`
pub const S_MANREGISTER_ST: u16 = 0x1023;
/// `S_MANSLOT_ST`
pub const S_MANSLOT_ST: u16 = 0x1024;
/// `S_MANMANYREG_ST`
pub const S_MANMANYREG_ST: u16 = 0x1025;
/// `S_MANREGREL_ST`
pub const S_MANREGREL_ST: u16 = 0x1026;
/// `S_MANMANYREG2_ST`
pub const S_MANMANYREG2_ST: u16 = 0x1027;
/// `S_MANTYPREF`
pub const S_MANTYPREF: u16 = 0x1028;
/// `S_UNAMESPACE_ST`
pub const S_UNAMESPACE_ST: u16 = 0x1029;
/// `S_ST_MAX`
pub const S_ST_MAX: u16 = 0x1100;
/// `S_WITH32`
pub const S_WITH32: u16 = 0x1104;
/// `S_MANYREG`
pub const S_MANYREG: u16 = 0x110a;
/// `S_LPROCMIPS`
pub const S_LPROCMIPS: u16 = 0x1114;
/// `S_GPROCMIPS`
pub const S_GPROCMIPS: u16 = 0x1115;
/// `S_MANYREG2`
pub const S_MANYREG2: u16 = 0x1117;
/// `S_LPROCIA64`
pub const S_LPROCIA64: u16 = 0x1118;
/// `S_GPROCIA64`
pub const S_GPROCIA64: u16 = 0x1119;
/// `S_LOCALSLOT`
pub const S_LOCALSLOT: u16 = 0x111a;
/// `S_PARAMSLOT`
pub const S_PARAMSLOT: u16 = 0x111b;
/// `S_MANFRAMEREL`
pub const S_MANFRAMEREL: u16 = 0x111e;
/// `S_MANREGISTER`
pub const S_MANREGISTER: u16 = 0x111f;
/// `S_MANSLOT`
pub const S_MANSLOT: u16 = 0x1120;
/// `S_MANMANYREG`
pub const S_MANMANYREG: u16 = 0x1121;
/// `S_MANREGREL`
pub const S_MANREGREL: u16 = 0x1122;
/// `S_MANMANYREG2`
pub const S_MANMANYREG2: u16 = 0x1123;
/// `S_DATAREF`
pub const S_DATAREF: u16 = 0x1126;
/// `S_ANNOTATIONREF`
pub const S_ANNOTATIONREF: u16 = 0x1128;
/// `S_TOKENREF`
pub const S_TOKENREF: u16 = 0x1129;
/// `S_GMANPROC`
pub const S_GMANPROC: u16 = 0x112a;
/// `S_LMANPROC`
pub const S_LMANPROC: u16 = 0x112b;
/// `S_ATTR_FRAMEREL`
pub const S_ATTR_FRAMEREL: u16 = 0x112e;
/// `S_ATTR_REGISTER`
pub const S_ATTR_REGISTER: u16 = 0x112f;
/// `S_ATTR_REGREL`
pub const S_ATTR_REGREL: u16 = 0x1130;
/// `S_ATTR_MANYREG`
pub const S_ATTR_MANYREG: u16 = 0x1131;
/// `S_SEPCODE`
pub const S_SEPCODE: u16 = 0x1132;
/// `S_LOCAL_2005`
pub const S_LOCAL_2005: u16 = 0x1133;
/// `S_DEFRANGE_2005`
pub const S_DEFRANGE_2005: u16 = 0x1134;
/// `S_DEFRANGE2_2005`
pub const S_DEFRANGE2_2005: u16 = 0x1135;
/// `S_DISCARDED`
pub const S_DISCARDED: u16 = 0x113b;
/// `S_LPROCMIPS_ID`
pub const S_LPROCMIPS_ID: u16 = 0x1148;
/// `S_GPROCMIPS_ID`
pub const S_GPROCMIPS_ID: u16 = 0x1149;
/// `S_LPROCIA64_ID`
pub const S_LPROCIA64_ID: u16 = 0x114a;
/// `S_GPROCIA64_ID`
pub const S_GPROCIA64_ID: u16 = 0x114b;
/// `S_DEFRANGE_HLSL`
pub const S_DEFRANGE_HLSL: u16 = 0x1150;
/// `S_GDATA_HLSL`
pub const S_GDATA_HLSL: u16 = 0x1151;
/// `S_LDATA_HLSL`
pub const S_LDATA_HLSL: u16 = 0x1152;
/// `S_LOCAL_DPC_GROUPSHARED`
pub const S_LOCAL_DPC_GROUPSHARED: u16 = 0x1154;
/// `S_DEFRANGE_DPC_PTR_TAG`
pub const S_DEFRANGE_DPC_PTR_TAG: u16 = 0x1157;
/// `S_DPC_SYM_TAG_MAP`
pub const S_DPC_SYM_TAG_MAP: u16 = 0x1158;
/// `S_ARMSWITCHTABLE`
pub const S_ARMSWITCHTABLE: u16 = 0x1159;
/// `S_POGODATA`
pub const S_POGODATA: u16 = 0x115c;
/// `S_INLINESITE2`
pub const S_INLINESITE2: u16 = 0x115d;
/// `S_MOD_TYPEREF`
pub const S_MOD_TYPEREF: u16 = 0x115f;
/// `S_REF_MINIPDB`
pub const S_REF_MINIPDB: u16 = 0x1160;
/// `S_PDBMAP`
pub const S_PDBMAP: u16 = 0x1161;
/// `S_GDATA_HLSL32`
pub const S_GDATA_HLSL32: u16 = 0x1162;
/// `S_LDATA_HLSL32`
pub const S_LDATA_HLSL32: u16 = 0x1163;
/// `S_GDATA_HLSL32_EX`
pub const S_GDATA_HLSL32_EX: u16 = 0x1164;
/// `S_LDATA_HLSL32_EX`
pub const S_LDATA_HLSL32_EX: u16 = 0x1165;
/// `S_FASTLINK`
pub const S_FASTLINK: u16 = 0x1167;
/// `S_INLINEES`
pub const S_INLINEES: u16 = 0x1168;
/// `S_END`
pub const S_END: u16 = 0x0006;
/// `S_INLINESITE_END`
pub const S_INLINESITE_END: u16 = 0x114e;
/// `S_PROC_ID_END`
pub const S_PROC_ID_END: u16 = 0x114f;
/// `S_THUNK32`
pub const S_THUNK32: u16 = 0x1102;
/// `S_TRAMPOLINE`
pub const S_TRAMPOLINE: u16 = 0x112c;
/// `S_SECTION`
pub const S_SECTION: u16 = 0x1136;
/// `S_COFFGROUP`
pub const S_COFFGROUP: u16 = 0x1137;
/// `S_EXPORT`
pub const S_EXPORT: u16 = 0x1138;
/// `S_LPROC32`
pub const S_LPROC32: u16 = 0x110f;
/// `S_GPROC32`
pub const S_GPROC32: u16 = 0x1110;
/// `S_LPROC32_ID`
pub const S_LPROC32_ID: u16 = 0x1146;
/// `S_GPROC32_ID`
pub const S_GPROC32_ID: u16 = 0x1147;
/// `S_LPROC32_DPC`
pub const S_LPROC32_DPC: u16 = 0x1155;
/// `S_LPROC32_DPC_ID`
pub const S_LPROC32_DPC_ID: u16 = 0x1156;
/// `S_REGISTER`
pub const S_REGISTER: u16 = 0x1106;
/// `S_PUB32`
pub const S_PUB32: u16 = 0x110e;
/// `S_PROCREF`
pub const S_PROCREF: u16 = 0x1125;
/// `S_LPROCREF`
pub const S_LPROCREF: u16 = 0x1127;
/// `S_ENVBLOCK`
pub const S_ENVBLOCK: u16 = 0x113d;
/// `S_INLINESITE`
pub const S_INLINESITE: u16 = 0x114d;
/// `S_LOCAL`
pub const S_LOCAL: u16 = 0x113e;
/// `S_DEFRANGE`
pub const S_DEFRANGE: u16 = 0x113f;
/// `S_DEFRANGE_SUBFIELD`
pub const S_DEFRANGE_SUBFIELD: u16 = 0x1140;
/// `S_DEFRANGE_REGISTER`
pub const S_DEFRANGE_REGISTER: u16 = 0x1141;
/// `S_DEFRANGE_FRAMEPOINTER_REL`
pub const S_DEFRANGE_FRAMEPOINTER_REL: u16 = 0x1142;
/// `S_DEFRANGE_SUBFIELD_REGISTER`
pub const S_DEFRANGE_SUBFIELD_REGISTER: u16 = 0x1143;
/// `S_DEFRANGE_FRAMEPOINTER_REL_FULL_SCOPE`
pub const S_DEFRANGE_FRAMEPOINTER_REL_FULL_SCOPE: u16 = 0x1144;
/// `S_DEFRANGE_REGISTER_REL`
pub const S_DEFRANGE_REGISTER_REL: u16 = 0x1145;
/// `S_BLOCK32`
pub const S_BLOCK32: u16 = 0x1103;
/// `S_LABEL32`
pub const S_LABEL32: u16 = 0x1105;
/// `S_OBJNAME`
pub const S_OBJNAME: u16 = 0x1101;
/// `S_COMPILE2`
pub const S_COMPILE2: u16 = 0x1116;
/// `S_COMPILE3`
pub const S_COMPILE3: u16 = 0x113c;
/// `S_FRAMEPROC`
pub const S_FRAMEPROC: u16 = 0x1012;
/// `S_CALLSITEINFO`
pub const S_CALLSITEINFO: u16 = 0x1139;
/// `S_FILESTATIC`
pub const S_FILESTATIC: u16 = 0x1153;
/// `S_HEAPALLOCSITE`
pub const S_HEAPALLOCSITE: u16 = 0x115e;
/// `S_FRAMECOOKIE`
pub const S_FRAMECOOKIE: u16 = 0x113a;
/// `S_CALLEES`
pub const S_CALLEES: u16 = 0x115a;
/// `S_CALLERS`
pub const S_CALLERS: u16 = 0x115b;
/// `S_UDT`
pub const S_UDT: u16 = 0x1108;
/// `S_COBOLUDT`
pub const S_COBOLUDT: u16 = 0x1109;
/// `S_BUILDINFO`
pub const S_BUILDINFO: u16 = 0x114c;
/// `S_BPREL32`
pub const S_BPREL32: u16 = 0x110b;
/// `S_REGREL32`
pub const S_REGREL32: u16 = 0x1111;
/// `S_CONSTANT`
pub const S_CONSTANT: u16 = 0x1107;
/// `S_MANCONSTANT`
pub const S_MANCONSTANT: u16 = 0x112d;
/// `S_LDATA32`
pub const S_LDATA32: u16 = 0x110c;
/// `S_GDATA32`
pub const S_GDATA32: u16 = 0x110d;
/// `S_LMANDATA`
pub const S_LMANDATA: u16 = 0x111c;
/// `S_GMANDATA`
pub const S_GMANDATA: u16 = 0x111d;
/// `S_LTHREAD32`
pub const S_LTHREAD32: u16 = 0x1112;
/// `S_GTHREAD32`
pub const S_GTHREAD32: u16 = 0x1113;
/// `S_UNAMESPACE`
pub const S_UNAMESPACE: u16 = 0x1124;
/// `S_ANNOTATION`
pub const S_ANNOTATION: u16 = 0x1019;
/// `S_HOTPATCHFUNC`
pub const S_HOTPATCHFUNC: u16 = 0x1169;

/// This header is shared by many records that can start a symbol scope.
#[derive(Clone, Copy, Debug, Default, PartialEq, Eq, Structural)]
pub struct BlockHeader {
    /// If the record containing this `BlockHeader` is a top-level symbol record (not nested within
    /// another symbol), then this value is 0.
    /// 
    /// If the record containing this `BlockHeader` is nested within another symbol, then this
    /// value is the offset in the symbol stream of the parent record.
    pub p_parent: u32,
    /// Offset in symbol stream of the `P_END` which terminates this block scope.
    pub p_end: u32,
}

impl BlockHeader {
    /// The value encoded at `s[off..off + 8]`.
    pub open spec fn spec_decode(s: Seq<u8>, off: int) -> Self {
        BlockHeader {
            p_parent: le_u32_at(s, off) as u32,
            p_end: le_u32_at(s, off + 4) as u32,
        }
    }

    /// Decodes the value encoded at `b[off..off + 8]`.
    pub fn decode(b: &[u8], off: usize) -> (r: Self)
        requires
            off + 8 <= b@.len(),
        ensures
            r == Self::spec_decode(b@, off as int),
    {
        let _n = b.len();
        BlockHeader {
            p_parent: read_u32_at(b, off),
            p_end: read_u32_at(b, off + 4),
        }
    }
}

impl<'a> Parse<'a> for BlockHeader {

    open spec fn same_value(a: Self, b: Self) -> bool {
        a == b
    }

    proof fn lemma_parsed_unique(s: Seq<u8>, a: Self, b: Self) {
    }
    open spec fn parses(s: Seq<u8>) -> bool {
        s.len() >= 8
    }

    open spec fn parsed(s: Seq<u8>, v: Self) -> bool {
        v == Self::spec_decode(s, 0)
    }

    open spec fn parse_len(s: Seq<u8>) -> int {
        8
    }

    fn from_parser(p: &mut Parser<'a>) -> (r: Result<Self, ParserError>) {
        if p.len() < 8 {
            return Err(ParserError);
        }
        let v = Self::decode(p.peek_rest(), 0);
        p.skip(8)?;
        Ok(v)
    }
}

/// Used for the header of procedure symbols. This is used for `S_LPROC32`, `S_GPROC32`,
/// `S_LPROC32_ID`, etc.
///
/// See `PROCSYM32` in `cvinfo.h`.
#[derive(Clone, Copy, Debug, Default, PartialEq, Eq, Structural)]
pub struct ProcFixed {
    /// This field is always zero; procedure symbols never have parents.
    pub p_parent: u32,
    /// The byte offset, relative to the start of this procedure record, of the `S_END` symbol that
    /// closes the scope of this symbol record.
    pub p_end: u32,
    pub p_next: u32,
    /// The length in bytes of the procedure instruction stream.
    pub proc_len: u32,
    /// The offset in bytes from the start of the procedure to the point where the stack frame has
    /// been set up.
    pub debug_start: u32,
    /// The offset in bytes from the start of the procedure to the point where the procedure is
    /// ready to return.
    pub debug_end: u32,
    /// A `TypeIndex` that points into the TPI or an `ItemId` that points into the IPI, depending
    /// on the kind of the record.
    pub proc_type: u32,
    pub offset_segment: OffsetSegment,
    pub flags: u8,
}

impl ProcFixed {
    /// The value encoded at `s[off..off + 35]`.
    pub open spec fn spec_decode(s: Seq<u8>, off: int) -> Self {
        ProcFixed {
            p_parent: le_u32_at(s, off) as u32,
            p_end: le_u32_at(s, off + 4) as u32,
            p_next: le_u32_at(s, off + 8) as u32,
            proc_len: le_u32_at(s, off + 12) as u32,
            debug_start: le_u32_at(s, off + 16) as u32,
            debug_end: le_u32_at(s, off + 20) as u32,
            proc_type: le_u32_at(s, off + 24) as u32,
            offset_segment: OffsetSegment::spec_decode(s, off + 28),
            flags: s[off + 34],
        }
    }

    /// Decodes the value encoded at `b[off..off + 35]`.
    pub fn decode(b: &[u8], off: usize) -> (r: Self)
        requires
            off + 35 <= b@.len(),
        ensures
            r == Self::spec_decode(b@, off as int),
    {
        let _n = b.len();
        ProcFixed {
            p_parent: read_u32_at(b, off),
            p_end: read_u32_at(b, off + 4),
            p_next: read_u32_at(b, off + 8),
            proc_len: read_u32_at(b, off + 12),
            debug_start: read_u32_at(b, off + 16),
            debug_end: read_u32_at(b, off + 20),
            proc_type: read_u32_at(b, off + 24),
            offset_segment: OffsetSegment::decode(b, off + 28),
            flags: read_u8_at(b, off + 34),
        }
    }
}

/// Flags describing a procedure symbol.
///
/// See: `CV_PROCFLAGS` in `cvinfo.h`.
#[derive(Debug, Clone, Copy, PartialEq, Eq, Structural, PartialOrd, Ord)]
pub struct ProcFlags(pub u8);

/// Frame pointer present.
pub const PROC_FLAGS_NOFPO: u8 = 1;
/// Interrupt return.
pub const PROC_FLAGS_INT: u8 = 2;
/// Far return.
pub const PROC_FLAGS_FAR: u8 = 4;
/// Does not return.
pub const PROC_FLAGS_NEVER: u8 = 8;
/// Label isn't fallen into.
pub const PROC_FLAGS_NOTREACHED: u8 = 16;
/// Custom calling convention.
pub const PROC_FLAGS_CUST_CALL: u8 = 32;
/// Marked as `noinline`.
pub const PROC_FLAGS_NOINLINE: u8 = 64;
/// Has debug information for optimized code.
pub const PROC_FLAGS_OPTDBGINFO: u8 = 128;

/// Used for `S_LPROC32` and `S_GPROC32`.
///
/// These records are found in Module Symbol Streams. They describe the beginning of a function
/// (procedure), and they contain other symbols recursively (are a "symbol scope"). The end of
/// the sequence is terminated with an `S_END` symbol.
#[derive(Clone, Copy, Debug)]
pub struct Proc<'a> {
    pub fixed: ProcFixed,
    pub name: &'a [u8],
}

impl<'a> Parse<'a> for Proc<'a> {

    open spec fn same_value(a: Self, b: Self) -> bool {
        a == b
    }

    proof fn lemma_parsed_unique(s: Seq<u8>, a: Self, b: Self) {
        assert(a.name@ == b.name@ ==> a.name == b.name);
    }
    open spec fn parses(s: Seq<u8>) -> bool {
        s.len() >= 35 && has_nul(s.skip(35))
    }

    open spec fn parsed(s: Seq<u8>, v: Self) -> bool {
        &&& v.fixed == ProcFixed::spec_decode(s, 0)
        &&& v.name@ == strz_value(s.skip(35))
    }

    open spec fn parse_len(s: Seq<u8>) -> int {
        35 + strz_len(s.skip(35))
    }

    fn from_parser(p: &mut Parser<'a>) -> (r: Result<Self, ParserError>) {
        let ghost s = p.bytes@;
        if p.len() < 35 {
            return Err(ParserError);
        }
        let fixed = ProcFixed::decode(p.peek_rest(), 0);
        p.skip(35)?;
        let name = p.strz()?;
        proof {
            lemma_first_nul(s.skip(35));
            lemma_skip_skip(s, 35, strz_len(s.skip(35)));
        }
        Ok(Proc { fixed, name })
    }
}

impl<'a> Proc<'a> {
    /// View the procedure `flags` field as bit flags.
    pub fn flags(&self) -> (r: ProcFlags)
        ensures
            r.0 == self.fixed.flags,
    {
        ProcFlags(self.fixed.flags)
    }
}

/// `S_GMANPROC`, `S_LMANPROC` - Managed Procedure Start
///
/// See `MANPROCSYM` in `cvinfo.h`.
#[derive(Clone, Copy, Debug, Default, PartialEq, Eq, Structural)]
pub struct ManagedProcFixed {
    pub p_parent: u32,
    pub p_end: u32,
    pub p_next: u32,
    pub proc_len: u32,
    pub debug_start: u32,
    pub debug_end: u32,
    pub token: u32,
    pub offset_segment: OffsetSegment,
    pub flags: u8,
    pub return_reg: u16,
}

impl ManagedProcFixed {
    /// The value encoded at `s[off..off + 37]`.
    pub open spec fn spec_decode(s: Seq<u8>, off: int) -> Self {
        ManagedProcFixed {
            p_parent: le_u32_at(s, off) as u32,
            p_end: le_u32_at(s, off + 4) as u32,
            p_next: le_u32_at(s, off + 8) as u32,
            proc_len: le_u32_at(s, off + 12) as u32,
            debug_start: le_u32_at(s, off + 16) as u32,
            debug_end: le_u32_at(s, off + 20) as u32,
            token: le_u32_at(s, off + 24) as u32,
            offset_segment: OffsetSegment::spec_decode(s, off + 28),
            flags: s[off + 34],
            return_reg: le_u16_at(s, off + 35) as u16,
        }
    }

    /// Decodes the value encoded at `b[off..off + 37]`.
    pub fn decode(b: &[u8], off: usize) -> (r: Self)
        requires
            off + 37 <= b@.len(),
        ensures
            r == Self::spec_decode(b@, off as int),
    {
        let _n = b.len();
        ManagedProcFixed {
            p_parent: read_u32_at(b, off),
            p_end: read_u32_at(b, off + 4),
            p_next: read_u32_at(b, off + 8),
            proc_len: read_u32_at(b, off + 12),
            debug_start: read_u32_at(b, off + 16),
            debug_end: read_u32_at(b, off + 20),
            token: read_u32_at(b, off + 24),
            offset_segment: OffsetSegment::decode(b, off + 28),
            flags: read_u8_at(b, off + 34),
            return_reg: read_u16_at(b, off + 35),
        }
    }
}

/// `S_GMANPROC`, `S_LMANPROC` - Managed Procedure Start
#[derive(Clone, Copy, Debug)]
pub struct ManagedProc<'a> {
    pub fixed: ManagedProcFixed,
    pub name: &'a [u8],
}

impl<'a> Parse<'a> for ManagedProc<'a> {

    open spec fn same_value(a: Self, b: Self) -> bool {
        a == b
    }

    proof fn lemma_parsed_unique(s: Seq<u8>, a: Self, b: Self) {
        assert(a.name@ == b.name@ ==> a.name == b.name);
    }
    open spec fn parses(s: Seq<u8>) -> bool {
        s.len() >= 37 && has_nul(s.skip(37))
    }

    open spec fn parsed(s: Seq<u8>, v: Self) -> bool {
        &&& v.fixed == ManagedProcFixed::spec_decode(s, 0)
        &&& v.name@ == strz_value(s.skip(37))
    }

    open spec fn parse_len(s: Seq<u8>) -> int {
        37 + strz_len(s.skip(37))
    }

    fn from_parser(p: &mut Parser<'a>) -> (r: Result<Self, ParserError>) {
        let ghost s = p.bytes@;
        if p.len() < 37 {
            return Err(ParserError);
        }
        let fixed = ManagedProcFixed::decode(p.peek_rest(), 0);
        p.skip(37)?;
        let name = p.strz()?;
        proof {
            lemma_first_nul(s.skip(37));
            lemma_skip_skip(s, 37, strz_len(s.skip(37)));
        }
        Ok(ManagedProc { fixed, name })
    }
}

/// The fixed part of `S_THUNK32`.
#[derive(Clone, Copy, Debug, Default, PartialEq, Eq, Structural)]
pub struct ThunkFixed {
    pub block: BlockHeader,
    pub p_next: u32,
    pub offset_segment: OffsetSegment,
    pub length: u16,
    pub thunk_ordinal: u8,
}

impl ThunkFixed {
    /// The value encoded at `s[off..off + 21]`.
    pub open spec fn spec_decode(s: Seq<u8>, off: int) -> Self {
        ThunkFixed {
            block: BlockHeader::spec_decode(s, off),
            p_next: le_u32_at(s, off + 8) as u32,
            offset_segment: OffsetSegment::spec_decode(s, off + 12),
            length: le_u16_at(s, off + 18) as u16,
            thunk_ordinal: s[off + 20],
        }
    }

    /// Decodes the value encoded at `b[off..off + 21]`.
    pub fn decode(b: &[u8], off: usize) -> (r: Self)
        requires
            off + 21 <= b@.len(),
        ensures
            r == Self::spec_decode(b@, off as int),
    {
        let _n = b.len();
        ThunkFixed {
            block: BlockHeader::decode(b, off),
            p_next: read_u32_at(b, off + 8),
            offset_segment: OffsetSegment::decode(b, off + 12),
            length: read_u16_at(b, off + 18),
            thunk_ordinal: read_u8_at(b, off + 20),
        }
    }
}

/// `S_THUNK32`
#[derive(Clone, Copy, Debug)]
pub struct Thunk<'a> {
    pub fixed: ThunkFixed,
    pub name: &'a [u8],
    pub variant: &'a [u8],
}

impl<'a> Parse<'a> for Thunk<'a> {

    open spec fn same_value(a: Self, b: Self) -> bool {
        a == b
    }

    proof fn lemma_parsed_unique(s: Seq<u8>, a: Self, b: Self) {
        assert(a.name@ == b.name@ ==> a.name == b.name);
        assert(a.variant@ == b.variant@ ==> a.variant == b.variant);
    }
    open spec fn parses(s: Seq<u8>) -> bool {
        s.len() >= 21 && has_nul(s.skip(21))
    }

    open spec fn parsed(s: Seq<u8>, v: Self) -> bool {
        &&& v.fixed == ThunkFixed::spec_decode(s, 0)
        &&& v.name@ == strz_value(s.skip(21))
        &&& v.variant@ == s.skip(21 + strz_len(s.skip(21)))
    }

    open spec fn parse_len(s: Seq<u8>) -> int {
        s.len() as int
    }

    fn from_parser(p: &mut Parser<'a>) -> (r: Result<Self, ParserError>) {
        let ghost s = p.bytes@;
        if p.len() < 21 {
            return Err(ParserError);
        }
        let fixed = ThunkFixed::decode(p.peek_rest(), 0);
        p.skip(21)?;
        let name = p.strz()?;
        proof {
            lemma_first_nul(s.skip(21));
            lemma_skip_skip(s, 21, strz_len(s.skip(21)));
        }
        let variant = p.take_rest();
        proof {
            assert(final(p).bytes@ =~= s.skip(s.len() as int));
        }
        Ok(Thunk { fixed, name, variant })
    }
}

/// Describes the start of every symbol record.
#[derive(Clone, Copy, Debug, Default, PartialEq, Eq, Structural)]
pub struct SymHeader {
    /// The length in bytes of the record.
    /// 
    /// This length _does not_ count the length itself, but _does_ count the `kind` that follows it.
    /// Therefore, all well-formed symbol records have `len >= 2`.
    pub len: u16,
    /// The kind of the symbol.  See `SymKind`.
    pub kind: u16,
}

impl SymHeader {
    /// The value encoded at `s[off..off + 4]`.
    pub open spec fn spec_decode(s: Seq<u8>, off: int) -> Self {
        SymHeader {
            len: le_u16_at(s, off) as u16,
            kind: le_u16_at(s, off + 2) as u16,
        }
    }

    /// Decodes the value encoded at `b[off..off + 4]`.
    pub fn decode(b: &[u8], off: usize) -> (r: Self)
        requires
            off + 4 <= b@.len(),
        ensures
            r == Self::spec_decode(b@, off as int),
    {
        let _n = b.len();
        SymHeader {
            len: read_u16_at(b, off),
            kind: read_u16_at(b, off + 2),
        }
    }
}

impl<'a> Parse<'a> for SymHeader {

    open spec fn same_value(a: Self, b: Self) -> bool {
        a == b
    }

    proof fn lemma_parsed_unique(s: Seq<u8>, a: Self, b: Self) {
    }
    open spec fn parses(s: Seq<u8>) -> bool {
        s.len() >= 4
    }

    open spec fn parsed(s: Seq<u8>, v: Self) -> bool {
        v == Self::spec_decode(s, 0)
    }

    open spec fn parse_len(s: Seq<u8>) -> int {
        4
    }

    fn from_parser(p: &mut Parser<'a>) -> (r: Result<Self, ParserError>) {
        if p.len() < 4 {
            return Err(ParserError);
        }
        let v = Self::decode(p.peek_rest(), 0);
        p.skip(4)?;
        Ok(v)
    }
}

/// The fixed part of `S_PUB32` (`PUBSYM32`).
#[derive(Clone, Copy, Debug, Default, PartialEq, Eq, Structural)]
pub struct PubFixed {
    pub flags: u32,
    pub offset_segment: OffsetSegment,
}

impl PubFixed {
    /// The value encoded at `s[off..off + 10]`.
    pub open spec fn spec_decode(s: Seq<u8>, off: int) -> Self {
        PubFixed {
            flags: le_u32_at(s, off) as u32,
            offset_segment: OffsetSegment::spec_decode(s, off + 4),
        }
    }

    /// Decodes the value encoded at `b[off..off + 10]`.
    pub fn decode(b: &[u8], off: usize) -> (r: Self)
        requires
            off + 10 <= b@.len(),
        ensures
            r == Self::spec_decode(b@, off as int),
    {
        let _n = b.len();
        PubFixed {
            flags: read_u32_at(b, off),
            offset_segment: OffsetSegment::decode(b, off + 4),
        }
    }
}

/// `S_PUB32` (`PUBSYM32`): a public symbol.
#[derive(Clone, Copy, Debug)]
pub struct Pub<'a> {
    pub fixed: PubFixed,
    pub name: &'a [u8],
}

impl<'a> Parse<'a> for Pub<'a> {

    open spec fn same_value(a: Self, b: Self) -> bool {
        a == b
    }

    proof fn lemma_parsed_unique(s: Seq<u8>, a: Self, b: Self) {
        assert(a.name@ == b.name@ ==> a.name == b.name);
    }
    open spec fn parses(s: Seq<u8>) -> bool {
        s.len() >= 10 && has_nul(s.skip(10))
    }

    open spec fn parsed(s: Seq<u8>, v: Self) -> bool {
        &&& v.fixed == PubFixed::spec_decode(s, 0)
        &&& v.name@ == strz_value(s.skip(10))
    }

    open spec fn parse_len(s: Seq<u8>) -> int {
        10 + strz_len(s.skip(10))
    }

    fn from_parser(p: &mut Parser<'a>) -> (r: Result<Self, ParserError>) {
        let ghost s = p.bytes@;
        if p.len() < 10 {
            return Err(ParserError);
        }
        let fixed = PubFixed::decode(p.peek_rest(), 0);
        p.skip(10)?;
        let name = p.strz()?;
        proof {
            lemma_first_nul(s.skip(10));
            lemma_skip_skip(s, 10, strz_len(s.skip(10)));
        }
        Ok(Pub { fixed, name })
    }
}

impl<'a> Pub<'a> {
    /// Gets the `segment:offset` of this symbol.
    pub fn offset_segment(&self) -> (r: OffsetSegment)
        ensures
            r == self.fixed.offset_segment,
    {
        self.fixed.offset_segment
    }

    /// Parses `S_PUB32_ST`, whose name is prefixed by its length in one byte.
    pub fn parse_st(p: &mut Parser<'a>) -> (r: Result<Self, ParserError>)
        ensures
            r is Ok <==> pub_st_parses(old(p).bytes@),
            r matches Ok(v) ==> {
                &&& v.fixed == PubFixed::spec_decode(old(p).bytes@, 0)
                &&& v.name@ == old(p).bytes@.subrange(11int, 10int + 1 + old(p).bytes@[10])
                &&& final(p).bytes@ == old(p).bytes@.skip(10int + 1 + old(p).bytes@[10])
            },
    {
        let ghost s = p.bytes@;
        if p.len() < 10 {
            return Err(ParserError);
        }
        let fixed = PubFixed::decode(p.peek_rest(), 0);
        p.skip(10)?;
        let name = match p.strt_raw() {
            Ok(n) => n,
            Err(e) => {
                return Err(e);
            },
        };
        proof {
            assert(name@ =~= s.subrange(11int, 10int + 1 + s[10]));
            lemma_skip_skip(s, 10, 1int + s[10]);
        }
        Ok(Pub { fixed, name })
    }
}

/// `s` begins with an `S_PUB32_ST` payload: the fixed part, a length byte and that many
/// bytes of name.
pub open spec fn pub_st_parses(s: Seq<u8>) -> bool {
    s.len() >= 10 + 1 && s.len() >= 10 + 1 + s[10]
}

/// Parsed form of `S_CONSTANT`
#[derive(Clone, Copy, Debug)]
pub struct Constant<'a> {
    /// The type of the constant.
    pub type_: u32,
    /// The value of the constant.
    pub value: Number<'a>,
    /// The name of the constant.
    pub name: &'a [u8],
}

impl<'a> Parse<'a> for Constant<'a> {

    open spec fn same_value(a: Self, b: Self) -> bool {
        a == b
    }

    proof fn lemma_parsed_unique(s: Seq<u8>, a: Self, b: Self) {
        crate::number::lemma_number_view_determines(a.value, b.value);
        assert(a.name@ == b.name@ ==> a.name == b.name);
    }
    open spec fn parses(s: Seq<u8>) -> bool {
        &&& s.len() >= 4
        &&& number_len(s.skip(4)) is Some
        &&& has_nul(s.skip(4 + number_len(s.skip(4)).unwrap()))
    }

    open spec fn parsed(s: Seq<u8>, v: Self) -> bool {
        let k = number_len(s.skip(4)).unwrap();
        &&& v.type_ == le_u32_at(s, 0)
        &&& v.value@ == s.skip(4).take(k)
        &&& v.name@ == strz_value(s.skip(4 + k))
    }

    open spec fn parse_len(s: Seq<u8>) -> int {
        let k = number_len(s.skip(4)).unwrap();
        4 + k + strz_len(s.skip(4 + k))
    }

    fn from_parser(p: &mut Parser<'a>) -> (r: Result<Self, ParserError>) {
        let ghost s = p.bytes@;
        if p.len() < 4 {
            return Err(ParserError);
        }
        let type_ = p.u32()?;
        let value = Number::from_parser(p)?;
        let ghost k = value@.len() as int;
        proof {
            lemma_skip_skip(s, 4, k);
        }
        let name = p.strz()?;
        proof {
            lemma_first_nul(s.skip(4 + k));
            lemma_skip_skip(s, 4 + k, strz_len(s.skip(4 + k)));
        }
        Ok(Constant { type_, value, name })
    }
}

/// Parsed form of `S_MANCONSTANT`
#[derive(Clone, Copy, Debug)]
pub struct ManagedConstant<'a> {
    /// The metadata token of the constant.
    pub token: u32,
    /// The value of the constant.
    pub value: Number<'a>,
    /// The name of the constant.
    pub name: &'a [u8],
}

impl<'a> Parse<'a> for ManagedConstant<'a> {

    open spec fn same_value(a: Self, b: Self) -> bool {
        a == b
    }

    proof fn lemma_parsed_unique(s: Seq<u8>, a: Self, b: Self) {
        crate::number::lemma_number_view_determines(a.value, b.value);
        assert(a.name@ == b.name@ ==> a.name == b.name);
    }
    open spec fn parses(s: Seq<u8>) -> bool {
        &&& s.len() >= 4
        &&& number_len(s.skip(4)) is Some
        &&& has_nul(s.skip(4 + number_len(s.skip(4)).unwrap()))
    }

    open spec fn parsed(s: Seq<u8>, v: Self) -> bool {
        let k = number_len(s.skip(4)).unwrap();
        &&& v.token == le_u32_at(s, 0)
        &&& v.value@ == s.skip(4).take(k)
        &&& v.name@ == strz_value(s.skip(4 + k))
    }

    open spec fn parse_len(s: Seq<u8>) -> int {
        let k = number_len(s.skip(4)).unwrap();
        4 + k + strz_len(s.skip(4 + k))
    }

    fn from_parser(p: &mut Parser<'a>) -> (r: Result<Self, ParserError>) {
        let ghost s = p.bytes@;
        if p.len() < 4 {
            return Err(ParserError);
        }
        let token = p.u32()?;
        let value = Number::from_parser(p)?;
        let ghost k = value@.len() as int;
        proof {
            lemma_skip_skip(s, 4, k);
        }
        let name = p.strz()?;
        proof {
            lemma_first_nul(s.skip(4 + k));
            lemma_skip_skip(s, 4 + k, strz_len(s.skip(4 + k)));
        }
        Ok(ManagedConstant { token, value, name })
    }
}

/// The fixed part of `S_PROCREF`, `S_LPROCREF`, `S_DATAREF`.
#[derive(Clone, Copy, Debug, Default, PartialEq, Eq, Structural)]
pub struct RefSym2Fixed {
    /// Checksum of the name (called `SUC` in C++ code)
    /// 
    /// This appears to be set to zero.
    pub name_checksum: u32,
    /// Offset of actual symbol in $$Symbols
    /// 
    /// This is the byte offset into the module symbol stream for this symbol. The `module_index`
    /// field tells you which symbol stream to load, to resolve this value.
    pub symbol_offset: u32,
    /// The 1-based index of the module containing the actual symbol.
    pub module_index: u16,
}

impl RefSym2Fixed {
    /// The value encoded at `s[off..off + 10]`.
    pub open spec fn spec_decode(s: Seq<u8>, off: int) -> Self {
        RefSym2Fixed {
            name_checksum: le_u32_at(s, off) as u32,
            symbol_offset: le_u32_at(s, off + 4) as u32,
            module_index: le_u16_at(s, off + 8) as u16,
        }
    }

    /// Decodes the value encoded at `b[off..off + 10]`.
    pub fn decode(b: &[u8], off: usize) -> (r: Self)
        requires
            off + 10 <= b@.len(),
        ensures
            r == Self::spec_decode(b@, off as int),
    {
        let _n = b.len();
        RefSym2Fixed {
            name_checksum: read_u32_at(b, off),
            symbol_offset: read_u32_at(b, off + 4),
            module_index: read_u16_at(b, off + 8),
        }
    }
}

/// Several symbols use this structure: `S_PROCREF`, `S_LPROCREF`, `S_DATAREF`. These symbols
/// are present in the Global Symbol Stream, not in module symbol streams.
///
/// These `S_*REF` symbols tell you where to find a specific global symbol, but they do not directly
/// describe the symbol.
#[derive(Clone, Copy, Debug)]
pub struct RefSym2<'a> {
    pub header: RefSym2Fixed,
    pub name: &'a [u8],
}

impl<'a> Parse<'a> for RefSym2<'a> {

    open spec fn same_value(a: Self, b: Self) -> bool {
        a == b
    }

    proof fn lemma_parsed_unique(s: Seq<u8>, a: Self, b: Self) {
        assert(a.name@ == b.name@ ==> a.name == b.name);
    }
    open spec fn parses(s: Seq<u8>) -> bool {
        s.len() >= 10 && has_nul(s.skip(10))
    }

    open spec fn parsed(s: Seq<u8>, v: Self) -> bool {
        &&& v.header == RefSym2Fixed::spec_decode(s, 0)
        &&& v.name@ == strz_value(s.skip(10))
    }

    open spec fn parse_len(s: Seq<u8>) -> int {
        10 + strz_len(s.skip(10))
    }

    fn from_parser(p: &mut Parser<'a>) -> (r: Result<Self, ParserError>) {
        let ghost s = p.bytes@;
        if p.len() < 10 {
            return Err(ParserError);
        }
        let header = RefSym2Fixed::decode(p.peek_rest(), 0);
        p.skip(10)?;
        let name = p.strz()?;
        proof {
            lemma_first_nul(s.skip(10));
            lemma_skip_skip(s, 10, strz_len(s.skip(10)));
        }
        Ok(RefSym2 { header, name })
    }
}

/// The fixed part of `S_LTHREAD32` and `S_GTHREAD32`.
#[derive(Clone, Copy, Debug, Default, PartialEq, Eq, Structural)]
pub struct ThreadStorageFixed {
    pub type_: u32,
    pub offset_segment: OffsetSegment,
}

impl ThreadStorageFixed {
    /// The value encoded at `s[off..off + 10]`.
    pub open spec fn spec_decode(s: Seq<u8>, off: int) -> Self {
        ThreadStorageFixed {
            type_: le_u32_at(s, off) as u32,
            offset_segment: OffsetSegment::spec_decode(s, off + 4),
        }
    }

    /// Decodes the value encoded at `b[off..off + 10]`.
    pub fn decode(b: &[u8], off: usize) -> (r: Self)
        requires
            off + 10 <= b@.len(),
        ensures
            r == Self::spec_decode(b@, off as int),
    {
        let _n = b.len();
        ThreadStorageFixed {
            type_: read_u32_at(b, off),
            offset_segment: OffsetSegment::decode(b, off + 4),
        }
    }
}

/// Record data for `S_LTHREAD32` and `S_GTHREAD32`. These describes thread-local storage.
///
/// Thread-local storage is declared using `__declspec(thread)` or `thread_static`, in C++.
#[derive(Clone, Copy, Debug)]
pub struct ThreadStorageData<'a> {
    pub header: ThreadStorageFixed,
    pub name: &'a [u8],
}

impl<'a> Parse<'a> for ThreadStorageData<'a> {

    open spec fn same_value(a: Self, b: Self) -> bool {
        a == b
    }

    proof fn lemma_parsed_unique(s: Seq<u8>, a: Self, b: Self) {
        assert(a.name@ == b.name@ ==> a.name == b.name);
    }
    open spec fn parses(s: Seq<u8>) -> bool {
        s.len() >= 10 && has_nul(s.skip(10))
    }

    open spec fn parsed(s: Seq<u8>, v: Self) -> bool {
        &&& v.header == ThreadStorageFixed::spec_decode(s, 0)
        &&& v.name@ == strz_value(s.skip(10))
    }

    open spec fn parse_len(s: Seq<u8>) -> int {
        10 + strz_len(s.skip(10))
    }

    fn from_parser(p: &mut Parser<'a>) -> (r: Result<Self, ParserError>) {
        let ghost s = p.bytes@;
        if p.len() < 10 {
            return Err(ParserError);
        }
        let header = ThreadStorageFixed::decode(p.peek_rest(), 0);
        p.skip(10)?;
        let name = p.strz()?;
        proof {
            lemma_first_nul(s.skip(10));
            lemma_skip_skip(s, 10, strz_len(s.skip(10)));
        }
        Ok(ThreadStorageData { header, name })
    }
}

/// The fixed part of `S_LDATA32` and `S_GDATA32`.
#[derive(Clone, Copy, Debug, Default, PartialEq, Eq, Structural)]
pub struct DataFixed {
    pub type_: u32,
    pub offset_segment: OffsetSegment,
}

impl DataFixed {
    /// The value encoded at `s[off..off + 10]`.
    pub open spec fn spec_decode(s: Seq<u8>, off: int) -> Self {
        DataFixed {
            type_: le_u32_at(s, off) as u32,
            offset_segment: OffsetSegment::spec_decode(s, off + 4),
        }
    }

    /// Decodes the value encoded at `b[off..off + 10]`.
    pub fn decode(b: &[u8], off: usize) -> (r: Self)
        requires
            off + 10 <= b@.len(),
        ensures
            r == Self::spec_decode(b@, off as int),
    {
        let _n = b.len();
        DataFixed {
            type_: read_u32_at(b, off),
            offset_segment: OffsetSegment::decode(b, off + 4),
        }
    }
}

/// Record data for `S_LDATA32` and `S_GDATA32`. These describe global storage.
#[derive(Clone, Copy, Debug)]
pub struct Data<'a> {
    pub header: DataFixed,
    pub name: &'a [u8],
}

impl<'a> Data<'a> {
    /// The debugging text of this record: `Data:`, its location, its type index in decimal and
    /// its name.
    pub fn debug_string(&self) -> (r: String)
        ensures
            r@ == "Data: "@ + self.header.offset_segment.text() + " "@ + decimal(
                self.header.type_ as nat,
            ) + " "@ + bstr_display(self.name@),
    {
        let mut s = String::from_str("Data: ");
        let t = self.header.offset_segment.to_string();
        s.append(t.as_str());
        s.append(" ");
        push_decimal(&mut s, self.header.type_ as u128);
        s.append(" ");
        push_bstr(&mut s, self.name);
        s
    }
}

impl<'a> Parse<'a> for Data<'a> {

    open spec fn same_value(a: Self, b: Self) -> bool {
        a == b
    }

    proof fn lemma_parsed_unique(s: Seq<u8>, a: Self, b: Self) {
        assert(a.name@ == b.name@ ==> a.name == b.name);
    }
    open spec fn parses(s: Seq<u8>) -> bool {
        s.len() >= 10 && has_nul(s.skip(10))
    }

    open spec fn parsed(s: Seq<u8>, v: Self) -> bool {
        &&& v.header == DataFixed::spec_decode(s, 0)
        &&& v.name@ == strz_value(s.skip(10))
    }

    open spec fn parse_len(s: Seq<u8>) -> int {
        10 + strz_len(s.skip(10))
    }

    fn from_parser(p: &mut Parser<'a>) -> (r: Result<Self, ParserError>) {
        let ghost s = p.bytes@;
        if p.len() < 10 {
            return Err(ParserError);
        }
        let header = DataFixed::decode(p.peek_rest(), 0);
        p.skip(10)?;
        let name = p.strz()?;
        proof {
            lemma_first_nul(s.skip(10));
            lemma_skip_skip(s, 10, strz_len(s.skip(10)));
        }
        Ok(Data { header, name })
    }
}

/// Record data for `S_UDT` symbols
#[derive(Clone, Copy, Debug)]
pub struct Udt<'a> {
    /// The type of the UDT
    pub type_: u32,
    /// Name
    pub name: &'a [u8],
}

impl<'a> Parse<'a> for Udt<'a> {

    open spec fn same_value(a: Self, b: Self) -> bool {
        a == b
    }

    proof fn lemma_parsed_unique(s: Seq<u8>, a: Self, b: Self) {
        assert(a.name@ == b.name@ ==> a.name == b.name);
    }
    open spec fn parses(s: Seq<u8>) -> bool {
        s.len() >= 4 && has_nul(s.skip(4))
    }

    open spec fn parsed(s: Seq<u8>, v: Self) -> bool {
        &&& v.type_ == le_u32_at(s, 0)
        &&& v.name@ == strz_value(s.skip(4))
    }

    open spec fn parse_len(s: Seq<u8>) -> int {
        4 + strz_len(s.skip(4))
    }

    fn from_parser(p: &mut Parser<'a>) -> (r: Result<Self, ParserError>) {
        let ghost s = p.bytes@;
        if p.len() < 4 {
            return Err(ParserError);
        }
        let type_ = p.u32()?;
        let name = p.strz()?;
        proof {
            lemma_first_nul(s.skip(4));
            lemma_skip_skip(s, 4, strz_len(s.skip(4)));
        }
        Ok(Udt { type_, name })
    }
}

/// `S_OBJNAME`
#[derive(Clone, Copy, Debug)]
pub struct ObjectName<'a> {
    /// A robust signature that will change every time that the module will be compiled or
    /// different in any way.
    pub signature: u32,
    /// Full path of the object file.
    pub name: &'a [u8],
}

impl<'a> Parse<'a> for ObjectName<'a> {

    open spec fn same_value(a: Self, b: Self) -> bool {
        a == b
    }

    proof fn lemma_parsed_unique(s: Seq<u8>, a: Self, b: Self) {
        assert(a.name@ == b.name@ ==> a.name == b.name);
    }
    open spec fn parses(s: Seq<u8>) -> bool {
        s.len() >= 4 && has_nul(s.skip(4))
    }

    open spec fn parsed(s: Seq<u8>, v: Self) -> bool {
        &&& v.signature == le_u32_at(s, 0)
        &&& v.name@ == strz_value(s.skip(4))
    }

    open spec fn parse_len(s: Seq<u8>) -> int {
        4 + strz_len(s.skip(4))
    }

    fn from_parser(p: &mut Parser<'a>) -> (r: Result<Self, ParserError>) {
        let ghost s = p.bytes@;
        if p.len() < 4 {
            return Err(ParserError);
        }
        let signature = p.u32()?;
        let name = p.strz()?;
        proof {
            lemma_first_nul(s.skip(4));
            lemma_skip_skip(s, 4, strz_len(s.skip(4)));
        }
        Ok(ObjectName { signature, name })
    }
}

/// `S_COMPILE3`
#[derive(Clone, Copy, Debug, Default, PartialEq, Eq, Structural)]
pub struct Compile3Fixed {
    pub flags: u32,
    pub machine: u16,
    pub frontend_major: u16,
    pub frontend_minor: u16,
    pub frontend_build: u16,
    pub frontend_qfe: u16,
    pub ver_major: u16,
    pub ver_minor: u16,
    pub ver_build: u16,
    pub ver_qfe: u16,
}

impl Compile3Fixed {
    /// The value encoded at `s[off..off + 22]`.
    pub open spec fn spec_decode(s: Seq<u8>, off: int) -> Self {
        Compile3Fixed {
            flags: le_u32_at(s, off) as u32,
            machine: le_u16_at(s, off + 4) as u16,
            frontend_major: le_u16_at(s, off + 6) as u16,
            frontend_minor: le_u16_at(s, off + 8) as u16,
            frontend_build: le_u16_at(s, off + 10) as u16,
            frontend_qfe: le_u16_at(s, off + 12) as u16,
            ver_major: le_u16_at(s, off + 14) as u16,
            ver_minor: le_u16_at(s, off + 16) as u16,
            ver_build: le_u16_at(s, off + 18) as u16,
            ver_qfe: le_u16_at(s, off + 20) as u16,
        }
    }

    /// Decodes the value encoded at `b[off..off + 22]`.
    pub fn decode(b: &[u8], off: usize) -> (r: Self)
        requires
            off + 22 <= b@.len(),
        ensures
            r == Self::spec_decode(b@, off as int),
    {
        let _n = b.len();
        Compile3Fixed {
            flags: read_u32_at(b, off),
            machine: read_u16_at(b, off + 4),
            frontend_major: read_u16_at(b, off + 6),
            frontend_minor: read_u16_at(b, off + 8),
            frontend_build: read_u16_at(b, off + 10),
            frontend_qfe: read_u16_at(b, off + 12),
            ver_major: read_u16_at(b, off + 14),
            ver_minor: read_u16_at(b, off + 16),
            ver_build: read_u16_at(b, off + 18),
            ver_qfe: read_u16_at(b, off + 20),
        }
    }
}

/// `S_COMPILE3`
#[derive(Clone, Copy, Debug)]
pub struct Compile3<'a> {
    pub fixed: Compile3Fixed,
    pub name: &'a [u8],
}

impl<'a> Parse<'a> for Compile3<'a> {

    open spec fn same_value(a: Self, b: Self) -> bool {
        a == b
    }

    proof fn lemma_parsed_unique(s: Seq<u8>, a: Self, b: Self) {
        assert(a.name@ == b.name@ ==> a.name == b.name);
    }
    open spec fn parses(s: Seq<u8>) -> bool {
        s.len() >= 22 && has_nul(s.skip(22))
    }

    open spec fn parsed(s: Seq<u8>, v: Self) -> bool {
        &&& v.fixed == Compile3Fixed::spec_decode(s, 0)
        &&& v.name@ == strz_value(s.skip(22))
    }

    open spec fn parse_len(s: Seq<u8>) -> int {
        22 + strz_len(s.skip(22))
    }

    fn from_parser(p: &mut Parser<'a>) -> (r: Result<Self, ParserError>) {
        let ghost s = p.bytes@;
        if p.len() < 22 {
            return Err(ParserError);
        }
        let fixed = Compile3Fixed::decode(p.peek_rest(), 0);
        p.skip(22)?;
        let name = p.strz()?;
        proof {
            lemma_first_nul(s.skip(22));
            lemma_skip_skip(s, 22, strz_len(s.skip(22)));
        }
        Ok(Compile3 { fixed, name })
    }
}

/// `S_FRAMEPROC`: This symbol is used for indicating a variety of extra information regarding a
/// procedure and its stack frame.
#[derive(Clone, Copy, Debug, Default, PartialEq, Eq, Structural)]
pub struct FrameProc {
    /// Count of bytes in the whole stack frame.
    pub frame_size: u32,
    /// Count of bytes in the frame allocated as padding.
    pub pad_size: u32,
    /// Offset of pad bytes from the base of the frame.
    pub pad_offset: u32,
    /// Count of bytes in frame allocated for saved callee-save registers.
    pub save_regs_size: u32,
    pub offset_exception_handler: u32,
    pub exception_handler_section: u16,
    pub padding: u16,
    pub flags: u32,
}

impl FrameProc {
    /// The value encoded at `s[off..off + 28]`.
    pub open spec fn spec_decode(s: Seq<u8>, off: int) -> Self {
        FrameProc {
            frame_size: le_u32_at(s, off) as u32,
            pad_size: le_u32_at(s, off + 4) as u32,
            pad_offset: le_u32_at(s, off + 8) as u32,
            save_regs_size: le_u32_at(s, off + 12) as u32,
            offset_exception_handler: le_u32_at(s, off + 16) as u32,
            exception_handler_section: le_u16_at(s, off + 20) as u16,
            padding: le_u16_at(s, off + 22) as u16,
            flags: le_u32_at(s, off + 24) as u32,
        }
    }

    /// Decodes the value encoded at `b[off..off + 28]`.
    pub fn decode(b: &[u8], off: usize) -> (r: Self)
        requires
            off + 28 <= b@.len(),
        ensures
            r == Self::spec_decode(b@, off as int),
    {
        let _n = b.len();
        FrameProc {
            frame_size: read_u32_at(b, off),
            pad_size: read_u32_at(b, off + 4),
            pad_offset: read_u32_at(b, off + 8),
            save_regs_size: read_u32_at(b, off + 12),
            offset_exception_handler: read_u32_at(b, off + 16),
            exception_handler_section: read_u16_at(b, off + 20),
            padding: read_u16_at(b, off + 22),
            flags: read_u32_at(b, off + 24),
        }
    }
}

impl<'a> Parse<'a> for FrameProc {

    open spec fn same_value(a: Self, b: Self) -> bool {
        a == b
    }

    proof fn lemma_parsed_unique(s: Seq<u8>, a: Self, b: Self) {
    }
    open spec fn parses(s: Seq<u8>) -> bool {
        s.len() >= 28
    }

    open spec fn parsed(s: Seq<u8>, v: Self) -> bool {
        v == Self::spec_decode(s, 0)
    }

    open spec fn parse_len(s: Seq<u8>) -> int {
        28
    }

    fn from_parser(p: &mut Parser<'a>) -> (r: Result<Self, ParserError>) {
        if p.len() < 28 {
            return Err(ParserError);
        }
        let v = Self::decode(p.peek_rest(), 0);
        p.skip(28)?;
        Ok(v)
    }
}

/// The fixed part of `S_REGREL32`.
#[derive(Clone, Copy, Debug, Default, PartialEq, Eq, Structural)]
pub struct RegRelFixed {
    pub offset: u32,
    pub ty: u32,
    pub register: u16,
}

impl RegRelFixed {
    /// The value encoded at `s[off..off + 10]`.
    pub open spec fn spec_decode(s: Seq<u8>, off: int) -> Self {
        RegRelFixed {
            offset: le_u32_at(s, off) as u32,
            ty: le_u32_at(s, off + 4) as u32,
            register: le_u16_at(s, off + 8) as u16,
        }
    }

    /// Decodes the value encoded at `b[off..off + 10]`.
    pub fn decode(b: &[u8], off: usize) -> (r: Self)
        requires
            off + 10 <= b@.len(),
        ensures
            r == Self::spec_decode(b@, off as int),
    {
        let _n = b.len();
        RegRelFixed {
            offset: read_u32_at(b, off),
            ty: read_u32_at(b, off + 4),
            register: read_u16_at(b, off + 8),
        }
    }
}

/// `S_REGREL32`: This symbol specifies symbols that are allocated relative to a register.
#[derive(Clone, Copy, Debug)]
pub struct RegRel<'a> {
    pub fixed: RegRelFixed,
    pub name: &'a [u8],
}

impl<'a> Parse<'a> for RegRel<'a> {

    open spec fn same_value(a: Self, b: Self) -> bool {
        a == b
    }

    proof fn lemma_parsed_unique(s: Seq<u8>, a: Self, b: Self) {
        assert(a.name@ == b.name@ ==> a.name == b.name);
    }
    open spec fn parses(s: Seq<u8>) -> bool {
        s.len() >= 10 && has_nul(s.skip(10))
    }

    open spec fn parsed(s: Seq<u8>, v: Self) -> bool {
        &&& v.fixed == RegRelFixed::spec_decode(s, 0)
        &&& v.name@ == strz_value(s.skip(10))
    }

    open spec fn parse_len(s: Seq<u8>) -> int {
        10 + strz_len(s.skip(10))
    }

    fn from_parser(p: &mut Parser<'a>) -> (r: Result<Self, ParserError>) {
        let ghost s = p.bytes@;
        if p.len() < 10 {
            return Err(ParserError);
        }
        let fixed = RegRelFixed::decode(p.peek_rest(), 0);
        p.skip(10)?;
        let name = p.strz()?;
        proof {
            lemma_first_nul(s.skip(10));
            lemma_skip_skip(s, 10, strz_len(s.skip(10)));
        }
        Ok(RegRel { fixed, name })
    }
}

/// The fixed part of `S_BLOCK32`.
#[derive(Clone, Copy, Debug, Default, PartialEq, Eq, Structural)]
pub struct BlockFixed {
    /// Header of the block
    pub header: BlockHeader,
    /// Length in bytes of the scope of this block within the executable code stream.
    pub length: u32,
    pub offset_segment: OffsetSegment,
}

impl BlockFixed {
    /// The value encoded at `s[off..off + 18]`.
    pub open spec fn spec_decode(s: Seq<u8>, off: int) -> Self {
        BlockFixed {
            header: BlockHeader::spec_decode(s, off),
            length: le_u32_at(s, off + 8) as u32,
            offset_segment: OffsetSegment::spec_decode(s, off + 12),
        }
    }

    /// Decodes the value encoded at `b[off..off + 18]`.
    pub fn decode(b: &[u8], off: usize) -> (r: Self)
        requires
            off + 18 <= b@.len(),
        ensures
            r == Self::spec_decode(b@, off as int),
    {
        let _n = b.len();
        BlockFixed {
            header: BlockHeader::decode(b, off),
            length: read_u32_at(b, off + 8),
            offset_segment: OffsetSegment::decode(b, off + 12),
        }
    }
}

/// Block Start: This symbol specifies the start of an inner block of lexically scoped symbols.
/// The lexical scope is terminated by a matching `S_END` symbol.
#[derive(Clone, Copy, Debug)]
pub struct Block<'a> {
    pub fixed: BlockFixed,
    pub name: &'a [u8],
}

impl<'a> Parse<'a> for Block<'a> {

    open spec fn same_value(a: Self, b: Self) -> bool {
        a == b
    }

    proof fn lemma_parsed_unique(s: Seq<u8>, a: Self, b: Self) {
        assert(a.name@ == b.name@ ==> a.name == b.name);
    }
    open spec fn parses(s: Seq<u8>) -> bool {
        s.len() >= 18 && has_nul(s.skip(18))
    }

    open spec fn parsed(s: Seq<u8>, v: Self) -> bool {
        &&& v.fixed == BlockFixed::spec_decode(s, 0)
        &&& v.name@ == strz_value(s.skip(18))
    }

    open spec fn parse_len(s: Seq<u8>) -> int {
        18 + strz_len(s.skip(18))
    }

    fn from_parser(p: &mut Parser<'a>) -> (r: Result<Self, ParserError>) {
        let ghost s = p.bytes@;
        if p.len() < 18 {
            return Err(ParserError);
        }
        let fixed = BlockFixed::decode(p.peek_rest(), 0);
        p.skip(18)?;
        let name = p.strz()?;
        proof {
            lemma_first_nul(s.skip(18));
            lemma_skip_skip(s, 18, strz_len(s.skip(18)));
        }
        Ok(Block { fixed, name })
    }
}

/// The fixed part of `S_LOCAL`.
#[derive(Clone, Copy, Debug, Default, PartialEq, Eq, Structural)]
pub struct LocalFixed {
    pub ty: u32,
    /// The spec says this is a 32-bit flags field, but the actual records show that this is 16-bit.
    pub flags: u16,
}

impl LocalFixed {
    /// The value encoded at `s[off..off + 6]`.
    pub open spec fn spec_decode(s: Seq<u8>, off: int) -> Self {
        LocalFixed {
            ty: le_u32_at(s, off) as u32,
            flags: le_u16_at(s, off + 4) as u16,
        }
    }

    /// Decodes the value encoded at `b[off..off + 6]`.
    pub fn decode(b: &[u8], off: usize) -> (r: Self)
        requires
            off + 6 <= b@.len(),
        ensures
            r == Self::spec_decode(b@, off as int),
    {
        let _n = b.len();
        LocalFixed {
            ty: read_u32_at(b, off),
            flags: read_u16_at(b, off + 4),
        }
    }
}

/// Local Symbol: This symbol defines a local variable.
#[derive(Clone, Copy, Debug)]
pub struct Local<'a> {
    pub fixed: LocalFixed,
    pub name: &'a [u8],
}

impl<'a> Parse<'a> for Local<'a> {

    open spec fn same_value(a: Self, b: Self) -> bool {
        a == b
    }

    proof fn lemma_parsed_unique(s: Seq<u8>, a: Self, b: Self) {
        assert(a.name@ == b.name@ ==> a.name == b.name);
    }
    open spec fn parses(s: Seq<u8>) -> bool {
        s.len() >= 6 && has_nul(s.skip(6))
    }

    open spec fn parsed(s: Seq<u8>, v: Self) -> bool {
        &&& v.fixed == LocalFixed::spec_decode(s, 0)
        &&& v.name@ == strz_value(s.skip(6))
    }

    open spec fn parse_len(s: Seq<u8>) -> int {
        6 + strz_len(s.skip(6))
    }

    fn from_parser(p: &mut Parser<'a>) -> (r: Result<Self, ParserError>) {
        let ghost s = p.bytes@;
        if p.len() < 6 {
            return Err(ParserError);
        }
        let fixed = LocalFixed::decode(p.peek_rest(), 0);
        p.skip(6)?;
        let name = p.strz()?;
        proof {
            lemma_first_nul(s.skip(6));
            lemma_skip_skip(s, 6, strz_len(s.skip(6)));
        }
        Ok(Local { fixed, name })
    }
}

/// Represents an address range, used for optimized code debug info
///
/// See `CV_LVAR_ADDR_RANGE`
#[derive(Clone, Copy, Debug, Default, PartialEq, Eq, Structural)]
pub struct LVarAddrRange {
    /// Start of the address range
    pub start: OffsetSegment,
    /// Size of the range in bytes.
    pub range_size: u16,
}

impl LVarAddrRange {
    /// The value encoded at `s[off..off + 8]`.
    pub open spec fn spec_decode(s: Seq<u8>, off: int) -> Self {
        LVarAddrRange {
            start: OffsetSegment::spec_decode(s, off),
            range_size: le_u16_at(s, off + 6) as u16,
        }
    }

    /// Decodes the value encoded at `b[off..off + 8]`.
    pub fn decode(b: &[u8], off: usize) -> (r: Self)
        requires
            off + 8 <= b@.len(),
        ensures
            r == Self::spec_decode(b@, off as int),
    {
        let _n = b.len();
        LVarAddrRange {
            start: OffsetSegment::decode(b, off),
            range_size: read_u16_at(b, off + 6),
        }
    }
}

/// Represents the holes in overall address range.
///
/// See `CV_LVAR_ADDR_GAP`
#[derive(Clone, Copy, Debug, Default, PartialEq, Eq, Structural)]
pub struct LVarAddrGap {
    /// relative offset from the beginning of the live range.
    pub gap_start_offset: u16,
    /// length of this gap, in bytes
    pub range_size: u16,
}

impl LVarAddrGap {
    /// The value encoded at `s[off..off + 4]`.
    pub open spec fn spec_decode(s: Seq<u8>, off: int) -> Self {
        LVarAddrGap {
            gap_start_offset: le_u16_at(s, off) as u16,
            range_size: le_u16_at(s, off + 2) as u16,
        }
    }

    /// Decodes the value encoded at `b[off..off + 4]`.
    pub fn decode(b: &[u8], off: usize) -> (r: Self)
        requires
            off + 4 <= b@.len(),
        ensures
            r == Self::spec_decode(b@, off as int),
    {
        let _n = b.len();
        LVarAddrGap {
            gap_start_offset: read_u16_at(b, off),
            range_size: read_u16_at(b, off + 2),
        }
    }
}

/// `S_DEFRANGE_FRAMEPOINTER_REL`: A live range of frame variable
#[derive(Clone, Copy, Debug, Default, PartialEq, Eq, Structural)]
pub struct DefRangeSymFramePointerRelFixed {
    pub offset_to_frame_pointer: u32,
    /// Range of addresses where this program is valid
    pub range: LVarAddrRange,
}

impl DefRangeSymFramePointerRelFixed {
    /// The value encoded at `s[off..off + 12]`.
    pub open spec fn spec_decode(s: Seq<u8>, off: int) -> Self {
        DefRangeSymFramePointerRelFixed {
            offset_to_frame_pointer: le_u32_at(s, off) as u32,
            range: LVarAddrRange::spec_decode(s, off + 4),
        }
    }

    /// Decodes the value encoded at `b[off..off + 12]`.
    pub fn decode(b: &[u8], off: usize) -> (r: Self)
        requires
            off + 12 <= b@.len(),
        ensures
            r == Self::spec_decode(b@, off as int),
    {
        let _n = b.len();
        DefRangeSymFramePointerRelFixed {
            offset_to_frame_pointer: read_u32_at(b, off),
            range: LVarAddrRange::decode(b, off + 4),
        }
    }
}

/// The gaps of a `S_DEFRANGE_FRAMEPOINTER_REL` record whose payload is `s`: as many
/// four-byte gaps as fit after the fixed part.
pub open spec fn frame_pointer_rel_gaps(s: Seq<u8>) -> Seq<LVarAddrGap> {
    Seq::new(((s.len() - 12) / 4) as nat, |i: int| LVarAddrGap::spec_decode(s, 12 + 4 * i))
}

/// Decodes the `n` consecutive gaps that start at `b[off]`.
fn decode_gaps(b: &[u8], off: usize, n: usize) -> (r: Vec<LVarAddrGap>)
    requires
        off + 4 * n <= b@.len(),
    ensures
        r@ == Seq::new(n as nat, |i: int| LVarAddrGap::spec_decode(b@, off + 4 * i)),
{
    let mut v: Vec<LVarAddrGap> = Vec::new();
    let mut i: usize = 0;
    let len = b.len();
    while i < n
        invariant
            i <= n,
            len == b@.len(),
            off + 4 * n <= b@.len(),
            v@ =~= Seq::new(i as nat, |j: int| LVarAddrGap::spec_decode(b@, off + 4 * j)),
        decreases n - i,
    {
        v.push(LVarAddrGap::decode(b, off + 4 * i));
        i = i + 1;
    }
    v
}

/// `S_DEFRANGE_FRAMEPOINTER_REL`: A live range of frame variable
#[derive(Clone, Debug)]
pub struct DefRangeSymFramePointerRel {
    pub fixed: DefRangeSymFramePointerRelFixed,
    /// The value is not available in these gaps.
    pub gaps: Vec<LVarAddrGap>,
}

impl<'a> Parse<'a> for DefRangeSymFramePointerRel {

    open spec fn same_value(a: Self, b: Self) -> bool {
        a.fixed == b.fixed && a.gaps@ == b.gaps@
    }

    proof fn lemma_parsed_unique(s: Seq<u8>, a: Self, b: Self) {
    }
    open spec fn parses(s: Seq<u8>) -> bool {
        s.len() >= 12
    }

    open spec fn parsed(s: Seq<u8>, v: Self) -> bool {
        &&& v.fixed == DefRangeSymFramePointerRelFixed::spec_decode(s, 0)
        &&& v.gaps@ == frame_pointer_rel_gaps(s)
    }

    open spec fn parse_len(s: Seq<u8>) -> int {
        12 + 4 * ((s.len() - 12) / 4)
    }

    fn from_parser(p: &mut Parser<'a>) -> (r: Result<Self, ParserError>) {
        let ghost s = p.bytes@;
        if p.len() < 12 {
            return Err(ParserError);
        }
        let b = p.peek_rest();
        let fixed = DefRangeSymFramePointerRelFixed::decode(b, 0);
        let n = (b.len() - 12) / 4;
        let gaps = decode_gaps(b, 12, n);
        p.skip(12 + 4 * n)?;
        Ok(DefRangeSymFramePointerRel { fixed, gaps })
    }
}

/// Attributes for a register range
///
/// See `CV_RANGEATTR`
#[derive(Clone, Copy, Debug, Default, PartialEq, Eq, Structural)]
pub struct RangeAttrLe {
    pub value: u16,
}

impl RangeAttrLe {
    /// The value encoded at `s[off..off + 2]`.
    pub open spec fn spec_decode(s: Seq<u8>, off: int) -> Self {
        RangeAttrLe {
            value: le_u16_at(s, off) as u16,
        }
    }

    /// Decodes the value encoded at `b[off..off + 2]`.
    pub fn decode(b: &[u8], off: usize) -> (r: Self)
        requires
            off + 2 <= b@.len(),
        ensures
            r == Self::spec_decode(b@, off as int),
    {
        let _n = b.len();
        RangeAttrLe {
            value: read_u16_at(b, off),
        }
    }
}

/// `S_DEFRANGE_REGISTER` - A live range of en-registed variable
///
/// See `DEFRANGESYMREGISTER`
#[derive(Clone, Copy, Debug, Default, PartialEq, Eq, Structural)]
pub struct DefRangeRegisterFixed {
    /// Register to hold the value of the symbol
    pub reg: u16,
    /// Attribute of the register range.
    pub attr: RangeAttrLe,
}

impl DefRangeRegisterFixed {
    /// The value encoded at `s[off..off + 4]`.
    pub open spec fn spec_decode(s: Seq<u8>, off: int) -> Self {
        DefRangeRegisterFixed {
            reg: le_u16_at(s, off) as u16,
            attr: RangeAttrLe::spec_decode(s, off + 2),
        }
    }

    /// Decodes the value encoded at `b[off..off + 4]`.
    pub fn decode(b: &[u8], off: usize) -> (r: Self)
        requires
            off + 4 <= b@.len(),
        ensures
            r == Self::spec_decode(b@, off as int),
    {
        let _n = b.len();
        DefRangeRegisterFixed {
            reg: read_u16_at(b, off),
            attr: RangeAttrLe::decode(b, off + 2),
        }
    }
}

/// `S_DEFRANGE_REGISTER`
///
/// See `DEFRANGESYMREGISTER`
#[derive(Clone, Copy, Debug)]
pub struct DefRangeRegister<'a> {
    pub fixed: DefRangeRegisterFixed,
    pub gaps: &'a [u8],
}

impl<'a> Parse<'a> for DefRangeRegister<'a> {

    open spec fn same_value(a: Self, b: Self) -> bool {
        a == b
    }

    proof fn lemma_parsed_unique(s: Seq<u8>, a: Self, b: Self) {
        assert(a.gaps@ == b.gaps@ ==> a.gaps == b.gaps);
    }
    open spec fn parses(s: Seq<u8>) -> bool {
        s.len() >= 4
    }

    open spec fn parsed(s: Seq<u8>, v: Self) -> bool {
        &&& v.fixed == DefRangeRegisterFixed::spec_decode(s, 0)
        &&& v.gaps@ == s.skip(4)
    }

    open spec fn parse_len(s: Seq<u8>) -> int {
        s.len() as int
    }

    fn from_parser(p: &mut Parser<'a>) -> (r: Result<Self, ParserError>) {
        let ghost s = p.bytes@;
        if p.len() < 4 {
            return Err(ParserError);
        }
        let fixed = DefRangeRegisterFixed::decode(p.peek_rest(), 0);
        p.skip(4)?;
        let gaps = p.take_rest();
        proof {
            assert(final(p).bytes@ =~= s.skip(s.len() as int));
        }
        Ok(DefRangeRegister { fixed, gaps })
    }
}

/// `S_DEFRANGE_REGISTER_REL`
#[derive(Clone, Copy, Debug, Default, PartialEq, Eq, Structural)]
pub struct DefRangeRegisterRelFixed {
    /// Register to hold the base pointer of the symbol
    pub base_reg: u16,
    /// `spilledUdtMember : 1`, `padding : 3`, `offsetParent : 12`
    pub flags: u16,
    /// offset to register
    pub base_pointer_offset: i32,
    /// Range of addresses where this program is valid
    pub range: LVarAddrRange,
}

impl DefRangeRegisterRelFixed {
    /// The value encoded at `s[off..off + 16]`.
    pub open spec fn spec_decode(s: Seq<u8>, off: int) -> Self {
        DefRangeRegisterRelFixed {
            base_reg: le_u16_at(s, off) as u16,
            flags: le_u16_at(s, off + 2) as u16,
            base_pointer_offset: twos_complement(le_u32_at(s, off + 4), 0x8000_0000) as i32,
            range: LVarAddrRange::spec_decode(s, off + 8),
        }
    }

    /// Decodes the value encoded at `b[off..off + 16]`.
    pub fn decode(b: &[u8], off: usize) -> (r: Self)
        requires
            off + 16 <= b@.len(),
        ensures
            r == Self::spec_decode(b@, off as int),
    {
        let _n = b.len();
        DefRangeRegisterRelFixed {
            base_reg: read_u16_at(b, off),
            flags: read_u16_at(b, off + 2),
            base_pointer_offset: read_i32_at(b, off + 4),
            range: LVarAddrRange::decode(b, off + 8),
        }
    }
}

/// `S_DEFRANGE_REGISTER_REL`
#[derive(Clone, Copy, Debug)]
pub struct DefRangeRegisterRel<'a> {
    pub fixed: DefRangeRegisterRelFixed,
    /// The value is not available in following gaps.
    pub gaps: &'a [u8],
}

impl<'a> Parse<'a> for DefRangeRegisterRel<'a> {

    open spec fn same_value(a: Self, b: Self) -> bool {
        a == b
    }

    proof fn lemma_parsed_unique(s: Seq<u8>, a: Self, b: Self) {
        assert(a.gaps@ == b.gaps@ ==> a.gaps == b.gaps);
    }
    open spec fn parses(s: Seq<u8>) -> bool {
        s.len() >= 16
    }

    open spec fn parsed(s: Seq<u8>, v: Self) -> bool {
        &&& v.fixed == DefRangeRegisterRelFixed::spec_decode(s, 0)
        &&& v.gaps@ == s.skip(16)
    }

    open spec fn parse_len(s: Seq<u8>) -> int {
        s.len() as int
    }

    fn from_parser(p: &mut Parser<'a>) -> (r: Result<Self, ParserError>) {
        let ghost s = p.bytes@;
        if p.len() < 16 {
            return Err(ParserError);
        }
        let fixed = DefRangeRegisterRelFixed::decode(p.peek_rest(), 0);
        p.skip(16)?;
        let gaps = p.take_rest();
        proof {
            assert(final(p).bytes@ =~= s.skip(s.len() as int));
        }
        Ok(DefRangeRegisterRel { fixed, gaps })
    }
}

/// `S_DEFRANGE_FRAMEPOINTER_REL_FULL_SCOPE`
///
/// A frame variable valid in all function scope.
#[derive(Clone, Copy, Debug, Default, PartialEq, Eq, Structural)]
pub struct DefRangeFramePointerRelFullScope {
    /// offset to frame pointer
    pub frame_pointer_offset: i32,
}

impl DefRangeFramePointerRelFullScope {
    /// The value encoded at `s[off..off + 4]`.
    pub open spec fn spec_decode(s: Seq<u8>, off: int) -> Self {
        DefRangeFramePointerRelFullScope {
            frame_pointer_offset: twos_complement(le_u32_at(s, off), 0x8000_0000) as i32,
        }
    }

    /// Decodes the value encoded at `b[off..off + 4]`.
    pub fn decode(b: &[u8], off: usize) -> (r: Self)
        requires
            off + 4 <= b@.len(),
        ensures
            r == Self::spec_decode(b@, off as int),
    {
        let _n = b.len();
        DefRangeFramePointerRelFullScope {
            frame_pointer_offset: read_i32_at(b, off),
        }
    }
}

impl<'a> Parse<'a> for DefRangeFramePointerRelFullScope {

    open spec fn same_value(a: Self, b: Self) -> bool {
        a == b
    }

    proof fn lemma_parsed_unique(s: Seq<u8>, a: Self, b: Self) {
    }
    open spec fn parses(s: Seq<u8>) -> bool {
        s.len() >= 4
    }

    open spec fn parsed(s: Seq<u8>, v: Self) -> bool {
        v == Self::spec_decode(s, 0)
    }

    open spec fn parse_len(s: Seq<u8>) -> int {
        4
    }

    fn from_parser(p: &mut Parser<'a>) -> (r: Result<Self, ParserError>) {
        if p.len() < 4 {
            return Err(ParserError);
        }
        let v = Self::decode(p.peek_rest(), 0);
        p.skip(4)?;
        Ok(v)
    }
}

/// The fixed part of `S_DEFRANGE_SUBFIELD_REGISTER`.
#[derive(Clone, Copy, Debug, Default, PartialEq, Eq, Structural)]
pub struct DefRangeSubFieldRegisterFixed {
    pub reg: u16,
    pub attr: RangeAttrLe,
    pub flags: u32,
    pub range: LVarAddrRange,
}

impl DefRangeSubFieldRegisterFixed {
    /// The value encoded at `s[off..off + 16]`.
    pub open spec fn spec_decode(s: Seq<u8>, off: int) -> Self {
        DefRangeSubFieldRegisterFixed {
            reg: le_u16_at(s, off) as u16,
            attr: RangeAttrLe::spec_decode(s, off + 2),
            flags: le_u32_at(s, off + 4) as u32,
            range: LVarAddrRange::spec_decode(s, off + 8),
        }
    }

    /// Decodes the value encoded at `b[off..off + 16]`.
    pub fn decode(b: &[u8], off: usize) -> (r: Self)
        requires
            off + 16 <= b@.len(),
        ensures
            r == Self::spec_decode(b@, off as int),
    {
        let _n = b.len();
        DefRangeSubFieldRegisterFixed {
            reg: read_u16_at(b, off),
            attr: RangeAttrLe::decode(b, off + 2),
            flags: read_u32_at(b, off + 4),
            range: LVarAddrRange::decode(b, off + 8),
        }
    }
}

/// `S_DEFRANGE_SUBFIELD_REGISTER`
///
/// See `DEFRANGESYMSUBFIELDREGISTER`
#[derive(Clone, Copy, Debug)]
pub struct DefRangeSubFieldRegister<'a> {
    pub fixed: DefRangeSubFieldRegisterFixed,
    pub gaps: &'a [u8],
}

impl<'a> Parse<'a> for DefRangeSubFieldRegister<'a> {

    open spec fn same_value(a: Self, b: Self) -> bool {
        a == b
    }

    proof fn lemma_parsed_unique(s: Seq<u8>, a: Self, b: Self) {
        assert(a.gaps@ == b.gaps@ ==> a.gaps == b.gaps);
    }
    open spec fn parses(s: Seq<u8>) -> bool {
        s.len() >= 16
    }

    open spec fn parsed(s: Seq<u8>, v: Self) -> bool {
        &&& v.fixed == DefRangeSubFieldRegisterFixed::spec_decode(s, 0)
        &&& v.gaps@ == s.skip(16)
    }

    open spec fn parse_len(s: Seq<u8>) -> int {
        s.len() as int
    }

    fn from_parser(p: &mut Parser<'a>) -> (r: Result<Self, ParserError>) {
        let ghost s = p.bytes@;
        if p.len() < 16 {
            return Err(ParserError);
        }
        let fixed = DefRangeSubFieldRegisterFixed::decode(p.peek_rest(), 0);
        p.skip(16)?;
        let gaps = p.take_rest();
        proof {
            assert(final(p).bytes@ =~= s.skip(s.len() as int));
        }
        Ok(DefRangeSubFieldRegister { fixed, gaps })
    }
}

/// The fixed part of `MANPROCSYM`.
#[derive(Clone, Copy, Debug, Default, PartialEq, Eq, Structural)]
pub struct ManProcSymFixed {
    pub block: BlockHeader,
    /// pointer to next symbol
    pub pnext: u32,
    /// Proc length
    pub len: u32,
    /// Debug start offset
    pub dbg_start: u32,
    /// Debug end offset
    pub dbg_end: u32,
    /// COM+ metadata token for method
    pub token: u32,
    pub off: u32,
    pub seg: u16,
    /// `CV_PROCFLAGS`: Proc flags
    pub flags: u8,
    pub padding: u8,
    /// Register return value is in (may not be used for all archs)
    pub ret_reg: u16,
}

impl ManProcSymFixed {
    /// The value encoded at `s[off..off + 38]`.
    pub open spec fn spec_decode(s: Seq<u8>, off: int) -> Self {
        ManProcSymFixed {
            block: BlockHeader::spec_decode(s, off),
            pnext: le_u32_at(s, off + 8) as u32,
            len: le_u32_at(s, off + 12) as u32,
            dbg_start: le_u32_at(s, off + 16) as u32,
            dbg_end: le_u32_at(s, off + 20) as u32,
            token: le_u32_at(s, off + 24) as u32,
            off: le_u32_at(s, off + 28) as u32,
            seg: le_u16_at(s, off + 32) as u16,
            flags: s[off + 34],
            padding: s[off + 35],
            ret_reg: le_u16_at(s, off + 36) as u16,
        }
    }

    /// Decodes the value encoded at `b[off..off + 38]`.
    pub fn decode(b: &[u8], off: usize) -> (r: Self)
        requires
            off + 38 <= b@.len(),
        ensures
            r == Self::spec_decode(b@, off as int),
    {
        let _n = b.len();
        ManProcSymFixed {
            block: BlockHeader::decode(b, off),
            pnext: read_u32_at(b, off + 8),
            len: read_u32_at(b, off + 12),
            dbg_start: read_u32_at(b, off + 16),
            dbg_end: read_u32_at(b, off + 20),
            token: read_u32_at(b, off + 24),
            off: read_u32_at(b, off + 28),
            seg: read_u16_at(b, off + 32),
            flags: read_u8_at(b, off + 34),
            padding: read_u8_at(b, off + 35),
            ret_reg: read_u16_at(b, off + 36),
        }
    }
}

/// `S_GMANPROC`, `S_LMANPROC`, `S_GMANPROCIA64`, `S_LMANPROCIAC64`
///
/// See `MANPROCSYM`
#[derive(Clone, Copy, Debug)]
pub struct ManProcSym<'a> {
    pub fixed: ManProcSymFixed,
    pub name: &'a [u8],
}

impl<'a> Parse<'a> for ManProcSym<'a> {

    open spec fn same_value(a: Self, b: Self) -> bool {
        a == b
    }

    proof fn lemma_parsed_unique(s: Seq<u8>, a: Self, b: Self) {
        assert(a.name@ == b.name@ ==> a.name == b.name);
    }
    open spec fn parses(s: Seq<u8>) -> bool {
        s.len() >= 38 && has_nul(s.skip(38))
    }

    open spec fn parsed(s: Seq<u8>, v: Self) -> bool {
        &&& v.fixed == ManProcSymFixed::spec_decode(s, 0)
        &&& v.name@ == strz_value(s.skip(38))
    }

    open spec fn parse_len(s: Seq<u8>) -> int {
        38 + strz_len(s.skip(38))
    }

    fn from_parser(p: &mut Parser<'a>) -> (r: Result<Self, ParserError>) {
        let ghost s = p.bytes@;
        if p.len() < 38 {
            return Err(ParserError);
        }
        let fixed = ManProcSymFixed::decode(p.peek_rest(), 0);
        p.skip(38)?;
        let name = p.strz()?;
        proof {
            lemma_first_nul(s.skip(38));
            lemma_skip_skip(s, 38, strz_len(s.skip(38)));
        }
        Ok(ManProcSym { fixed, name })
    }
}

/// `S_TRAMPOLINE`
#[derive(Clone, Copy, Debug, Default, PartialEq, Eq, Structural)]
pub struct TrampolineFixed {
    /// trampoline sym subtype
    pub tramp_type: u16,
    /// size of the thunk
    pub cb_thunk: u16,
    /// offset of the thunk
    pub off_thunk: u32,
    /// offset of the target of the thunk
    pub off_target: u32,
    /// section index of the thunk
    pub sect_thunk: u16,
    /// section index of the target of the thunk
    pub sect_target: u16,
}

impl TrampolineFixed {
    /// The value encoded at `s[off..off + 16]`.
    pub open spec fn spec_decode(s: Seq<u8>, off: int) -> Self {
        TrampolineFixed {
            tramp_type: le_u16_at(s, off) as u16,
            cb_thunk: le_u16_at(s, off + 2) as u16,
            off_thunk: le_u32_at(s, off + 4) as u32,
            off_target: le_u32_at(s, off + 8) as u32,
            sect_thunk: le_u16_at(s, off + 12) as u16,
            sect_target: le_u16_at(s, off + 14) as u16,
        }
    }

    /// Decodes the value encoded at `b[off..off + 16]`.
    pub fn decode(b: &[u8], off: usize) -> (r: Self)
        requires
            off + 16 <= b@.len(),
        ensures
            r == Self::spec_decode(b@, off as int),
    {
        let _n = b.len();
        TrampolineFixed {
            tramp_type: read_u16_at(b, off),
            cb_thunk: read_u16_at(b, off + 2),
            off_thunk: read_u32_at(b, off + 4),
            off_target: read_u32_at(b, off + 8),
            sect_thunk: read_u16_at(b, off + 12),
            sect_target: read_u16_at(b, off + 14),
        }
    }
}

/// `S_TRAMPOLINE`
#[derive(Clone, Copy, Debug)]
pub struct Trampoline<'a> {
    /// Fixed header
    pub fixed: TrampolineFixed,
    /// Data whose interpretation depends on `tramp_type`
    pub rest: &'a [u8],
}

impl<'a> Parse<'a> for Trampoline<'a> {

    open spec fn same_value(a: Self, b: Self) -> bool {
        a == b
    }

    proof fn lemma_parsed_unique(s: Seq<u8>, a: Self, b: Self) {
        assert(a.rest@ == b.rest@ ==> a.rest == b.rest);
    }
    open spec fn parses(s: Seq<u8>) -> bool {
        s.len() >= 16
    }

    open spec fn parsed(s: Seq<u8>, v: Self) -> bool {
        &&& v.fixed == TrampolineFixed::spec_decode(s, 0)
        &&& v.rest@ == s.skip(16)
    }

    open spec fn parse_len(s: Seq<u8>) -> int {
        s.len() as int
    }

    fn from_parser(p: &mut Parser<'a>) -> (r: Result<Self, ParserError>) {
        let ghost s = p.bytes@;
        if p.len() < 16 {
            return Err(ParserError);
        }
        let fixed = TrampolineFixed::decode(p.peek_rest(), 0);
        p.skip(16)?;
        let rest = p.take_rest();
        proof {
            assert(final(p).bytes@ =~= s.skip(s.len() as int));
        }
        Ok(Trampoline { fixed, rest })
    }
}

/// `S_BUILDINFO` - Build info for a module
///
/// This record is present only in module symbol streams.
#[derive(Clone, Copy, Debug)]
pub struct BuildInfo {
    /// ItemId points to an `LF_BUILDINFO` record in IPI
    pub item: u32,
}

impl<'a> Parse<'a> for BuildInfo {

    open spec fn same_value(a: Self, b: Self) -> bool {
        a == b
    }

    proof fn lemma_parsed_unique(s: Seq<u8>, a: Self, b: Self) {
    }
    open spec fn parses(s: Seq<u8>) -> bool {
        s.len() >= 4
    }

    open spec fn parsed(s: Seq<u8>, v: Self) -> bool {
        v.item == le_u32_at(s, 0)
    }

    open spec fn parse_len(s: Seq<u8>) -> int {
        4
    }

    fn from_parser(p: &mut Parser<'a>) -> (r: Result<Self, ParserError>) {
        Ok(BuildInfo { item: p.u32()? })
    }
}

/// `S_UNAMESPACE` - Using Namespace
#[derive(Clone, Copy, Debug)]
pub struct UsingNamespace<'a> {
    /// The namespace, e.g. `std`
    pub namespace: &'a [u8],
}

impl<'a> Parse<'a> for UsingNamespace<'a> {

    open spec fn same_value(a: Self, b: Self) -> bool {
        a == b
    }

    proof fn lemma_parsed_unique(s: Seq<u8>, a: Self, b: Self) {
        assert(a.namespace@ == b.namespace@ ==> a.namespace == b.namespace);
    }
    open spec fn parses(s: Seq<u8>) -> bool {
        has_nul(s)
    }

    open spec fn parsed(s: Seq<u8>, v: Self) -> bool {
        v.namespace@ == strz_value(s)
    }

    open spec fn parse_len(s: Seq<u8>) -> int {
        strz_len(s)
    }

    fn from_parser(p: &mut Parser<'a>) -> (r: Result<Self, ParserError>) {
        let ghost s = p.bytes@;
        let namespace = p.strz()?;
        proof {
            lemma_first_nul(s);
        }
        Ok(UsingNamespace { namespace })
    }
}

/// `S_LABEL32`
#[derive(Clone, Copy, Debug, Default, PartialEq, Eq, Structural)]
pub struct LabelFixed {
    pub offset_segment: OffsetSegment,
    pub flags: u8,
}

impl LabelFixed {
    /// The value encoded at `s[off..off + 7]`.
    pub open spec fn spec_decode(s: Seq<u8>, off: int) -> Self {
        LabelFixed {
            offset_segment: OffsetSegment::spec_decode(s, off),
            flags: s[off + 6],
        }
    }

    /// Decodes the value encoded at `b[off..off + 7]`.
    pub fn decode(b: &[u8], off: usize) -> (r: Self)
        requires
            off + 7 <= b@.len(),
        ensures
            r == Self::spec_decode(b@, off as int),
    {
        let _n = b.len();
        LabelFixed {
            offset_segment: OffsetSegment::decode(b, off),
            flags: read_u8_at(b, off + 6),
        }
    }
}

/// `S_LABEL32`
#[derive(Clone, Copy, Debug)]
pub struct Label<'a> {
    pub fixed: LabelFixed,
    pub name: &'a [u8],
}

impl<'a> Parse<'a> for Label<'a> {

    open spec fn same_value(a: Self, b: Self) -> bool {
        a == b
    }

    proof fn lemma_parsed_unique(s: Seq<u8>, a: Self, b: Self) {
        assert(a.name@ == b.name@ ==> a.name == b.name);
    }
    open spec fn parses(s: Seq<u8>) -> bool {
        s.len() >= 7 && has_nul(s.skip(7))
    }

    open spec fn parsed(s: Seq<u8>, v: Self) -> bool {
        &&& v.fixed == LabelFixed::spec_decode(s, 0)
        &&& v.name@ == strz_value(s.skip(7))
    }

    open spec fn parse_len(s: Seq<u8>) -> int {
        7 + strz_len(s.skip(7))
    }

    fn from_parser(p: &mut Parser<'a>) -> (r: Result<Self, ParserError>) {
        let ghost s = p.bytes@;
        if p.len() < 7 {
            return Err(ParserError);
        }
        let fixed = LabelFixed::decode(p.peek_rest(), 0);
        p.skip(7)?;
        let name = p.strz()?;
        proof {
            lemma_first_nul(s.skip(7));
            lemma_skip_skip(s, 7, strz_len(s.skip(7)));
        }
        Ok(Label { fixed, name })
    }
}

/// The `n` little-endian `u32` values that start at `s[off]`.
pub open spec fn u32_array(s: Seq<u8>, off: int, n: int) -> Seq<u32> {
    Seq::new(n as nat, |i: int| le_u32_at(s, off + 4 * i) as u32)
}

/// Decodes the `n` little-endian `u32` values that start at `b[off]`.
pub fn decode_u32_array(b: &[u8], off: usize, n: usize) -> (r: Vec<u32>)
    requires
        off + 4 * n <= b@.len(),
    ensures
        r@ == u32_array(b@, off as int, n as int),
{
    let mut v: Vec<u32> = Vec::new();
    let mut i: usize = 0;
    let len = b.len();
    while i < n
        invariant
            i <= n,
            len == b@.len(),
            off + 4 * n <= b@.len(),
            v@ =~= u32_array(b@, off as int, i as int),
        decreases n - i,
    {
        v.push(read_u32_at(b, off + 4 * i));
        i = i + 1;
    }
    v
}

/// The number of counts of an `S_CALLERS` / `S_CALLEES` / `S_INLINEES` payload `s` that
/// declares `n` functions: as many whole `u32` values as follow the functions, at most `n`.
pub open spec fn function_list_num_counts(s: Seq<u8>, n: int) -> int {
    let avail = (s.len() - 4 - 4 * n) / 4;
    if n < avail {
        n
    } else {
        avail
    }
}

/// Data for `S_CALLERS`, `S_CALLEES`, `S_INLINEES`.
#[derive(Clone, Debug)]
pub struct FunctionList {
    /// The list of functions, in the IPI. Each is either `LF_FUNC_ID` or `LF_MFUNC_ID`.
    pub funcs: Vec<u32>,

    /// Counts for each function.
    ///
    /// The values in `counts` parallel the items in `funcs`, but the length of `counts` can be
    /// less than the length of `funcs`. Unmatched counts are assumed to be zero.
    ///
    /// This is empty for `S_INLINEES`.
    pub counts: Vec<u32>,
}

impl<'a> Parse<'a> for FunctionList {

    open spec fn same_value(a: Self, b: Self) -> bool {
        a.funcs@ == b.funcs@ && a.counts@ == b.counts@
    }

    proof fn lemma_parsed_unique(s: Seq<u8>, a: Self, b: Self) {
    }
    open spec fn parses(s: Seq<u8>) -> bool {
        s.len() >= 4 && s.len() >= 4 + 4 * le_u32_at(s, 0)
    }

    open spec fn parsed(s: Seq<u8>, v: Self) -> bool {
        let n = le_u32_at(s, 0);
        &&& v.funcs@ == u32_array(s, 4, n)
        &&& v.counts@ == u32_array(s, 4 + 4 * n, function_list_num_counts(s, n))
    }

    open spec fn parse_len(s: Seq<u8>) -> int {
        let n = le_u32_at(s, 0);
        4 + 4 * n + 4 * function_list_num_counts(s, n)
    }

    fn from_parser(p: &mut Parser<'a>) -> (r: Result<Self, ParserError>) {
        let b = p.peek_rest();
        if b.len() < 4 {
            return Err(ParserError);
        }
        let num_funcs = read_u32_at(b, 0);
        let rest = b.len() - 4;
        if num_funcs as u64 * 4 > rest as u64 {
            return Err(ParserError);
        }
        let n = num_funcs as usize;
        let funcs = decode_u32_array(b, 4, n);
        let avail = (rest - 4 * n) / 4;
        let num_counts = if n < avail { n } else { avail };
        let counts = decode_u32_array(b, 4 + 4 * n, num_counts);
        p.skip(4 + 4 * n + 4 * num_counts)?;
        Ok(FunctionList { funcs, counts })
    }
}

/// `S_INLINESITE`
#[derive(Clone, Copy, Debug, Default, PartialEq, Eq, Structural)]
pub struct InlineSiteFixed {
    pub block: BlockHeader,
    pub inlinee: u32,
}

impl InlineSiteFixed {
    /// The value encoded at `s[off..off + 12]`.
    pub open spec fn spec_decode(s: Seq<u8>, off: int) -> Self {
        InlineSiteFixed {
            block: BlockHeader::spec_decode(s, off),
            inlinee: le_u32_at(s, off + 8) as u32,
        }
    }

    /// Decodes the value encoded at `b[off..off + 12]`.
    pub fn decode(b: &[u8], off: usize) -> (r: Self)
        requires
            off + 12 <= b@.len(),
        ensures
            r == Self::spec_decode(b@, off as int),
    {
        let _n = b.len();
        InlineSiteFixed {
            block: BlockHeader::decode(b, off),
            inlinee: read_u32_at(b, off + 8),
        }
    }
}

/// `S_INLINESITE`
#[derive(Clone, Copy, Debug)]
pub struct InlineSite<'a> {
    pub fixed: InlineSiteFixed,
    /// an array of compressed binary annotations.
    pub binary_annotations: &'a [u8],
}

impl<'a> Parse<'a> for InlineSite<'a> {

    open spec fn same_value(a: Self, b: Self) -> bool {
        a == b
    }

    proof fn lemma_parsed_unique(s: Seq<u8>, a: Self, b: Self) {
        assert(a.binary_annotations@ == b.binary_annotations@ ==> a.binary_annotations == b.binary_annotations);
    }
    open spec fn parses(s: Seq<u8>) -> bool {
        s.len() >= 12
    }

    open spec fn parsed(s: Seq<u8>, v: Self) -> bool {
        &&& v.fixed == InlineSiteFixed::spec_decode(s, 0)
        &&& v.binary_annotations@ == s.skip(12)
    }

    open spec fn parse_len(s: Seq<u8>) -> int {
        s.len() as int
    }

    fn from_parser(p: &mut Parser<'a>) -> (r: Result<Self, ParserError>) {
        let ghost s = p.bytes@;
        if p.len() < 12 {
            return Err(ParserError);
        }
        let fixed = InlineSiteFixed::decode(p.peek_rest(), 0);
        p.skip(12)?;
        let binary_annotations = p.take_rest();
        proof {
            assert(final(p).bytes@ =~= s.skip(s.len() as int));
        }
        Ok(InlineSite { fixed, binary_annotations })
    }
}

/// `S_INLINESITE2`
#[derive(Clone, Copy, Debug, Default, PartialEq, Eq, Structural)]
pub struct InlineSite2Fixed {
    pub block: BlockHeader,
    pub inlinee: u32,
    pub invocations: u32,
}

impl InlineSite2Fixed {
    /// The value encoded at `s[off..off + 16]`.
    pub open spec fn spec_decode(s: Seq<u8>, off: int) -> Self {
        InlineSite2Fixed {
            block: BlockHeader::spec_decode(s, off),
            inlinee: le_u32_at(s, off + 8) as u32,
            invocations: le_u32_at(s, off + 12) as u32,
        }
    }

    /// Decodes the value encoded at `b[off..off + 16]`.
    pub fn decode(b: &[u8], off: usize) -> (r: Self)
        requires
            off + 16 <= b@.len(),
        ensures
            r == Self::spec_decode(b@, off as int),
    {
        let _n = b.len();
        InlineSite2Fixed {
            block: BlockHeader::decode(b, off),
            inlinee: read_u32_at(b, off + 8),
            invocations: read_u32_at(b, off + 12),
        }
    }
}

/// `S_INLINESITE2`
#[derive(Clone, Copy, Debug)]
pub struct InlineSite2<'a> {
    pub fixed: InlineSite2Fixed,
    /// an array of compressed binary annotations.
    pub binary_annotations: &'a [u8],
}

impl<'a> Parse<'a> for InlineSite2<'a> {

    open spec fn same_value(a: Self, b: Self) -> bool {
        a == b
    }

    proof fn lemma_parsed_unique(s: Seq<u8>, a: Self, b: Self) {
        assert(a.binary_annotations@ == b.binary_annotations@ ==> a.binary_annotations == b.binary_annotations);
    }
    open spec fn parses(s: Seq<u8>) -> bool {
        s.len() >= 16
    }

    open spec fn parsed(s: Seq<u8>, v: Self) -> bool {
        &&& v.fixed == InlineSite2Fixed::spec_decode(s, 0)
        &&& v.binary_annotations@ == s.skip(16)
    }

    open spec fn parse_len(s: Seq<u8>) -> int {
        s.len() as int
    }

    fn from_parser(p: &mut Parser<'a>) -> (r: Result<Self, ParserError>) {
        let ghost s = p.bytes@;
        if p.len() < 16 {
            return Err(ParserError);
        }
        let fixed = InlineSite2Fixed::decode(p.peek_rest(), 0);
        p.skip(16)?;
        let binary_annotations = p.take_rest();
        proof {
            assert(final(p).bytes@ =~= s.skip(s.len() as int));
        }
        Ok(InlineSite2 { fixed, binary_annotations })
    }
}

/// `S_FRAMECOOKIE`: Symbol for describing security cookie's position and type
#[derive(Clone, Copy, Debug, Default, PartialEq, Eq, Structural)]
pub struct FrameCookie {
    /// Frame relative offset
    pub offset: i32,
    pub reg: u16,
    pub cookie_type: u8,
    pub flags: u8,
}

impl FrameCookie {
    /// The value encoded at `s[off..off + 8]`.
    pub open spec fn spec_decode(s: Seq<u8>, off: int) -> Self {
        FrameCookie {
            offset: twos_complement(le_u32_at(s, off), 0x8000_0000) as i32,
            reg: le_u16_at(s, off + 4) as u16,
            cookie_type: s[off + 6],
            flags: s[off + 7],
        }
    }

    /// Decodes the value encoded at `b[off..off + 8]`.
    pub fn decode(b: &[u8], off: usize) -> (r: Self)
        requires
            off + 8 <= b@.len(),
        ensures
            r == Self::spec_decode(b@, off as int),
    {
        let _n = b.len();
        FrameCookie {
            offset: read_i32_at(b, off),
            reg: read_u16_at(b, off + 4),
            cookie_type: read_u8_at(b, off + 6),
            flags: read_u8_at(b, off + 7),
        }
    }
}

impl<'a> Parse<'a> for FrameCookie {

    open spec fn same_value(a: Self, b: Self) -> bool {
        a == b
    }

    proof fn lemma_parsed_unique(s: Seq<u8>, a: Self, b: Self) {
    }
    open spec fn parses(s: Seq<u8>) -> bool {
        s.len() >= 8
    }

    open spec fn parsed(s: Seq<u8>, v: Self) -> bool {
        v == Self::spec_decode(s, 0)
    }

    open spec fn parse_len(s: Seq<u8>) -> int {
        8
    }

    fn from_parser(p: &mut Parser<'a>) -> (r: Result<Self, ParserError>) {
        if p.len() < 8 {
            return Err(ParserError);
        }
        let v = Self::decode(p.peek_rest(), 0);
        p.skip(8)?;
        Ok(v)
    }
}

/// `S_CALLSITEINFO`
///
/// Symbol for describing indirect calls when they are using
/// a function pointer cast on some other type or temporary.
#[derive(Clone, Copy, Debug, Default, PartialEq, Eq, Structural)]
pub struct CallSiteInfo {
    pub offset: OffsetSegment,
    pub padding: u16,
    pub func_type: u32,
}

impl CallSiteInfo {
    /// The value encoded at `s[off..off + 12]`.
    pub open spec fn spec_decode(s: Seq<u8>, off: int) -> Self {
        CallSiteInfo {
            offset: OffsetSegment::spec_decode(s, off),
            padding: le_u16_at(s, off + 6) as u16,
            func_type: le_u32_at(s, off + 8) as u32,
        }
    }

    /// Decodes the value encoded at `b[off..off + 12]`.
    pub fn decode(b: &[u8], off: usize) -> (r: Self)
        requires
            off + 12 <= b@.len(),
        ensures
            r == Self::spec_decode(b@, off as int),
    {
        let _n = b.len();
        CallSiteInfo {
            offset: OffsetSegment::decode(b, off),
            padding: read_u16_at(b, off + 6),
            func_type: read_u32_at(b, off + 8),
        }
    }
}

impl<'a> Parse<'a> for CallSiteInfo {

    open spec fn same_value(a: Self, b: Self) -> bool {
        a == b
    }

    proof fn lemma_parsed_unique(s: Seq<u8>, a: Self, b: Self) {
    }
    open spec fn parses(s: Seq<u8>) -> bool {
        s.len() >= 12
    }

    open spec fn parsed(s: Seq<u8>, v: Self) -> bool {
        v == Self::spec_decode(s, 0)
    }

    open spec fn parse_len(s: Seq<u8>) -> int {
        12
    }

    fn from_parser(p: &mut Parser<'a>) -> (r: Result<Self, ParserError>) {
        if p.len() < 12 {
            return Err(ParserError);
        }
        let v = Self::decode(p.peek_rest(), 0);
        p.skip(12)?;
        Ok(v)
    }
}

/// `S_HEAPALLOCSITE`
#[derive(Clone, Copy, Debug, Default, PartialEq, Eq, Structural)]
pub struct HeapAllocSite {
    pub offset: OffsetSegment,
    /// length of heap allocation call instruction
    pub instruction_size: u16,
    pub func_type: u32,
}

impl HeapAllocSite {
    /// The value encoded at `s[off..off + 12]`.
    pub open spec fn spec_decode(s: Seq<u8>, off: int) -> Self {
        HeapAllocSite {
            offset: OffsetSegment::spec_decode(s, off),
            instruction_size: le_u16_at(s, off + 6) as u16,
            func_type: le_u32_at(s, off + 8) as u32,
        }
    }

    /// Decodes the value encoded at `b[off..off + 12]`.
    pub fn decode(b: &[u8], off: usize) -> (r: Self)
        requires
            off + 12 <= b@.len(),
        ensures
            r == Self::spec_decode(b@, off as int),
    {
        let _n = b.len();
        HeapAllocSite {
            offset: OffsetSegment::decode(b, off),
            instruction_size: read_u16_at(b, off + 6),
            func_type: read_u32_at(b, off + 8),
        }
    }
}

impl<'a> Parse<'a> for HeapAllocSite {

    open spec fn same_value(a: Self, b: Self) -> bool {
        a == b
    }

    proof fn lemma_parsed_unique(s: Seq<u8>, a: Self, b: Self) {
    }
    open spec fn parses(s: Seq<u8>) -> bool {
        s.len() >= 12
    }

    open spec fn parsed(s: Seq<u8>, v: Self) -> bool {
        v == Self::spec_decode(s, 0)
    }

    open spec fn parse_len(s: Seq<u8>) -> int {
        12
    }

    fn from_parser(p: &mut Parser<'a>) -> (r: Result<Self, ParserError>) {
        if p.len() < 12 {
            return Err(ParserError);
        }
        let v = Self::decode(p.peek_rest(), 0);
        p.skip(12)?;
        Ok(v)
    }
}

/// The fixed part of `S_ANNOTATION`.
#[derive(Clone, Copy, Debug, Default, PartialEq, Eq, Structural)]
pub struct AnnotationFixed {
    pub offset: OffsetSegment,
    pub num_strings: u16,
}

impl AnnotationFixed {
    /// The value encoded at `s[off..off + 8]`.
    pub open spec fn spec_decode(s: Seq<u8>, off: int) -> Self {
        AnnotationFixed {
            offset: OffsetSegment::spec_decode(s, off),
            num_strings: le_u16_at(s, off + 6) as u16,
        }
    }

    /// Decodes the value encoded at `b[off..off + 8]`.
    pub fn decode(b: &[u8], off: usize) -> (r: Self)
        requires
            off + 8 <= b@.len(),
        ensures
            r == Self::spec_decode(b@, off as int),
    {
        let _n = b.len();
        AnnotationFixed {
            offset: OffsetSegment::decode(b, off),
            num_strings: read_u16_at(b, off + 6),
        }
    }
}

/// `S_ANNOTATION`
#[derive(Clone, Copy, Debug)]
pub struct Annotation<'a> {
    pub fixed: AnnotationFixed,
    pub strings: &'a [u8],
}

impl<'a> Parse<'a> for Annotation<'a> {

    open spec fn same_value(a: Self, b: Self) -> bool {
        a == b
    }

    proof fn lemma_parsed_unique(s: Seq<u8>, a: Self, b: Self) {
        assert(a.strings@ == b.strings@ ==> a.strings == b.strings);
    }
    open spec fn parses(s: Seq<u8>) -> bool {
        s.len() >= 8
    }

    open spec fn parsed(s: Seq<u8>, v: Self) -> bool {
        &&& v.fixed == AnnotationFixed::spec_decode(s, 0)
        &&& v.strings@ == s.skip(8)
    }

    open spec fn parse_len(s: Seq<u8>) -> int {
        s.len() as int
    }

    fn from_parser(p: &mut Parser<'a>) -> (r: Result<Self, ParserError>) {
        let ghost s = p.bytes@;
        if p.len() < 8 {
            return Err(ParserError);
        }
        let fixed = AnnotationFixed::decode(p.peek_rest(), 0);
        p.skip(8)?;
        let strings = p.take_rest();
        proof {
            assert(final(p).bytes@ =~= s.skip(s.len() as int));
        }
        Ok(Annotation { fixed, strings })
    }
}

/// Hot-patched function
#[derive(Clone, Copy, Debug)]
pub struct HotPatchFunc<'a> {
    /// ID of the function
    pub func: u32,
    /// The name of the function
    pub name: &'a [u8],
}

impl<'a> Parse<'a> for HotPatchFunc<'a> {

    open spec fn same_value(a: Self, b: Self) -> bool {
        a == b
    }

    proof fn lemma_parsed_unique(s: Seq<u8>, a: Self, b: Self) {
        assert(a.name@ == b.name@ ==> a.name == b.name);
    }
    open spec fn parses(s: Seq<u8>) -> bool {
        s.len() >= 4 && has_nul(s.skip(4))
    }

    open spec fn parsed(s: Seq<u8>, v: Self) -> bool {
        &&& v.func == le_u32_at(s, 0)
        &&& v.name@ == strz_value(s.skip(4))
    }

    open spec fn parse_len(s: Seq<u8>) -> int {
        4 + strz_len(s.skip(4))
    }

    fn from_parser(p: &mut Parser<'a>) -> (r: Result<Self, ParserError>) {
        let ghost s = p.bytes@;
        if p.len() < 4 {
            return Err(ParserError);
        }
        let func = p.u32()?;
        let name = p.strz()?;
        proof {
            lemma_first_nul(s.skip(4));
            lemma_skip_skip(s, 4, strz_len(s.skip(4)));
        }
        Ok(HotPatchFunc { func, name })
    }
}

/// Data for `S_ARMSWITCHTABLE`.
///
/// This describes a switch table (jump table).
///
/// MSVC generates this symbol only when targeting ARM64.
/// LLVM generates this symbol for all target architectures.
#[derive(Clone, Copy, Debug, Default, PartialEq, Eq, Structural)]
pub struct ArmSwitchTable {
    /// Section-relative offset to the base for switch offsets
    pub offset_base: u32,
    /// Section index of the base for switch offsets
    pub sect_base: u16,
    /// type of each entry
    pub switch_type: u16,
    /// Section-relative offset to the table branch instruction
    pub offset_branch: u32,
    /// Section-relative offset to the start of the table
    pub offset_table: u32,
    /// Section index of the table branch instruction
    pub sect_branch: u16,
    /// Section index of the table
    pub sect_table: u16,
    /// number of switch table entries
    pub num_entries: u32,
}

impl ArmSwitchTable {
    /// The value encoded at `s[off..off + 24]`.
    pub open spec fn spec_decode(s: Seq<u8>, off: int) -> Self {
        ArmSwitchTable {
            offset_base: le_u32_at(s, off) as u32,
            sect_base: le_u16_at(s, off + 4) as u16,
            switch_type: le_u16_at(s, off + 6) as u16,
            offset_branch: le_u32_at(s, off + 8) as u32,
            offset_table: le_u32_at(s, off + 12) as u32,
            sect_branch: le_u16_at(s, off + 16) as u16,
            sect_table: le_u16_at(s, off + 18) as u16,
            num_entries: le_u32_at(s, off + 20) as u32,
        }
    }

    /// Decodes the value encoded at `b[off..off + 24]`.
    pub fn decode(b: &[u8], off: usize) -> (r: Self)
        requires
            off + 24 <= b@.len(),
        ensures
            r == Self::spec_decode(b@, off as int),
    {
        let _n = b.len();
        ArmSwitchTable {
            offset_base: read_u32_at(b, off),
            sect_base: read_u16_at(b, off + 4),
            switch_type: read_u16_at(b, off + 6),
            offset_branch: read_u32_at(b, off + 8),
            offset_table: read_u32_at(b, off + 12),
            sect_branch: read_u16_at(b, off + 16),
            sect_table: read_u16_at(b, off + 18),
            num_entries: read_u32_at(b, off + 20),
        }
    }
}

impl<'a> Parse<'a> for ArmSwitchTable {

    open spec fn same_value(a: Self, b: Self) -> bool {
        a == b
    }

    proof fn lemma_parsed_unique(s: Seq<u8>, a: Self, b: Self) {
    }
    open spec fn parses(s: Seq<u8>) -> bool {
        s.len() >= 24
    }

    open spec fn parsed(s: Seq<u8>, v: Self) -> bool {
        v == Self::spec_decode(s, 0)
    }

    open spec fn parse_len(s: Seq<u8>) -> int {
        24
    }

    fn from_parser(p: &mut Parser<'a>) -> (r: Result<Self, ParserError>) {
        if p.len() < 24 {
            return Err(ParserError);
        }
        let v = Self::decode(p.peek_rest(), 0);
        p.skip(24)?;
        Ok(v)
    }
}

/// The fixed header of `S_COFFGROUP` symbols.
#[derive(Clone, Copy, Debug, Default, PartialEq, Eq, Structural)]
pub struct CoffGroupFixed {
    /// Size in bytes of the coff group
    pub cb: u32,
    /// Characteristics flags. These are the same as the COFF section characteristics.
    pub characteristics: u32,
    /// Location of the COFF group
    pub off_seg: OffsetSegment,
}

impl CoffGroupFixed {
    /// The value encoded at `s[off..off + 14]`.
    pub open spec fn spec_decode(s: Seq<u8>, off: int) -> Self {
        CoffGroupFixed {
            cb: le_u32_at(s, off) as u32,
            characteristics: le_u32_at(s, off + 4) as u32,
            off_seg: OffsetSegment::spec_decode(s, off + 8),
        }
    }

    /// Decodes the value encoded at `b[off..off + 14]`.
    pub fn decode(b: &[u8], off: usize) -> (r: Self)
        requires
            off + 14 <= b@.len(),
        ensures
            r == Self::spec_decode(b@, off as int),
    {
        let _n = b.len();
        CoffGroupFixed {
            cb: read_u32_at(b, off),
            characteristics: read_u32_at(b, off + 4),
            off_seg: OffsetSegment::decode(b, off + 8),
        }
    }
}

/// For `S_COFFGROUP`.
///
/// `S_COFFGROUP` records are present in the `* Linker *` special module. These records describe
/// contiguous subsections within COFF sections.
#[derive(Clone, Copy, Debug)]
pub struct CoffGroup<'a> {
    /// The fixed-size header
    pub fixed: CoffGroupFixed,
    /// The name of the COFF group
    pub name: &'a [u8],
}

impl<'a> Parse<'a> for CoffGroup<'a> {

    open spec fn same_value(a: Self, b: Self) -> bool {
        a == b
    }

    proof fn lemma_parsed_unique(s: Seq<u8>, a: Self, b: Self) {
        assert(a.name@ == b.name@ ==> a.name == b.name);
    }
    open spec fn parses(s: Seq<u8>) -> bool {
        s.len() >= 14 && has_nul(s.skip(14))
    }

    open spec fn parsed(s: Seq<u8>, v: Self) -> bool {
        &&& v.fixed == CoffGroupFixed::spec_decode(s, 0)
        &&& v.name@ == strz_value(s.skip(14))
    }

    open spec fn parse_len(s: Seq<u8>) -> int {
        14 + strz_len(s.skip(14))
    }

    fn from_parser(p: &mut Parser<'a>) -> (r: Result<Self, ParserError>) {
        let ghost s = p.bytes@;
        if p.len() < 14 {
            return Err(ParserError);
        }
        let fixed = CoffGroupFixed::decode(p.peek_rest(), 0);
        p.skip(14)?;
        let name = p.strz()?;
        proof {
            lemma_first_nul(s.skip(14));
            lemma_skip_skip(s, 14, strz_len(s.skip(14)));
        }
        Ok(CoffGroup { fixed, name })
    }
}
impl ArmSwitchTable {
    /// The `[segment:offset]` of the jump base.
    ///
    /// This is the base address of the target of the jump. The value stored within the jump table
    /// entry is added to this base.
    pub fn base(&self) -> (r: OffsetSegment)
        ensures
            r.offset == self.offset_base,
            r.segment == self.sect_base,
    {
        OffsetSegment { offset: self.offset_base, segment: self.sect_base }
    }

    /// The `[segment:offset]` of the branch instruction.
    pub fn branch(&self) -> (r: OffsetSegment)
        ensures
            r.offset == self.offset_branch,
            r.segment == self.sect_branch,
    {
        OffsetSegment { offset: self.offset_branch, segment: self.sect_branch }
    }

    /// The `[segment:offset]` of the jump table.
    pub fn table(&self) -> (r: OffsetSegment)
        ensures
            r.offset == self.offset_table,
            r.segment == self.sect_table,
    {
        OffsetSegment { offset: self.offset_table, segment: self.sect_table }
    }

    /// The type of switch table (2-byte, 4-byte, etc.).
    pub fn switch_type(&self) -> (r: ArmSwitchType)
        ensures
            r.0 == self.switch_type,
    {
        ArmSwitchType(self.switch_type)
    }

    /// The number of entries in the jump table.
    pub fn num_entries(&self) -> (r: u32)
        ensures
            r == self.num_entries,
    {
        self.num_entries
    }
}

impl ArmSwitchTable {
    /// The debugging text of this record: its base, branch and table locations, its switch type
    /// and its number of entries, in the form of a structure.
    pub fn debug_string(&self) -> (r: String)
        ensures
            r@ == arm_switch_table_text(*self),
    {
        let mut s = String::from_str("ArmSwitchTable { base: ");
        let t = self.base().to_string();
        s.append(t.as_str());
        s.append(", branch: ");
        let t = self.branch().to_string();
        s.append(t.as_str());
        s.append(", table: ");
        let t = self.table().to_string();
        s.append(t.as_str());
        s.append(", switch_type: ");
        let t = self.switch_type().debug_string();
        s.append(t.as_str());
        s.append(", num_entries: ");
        push_decimal(&mut s, self.num_entries as u128);
        s.append(" }");
        s
    }

    /// The location of the jump base.
    pub open spec fn base_location(&self) -> OffsetSegment {
        OffsetSegment { offset: self.offset_base, segment: self.sect_base }
    }

    /// The location of the branch instruction.
    pub open spec fn branch_location(&self) -> OffsetSegment {
        OffsetSegment { offset: self.offset_branch, segment: self.sect_branch }
    }

    /// The location of the jump table.
    pub open spec fn table_location(&self) -> OffsetSegment {
        OffsetSegment { offset: self.offset_table, segment: self.sect_table }
    }
}

/// The debugging text of the switch table record `t`: its base, branch and table locations,
/// its switch type and its number of entries, in the form of a structure.
pub open spec fn arm_switch_table_text(t: ArmSwitchTable) -> Seq<char> {
    "ArmSwitchTable { base: "@ + t.base_location().text() + ", branch: "@
        + t.branch_location().text() + ", table: "@ + t.table_location().text()
        + ", switch_type: "@ + arm_switch_type_text(t.switch_type) + ", num_entries: "@
        + decimal(t.num_entries as nat) + " }"@
}

/// The debugging text of the switch table type `t`: its name, or `??` and its value in decimal.
pub open spec fn arm_switch_type_text(t: u16) -> Seq<char> {
    match arm_switch_type_name(t) {
        Some(n) => n,
        None => "??"@ + decimal(t as nat),
    }
}

/// The type of switch table, as defined by `S_ARMSWITCHTABLE`.
#[derive(Copy, Clone, Eq, PartialEq, Structural, Debug)]
pub struct ArmSwitchType(pub u16);

/// Signed 1-byte offset
pub const ARM_SWITCH_INT1: u16 = 0;
/// Unsigned 1-byte offset
pub const ARM_SWITCH_UINT1: u16 = 1;
/// Signed 2-byte offset
pub const ARM_SWITCH_INT2: u16 = 2;
/// Unsigned 2-byte offset
pub const ARM_SWITCH_UINT2: u16 = 3;
/// Signed 4-byte offset
pub const ARM_SWITCH_INT4: u16 = 4;
/// Unsigned 4-byte offset
pub const ARM_SWITCH_UINT4: u16 = 5;
/// Absolute pointer (no base)
pub const ARM_SWITCH_POINTER: u16 = 6;
/// Unsigned 1-byte offset, shift left by 1
pub const ARM_SWITCH_UINT1SHL1: u16 = 7;
/// Unsigned 2-byte offset, shift left by 2
pub const ARM_SWITCH_UINT2SHL1: u16 = 8;
/// Signed 1-byte offset, shift left by 1
pub const ARM_SWITCH_INT1SHL1: u16 = 9;
/// Signed 2-byte offset, shift left by 1
pub const ARM_SWITCH_INT2SHL1: u16 = 10;

/// The name of the switch table type `v`, for the types `0..=10`.
pub open spec fn arm_switch_type_name(v: u16) -> Option<Seq<char>> {
    match v {
        0 => Some("INT1"@),
        1 => Some("UINT1"@),
        2 => Some("INT2"@),
        3 => Some("UINT2"@),
        4 => Some("INT4"@),
        5 => Some("UINT4"@),
        6 => Some("POINTER"@),
        7 => Some("UINT1SHL1"@),
        8 => Some("UINT2SHL1"@),
        9 => Some("INT1SHL1"@),
        10 => Some("INT2SHL1"@),
        _ => None,
    }
}

impl ArmSwitchType {
    /// The name of this switch table type, where it is one of the defined types.
    pub fn name(self) -> (r: Option<&'static str>)
        ensures
            match arm_switch_type_name(self.0) {
                Some(n) => r matches Some(t) && t@ == n,
                None => r is None,
            },
    {
        match self.0 {
            0 => Some("INT1"),
            1 => Some("UINT1"),
            2 => Some("INT2"),
            3 => Some("UINT2"),
            4 => Some("INT4"),
            5 => Some("UINT4"),
            6 => Some("POINTER"),
            7 => Some("UINT1SHL1"),
            8 => Some("UINT2SHL1"),
            9 => Some("INT1SHL1"),
            10 => Some("INT2SHL1"),
            _ => None,
        }
    }

    /// The debugging text of this switch table type: its name, or `??` and its value in
    /// decimal.
    pub fn debug_string(self) -> (r: String)
        ensures
            match arm_switch_type_name(self.0) {
                Some(n) => r@ == n,
                None => r@ == "??"@ + decimal(self.0 as nat),
            },
    {
        match self.name() {
            Some(n) => String::from_str(n),
            None => {
                let mut r = String::from_str("??");
                push_decimal(&mut r, self.0 as u128);
                r
            },
        }
    }
}

/// Incremental thunks
pub const TRAMPOLINE_KIND_INCREMENTAL: u16 = 0;
/// Branch island thunks
pub const TRAMPOLINE_KIND_BRANCH_ISLAND: u16 = 1;

impl<'a> Annotation<'a> {
    /// Iterates the strings stored in the annotation.
    pub fn iter_strings(&self) -> (r: AnnotationIterStrings<'a>)
        ensures
            r.num_strings == self.fixed.num_strings,
            r.bytes@ == self.strings@,
    {
        AnnotationIterStrings { num_strings: self.fixed.num_strings, bytes: self.strings }
    }
}

/// Iterator state for [`Annotation::iter_strings`].
pub struct AnnotationIterStrings<'a> {
    /// The number of strings not yet returned.
    pub num_strings: u16,
    /// The bytes that hold the strings not yet returned.
    pub bytes: &'a [u8],
}

impl<'a> AnnotationIterStrings<'a> {
    /// Returns the next string. Ends when the count of strings runs out, or when the
    /// remaining bytes hold no further NUL-terminated string.
    pub fn next(&mut self) -> (r: Option<&'a [u8]>)
        ensures
            old(self).num_strings == 0 ==> r is None && *final(self) == *old(self),
            old(self).num_strings > 0 ==> {
                &&& final(self).num_strings == old(self).num_strings - 1
                &&& has_nul(old(self).bytes@) ==> (r matches Some(s) && s@ == strz_value(old(self).bytes@)
                    && final(self).bytes@ == old(self).bytes@.skip(strz_len(old(self).bytes@)))
                &&& !has_nul(old(self).bytes@) ==> (r is None && final(self).bytes@ == old(self).bytes@)
            },
    {
        if self.num_strings == 0 {
            return None;
        }
        self.num_strings = self.num_strings - 1;
        let ghost s = self.bytes@;
        let mut p = Parser::new(self.bytes);
        match p.strz() {
            Ok(z) => {
                proof {
                    lemma_first_nul(s);
                }
                self.bytes = p.into_rest();
                Some(z)
            },
            Err(_) => None,
        }
    }
}

/// Points to one symbol record in memory and gives its kind.
#[derive(Clone, Copy, Debug)]
pub struct Sym<'a> {
    /// The kind of the symbol.
    pub kind: SymKind,
    /// The contents of the record. This slice does _not_ include the `len` or `kind` fields.
    pub data: &'a [u8],
}

impl<'a> Sym<'a> {
    /// Parse the payload of the symbol.
    pub fn parse(&self) -> (r: Result<SymData<'a>, ParserError>)
        ensures
            r is Ok <==> sym_parses(self.kind.0, self.data@),
            r matches Ok(d) ==> sym_parsed(self.kind.0, self.data@, d),
    {
        SymData::parse(self.kind, self.data)
    }

    /// Parses the payload of the symbol with a type chosen by the caller.
    ///
    /// This is useful when the caller has already tested `Sym::kind` and knows the type of the
    /// payload. The result is what `T::from_parser` gives on a parser over the payload: the kind
    /// plays no part, and bytes after the value (padding) are no error.
    pub fn parse_as<T: Parse<'a>>(&self) -> (r: Result<T, ParserError>)
        ensures
            r is Ok <==> T::parses(self.data@),
            r matches Ok(v) ==> {
                &&& T::parsed(self.data@, v)
                &&& 0 <= T::parse_len(self.data@) <= self.data@.len()
                &&& forall|w: T| T::parsed(self.data@, w) ==> T::same_value(v, w)
            },
    {
        let mut p = Parser::new(self.data);
        let r = T::from_parser(&mut p);
        proof {
            if r is Ok {
                let v = r->Ok_0;
                assert forall|w: T| T::parsed(self.data@, w) implies T::same_value(v, w) by {
                    T::lemma_parsed_unique(self.data@, v, w);
                }
            }
        }
        r
    }
}

/// The symbol record that begins at byte offset `offset` of the symbol records `records`, as a
/// global ref names one. `None` where the offset is past the end, or no whole record begins
/// there.
pub fn sym_at<'a>(records: &'a [u8], offset: u32) -> (r: Option<Sym<'a>>)
    ensures
        offset <= records@.len() ==> match first_record(records@.skip(offset as int)) {
            Some((kind, data, n)) => r matches Some(sym) && sym.kind.0 == kind && sym.data@ == data,
            None => r is None,
        },
        offset > records@.len() ==> r is None,
{
    let o = offset as usize;
    if o > records.len() {
        return None;
    }
    let (_, rest) = records.split_at(o);
    assert(rest@ == records@.skip(offset as int));
    let mut iter = SymIter::new(rest);
    iter.next()
}

/// `Sym::parse_as` gives exactly what `T::from_parser` gives on a parser over the same payload:
/// both succeed exactly where `T::parses` holds of the payload, and the two values they give
/// are both what the payload encodes, so they are the same value.
pub proof fn lemma_parse_as_is_from_parser<'a, T: Parse<'a>>(
    payload: Seq<u8>,
    by_parse_as: T,
    by_from_parser: T,
)
    requires
        T::parsed(payload, by_parse_as),
        T::parsed(payload, by_from_parser),
    ensures
        T::same_value(by_parse_as, by_from_parser),
{
    T::lemma_parsed_unique(payload, by_parse_as, by_from_parser);
}

/// An `S_PUB32` payload holds the flags of the public symbol in its first four bytes, then its
/// address: the offset in the next four bytes and the segment in the two after them, all
/// little-endian; the name, NUL-terminated, follows at byte 10.
pub proof fn lemma_pub32_layout<'a>(s: Seq<u8>, x: Pub<'a>)
    requires
        sym_parsed(S_PUB32, s, SymData::Pub(x)),
        sym_parses(S_PUB32, s),
    ensures
        x.fixed.flags as int == s[0] + 0x100 * s[1] + 0x1_0000 * s[2] + 0x100_0000 * s[3],
        x.fixed.offset_segment.offset as int == s[4] + 0x100 * s[5] + 0x1_0000 * s[6]
            + 0x100_0000 * s[7],
        x.fixed.offset_segment.segment as int == s[8] + 0x100 * s[9],
        x.name@ == strz_value(s.skip(10)),
{
}

/// Where a payload decodes, each field of the decoded record is read from the place that the
/// CodeView format gives it, as little-endian bytes of the payload:
/// - a procedure (`S_GPROC32`, `S_LPROC32`): parent 0, end 4, next 8, length 12, debug start 16,
///   debug end 20, type 24, offset 28, segment 32, flags 34, name from 35;
/// - data and thread storage: type 0, offset 4, segment 8, name from 10;
/// - a register-relative variable: offset 0, type 4, register 8, name from 10;
/// - a block: parent 0, end 4, length 8, offset 12, segment 16, name from 18;
/// - a local: type 0, flags 4, name from 6;
/// - a symbol reference: name checksum 0, symbol offset 4, module 8, name from 10;
/// - a label: offset 0, segment 4, flags 6, name from 7;
/// - a user-defined type: type 0, name from 4; an object name: signature 0, name from 4;
/// - a compiland: flags 0, machine 4, name from 22.
pub proof fn lemma_record_layouts<'a>(k: u16, s: Seq<u8>, d: SymData<'a>)
    requires
        sym_parses(k, s),
        sym_parsed(k, s, d),
    ensures
        d matches SymData::Proc(x) ==> {
            &&& x.fixed.p_parent == le_u32_at(s, 0)
            &&& x.fixed.p_end == le_u32_at(s, 4)
            &&& x.fixed.p_next == le_u32_at(s, 8)
            &&& x.fixed.proc_len == le_u32_at(s, 12)
            &&& x.fixed.debug_start == le_u32_at(s, 16)
            &&& x.fixed.debug_end == le_u32_at(s, 20)
            &&& x.fixed.proc_type == le_u32_at(s, 24)
            &&& x.fixed.offset_segment.offset == le_u32_at(s, 28)
            &&& x.fixed.offset_segment.segment == le_u16_at(s, 32)
            &&& x.fixed.flags == s[34]
            &&& x.name@ == strz_value(s.skip(35))
        },
        d matches SymData::Data(x) ==> {
            &&& x.header.type_ == le_u32_at(s, 0)
            &&& x.header.offset_segment.offset == le_u32_at(s, 4)
            &&& x.header.offset_segment.segment == le_u16_at(s, 8)
            &&& x.name@ == strz_value(s.skip(10))
        },
        d matches SymData::ThreadData(x) ==> {
            &&& x.header.type_ == le_u32_at(s, 0)
            &&& x.header.offset_segment.offset == le_u32_at(s, 4)
            &&& x.header.offset_segment.segment == le_u16_at(s, 8)
            &&& x.name@ == strz_value(s.skip(10))
        },
        d matches SymData::RegRel(x) ==> {
            &&& x.fixed.offset == le_u32_at(s, 0)
            &&& x.fixed.ty == le_u32_at(s, 4)
            &&& x.fixed.register == le_u16_at(s, 8)
            &&& x.name@ == strz_value(s.skip(10))
        },
        d matches SymData::Block(x) ==> {
            &&& x.fixed.header.p_parent == le_u32_at(s, 0)
            &&& x.fixed.header.p_end == le_u32_at(s, 4)
            &&& x.fixed.length == le_u32_at(s, 8)
            &&& x.fixed.offset_segment.offset == le_u32_at(s, 12)
            &&& x.fixed.offset_segment.segment == le_u16_at(s, 16)
            &&& x.name@ == strz_value(s.skip(18))
        },
        d matches SymData::Local(x) ==> {
            &&& x.fixed.ty == le_u32_at(s, 0)
            &&& x.fixed.flags == le_u16_at(s, 4)
            &&& x.name@ == strz_value(s.skip(6))
        },
        d matches SymData::RefSym2(x) ==> {
            &&& x.header.name_checksum == le_u32_at(s, 0)
            &&& x.header.symbol_offset == le_u32_at(s, 4)
            &&& x.header.module_index == le_u16_at(s, 8)
            &&& x.name@ == strz_value(s.skip(10))
        },
        d matches SymData::Label(x) ==> {
            &&& x.fixed.offset_segment.offset == le_u32_at(s, 0)
            &&& x.fixed.offset_segment.segment == le_u16_at(s, 4)
            &&& x.fixed.flags == s[6]
            &&& x.name@ == strz_value(s.skip(7))
        },
        d matches SymData::Udt(x) ==> x.type_ == le_u32_at(s, 0) && x.name@ == strz_value(
            s.skip(4),
        ),
        d matches SymData::ObjName(x) ==> x.signature == le_u32_at(s, 0) && x.name@
            == strz_value(s.skip(4)),
        d matches SymData::Compile3(x) ==> {
            &&& x.fixed.flags == le_u32_at(s, 0)
            &&& x.fixed.machine == le_u16_at(s, 4)
            &&& x.name@ == strz_value(s.skip(22))
        },
{
}

/// The signed value of the four little-endian bytes of `s` at `i`.
pub open spec fn le_i32_value(s: Seq<u8>, i: int) -> int {
    if le_u32_at(s, i) >= 0x8000_0000 {
        le_u32_at(s, i) - 0x1_0000_0000
    } else {
        le_u32_at(s, i)
    }
}

/// Where a payload decodes, the fields of the other record kinds are read from the places that
/// the CodeView format gives them, as little-endian bytes of the payload:
/// - a managed procedure: parent 0, end 4, next 8, length 12, token 24, offset 28, segment 32,
///   flags 34, return register 35, name from 37;
/// - a constant: type 0, value from 4; a managed constant: token 0, value from 4;
/// - frame information: frame size 0, pad size 4, pad offset 8, saved registers size 12,
///   handler offset 16, handler section 20, flags 24;
/// - a frame-pointer-relative range: frame pointer offset 0, range start offset 4, segment 8,
///   range size 10;
/// - a register range: register 0; a register-relative range: base register 0, flags 2, base
///   pointer offset (signed) 4, range start offset 8, segment 12, range size 14;
/// - a full-scope frame pointer offset (signed) 0;
/// - build information: item 0; a namespace: name from 0;
/// - an inline site: parent 0, end 4, inlinee 8, annotations from 12 (16 with the invocation
///   count at 12 for the second form);
/// - a frame cookie: offset (signed) 0, register 4, type 6, flags 7;
/// - a call site or heap allocation site: offset 0, segment 4, type 8;
/// - a hot-patched function: function 0, name from 4;
/// - an annotation: offset 0, segment 4, string count 6, strings from 8;
/// - an ARM switch table: base offset 0, base section 4, switch type 6, branch offset 8, table
///   offset 12, branch section 16, table section 18, entry count 20.
pub proof fn lemma_more_record_layouts<'a>(k: u16, s: Seq<u8>, d: SymData<'a>)
    requires
        sym_parses(k, s),
        sym_parsed(k, s, d),
    ensures
        d matches SymData::ManagedProc(x) ==> {
            &&& x.fixed.p_parent == le_u32_at(s, 0)
            &&& x.fixed.p_end == le_u32_at(s, 4)
            &&& x.fixed.p_next == le_u32_at(s, 8)
            &&& x.fixed.proc_len == le_u32_at(s, 12)
            &&& x.fixed.token == le_u32_at(s, 24)
            &&& x.fixed.offset_segment.offset == le_u32_at(s, 28)
            &&& x.fixed.offset_segment.segment == le_u16_at(s, 32)
            &&& x.fixed.flags == s[34]
            &&& x.fixed.return_reg == le_u16_at(s, 35)
            &&& x.name@ == strz_value(s.skip(37))
        },
        d matches SymData::Constant(x) ==> x.type_ == le_u32_at(s, 0) && x.value@ == s.skip(4).take(
            number_len(s.skip(4)).unwrap(),
        ),
        d matches SymData::ManagedConstant(x) ==> x.token == le_u32_at(s, 0) && x.value@ == s.skip(
            4,
        ).take(number_len(s.skip(4)).unwrap()),
        d matches SymData::FrameProc(x) ==> {
            &&& x.frame_size == le_u32_at(s, 0)
            &&& x.pad_size == le_u32_at(s, 4)
            &&& x.pad_offset == le_u32_at(s, 8)
            &&& x.save_regs_size == le_u32_at(s, 12)
            &&& x.offset_exception_handler == le_u32_at(s, 16)
            &&& x.exception_handler_section == le_u16_at(s, 20)
            &&& x.flags == le_u32_at(s, 24)
        },
        d matches SymData::DefRangeFramePointerRel(x) ==> {
            &&& x.fixed.offset_to_frame_pointer == le_u32_at(s, 0)
            &&& x.fixed.range.start.offset == le_u32_at(s, 4)
            &&& x.fixed.range.start.segment == le_u16_at(s, 8)
            &&& x.fixed.range.range_size == le_u16_at(s, 10)
        },
        d matches SymData::DefRangeRegister(x) ==> x.fixed.reg == le_u16_at(s, 0),
        d matches SymData::DefRangeRegisterRel(x) ==> {
            &&& x.fixed.base_reg == le_u16_at(s, 0)
            &&& x.fixed.flags == le_u16_at(s, 2)
            &&& x.fixed.base_pointer_offset == le_i32_value(s, 4)
            &&& x.fixed.range.start.offset == le_u32_at(s, 8)
            &&& x.fixed.range.start.segment == le_u16_at(s, 12)
            &&& x.fixed.range.range_size == le_u16_at(s, 14)
        },
        d matches SymData::DefRangeFramePointerRelFullScope(x) ==> x.frame_pointer_offset
            == le_i32_value(s, 0),
        d matches SymData::BuildInfo(x) ==> x.item == le_u32_at(s, 0),
        d matches SymData::UsingNamespace(x) ==> x.namespace@ == strz_value(s),
        d matches SymData::InlineSite(x) ==> {
            &&& x.fixed.block.p_parent == le_u32_at(s, 0)
            &&& x.fixed.block.p_end == le_u32_at(s, 4)
            &&& x.fixed.inlinee == le_u32_at(s, 8)
            &&& x.binary_annotations@ == s.skip(12)
        },
        d matches SymData::InlineSite2(x) ==> {
            &&& x.fixed.block.p_parent == le_u32_at(s, 0)
            &&& x.fixed.block.p_end == le_u32_at(s, 4)
            &&& x.fixed.inlinee == le_u32_at(s, 8)
            &&& x.fixed.invocations == le_u32_at(s, 12)
            &&& x.binary_annotations@ == s.skip(16)
        },
        d matches SymData::FrameCookie(x) ==> {
            &&& x.offset == le_i32_value(s, 0)
            &&& x.reg == le_u16_at(s, 4)
            &&& x.cookie_type == s[6]
            &&& x.flags == s[7]
        },
        d matches SymData::CallSiteInfo(x) ==> {
            &&& x.offset.offset == le_u32_at(s, 0)
            &&& x.offset.segment == le_u16_at(s, 4)
            &&& x.func_type == le_u32_at(s, 8)
        },
        d matches SymData::HeapAllocSite(x) ==> {
            &&& x.offset.offset == le_u32_at(s, 0)
            &&& x.offset.segment == le_u16_at(s, 4)
            &&& x.instruction_size == le_u16_at(s, 6)
            &&& x.func_type == le_u32_at(s, 8)
        },
        d matches SymData::HotPatchFunc(x) ==> x.func == le_u32_at(s, 0) && x.name@ == strz_value(
            s.skip(4),
        ),
        d matches SymData::Annotation(x) ==> {
            &&& x.fixed.offset.offset == le_u32_at(s, 0)
            &&& x.fixed.offset.segment == le_u16_at(s, 4)
            &&& x.fixed.num_strings == le_u16_at(s, 6)
            &&& x.strings@ == s.skip(8)
        },
        d matches SymData::ArmSwitchTable(x) ==> {
            &&& x.offset_base == le_u32_at(s, 0)
            &&& x.sect_base == le_u16_at(s, 4)
            &&& x.switch_type == le_u16_at(s, 6)
            &&& x.offset_branch == le_u32_at(s, 8)
            &&& x.offset_table == le_u32_at(s, 12)
            &&& x.sect_branch == le_u16_at(s, 16)
            &&& x.sect_table == le_u16_at(s, 18)
            &&& x.num_entries == le_u32_at(s, 20)
        },
{
}

/// An `S_COFFGROUP` payload holds the size of the group in its first four bytes, then its
/// characteristics (four bytes), its offset (four bytes) and segment (two bytes), all
/// little-endian, and its name from byte 14.
pub proof fn lemma_coff_group_layout<'a>(s: Seq<u8>, x: CoffGroup<'a>)
    requires
        <CoffGroup<'a> as Parse<'a>>::parses(s),
        <CoffGroup<'a> as Parse<'a>>::parsed(s, x),
    ensures
        x.fixed.cb == le_u32_at(s, 0),
        x.fixed.characteristics == le_u32_at(s, 4),
        x.fixed.off_seg.offset == le_u32_at(s, 8),
        x.fixed.off_seg.segment == le_u16_at(s, 12),
        x.name@ == strz_value(s.skip(14)),
{
}

/// For a record of a procedure kind, decoding the payload as `SymData` and decoding it as a
/// `Proc` succeed on the same payloads, give the same procedure and take the same bytes.
pub proof fn lemma_parse_as_proc_agrees_with_parse<'a>(kind: u16, s: Seq<u8>, x: Proc<'a>)
    requires
        kind == S_GPROC32 || kind == S_LPROC32,
    ensures
        sym_parses(kind, s) <==> <Proc<'a> as Parse<'a>>::parses(s),
        sym_parsed(kind, s, SymData::Proc(x)) <==> <Proc<'a> as Parse<'a>>::parsed(s, x),
        sym_parse_len(kind, s) == <Proc<'a> as Parse<'a>>::parse_len(s),
{
}

/// Points to one symbol record in memory and gives its kind. Allows mutation of the contents of
/// the symbol record.
pub struct SymMut<'a> {
    /// The kind of the symbol.
    pub kind: SymKind,
    /// The contents of the record. This slice does _not_ include the `len` or `kind` fields.
    pub data: &'a mut [u8],
}

/// The first symbol record of `s`: its kind, its payload and the number of bytes it takes,
/// length field included. `None` where `s` does not begin with a whole record whose length
/// counts at least its kind.
pub open spec fn first_record(s: Seq<u8>) -> Option<(u16, Seq<u8>, int)> {
    if s.len() < 4 {
        None
    } else {
        let len = le_u16_at(s, 0);
        if len < 2 || s.len() < 2 + len {
            None
        } else {
            Some((le_u16_at(s, 2) as u16, s.subrange(4, 2 + len), 2 + len))
        }
    }
}

/// The symbol records of `s`, in order, up to the first point where no whole record follows.
pub open spec fn records(s: Seq<u8>) -> Seq<(u16, Seq<u8>)>
    decreases s.len(),
{
    match first_record(s) {
        Some((kind, data, n)) => if 0 < n <= s.len() {
            seq![(kind, data)] + records(s.skip(n))
        } else {
            Seq::empty()
        },
        None => Seq::empty(),
    }
}

/// Iterates the symbol records in a buffer.
pub struct SymIter<'a> {
    /// The bytes that have not been iterated yet.
    pub data: &'a [u8],
}

impl<'a> SymIter<'a> {
    /// Starts iterating the records in `data`.
    pub fn new(data: &'a [u8]) -> (r: Self)
        ensures
            r.data@ == data@,
    {
        SymIter { data }
    }

    /// Starts iterating the records of a module symbol stream, which begins with a 4-byte
    /// signature. A buffer shorter than the signature holds no records.
    pub fn for_module_syms(data: &'a [u8]) -> (r: Self)
        ensures
            data@.len() >= 4 ==> r.data@ == data@.skip(4),
            data@.len() < 4 ==> r.data@.len() == 0,
    {
        if data.len() >= 4 {
            let (_, rest) = data.split_at(4);
            SymIter { data: rest }
        } else {
            let (_, rest) = data.split_at(data.len());
            SymIter { data: rest }
        }
    }

    /// Returns the next record. At the end of the buffer, or where the remaining bytes do
    /// not begin with a whole record, returns `None` and stops.
    pub fn next(&mut self) -> (r: Option<Sym<'a>>)
        ensures
            match first_record(old(self).data@) {
                Some((kind, data, n)) => {
                    &&& r matches Some(sym) && sym.kind.0 == kind && sym.data@ == data
                    &&& final(self).data@ == old(self).data@.skip(n)
                },
                None => r is None && final(self).data@.len() == 0,
            },
    {
        let ghost s = self.data@;
        let mut p = Parser::new(self.data);
        if p.len() < 4 {
            let (_, empty) = self.data.split_at(self.data.len());
            self.data = empty;
            return None;
        }
        let len = match p.u16() {
            Ok(l) => l,
            Err(_) => return vstd::pervasive::unreached(),
        };
        if len < 2 || p.len() < len as usize {
            let (_, empty) = self.data.split_at(self.data.len());
            self.data = empty;
            return None;
        }
        let kind = match p.u16() {
            Ok(k) => k,
            Err(_) => return vstd::pervasive::unreached(),
        };
        proof {
            crate::parser::lemma_le_skip(s, 2, 0);
            lemma_skip_skip(s, 2, 2);
        }
        let data = match p.bytes(len as usize - 2) {
            Ok(d) => d,
            Err(_) => return vstd::pervasive::unreached(),
        };
        proof {
            lemma_skip_skip(s, 4, len - 2);
            assert(data@ =~= s.subrange(4, 2 + len));
        }
        self.data = p.into_rest();
        Some(Sym { kind: SymKind(kind), data })
    }
}

/// Parsed data from a symbol record
#[derive(Clone, Debug)]
pub enum SymData<'a> {
    Unknown,
    ObjName(ObjectName<'a>),
    Compile3(Compile3<'a>),
    Proc(Proc<'a>),
    Udt(Udt<'a>),
    Constant(Constant<'a>),
    ManagedConstant(ManagedConstant<'a>),
    RefSym2(RefSym2<'a>),
    Data(Data<'a>),
    ThreadData(ThreadStorageData<'a>),
    Pub(Pub<'a>),
    End,
    FrameProc(FrameProc),
    RegRel(RegRel<'a>),
    Block(Block<'a>),
    Local(Local<'a>),
    DefRangeFramePointerRel(DefRangeSymFramePointerRel),
    DefRangeRegister(DefRangeRegister<'a>),
    DefRangeRegisterRel(DefRangeRegisterRel<'a>),
    DefRangeFramePointerRelFullScope(DefRangeFramePointerRelFullScope),
    DefRangeSubFieldRegister(DefRangeSubFieldRegister<'a>),
    Trampoline(Trampoline<'a>),
    BuildInfo(BuildInfo),
    UsingNamespace(UsingNamespace<'a>),
    InlineSiteEnd,
    Label(Label<'a>),
    FunctionList(FunctionList),
    InlineSite(InlineSite<'a>),
    InlineSite2(InlineSite2<'a>),
    FrameCookie(FrameCookie),
    CallSiteInfo(CallSiteInfo),
    HeapAllocSite(HeapAllocSite),
    ManagedProc(ManagedProc<'a>),
    Annotation(Annotation<'a>),
    HotPatchFunc(HotPatchFunc<'a>),
    CoffGroup(CoffGroup<'a>),
    ArmSwitchTable(ArmSwitchTable),
}

/// The payload `s` of a record of kind `kind` can be decoded. Kinds that carry no payload
/// to decode, and kinds this library does not decode, always can.
pub open spec fn sym_parses(kind: u16, s: Seq<u8>) -> bool {
    if kind == S_OBJNAME {
        <ObjectName<'static> as Parse<'static>>::parses(s)
    } else if kind == S_GPROC32 || kind == S_LPROC32 {
        <Proc<'static> as Parse<'static>>::parses(s)
    } else if kind == S_COMPILE3 {
        <Compile3<'static> as Parse<'static>>::parses(s)
    } else if kind == S_UDT {
        <Udt<'static> as Parse<'static>>::parses(s)
    } else if kind == S_CONSTANT {
        <Constant<'static> as Parse<'static>>::parses(s)
    } else if kind == S_MANCONSTANT {
        <Constant<'static> as Parse<'static>>::parses(s)
    } else if kind == S_PUB32 {
        <Pub<'static> as Parse<'static>>::parses(s)
    } else if kind == S_PUB32_ST {
        pub_st_parses(s)
    } else if kind == S_PROCREF || kind == S_LPROCREF || kind == S_DATAREF || kind == S_ANNOTATIONREF {
        <RefSym2<'static> as Parse<'static>>::parses(s)
    } else if kind == S_LDATA32 || kind == S_GDATA32 || kind == S_LMANDATA || kind == S_GMANDATA {
        <Data<'static> as Parse<'static>>::parses(s)
    } else if kind == S_LTHREAD32 || kind == S_GTHREAD32 {
        <ThreadStorageData<'static> as Parse<'static>>::parses(s)
    } else if kind == S_END {
        true
    } else if kind == S_FRAMEPROC {
        <FrameProc as Parse<'static>>::parses(s)
    } else if kind == S_REGREL32 {
        <RegRel<'static> as Parse<'static>>::parses(s)
    } else if kind == S_BLOCK32 {
        <Block<'static> as Parse<'static>>::parses(s)
    } else if kind == S_LOCAL {
        <Local<'static> as Parse<'static>>::parses(s)
    } else if kind == S_DEFRANGE_FRAMEPOINTER_REL {
        <DefRangeSymFramePointerRel as Parse<'static>>::parses(s)
    } else if kind == S_DEFRANGE_REGISTER {
        <DefRangeRegister<'static> as Parse<'static>>::parses(s)
    } else if kind == S_DEFRANGE_REGISTER_REL {
        <DefRangeRegisterRel<'static> as Parse<'static>>::parses(s)
    } else if kind == S_DEFRANGE_FRAMEPOINTER_REL_FULL_SCOPE {
        <DefRangeFramePointerRelFullScope as Parse<'static>>::parses(s)
    } else if kind == S_DEFRANGE_SUBFIELD_REGISTER {
        <DefRangeSubFieldRegister<'static> as Parse<'static>>::parses(s)
    } else if kind == S_TRAMPOLINE {
        <Trampoline<'static> as Parse<'static>>::parses(s)
    } else if kind == S_BUILDINFO {
        <BuildInfo as Parse<'static>>::parses(s)
    } else if kind == S_UNAMESPACE {
        <UsingNamespace<'static> as Parse<'static>>::parses(s)
    } else if kind == S_INLINESITE_END {
        true
    } else if kind == S_LABEL32 {
        <Label<'static> as Parse<'static>>::parses(s)
    } else if kind == S_CALLEES || kind == S_CALLERS {
        <FunctionList as Parse<'static>>::parses(s)
    } else if kind == S_INLINESITE {
        <InlineSite<'static> as Parse<'static>>::parses(s)
    } else if kind == S_INLINESITE2 {
        <InlineSite2<'static> as Parse<'static>>::parses(s)
    } else if kind == S_INLINEES {
        <FunctionList as Parse<'static>>::parses(s)
    } else if kind == S_FRAMECOOKIE {
        <FrameCookie as Parse<'static>>::parses(s)
    } else if kind == S_CALLSITEINFO {
        <CallSiteInfo as Parse<'static>>::parses(s)
    } else if kind == S_HEAPALLOCSITE {
        <HeapAllocSite as Parse<'static>>::parses(s)
    } else if kind == S_GMANPROC || kind == S_LMANPROC {
        <ManagedProc<'static> as Parse<'static>>::parses(s)
    } else if kind == S_ANNOTATION {
        <Annotation<'static> as Parse<'static>>::parses(s)
    } else if kind == S_HOTPATCHFUNC {
        <HotPatchFunc<'static> as Parse<'static>>::parses(s)
    } else if kind == S_ARMSWITCHTABLE {
        <ArmSwitchTable as Parse<'static>>::parses(s)
    } else {
        true
    }
}

/// The number of bytes that decoding the payload `s` of a record of kind `kind` consumes:
/// what its type's decoder consumes; none for `S_END`, `S_INLINESITE_END` and the kinds this
/// library does not decode.
pub open spec fn sym_parse_len(kind: u16, s: Seq<u8>) -> int {
    if kind == S_OBJNAME {
        <ObjectName<'static> as Parse<'static>>::parse_len(s)
    } else if kind == S_GPROC32 || kind == S_LPROC32 {
        <Proc<'static> as Parse<'static>>::parse_len(s)
    } else if kind == S_COMPILE3 {
        <Compile3<'static> as Parse<'static>>::parse_len(s)
    } else if kind == S_UDT {
        <Udt<'static> as Parse<'static>>::parse_len(s)
    } else if kind == S_CONSTANT {
        <Constant<'static> as Parse<'static>>::parse_len(s)
    } else if kind == S_MANCONSTANT {
        <Constant<'static> as Parse<'static>>::parse_len(s)
    } else if kind == S_PUB32 {
        <Pub<'static> as Parse<'static>>::parse_len(s)
    } else if kind == S_PUB32_ST {
        10 + 1 + s[10]
    } else if kind == S_PROCREF || kind == S_LPROCREF || kind == S_DATAREF || kind == S_ANNOTATIONREF {
        <RefSym2<'static> as Parse<'static>>::parse_len(s)
    } else if kind == S_LDATA32 || kind == S_GDATA32 || kind == S_LMANDATA || kind == S_GMANDATA {
        <Data<'static> as Parse<'static>>::parse_len(s)
    } else if kind == S_LTHREAD32 || kind == S_GTHREAD32 {
        <ThreadStorageData<'static> as Parse<'static>>::parse_len(s)
    } else if kind == S_END {
        0
    } else if kind == S_FRAMEPROC {
        <FrameProc as Parse<'static>>::parse_len(s)
    } else if kind == S_REGREL32 {
        <RegRel<'static> as Parse<'static>>::parse_len(s)
    } else if kind == S_BLOCK32 {
        <Block<'static> as Parse<'static>>::parse_len(s)
    } else if kind == S_LOCAL {
        <Local<'static> as Parse<'static>>::parse_len(s)
    } else if kind == S_DEFRANGE_FRAMEPOINTER_REL {
        <DefRangeSymFramePointerRel as Parse<'static>>::parse_len(s)
    } else if kind == S_DEFRANGE_REGISTER {
        <DefRangeRegister<'static> as Parse<'static>>::parse_len(s)
    } else if kind == S_DEFRANGE_REGISTER_REL {
        <DefRangeRegisterRel<'static> as Parse<'static>>::parse_len(s)
    } else if kind == S_DEFRANGE_FRAMEPOINTER_REL_FULL_SCOPE {
        <DefRangeFramePointerRelFullScope as Parse<'static>>::parse_len(s)
    } else if kind == S_DEFRANGE_SUBFIELD_REGISTER {
        <DefRangeSubFieldRegister<'static> as Parse<'static>>::parse_len(s)
    } else if kind == S_TRAMPOLINE {
        <Trampoline<'static> as Parse<'static>>::parse_len(s)
    } else if kind == S_BUILDINFO {
        <BuildInfo as Parse<'static>>::parse_len(s)
    } else if kind == S_UNAMESPACE {
        <UsingNamespace<'static> as Parse<'static>>::parse_len(s)
    } else if kind == S_INLINESITE_END {
        0
    } else if kind == S_LABEL32 {
        <Label<'static> as Parse<'static>>::parse_len(s)
    } else if kind == S_CALLEES || kind == S_CALLERS {
        <FunctionList as Parse<'static>>::parse_len(s)
    } else if kind == S_INLINESITE {
        <InlineSite<'static> as Parse<'static>>::parse_len(s)
    } else if kind == S_INLINESITE2 {
        <InlineSite2<'static> as Parse<'static>>::parse_len(s)
    } else if kind == S_INLINEES {
        <FunctionList as Parse<'static>>::parse_len(s)
    } else if kind == S_FRAMECOOKIE {
        <FrameCookie as Parse<'static>>::parse_len(s)
    } else if kind == S_CALLSITEINFO {
        <CallSiteInfo as Parse<'static>>::parse_len(s)
    } else if kind == S_HEAPALLOCSITE {
        <HeapAllocSite as Parse<'static>>::parse_len(s)
    } else if kind == S_GMANPROC || kind == S_LMANPROC {
        <ManagedProc<'static> as Parse<'static>>::parse_len(s)
    } else if kind == S_ANNOTATION {
        <Annotation<'static> as Parse<'static>>::parse_len(s)
    } else if kind == S_HOTPATCHFUNC {
        <HotPatchFunc<'static> as Parse<'static>>::parse_len(s)
    } else if kind == S_ARMSWITCHTABLE {
        <ArmSwitchTable as Parse<'static>>::parse_len(s)
    } else {
        0
    }
}

/// `d` is the decoding of the payload `s` of a record of kind `kind`: the variant that
/// the kind selects, holding the value that the payload encodes; `Unknown` for the kinds
/// this library does not decode.
pub open spec fn sym_parsed<'a>(kind: u16, s: Seq<u8>, d: SymData<'a>) -> bool {
    if kind == S_OBJNAME {
        d matches SymData::ObjName(x) && <ObjectName<'a> as Parse<'a>>::parsed(s, x)
    } else if kind == S_GPROC32 || kind == S_LPROC32 {
        d matches SymData::Proc(x) && <Proc<'a> as Parse<'a>>::parsed(s, x)
    } else if kind == S_COMPILE3 {
        d matches SymData::Compile3(x) && <Compile3<'a> as Parse<'a>>::parsed(s, x)
    } else if kind == S_UDT {
        d matches SymData::Udt(x) && <Udt<'a> as Parse<'a>>::parsed(s, x)
    } else if kind == S_CONSTANT {
        d matches SymData::Constant(x) && <Constant<'a> as Parse<'a>>::parsed(s, x)
    } else if kind == S_MANCONSTANT {
        d matches SymData::Constant(x) && <Constant<'a> as Parse<'a>>::parsed(s, x)
    } else if kind == S_PUB32 {
        d matches SymData::Pub(x) && <Pub<'a> as Parse<'a>>::parsed(s, x)
    } else if kind == S_PUB32_ST {
        d matches SymData::Pub(x) && x.fixed == PubFixed::spec_decode(s, 0) && x.name@ == s.subrange(11int, 10int + 1 + s[10])
    } else if kind == S_PROCREF || kind == S_LPROCREF || kind == S_DATAREF || kind == S_ANNOTATIONREF {
        d matches SymData::RefSym2(x) && <RefSym2<'a> as Parse<'a>>::parsed(s, x)
    } else if kind == S_LDATA32 || kind == S_GDATA32 || kind == S_LMANDATA || kind == S_GMANDATA {
        d matches SymData::Data(x) && <Data<'a> as Parse<'a>>::parsed(s, x)
    } else if kind == S_LTHREAD32 || kind == S_GTHREAD32 {
        d matches SymData::ThreadData(x) && <ThreadStorageData<'a> as Parse<'a>>::parsed(s, x)
    } else if kind == S_END {
        d is End
    } else if kind == S_FRAMEPROC {
        d matches SymData::FrameProc(x) && <FrameProc as Parse<'a>>::parsed(s, x)
    } else if kind == S_REGREL32 {
        d matches SymData::RegRel(x) && <RegRel<'a> as Parse<'a>>::parsed(s, x)
    } else if kind == S_BLOCK32 {
        d matches SymData::Block(x) && <Block<'a> as Parse<'a>>::parsed(s, x)
    } else if kind == S_LOCAL {
        d matches SymData::Local(x) && <Local<'a> as Parse<'a>>::parsed(s, x)
    } else if kind == S_DEFRANGE_FRAMEPOINTER_REL {
        d matches SymData::DefRangeFramePointerRel(x) && <DefRangeSymFramePointerRel as Parse<'a>>::parsed(s, x)
    } else if kind == S_DEFRANGE_REGISTER {
        d matches SymData::DefRangeRegister(x) && <DefRangeRegister<'a> as Parse<'a>>::parsed(s, x)
    } else if kind == S_DEFRANGE_REGISTER_REL {
        d matches SymData::DefRangeRegisterRel(x) && <DefRangeRegisterRel<'a> as Parse<'a>>::parsed(s, x)
    } else if kind == S_DEFRANGE_FRAMEPOINTER_REL_FULL_SCOPE {
        d matches SymData::DefRangeFramePointerRelFullScope(x) && <DefRangeFramePointerRelFullScope as Parse<'a>>::parsed(s, x)
    } else if kind == S_DEFRANGE_SUBFIELD_REGISTER {
        d matches SymData::DefRangeSubFieldRegister(x) && <DefRangeSubFieldRegister<'a> as Parse<'a>>::parsed(s, x)
    } else if kind == S_TRAMPOLINE {
        d matches SymData::Trampoline(x) && <Trampoline<'a> as Parse<'a>>::parsed(s, x)
    } else if kind == S_BUILDINFO {
        d matches SymData::BuildInfo(x) && <BuildInfo as Parse<'a>>::parsed(s, x)
    } else if kind == S_UNAMESPACE {
        d matches SymData::UsingNamespace(x) && <UsingNamespace<'a> as Parse<'a>>::parsed(s, x)
    } else if kind == S_INLINESITE_END {
        d is InlineSiteEnd
    } else if kind == S_LABEL32 {
        d matches SymData::Label(x) && <Label<'a> as Parse<'a>>::parsed(s, x)
    } else if kind == S_CALLEES || kind == S_CALLERS {
        d matches SymData::FunctionList(x) && <FunctionList as Parse<'a>>::parsed(s, x)
    } else if kind == S_INLINESITE {
        d matches SymData::InlineSite(x) && <InlineSite<'a> as Parse<'a>>::parsed(s, x)
    } else if kind == S_INLINESITE2 {
        d matches SymData::InlineSite2(x) && <InlineSite2<'a> as Parse<'a>>::parsed(s, x)
    } else if kind == S_INLINEES {
        d matches SymData::FunctionList(x) && <FunctionList as Parse<'a>>::parsed(s, x)
    } else if kind == S_FRAMECOOKIE {
        d matches SymData::FrameCookie(x) && <FrameCookie as Parse<'a>>::parsed(s, x)
    } else if kind == S_CALLSITEINFO {
        d matches SymData::CallSiteInfo(x) && <CallSiteInfo as Parse<'a>>::parsed(s, x)
    } else if kind == S_HEAPALLOCSITE {
        d matches SymData::HeapAllocSite(x) && <HeapAllocSite as Parse<'a>>::parsed(s, x)
    } else if kind == S_GMANPROC || kind == S_LMANPROC {
        d matches SymData::ManagedProc(x) && <ManagedProc<'a> as Parse<'a>>::parsed(s, x)
    } else if kind == S_ANNOTATION {
        d matches SymData::Annotation(x) && <Annotation<'a> as Parse<'a>>::parsed(s, x)
    } else if kind == S_HOTPATCHFUNC {
        d matches SymData::HotPatchFunc(x) && <HotPatchFunc<'a> as Parse<'a>>::parsed(s, x)
    } else if kind == S_ARMSWITCHTABLE {
        d matches SymData::ArmSwitchTable(x) && <ArmSwitchTable as Parse<'a>>::parsed(s, x)
    } else {
        d is Unknown
    }
}

impl<'a> SymData<'a> {
    /// Parses a symbol record. The caller has already parsed the length and kind of the record.
    /// The `data` parameter does not include the length or kind.
    pub fn parse(kind: SymKind, data: &'a [u8]) -> (r: Result<Self, ParserError>)
        ensures
            r is Ok <==> sym_parses(kind.0, data@),
            r matches Ok(d) ==> sym_parsed(kind.0, data@, d),
    {
        let mut p = Parser::new(data);
        Self::from_parser(kind, &mut p)
    }

    /// Parses a symbol record. The caller has already parsed the length and kind of the record.
    /// The `p` parameter does not include the length or kind.
    ///
    /// This function allows the caller to observe how many bytes were actually consumed from
    /// the input stream.
    pub fn from_parser(kind: SymKind, p: &mut Parser<'a>) -> (r: Result<Self, ParserError>)
        ensures
            r is Ok <==> sym_parses(kind.0, old(p).bytes@),
            r matches Ok(d) ==> sym_parsed(kind.0, old(p).bytes@, d),
            r is Ok ==> {
                &&& 0 <= sym_parse_len(kind.0, old(p).bytes@) <= old(p).bytes@.len()
                &&& final(p).bytes@ == old(p).bytes@.skip(sym_parse_len(kind.0, old(p).bytes@))
            },
    {
        let ghost s0 = p.bytes@;
        assert(s0.skip(0) =~= s0);
        let k = kind.0;
        let d = if k == S_OBJNAME {
            SymData::ObjName(ObjectName::from_parser(p)?)
        } else if k == S_GPROC32 || k == S_LPROC32 {
            SymData::Proc(Proc::from_parser(p)?)
        } else if k == S_COMPILE3 {
            SymData::Compile3(Compile3::from_parser(p)?)
        } else if k == S_UDT {
            SymData::Udt(Udt::from_parser(p)?)
        } else if k == S_CONSTANT {
            SymData::Constant(Constant::from_parser(p)?)
        } else if k == S_MANCONSTANT {
            SymData::Constant(Constant::from_parser(p)?)
        } else if k == S_PUB32 {
            SymData::Pub(Pub::from_parser(p)?)
        } else if k == S_PUB32_ST {
            SymData::Pub(Pub::parse_st(p)?)
        } else if k == S_PROCREF || k == S_LPROCREF || k == S_DATAREF || k == S_ANNOTATIONREF {
            SymData::RefSym2(RefSym2::from_parser(p)?)
        } else if k == S_LDATA32 || k == S_GDATA32 || k == S_LMANDATA || k == S_GMANDATA {
            SymData::Data(Data::from_parser(p)?)
        } else if k == S_LTHREAD32 || k == S_GTHREAD32 {
            SymData::ThreadData(ThreadStorageData::from_parser(p)?)
        } else if k == S_END {
            SymData::End
        } else if k == S_FRAMEPROC {
            SymData::FrameProc(FrameProc::from_parser(p)?)
        } else if k == S_REGREL32 {
            SymData::RegRel(RegRel::from_parser(p)?)
        } else if k == S_BLOCK32 {
            SymData::Block(Block::from_parser(p)?)
        } else if k == S_LOCAL {
            SymData::Local(Local::from_parser(p)?)
        } else if k == S_DEFRANGE_FRAMEPOINTER_REL {
            SymData::DefRangeFramePointerRel(DefRangeSymFramePointerRel::from_parser(p)?)
        } else if k == S_DEFRANGE_REGISTER {
            SymData::DefRangeRegister(DefRangeRegister::from_parser(p)?)
        } else if k == S_DEFRANGE_REGISTER_REL {
            SymData::DefRangeRegisterRel(DefRangeRegisterRel::from_parser(p)?)
        } else if k == S_DEFRANGE_FRAMEPOINTER_REL_FULL_SCOPE {
            SymData::DefRangeFramePointerRelFullScope(DefRangeFramePointerRelFullScope::from_parser(p)?)
        } else if k == S_DEFRANGE_SUBFIELD_REGISTER {
            SymData::DefRangeSubFieldRegister(DefRangeSubFieldRegister::from_parser(p)?)
        } else if k == S_TRAMPOLINE {
            SymData::Trampoline(Trampoline::from_parser(p)?)
        } else if k == S_BUILDINFO {
            SymData::BuildInfo(BuildInfo::from_parser(p)?)
        } else if k == S_UNAMESPACE {
            SymData::UsingNamespace(UsingNamespace::from_parser(p)?)
        } else if k == S_INLINESITE_END {
            SymData::InlineSiteEnd
        } else if k == S_LABEL32 {
            SymData::Label(Label::from_parser(p)?)
        } else if k == S_CALLEES || k == S_CALLERS {
            SymData::FunctionList(FunctionList::from_parser(p)?)
        } else if k == S_INLINESITE {
            SymData::InlineSite(InlineSite::from_parser(p)?)
        } else if k == S_INLINESITE2 {
            SymData::InlineSite2(InlineSite2::from_parser(p)?)
        } else if k == S_INLINEES {
            SymData::FunctionList(FunctionList::from_parser(p)?)
        } else if k == S_FRAMECOOKIE {
            SymData::FrameCookie(FrameCookie::from_parser(p)?)
        } else if k == S_CALLSITEINFO {
            SymData::CallSiteInfo(CallSiteInfo::from_parser(p)?)
        } else if k == S_HEAPALLOCSITE {
            SymData::HeapAllocSite(HeapAllocSite::from_parser(p)?)
        } else if k == S_GMANPROC || k == S_LMANPROC {
            SymData::ManagedProc(ManagedProc::from_parser(p)?)
        } else if k == S_ANNOTATION {
            SymData::Annotation(Annotation::from_parser(p)?)
        } else if k == S_HOTPATCHFUNC {
            SymData::HotPatchFunc(HotPatchFunc::from_parser(p)?)
        } else if k == S_ARMSWITCHTABLE {
            SymData::ArmSwitchTable(ArmSwitchTable::from_parser(p)?)
        } else {
            SymData::Unknown
        };
        Ok(d)
    }

    /// If this symbol record has a "name" field, return it. Else, `None`.
    pub fn name(&self) -> (r: Option<&'a [u8]>)
        ensures
            match self {
                SymData::Proc(x) => r == Some(x.name),
                SymData::Data(x) => r == Some(x.name),
                SymData::ThreadData(x) => r == Some(x.name),
                SymData::Udt(x) => r == Some(x.name),
                SymData::Local(x) => r == Some(x.name),
                SymData::RefSym2(x) => r == Some(x.name),
                SymData::Constant(x) => r == Some(x.name),
                SymData::ManagedConstant(x) => r == Some(x.name),
                SymData::Pub(x) => r == Some(x.name),
                SymData::ObjName(x) => r == Some(x.name),
                SymData::Compile3(x) => r == Some(x.name),
                SymData::Block(x) => r == Some(x.name),
                SymData::Label(x) => r == Some(x.name),
                SymData::ManagedProc(x) => r == Some(x.name),
                SymData::HotPatchFunc(x) => r == Some(x.name),
                SymData::CoffGroup(x) => r == Some(x.name),
                _ => r is None,
            },
    {
        match self {
            SymData::Proc(proc) => Some(proc.name),
            SymData::Data(data) => Some(data.name),
            SymData::ThreadData(thread_data) => Some(thread_data.name),
            SymData::Udt(udt) => Some(udt.name),
            SymData::Local(local) => Some(local.name),
            SymData::RefSym2(refsym) => Some(refsym.name),
            SymData::Constant(c) => Some(c.name),
            SymData::ManagedConstant(c) => Some(c.name),
            SymData::Pub(x) => Some(x.name),
            SymData::ObjName(x) => Some(x.name),
            SymData::Compile3(x) => Some(x.name),
            SymData::Block(x) => Some(x.name),
            SymData::Label(x) => Some(x.name),
            SymData::ManagedProc(x) => Some(x.name),
            SymData::HotPatchFunc(x) => Some(x.name),
            SymData::CoffGroup(x) => Some(x.name),
            _ => None,
        }
    }
}


/// The name field of the decoded record `d`, where its kind has one.
pub open spec fn data_name<'a>(d: SymData<'a>) -> Option<Seq<u8>> {
    match d {
        SymData::Proc(x) => Some(x.name@),
        SymData::Data(x) => Some(x.name@),
        SymData::ThreadData(x) => Some(x.name@),
        SymData::Udt(x) => Some(x.name@),
        SymData::Local(x) => Some(x.name@),
        SymData::RefSym2(x) => Some(x.name@),
        SymData::Constant(x) => Some(x.name@),
        SymData::ManagedConstant(x) => Some(x.name@),
        SymData::Pub(x) => Some(x.name@),
        SymData::ObjName(x) => Some(x.name@),
        SymData::Compile3(x) => Some(x.name@),
        SymData::Block(x) => Some(x.name@),
        SymData::Label(x) => Some(x.name@),
        SymData::ManagedProc(x) => Some(x.name@),
        SymData::HotPatchFunc(x) => Some(x.name@),
        SymData::CoffGroup(x) => Some(x.name@),
        _ => None,
    }
}

/// The name field of a record of kind `kind` with payload `s`, where records of its kind have
/// one: the string that follows the fixed fields, NUL-terminated (length-prefixed for
/// `S_PUB32_ST`).
pub open spec fn record_name(kind: u16, s: Seq<u8>) -> Option<Seq<u8>> {
    if kind == S_GPROC32 || kind == S_LPROC32 {
        Some(strz_value(s.skip(35)))
    } else if kind == S_UDT {
        Some(strz_value(s.skip(4)))
    } else if kind == S_CONSTANT || kind == S_MANCONSTANT {
        Some(strz_value(s.skip(4 + number_len(s.skip(4)).unwrap())))
    } else if kind == S_PROCREF || kind == S_LPROCREF || kind == S_DATAREF || kind == S_ANNOTATIONREF {
        Some(strz_value(s.skip(10)))
    } else if kind == S_LDATA32 || kind == S_GDATA32 || kind == S_LMANDATA || kind == S_GMANDATA {
        Some(strz_value(s.skip(10)))
    } else if kind == S_LTHREAD32 || kind == S_GTHREAD32 {
        Some(strz_value(s.skip(10)))
    } else if kind == S_LOCAL {
        Some(strz_value(s.skip(6)))
    } else if kind == S_PUB32 {
        Some(strz_value(s.skip(10)))
    } else if kind == S_PUB32_ST {
        Some(s.subrange(11int, 10int + 1 + s[10]))
    } else if kind == S_OBJNAME || kind == S_HOTPATCHFUNC {
        Some(strz_value(s.skip(4)))
    } else if kind == S_COMPILE3 {
        Some(strz_value(s.skip(22)))
    } else if kind == S_BLOCK32 {
        Some(strz_value(s.skip(18)))
    } else if kind == S_LABEL32 {
        Some(strz_value(s.skip(7)))
    } else if kind == S_GMANPROC || kind == S_LMANPROC {
        Some(strz_value(s.skip(37)))
    } else {
        None
    }
}

/// The name field of a decoded record is the name of its kind and payload.
pub proof fn lemma_record_name<'a>(kind: u16, s: Seq<u8>, d: SymData<'a>)
    requires
        sym_parsed(kind, s, d),
    ensures
        data_name(d) == record_name(kind, s),
{
}

} // verus!

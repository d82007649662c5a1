use vstd::prelude::*;
use crate::bit_reader::text_of_bytes;

verus! {

/// Whether a built-in type code denotes an object, an entity, or nothing.
#[derive(Debug, Clone, Copy, PartialEq, Eq, Structural)]
pub enum ObjectClass {
    Unused,
    Object,
    Entity,
}

impl ObjectClass {
    /// `O` for an object, `E` for an entity, empty otherwise.
    pub fn as_str(&self) -> (r: &'static str)
        ensures
            r@ == (match *self {
                ObjectClass::Unused => ""@,
                ObjectClass::Object => "O"@,
                ObjectClass::Entity => "E"@,
            }),
    {
        match self {
            ObjectClass::Unused => "",
            ObjectClass::Object => "O",
            ObjectClass::Entity => "E",
        }
    }
}

/// A built-in type code, its name and its class.
#[derive(Debug, Clone, Copy)]
pub struct ObjectTypeInfo {
    pub code: u16,
    pub name: &'static str,
    pub class: ObjectClass,
}

/// The name of each built-in type code; `UNKNOWN` for the others.
pub open spec fn type_name_of(code: u16) -> Seq<char> {
    match code {
        0x00 => "UNUSED"@,
        0x01 => "TEXT"@,
        0x02 => "ATTRIB"@,
        0x03 => "ATTDEF"@,
        0x04 => "BLOCK"@,
        0x05 => "ENDBLK"@,
        0x06 => "SEQEND"@,
        0x07 => "INSERT"@,
        0x08 => "MINSERT"@,
        0x0A => "VERTEX_2D"@,
        0x0B => "VERTEX_3D"@,
        0x0C => "VERTEX_MESH"@,
        0x0D => "VERTEX_PFACE"@,
        0x0E => "VERTEX_PFACE_FACE"@,
        0x0F => "POLYLINE_2D"@,
        0x10 => "POLYLINE_3D"@,
        0x11 => "ARC"@,
        0x12 => "CIRCLE"@,
        0x13 => "LINE"@,
        0x14 => "DIM_ORDINATE"@,
        0x15 => "DIM_LINEAR"@,
        0x16 => "DIM_ALIGNED"@,
        0x17 => "DIM_ANG3PT"@,
        0x18 => "DIM_ANG2LN"@,
        0x19 => "DIM_RADIUS"@,
        0x1A => "DIM_DIAMETER"@,
        0x1B => "POINT"@,
        0x1C => "3DFACE"@,
        0x1D => "POLYLINE_PFACE"@,
        0x1E => "POLYLINE_MESH"@,
        0x1F => "SOLID"@,
        0x20 => "TRACE"@,
        0x21 => "SHAPE"@,
        0x22 => "VIEWPORT"@,
        0x23 => "ELLIPSE"@,
        0x24 => "SPLINE"@,
        0x25 => "REGION"@,
        0x26 => "3DSOLID"@,
        0x27 => "BODY"@,
        0x28 => "RAY"@,
        0x29 => "XLINE"@,
        0x2A => "DICTIONARY"@,
        0x2B => "OLEFRAME"@,
        0x2C => "MTEXT"@,
        0x2D => "LEADER"@,
        0x2E => "TOLERANCE"@,
        0x2F => "MLINE"@,
        0x30 => "BLOCK_CONTROL"@,
        0x31 => "BLOCK_HEADER"@,
        0x32 => "LAYER_CONTROL"@,
        0x33 => "LAYER"@,
        0x34 => "SHAPEFILE_CONTROL"@,
        0x35 => "SHAPEFILE"@,
        0x38 => "LTYPE_CONTROL"@,
        0x39 => "LTYPE"@,
        0x3C => "VIEW_CONTROL"@,
        0x3D => "VIEW"@,
        0x3E => "UCS_CONTROL"@,
        0x3F => "UCS"@,
        0x40 => "VPORT_CONTROL"@,
        0x41 => "VPORT"@,
        0x42 => "APPID_CONTROL"@,
        0x43 => "APPID"@,
        0x44 => "DIMSTYLE_CONTROL"@,
        0x45 => "DIMSTYLE"@,
        0x46 => "VP_ENT_HDR_CONTROL"@,
        0x47 => "VP_ENT_HDR"@,
        0x48 => "GROUP"@,
        0x49 => "MLINESTYLE"@,
        0x4A => "OLE2FRAME"@,
        0x4C => "LONG_TRANSACTION"@,
        0x4D => "LWPOLYLINE"@,
        0x4E => "HATCH"@,
        0x4F => "XRECORD"@,
        0x50 => "ACDBPLACEHOLDER"@,
        0x51 => "VBA_PROJECT"@,
        0x52 => "LAYOUT"@,
        _ => "UNKNOWN"@,
    }
}

/// The class of each built-in type code; `Unused` for the others.
pub open spec fn type_class_of(code: u16) -> ObjectClass {
    match code {
        0x00 => ObjectClass::Unused,
        0x01 | 0x02 | 0x03 | 0x04 | 0x05 | 0x06 | 0x07 | 0x08 | 0x0A | 0x0B | 0x0C | 0x0D | 0x0E | 0x0F | 0x10 | 0x11 | 0x12 | 0x13 | 0x14 | 0x15 | 0x16 | 0x17 | 0x18 | 0x19 | 0x1A | 0x1B | 0x1C | 0x1D | 0x1E | 0x1F | 0x20 | 0x21 | 0x22 | 0x23 | 0x24 | 0x25 | 0x26 | 0x27 | 0x28 | 0x29 | 0x2B | 0x2C | 0x2D | 0x2E | 0x2F | 0x4A | 0x4C | 0x4D | 0x4E => ObjectClass::Entity,
        0x2A | 0x30 | 0x31 | 0x32 | 0x33 | 0x34 | 0x35 | 0x38 | 0x39 | 0x3C | 0x3D | 0x3E | 0x3F | 0x40 | 0x41 | 0x42 | 0x43 | 0x44 | 0x45 | 0x46 | 0x47 | 0x48 | 0x49 | 0x4F | 0x50 | 0x51 | 0x52 => ObjectClass::Object,
        _ => ObjectClass::Unused,
    }
}

/// Name and class of a built-in type code.
pub fn object_type_info(code: u16) -> (r: ObjectTypeInfo)
    ensures
        r.code == code,
        r.name@ == type_name_of(code),
        r.class == type_class_of(code),
{
    match code {
        0x00 => ObjectTypeInfo { code, name: "UNUSED", class: ObjectClass::Unused },
        0x01 => ObjectTypeInfo { code, name: "TEXT", class: ObjectClass::Entity },
        0x02 => ObjectTypeInfo { code, name: "ATTRIB", class: ObjectClass::Entity },
        0x03 => ObjectTypeInfo { code, name: "ATTDEF", class: ObjectClass::Entity },
        0x04 => ObjectTypeInfo { code, name: "BLOCK", class: ObjectClass::Entity },
        0x05 => ObjectTypeInfo { code, name: "ENDBLK", class: ObjectClass::Entity },
        0x06 => ObjectTypeInfo { code, name: "SEQEND", class: ObjectClass::Entity },
        0x07 => ObjectTypeInfo { code, name: "INSERT", class: ObjectClass::Entity },
        0x08 => ObjectTypeInfo { code, name: "MINSERT", class: ObjectClass::Entity },
        0x0A => ObjectTypeInfo { code, name: "VERTEX_2D", class: ObjectClass::Entity },
        0x0B => ObjectTypeInfo { code, name: "VERTEX_3D", class: ObjectClass::Entity },
        0x0C => ObjectTypeInfo { code, name: "VERTEX_MESH", class: ObjectClass::Entity },
        0x0D => ObjectTypeInfo { code, name: "VERTEX_PFACE", class: ObjectClass::Entity },
        0x0E => ObjectTypeInfo { code, name: "VERTEX_PFACE_FACE", class: ObjectClass::Entity },
        0x0F => ObjectTypeInfo { code, name: "POLYLINE_2D", class: ObjectClass::Entity },
        0x10 => ObjectTypeInfo { code, name: "POLYLINE_3D", class: ObjectClass::Entity },
        0x11 => ObjectTypeInfo { code, name: "ARC", class: ObjectClass::Entity },
        0x12 => ObjectTypeInfo { code, name: "CIRCLE", class: ObjectClass::Entity },
        0x13 => ObjectTypeInfo { code, name: "LINE", class: ObjectClass::Entity },
        0x14 => ObjectTypeInfo { code, name: "DIM_ORDINATE", class: ObjectClass::Entity },
        0x15 => ObjectTypeInfo { code, name: "DIM_LINEAR", class: ObjectClass::Entity },
        0x16 => ObjectTypeInfo { code, name: "DIM_ALIGNED", class: ObjectClass::Entity },
        0x17 => ObjectTypeInfo { code, name: "DIM_ANG3PT", class: ObjectClass::Entity },
        0x18 => ObjectTypeInfo { code, name: "DIM_ANG2LN", class: ObjectClass::Entity },
        0x19 => ObjectTypeInfo { code, name: "DIM_RADIUS", class: ObjectClass::Entity },
        0x1A => ObjectTypeInfo { code, name: "DIM_DIAMETER", class: ObjectClass::Entity },
        0x1B => ObjectTypeInfo { code, name: "POINT", class: ObjectClass::Entity },
        0x1C => ObjectTypeInfo { code, name: "3DFACE", class: ObjectClass::Entity },
        0x1D => ObjectTypeInfo { code, name: "POLYLINE_PFACE", class: ObjectClass::Entity },
        0x1E => ObjectTypeInfo { code, name: "POLYLINE_MESH", class: ObjectClass::Entity },
        0x1F => ObjectTypeInfo { code, name: "SOLID", class: ObjectClass::Entity },
        0x20 => ObjectTypeInfo { code, name: "TRACE", class: ObjectClass::Entity },
        0x21 => ObjectTypeInfo { code, name: "SHAPE", class: ObjectClass::Entity },
        0x22 => ObjectTypeInfo { code, name: "VIEWPORT", class: ObjectClass::Entity },
        0x23 => ObjectTypeInfo { code, name: "ELLIPSE", class: ObjectClass::Entity },
        0x24 => ObjectTypeInfo { code, name: "SPLINE", class: ObjectClass::Entity },
        0x25 => ObjectTypeInfo { code, name: "REGION", class: ObjectClass::Entity },
        0x26 => ObjectTypeInfo { code, name: "3DSOLID", class: ObjectClass::Entity },
        0x27 => ObjectTypeInfo { code, name: "BODY", class: ObjectClass::Entity },
        0x28 => ObjectTypeInfo { code, name: "RAY", class: ObjectClass::Entity },
        0x29 => ObjectTypeInfo { code, name: "XLINE", class: ObjectClass::Entity },
        0x2A => ObjectTypeInfo { code, name: "DICTIONARY", class: ObjectClass::Object },
        0x2B => ObjectTypeInfo { code, name: "OLEFRAME", class: ObjectClass::Entity },
        0x2C => ObjectTypeInfo { code, name: "MTEXT", class: ObjectClass::Entity },
        0x2D => ObjectTypeInfo { code, name: "LEADER", class: ObjectClass::Entity },
        0x2E => ObjectTypeInfo { code, name: "TOLERANCE", class: ObjectClass::Entity },
        0x2F => ObjectTypeInfo { code, name: "MLINE", class: ObjectClass::Entity },
        0x30 => ObjectTypeInfo { code, name: "BLOCK_CONTROL", class: ObjectClass::Object },
        0x31 => ObjectTypeInfo { code, name: "BLOCK_HEADER", class: ObjectClass::Object },
        0x32 => ObjectTypeInfo { code, name: "LAYER_CONTROL", class: ObjectClass::Object },
        0x33 => ObjectTypeInfo { code, name: "LAYER", class: ObjectClass::Object },
        0x34 => ObjectTypeInfo { code, name: "SHAPEFILE_CONTROL", class: ObjectClass::Object },
        0x35 => ObjectTypeInfo { code, name: "SHAPEFILE", class: ObjectClass::Object },
        0x38 => ObjectTypeInfo { code, name: "LTYPE_CONTROL", class: ObjectClass::Object },
        0x39 => ObjectTypeInfo { code, name: "LTYPE", class: ObjectClass::Object },
        0x3C => ObjectTypeInfo { code, name: "VIEW_CONTROL", class: ObjectClass::Object },
        0x3D => ObjectTypeInfo { code, name: "VIEW", class: ObjectClass::Object },
        0x3E => ObjectTypeInfo { code, name: "UCS_CONTROL", class: ObjectClass::Object },
        0x3F => ObjectTypeInfo { code, name: "UCS", class: ObjectClass::Object },
        0x40 => ObjectTypeInfo { code, name: "VPORT_CONTROL", class: ObjectClass::Object },
        0x41 => ObjectTypeInfo { code, name: "VPORT", class: ObjectClass::Object },
        0x42 => ObjectTypeInfo { code, name: "APPID_CONTROL", class: ObjectClass::Object },
        0x43 => ObjectTypeInfo { code, name: "APPID", class: ObjectClass::Object },
        0x44 => ObjectTypeInfo { code, name: "DIMSTYLE_CONTROL", class: ObjectClass::Object },
        0x45 => ObjectTypeInfo { code, name: "DIMSTYLE", class: ObjectClass::Object },
        0x46 => ObjectTypeInfo { code, name: "VP_ENT_HDR_CONTROL", class: ObjectClass::Object },
        0x47 => ObjectTypeInfo { code, name: "VP_ENT_HDR", class: ObjectClass::Object },
        0x48 => ObjectTypeInfo { code, name: "GROUP", class: ObjectClass::Object },
        0x49 => ObjectTypeInfo { code, name: "MLINESTYLE", class: ObjectClass::Object },
        0x4A => ObjectTypeInfo { code, name: "OLE2FRAME", class: ObjectClass::Entity },
        0x4C => ObjectTypeInfo { code, name: "LONG_TRANSACTION", class: ObjectClass::Entity },
        0x4D => ObjectTypeInfo { code, name: "LWPOLYLINE", class: ObjectClass::Entity },
        0x4E => ObjectTypeInfo { code, name: "HATCH", class: ObjectClass::Entity },
        0x4F => ObjectTypeInfo { code, name: "XRECORD", class: ObjectClass::Object },
        0x50 => ObjectTypeInfo { code, name: "ACDBPLACEHOLDER", class: ObjectClass::Object },
        0x51 => ObjectTypeInfo { code, name: "VBA_PROJECT", class: ObjectClass::Object },
        0x52 => ObjectTypeInfo { code, name: "LAYOUT", class: ObjectClass::Object },
        _ => ObjectTypeInfo { code, name: "UNKNOWN", class: ObjectClass::Unused },
    }
}

/// The upper-case hexadecimal digit of `v`.
pub open spec fn hex_digit(v: int) -> u8 {
    if v < 10 {
        (0x30 + v) as u8
    } else {
        (0x41 + v - 10) as u8
    }
}

/// Upper-case hexadecimal digits of `code`, at least two.
pub open spec fn hex_digits(code: int) -> Seq<u8> {
    if code >= 0x1000 {
        seq![hex_digit(code / 0x1000), hex_digit(code / 0x100 % 16), hex_digit(code / 16 % 16), hex_digit(code % 16)]
    } else if code >= 0x100 {
        seq![hex_digit(code / 0x100), hex_digit(code / 16 % 16), hex_digit(code % 16)]
    } else {
        seq![hex_digit(code / 16), hex_digit(code % 16)]
    }
}

fn push_hex_digit(out: &mut Vec<u8>, v: u16)
    requires
        v < 16,
    ensures
        final(out)@ == old(out)@.push(hex_digit(v as int)),
{
    if v < 10 {
        out.push(0x30 + v as u8);
    } else {
        out.push(0x41 + (v - 10) as u8);
    }
}

/// Whether `code` is one of the built-in type codes.
pub open spec fn is_builtin(code: u16) -> bool {
    match code {
        0x00 | 0x01 | 0x02 | 0x03 | 0x04 | 0x05 | 0x06 | 0x07 | 0x08 | 0x0A | 0x0B | 0x0C | 0x0D | 0x0E | 0x0F | 0x10 | 0x11 | 0x12 | 0x13 | 0x14 | 0x15 | 0x16 | 0x17 | 0x18 | 0x19 | 0x1A | 0x1B | 0x1C | 0x1D | 0x1E | 0x1F | 0x20 | 0x21 | 0x22 | 0x23 | 0x24 | 0x25 | 0x26 | 0x27 | 0x28 | 0x29 | 0x2A | 0x2B | 0x2C | 0x2D | 0x2E | 0x2F | 0x30 | 0x31 | 0x32 | 0x33 | 0x34 | 0x35 | 0x38 | 0x39 | 0x3C | 0x3D | 0x3E | 0x3F | 0x40 | 0x41 | 0x42 | 0x43 | 0x44 | 0x45 | 0x46 | 0x47 | 0x48 | 0x49 | 0x4A | 0x4C | 0x4D | 0x4E | 0x4F | 0x50 | 0x51 | 0x52 => true,
        _ => false,
    }
}

fn builtin(code: u16) -> (r: bool)
    ensures
        r == is_builtin(code),
{
    matches!(code, 0x00 | 0x01 | 0x02 | 0x03 | 0x04 | 0x05 | 0x06 | 0x07 | 0x08 | 0x0A | 0x0B | 0x0C | 0x0D | 0x0E | 0x0F | 0x10 | 0x11 | 0x12 | 0x13 | 0x14 | 0x15 | 0x16 | 0x17 | 0x18 | 0x19 | 0x1A | 0x1B | 0x1C | 0x1D | 0x1E | 0x1F | 0x20 | 0x21 | 0x22 | 0x23 | 0x24 | 0x25 | 0x26 | 0x27 | 0x28 | 0x29 | 0x2A | 0x2B | 0x2C | 0x2D | 0x2E | 0x2F | 0x30 | 0x31 | 0x32 | 0x33 | 0x34 | 0x35 | 0x38 | 0x39 | 0x3C | 0x3D | 0x3E | 0x3F | 0x40 | 0x41 | 0x42 | 0x43 | 0x44 | 0x45 | 0x46 | 0x47 | 0x48 | 0x49 | 0x4A | 0x4C | 0x4D | 0x4E | 0x4F | 0x50 | 0x51 | 0x52)
}

/// `UNKNOWN(0x..)` with the code in upper-case hexadecimal, as bytes.
pub open spec fn unknown_name(code: u16) -> Seq<u8> {
    seq![0x55u8, 0x4E, 0x4B, 0x4E, 0x4F, 0x57, 0x4E, 0x28, 0x30, 0x78] + hex_digits(code as int) + seq![0x29u8]
}

/// The name of a type code; codes without a built-in name are shown as
/// `UNKNOWN(0x..)`.
pub fn object_type_name(code: u16) -> (r: String)
    ensures
        is_builtin(code) ==> r@ == type_name_of(code),
        !is_builtin(code) ==> r@ == unknown_name(code).map_values(|b: u8| b as char),
{
    if builtin(code) {
        return object_type_info(code).name.to_string();
    }
    let mut out: Vec<u8> = Vec::new();
    out.push(0x55);
    out.push(0x4E);
    out.push(0x4B);
    out.push(0x4E);
    out.push(0x4F);
    out.push(0x57);
    out.push(0x4E);
    out.push(0x28);
    out.push(0x30);
    out.push(0x78);
    if code >= 0x1000 {
        push_hex_digit(&mut out, code / 0x1000);
    }
    if code >= 0x100 {
        push_hex_digit(&mut out, code / 0x100 % 16);
    }
    push_hex_digit(&mut out, code / 16 % 16);
    push_hex_digit(&mut out, code % 16);
    out.push(0x29);
    assert(out@ =~= unknown_name(code));
    assert forall|j: int| 0 <= j < out@.len() implies #[trigger] out@[j] < 0x80 by {
    }
    text_of_bytes(out.as_slice())
}

/// The class of a type code.
pub fn object_type_class(code: u16) -> (r: ObjectClass)
    ensures
        r == type_class_of(code),
{
    object_type_info(code).class
}

} // verus!

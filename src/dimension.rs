//! Linear dimensions. Real files lay out the common dimension block in
//! several ways; each layout is a variant read here, and the plausibility
//! of a reading is scored partly here (integer fields) and partly by callers
//! (floating-point magnitudes), the lowest total winning.
use vstd::prelude::*;
use crate::bit_reader::{spec_3bd, spec_b, spec_bd, spec_be, spec_bs, spec_rc, spec_rd, spec_tv, BitReader, Endian};
use crate::common::{parse_common_entity_handles, read_handle_reference, CommonEntityHeader};
use crate::error::{DwgError, ErrorKind};

verus! {

/// Which optional fields a layout of the common dimension block holds, and
/// whether the dimension-style and block handles precede the common handles.
#[derive(Debug, Clone, Copy, PartialEq, Eq, Structural)]
pub struct DimLinearVariant {
    pub has_attachment: bool,
    pub has_unknown_flag: bool,
    pub has_flip_arrow1: bool,
    pub has_flip_arrow2: bool,
    pub has_point12: bool,
    pub style_before_common: bool,
}

/// The twelve layouts, in the order they are tried: the five optional-field
/// patterns from fullest to emptiest plus the bare one, first with the
/// style handles before the common handles, then after.
pub fn dim_linear_variants() -> (r: Vec<DimLinearVariant>)
    ensures
        r@.len() == 12,
        forall|i: int| 0 <= i < 6 ==> (#[trigger] r@[i]).style_before_common,
        forall|i: int| 6 <= i < 12 ==> !(#[trigger] r@[i]).style_before_common,
        forall|i: int| 0 <= i < 6 ==> (#[trigger] r@[i + 6]).has_attachment == r@[i].has_attachment,
{
    let mut v: Vec<DimLinearVariant> = Vec::new();
    let mut k: usize = 0;
    while k < 2
        invariant
            0 <= k <= 2,
            v@.len() == 6 * k,
            forall|i: int| 0 <= i < v@.len() ==> (#[trigger] v@[i]).style_before_common == (i < 6),
            forall|i: int| 0 <= i < v@.len() ==> (#[trigger] v@[i]).has_attachment == (i % 6 != 5),
        decreases 2 - k,
    {
        let before = k == 0;
        v.push(DimLinearVariant { has_attachment: true, has_unknown_flag: true, has_flip_arrow1: true, has_flip_arrow2: true, has_point12: true, style_before_common: before });
        v.push(DimLinearVariant { has_attachment: true, has_unknown_flag: true, has_flip_arrow1: true, has_flip_arrow2: false, has_point12: true, style_before_common: before });
        v.push(DimLinearVariant { has_attachment: true, has_unknown_flag: true, has_flip_arrow1: false, has_flip_arrow2: false, has_point12: true, style_before_common: before });
        v.push(DimLinearVariant { has_attachment: true, has_unknown_flag: false, has_flip_arrow1: false, has_flip_arrow2: false, has_point12: true, style_before_common: before });
        v.push(DimLinearVariant { has_attachment: true, has_unknown_flag: false, has_flip_arrow1: false, has_flip_arrow2: false, has_point12: false, style_before_common: before });
        v.push(DimLinearVariant { has_attachment: false, has_unknown_flag: false, has_flip_arrow1: false, has_flip_arrow2: false, has_point12: false, style_before_common: before });
        k = k + 1;
    }
    v
}

/// The common dimension block as read under one layout.
#[derive(Debug)]
pub struct DimensionCommonData {
    pub handle: u64,
    pub layer_handle: u64,
    pub extrusion: (u64, u64, u64),
    pub text_midpoint: (u64, u64, u64),
    pub elevation: u64,
    pub dim_flags: u8,
    pub user_text: String,
    pub text_rotation: u64,
    pub horizontal_direction: u64,
    pub insert_scale: (u64, u64, u64),
    pub insert_rotation: u64,
    pub attachment_point: Option<u16>,
    pub line_spacing_style: Option<u16>,
    pub line_spacing_factor: Option<u64>,
    pub actual_measurement: Option<u64>,
    pub insert_point: Option<(u64, u64, u64)>,
    pub dimstyle_handle: Option<u64>,
    pub anonymous_block_handle: Option<u64>,
}

/// A linear dimension.
#[derive(Debug)]
pub struct DimLinearEntity {
    pub common: DimensionCommonData,
    pub point13: (u64, u64, u64),
    pub point14: (u64, u64, u64),
    pub point10: (u64, u64, u64),
    pub ext_line_rotation: u64,
    pub dim_rotation: u64,
}

/// The handles of a dimension: the style and block handles before the
/// common handles, or after them, as the layout says. Returns (style,
/// block, layer).
fn read_dimension_handles(reader: &mut BitReader<'_>, header: &CommonEntityHeader, style_before: bool) -> (r: Result<
    (Option<u64>, Option<u64>, u64),
    DwgError,
>)
    requires
        old(reader).wf(),
    ensures
        final(reader).keeps(old(reader)),
        r matches Ok((s, b, _)) ==> style_before ==> s.is_some() && b.is_some(),
        r.is_err() ==> r->Err_0.kind == ErrorKind::Decode,
{
    match read_dimension_handles_exact(reader, header, style_before) {
        Ok(v) => Ok(v),
        Err(_) => Err(DwgError::new(ErrorKind::Decode, "dimension handles cannot be read")),
    }
}

/// The dimension handles where they can be read; otherwise, with
/// `allow_handle_failure`, no style or block handle and the layer from the
/// common handles (0 where those fail too).
fn dimension_handles(
    reader: &mut BitReader<'_>,
    header: &CommonEntityHeader,
    style_before: bool,
    allow_handle_failure: bool,
) -> (r: Result<(Option<u64>, Option<u64>, u64), DwgError>)
    requires
        old(reader).wf(),
    ensures
        final(reader).keeps(old(reader)),
        allow_handle_failure ==> r.is_ok(),
        r matches Ok((s, b, _)) ==> (!allow_handle_failure && style_before) ==> s.is_some() && b.is_some(),
{
    match read_dimension_handles(reader, header, style_before) {
        Ok(v) => Ok(v),
        Err(e) => {
            if !allow_handle_failure {
                return Err(e);
            }
            reader.set_bit_pos(header.obj_size);
            let layer = match parse_common_entity_handles(reader, header) {
                Ok(h) => h.layer,
                Err(_) => 0,
            };
            Ok((None, None, layer))
        },
    }
}

fn read_dimension_handles_exact(reader: &mut BitReader<'_>, header: &CommonEntityHeader, style_before: bool) -> (r: Result<
    (Option<u64>, Option<u64>, u64),
    DwgError,
>)
    requires
        old(reader).wf(),
    ensures
        final(reader).keeps(old(reader)),
        r matches Ok((s, b, _)) ==> style_before ==> s.is_some() && b.is_some(),
{
    reader.set_bit_pos(header.obj_size);
    if style_before {
        let style = read_handle_reference(reader, header.handle)?;
        let block = read_handle_reference(reader, header.handle)?;
        let common = parse_common_entity_handles(reader, header)?;
        Ok((Some(style), Some(block), common.layer))
    } else {
        let common = parse_common_entity_handles(reader, header)?;
        let style = match read_handle_reference(reader, header.handle) {
            Ok(h) => Some(h),
            Err(_) => None,
        };
        let block = match read_handle_reference(reader, header.handle) {
            Ok(h) => Some(h),
            Err(_) => None,
        };
        Ok((style, block, common.layer))
    }
}

/// Where the common dimension block laid out as `v` ends, when every field
/// of it can be read.
pub open spec fn spec_dim_block_end(d: Seq<u8>, p: int, v: DimLinearVariant) -> Option<int> {
    match spec_3bd(d, p) {
 None => None,
 Some((_, q1)) => match spec_rd(d, q1, Endian::Little) {
 None => None,
 Some((_, q2)) => match spec_rd(d, q2, Endian::Little) {
 None => None,
 Some((_, q3)) => match spec_bd(d, q3) {
 None => None,
 Some((_, q4)) => match spec_rc(d, q4) {
 None => None,
 Some((_, q5)) => match spec_tv(d, q5) {
 None => None,
 Some((_, q6)) => match spec_bd(d, q6) {
 None => None,
 Some((_, q7)) => match spec_bd(d, q7) {
 None => None,
 Some((_, q8)) => match spec_bd(d, q8) {
 None => None,
 Some((_, q9)) => match spec_bd(d, q9) {
 None => None,
 Some((_, q10)) => match spec_bd(d, q10) {
 None => None,
 Some((_, q11)) => match spec_bd(d, q11) {
 None => None,
 Some((_, q12)) => if v.has_attachment {
 match spec_bs(d, q12) {
 None => None,
 Some((_, q13)) => if v.has_attachment {
 match spec_bs(d, q13) {
 None => None,
 Some((_, q14)) => if v.has_attachment {
 match spec_bd(d, q14) {
 None => None,
 Some((_, q15)) => if v.has_attachment {
 match spec_bd(d, q15) {
 None => None,
 Some((_, q16)) => if v.has_unknown_flag {
 match spec_b(d, q16) {
 None => None,
 Some((_, q17)) => if v.has_flip_arrow1 {
 match spec_b(d, q17) {
 None => None,
 Some((_, q18)) => if v.has_flip_arrow2 {
 match spec_b(d, q18) {
 None => None,
 Some((_, q19)) => if v.has_point12 {
 match spec_rd(d, q19, Endian::Little) {
 None => None,
 Some((_, q20)) => if v.has_point12 {
 match spec_rd(d, q20, Endian::Little) {
 None => None,
 Some((_, q21)) => Some(q21),
 }
 } else {
 let q21 = q20;
 Some(q21)
 },
 }
 } else {
 let q20 = q19;
 if v.has_point12 {
 match spec_rd(d, q20, Endian::Little) {
 None => None,
 Some((_, q21)) => Some(q21),
 }
 } else {
 let q21 = q20;
 Some(q21)
 }
 },
 }
 } else {
 let q19 = q18;
 if v.has_point12 {
 match spec_rd(d, q19, Endian::Little) {
 None => None,
 Some((_, q20)) => if v.has_point12 {
 match spec_rd(d, q20, Endian::Little) {
 None => None,
 Some((_, q21)) => Some(q21),
 }
 } else {
 let q21 = q20;
 Some(q21)
 },
 }
 } else {
 let q20 = q19;
 if v.has_point12 {
 match spec_rd(d, q20, Endian::Little) {
 None => None,
 Some((_, q21)) => Some(q21),
 }
 } else {
 let q21 = q20;
 Some(q21)
 }
 }
 },
 }
 } else {
 let q18 = q17;
 if v.has_flip_arrow2 {
 match spec_b(d, q18) {
 None => None,
 Some((_, q19)) => if v.has_point12 {
 match spec_rd(d, q19, Endian::Little) {
 None => None,
 Some((_, q20)) => if v.has_point12 {
 match spec_rd(d, q20, Endian::Little) {
 None => None,
 Some((_, q21)) => Some(q21),
 }
 } else {
 let q21 = q20;
 Some(q21)
 },
 }
 } else {
 let q20 = q19;
 if v.has_point12 {
 match spec_rd(d, q20, Endian::Little) {
 None => None,
 Some((_, q21)) => Some(q21),
 }
 } else {
 let q21 = q20;
 Some(q21)
 }
 },
 }
 } else {
 let q19 = q18;
 if v.has_point12 {
 match spec_rd(d, q19, Endian::Little) {
 None => None,
 Some((_, q20)) => if v.has_point12 {
 match spec_rd(d, q20, Endian::Little) {
 None => None,
 Some((_, q21)) => Some(q21),
 }
 } else {
 let q21 = q20;
 Some(q21)
 },
 }
 } else {
 let q20 = q19;
 if v.has_point12 {
 match spec_rd(d, q20, Endian::Little) {
 None => None,
 Some((_, q21)) => Some(q21),
 }
 } else {
 let q21 = q20;
 Some(q21)
 }
 }
 }
 },
 }
 } else {
 let q17 = q16;
 if v.has_flip_arrow1 {
 match spec_b(d, q17) {
 None => None,
 Some((_, q18)) => if v.has_flip_arrow2 {
 match spec_b(d, q18) {
 None => None,
 Some((_, q19)) => if v.has_point12 {
 match spec_rd(d, q19, Endian::Little) {
 None => None,
 Some((_, q20)) => if v.has_point12 {
 match spec_rd(d, q20, Endian::Little) {
 None => None,
 Some((_, q21)) => Some(q21),
 }
 } else {
 let q21 = q20;
 Some(q21)
 },
 }
 } else {
 let q20 = q19;
 if v.has_point12 {
 match spec_rd(d, q20, Endian::Little) {
 None => None,
 Some((_, q21)) => Some(q21),
 }
 } else {
 let q21 = q20;
 Some(q21)
 }
 },
 }
 } else {
 let q19 = q18;
 if v.has_point12 {
 match spec_rd(d, q19, Endian::Little) {
 None => None,
 Some((_, q20)) => if v.has_point12 {
 match spec_rd(d, q20, Endian::Little) {
 None => None,
 Some((_, q21)) => Some(q21),
 }
 } else {
 let q21 = q20;
 Some(q21)
 },
 }
 } else {
 let q20 = q19;
 if v.has_point12 {
 match spec_rd(d, q20, Endian::Little) {
 None => None,
 Some((_, q21)) => Some(q21),
 }
 } else {
 let q21 = q20;
 Some(q21)
 }
 }
 },
 }
 } else {
 let q18 = q17;
 if v.has_flip_arrow2 {
 match spec_b(d, q18) {
 None => None,
 Some((_, q19)) => if v.has_point12 {
 match spec_rd(d, q19, Endian::Little) {
 None => None,
 Some((_, q20)) => if v.has_point12 {
 match spec_rd(d, q20, Endian::Little) {
 None => None,
 Some((_, q21)) => Some(q21),
 }
 } else {
 let q21 = q20;
 Some(q21)
 },
 }
 } else {
 let q20 = q19;
 if v.has_point12 {
 match spec_rd(d, q20, Endian::Little) {
 None => None,
 Some((_, q21)) => Some(q21),
 }
 } else {
 let q21 = q20;
 Some(q21)
 }
 },
 }
 } else {
 let q19 = q18;
 if v.has_point12 {
 match spec_rd(d, q19, Endian::Little) {
 None => None,
 Some((_, q20)) => if v.has_point12 {
 match spec_rd(d, q20, Endian::Little) {
 None => None,
 Some((_, q21)) => Some(q21),
 }
 } else {
 let q21 = q20;
 Some(q21)
 },
 }
 } else {
 let q20 = q19;
 if v.has_point12 {
 match spec_rd(d, q20, Endian::Little) {
 None => None,
 Some((_, q21)) => Some(q21),
 }
 } else {
 let q21 = q20;
 Some(q21)
 }
 }
 }
 }
 },
 }
 } else {
 let q16 = q15;
 if v.has_unknown_flag {
 match spec_b(d, q16) {
 None => None,
 Some((_, q17)) => if v.has_flip_arrow1 {
 match spec_b(d, q17) {
 None => None,
 Some((_, q18)) => if v.has_flip_arrow2 {
 match spec_b(d, q18) {
 None => None,
 Some((_, q19)) => if v.has_point12 {
 match spec_rd(d, q19, Endian::Little) {
 None => None,
 Some((_, q20)) => if v.has_point12 {
 match spec_rd(d, q20, Endian::Little) {
 None => None,
 Some((_, q21)) => Some(q21),
 }
 } else {
 let q21 = q20;
 Some(q21)
 },
 }
 } else {
 let q20 = q19;
 if v.has_point12 {
 match spec_rd(d, q20, Endian::Little) {
 None => None,
 Some((_, q21)) => Some(q21),
 }
 } else {
 let q21 = q20;
 Some(q21)
 }
 },
 }
 } else {
 let q19 = q18;
 if v.has_point12 {
 match spec_rd(d, q19, Endian::Little) {
 None => None,
 Some((_, q20)) => if v.has_point12 {
 match spec_rd(d, q20, Endian::Little) {
 None => None,
 Some((_, q21)) => Some(q21),
 }
 } else {
 let q21 = q20;
 Some(q21)
 },
 }
 } else {
 let q20 = q19;
 if v.has_point12 {
 match spec_rd(d, q20, Endian::Little) {
 None => None,
 Some((_, q21)) => Some(q21),
 }
 } else {
 let q21 = q20;
 Some(q21)
 }
 }
 },
 }
 } else {
 let q18 = q17;
 if v.has_flip_arrow2 {
 match spec_b(d, q18) {
 None => None,
 Some((_, q19)) => if v.has_point12 {
 match spec_rd(d, q19, Endian::Little) {
 None => None,
 Some((_, q20)) => if v.has_point12 {
 match spec_rd(d, q20, Endian::Little) {
 None => None,
 Some((_, q21)) => Some(q21),
 }
 } else {
 let q21 = q20;
 Some(q21)
 },
 }
 } else {
 let q20 = q19;
 if v.has_point12 {
 match spec_rd(d, q20, Endian::Little) {
 None => None,
 Some((_, q21)) => Some(q21),
 }
 } else {
 let q21 = q20;
 Some(q21)
 }
 },
 }
 } else {
 let q19 = q18;
 if v.has_point12 {
 match spec_rd(d, q19, Endian::Little) {
 None => None,
 Some((_, q20)) => if v.has_point12 {
 match spec_rd(d, q20, Endian::Little) {
 None => None,
 Some((_, q21)) => Some(q21),
 }
 } else {
 let q21 = q20;
 Some(q21)
 },
 }
 } else {
 let q20 = q19;
 if v.has_point12 {
 match spec_rd(d, q20, Endian::Little) {
 None => None,
 Some((_, q21)) => Some(q21),
 }
 } else {
 let q21 = q20;
 Some(q21)
 }
 }
 }
 },
 }
 } else {
 let q17 = q16;
 if v.has_flip_arrow1 {
 match spec_b(d, q17) {
 None => None,
 Some((_, q18)) => if v.has_flip_arrow2 {
 match spec_b(d, q18) {
 None => None,
 Some((_, q19)) => if v.has_point12 {
 match spec_rd(d, q19, Endian::Little) {
 None => None,
 Some((_, q20)) => if v.has_point12 {
 match spec_rd(d, q20, Endian::Little) {
 None => None,
 Some((_, q21)) => Some(q21),
 }
 } else {
 let q21 = q20;
 Some(q21)
 },
 }
 } else {
 let q20 = q19;
 if v.has_point12 {
 match spec_rd(d, q20, Endian::Little) {
 None => None,
 Some((_, q21)) => Some(q21),
 }
 } else {
 let q21 = q20;
 Some(q21)
 }
 },
 }
 } else {
 let q19 = q18;
 if v.has_point12 {
 match spec_rd(d, q19, Endian::Little) {
 None => None,
 Some((_, q20)) => if v.has_point12 {
 match spec_rd(d, q20, Endian::Little) {
 None => None,
 Some((_, q21)) => Some(q21),
 }
 } else {
 let q21 = q20;
 Some(q21)
 },
 }
 } else {
 let q20 = q19;
 if v.has_point12 {
 match spec_rd(d, q20, Endian::Little) {
 None => None,
 Some((_, q21)) => Some(q21),
 }
 } else {
 let q21 = q20;
 Some(q21)
 }
 }
 },
 }
 } else {
 let q18 = q17;
 if v.has_flip_arrow2 {
 match spec_b(d, q18) {
 None => None,
 Some((_, q19)) => if v.has_point12 {
 match spec_rd(d, q19, Endian::Little) {
 None => None,
 Some((_, q20)) => if v.has_point12 {
 match spec_rd(d, q20, Endian::Little) {
 None => None,
 Some((_, q21)) => Some(q21),
 }
 } else {
 let q21 = q20;
 Some(q21)
 },
 }
 } else {
 let q20 = q19;
 if v.has_point12 {
 match spec_rd(d, q20, Endian::Little) {
 None => None,
 Some((_, q21)) => Some(q21),
 }
 } else {
 let q21 = q20;
 Some(q21)
 }
 },
 }
 } else {
 let q19 = q18;
 if v.has_point12 {
 match spec_rd(d, q19, Endian::Little) {
 None => None,
 Some((_, q20)) => if v.has_point12 {
 match spec_rd(d, q20, Endian::Little) {
 None => None,
 Some((_, q21)) => Some(q21),
 }
 } else {
 let q21 = q20;
 Some(q21)
 },
 }
 } else {
 let q20 = q19;
 if v.has_point12 {
 match spec_rd(d, q20, Endian::Little) {
 None => None,
 Some((_, q21)) => Some(q21),
 }
 } else {
 let q21 = q20;
 Some(q21)
 }
 }
 }
 }
 }
 },
 }
 } else {
 let q15 = q14;
 if v.has_attachment {
 match spec_bd(d, q15) {
 None => None,
 Some((_, q16)) => if v.has_unknown_flag {
 match spec_b(d, q16) {
 None => None,
 Some((_, q17)) => if v.has_flip_arrow1 {
 match spec_b(d, q17) {
 None => None,
 Some((_, q18)) => if v.has_flip_arrow2 {
 match spec_b(d, q18) {
 None => None,
 Some((_, q19)) => if v.has_point12 {
 match spec_rd(d, q19, Endian::Little) {
 None => None,
 Some((_, q20)) => if v.has_point12 {
 match spec_rd(d, q20, Endian::Little) {
 None => None,
 Some((_, q21)) => Some(q21),
 }
 } else {
 let q21 = q20;
 Some(q21)
 },
 }
 } else {
 let q20 = q19;
 if v.has_point12 {
 match spec_rd(d, q20, Endian::Little) {
 None => None,
 Some((_, q21)) => Some(q21),
 }
 } else {
 let q21 = q20;
 Some(q21)
 }
 },
 }
 } else {
 let q19 = q18;
 if v.has_point12 {
 match spec_rd(d, q19, Endian::Little) {
 None => None,
 Some((_, q20)) => if v.has_point12 {
 match spec_rd(d, q20, Endian::Little) {
 None => None,
 Some((_, q21)) => Some(q21),
 }
 } else {
 let q21 = q20;
 Some(q21)
 },
 }
 } else {
 let q20 = q19;
 if v.has_point12 {
 match spec_rd(d, q20, Endian::Little) {
 None => None,
 Some((_, q21)) => Some(q21),
 }
 } else {
 let q21 = q20;
 Some(q21)
 }
 }
 },
 }
 } else {
 let q18 = q17;
 if v.has_flip_arrow2 {
 match spec_b(d, q18) {
 None => None,
 Some((_, q19)) => if v.has_point12 {
 match spec_rd(d, q19, Endian::Little) {
 None => None,
 Some((_, q20)) => if v.has_point12 {
 match spec_rd(d, q20, Endian::Little) {
 None => None,
 Some((_, q21)) => Some(q21),
 }
 } else {
 let q21 = q20;
 Some(q21)
 },
 }
 } else {
 let q20 = q19;
 if v.has_point12 {
 match spec_rd(d, q20, Endian::Little) {
 None => None,
 Some((_, q21)) => Some(q21),
 }
 } else {
 let q21 = q20;
 Some(q21)
 }
 },
 }
 } else {
 let q19 = q18;
 if v.has_point12 {
 match spec_rd(d, q19, Endian::Little) {
 None => None,
 Some((_, q20)) => if v.has_point12 {
 match spec_rd(d, q20, Endian::Little) {
 None => None,
 Some((_, q21)) => Some(q21),
 }
 } else {
 let q21 = q20;
 Some(q21)
 },
 }
 } else {
 let q20 = q19;
 if v.has_point12 {
 match spec_rd(d, q20, Endian::Little) {
 None => None,
 Some((_, q21)) => Some(q21),
 }
 } else {
 let q21 = q20;
 Some(q21)
 }
 }
 }
 },
 }
 } else {
 let q17 = q16;
 if v.has_flip_arrow1 {
 match spec_b(d, q17) {
 None => None,
 Some((_, q18)) => if v.has_flip_arrow2 {
 match spec_b(d, q18) {
 None => None,
 Some((_, q19)) => if v.has_point12 {
 match spec_rd(d, q19, Endian::Little) {
 None => None,
 Some((_, q20)) => if v.has_point12 {
 match spec_rd(d, q20, Endian::Little) {
 None => None,
 Some((_, q21)) => Some(q21),
 }
 } else {
 let q21 = q20;
 Some(q21)
 },
 }
 } else {
 let q20 = q19;
 if v.has_point12 {
 match spec_rd(d, q20, Endian::Little) {
 None => None,
 Some((_, q21)) => Some(q21),
 }
 } else {
 let q21 = q20;
 Some(q21)
 }
 },
 }
 } else {
 let q19 = q18;
 if v.has_point12 {
 match spec_rd(d, q19, Endian::Little) {
 None => None,
 Some((_, q20)) => if v.has_point12 {
 match spec_rd(d, q20, Endian::Little) {
 None => None,
 Some((_, q21)) => Some(q21),
 }
 } else {
 let q21 = q20;
 Some(q21)
 },
 }
 } else {
 let q20 = q19;
 if v.has_point12 {
 match spec_rd(d, q20, Endian::Little) {
 None => None,
 Some((_, q21)) => Some(q21),
 }
 } else {
 let q21 = q20;
 Some(q21)
 }
 }
 },
 }
 } else {
 let q18 = q17;
 if v.has_flip_arrow2 {
 match spec_b(d, q18) {
 None => None,
 Some((_, q19)) => if v.has_point12 {
 match spec_rd(d, q19, Endian::Little) {
 None => None,
 Some((_, q20)) => if v.has_point12 {
 match spec_rd(d, q20, Endian::Little) {
 None => None,
 Some((_, q21)) => Some(q21),
 }
 } else {
 let q21 = q20;
 Some(q21)
 },
 }
 } else {
 let q20 = q19;
 if v.has_point12 {
 match spec_rd(d, q20, Endian::Little) {
 None => None,
 Some((_, q21)) => Some(q21),
 }
 } else {
 let q21 = q20;
 Some(q21)
 }
 },
 }
 } else {
 let q19 = q18;
 if v.has_point12 {
 match spec_rd(d, q19, Endian::Little) {
 None => None,
 Some((_, q20)) => if v.has_point12 {
 match spec_rd(d, q20, Endian::Little) {
 None => None,
 Some((_, q21)) => Some(q21),
 }
 } else {
 let q21 = q20;
 Some(q21)
 },
 }
 } else {
 let q20 = q19;
 if v.has_point12 {
 match spec_rd(d, q20, Endian::Little) {
 None => None,
 Some((_, q21)) => Some(q21),
 }
 } else {
 let q21 = q20;
 Some(q21)
 }
 }
 }
 }
 },
 }
 } else {
 let q16 = q15;
 if v.has_unknown_flag {
 match spec_b(d, q16) {
 None => None,
 Some((_, q17)) => if v.has_flip_arrow1 {
 match spec_b(d, q17) {
 None => None,
 Some((_, q18)) => if v.has_flip_arrow2 {
 match spec_b(d, q18) {
 None => None,
 Some((_, q19)) => if v.has_point12 {
 match spec_rd(d, q19, Endian::Little) {
 None => None,
 Some((_, q20)) => if v.has_point12 {
 match spec_rd(d, q20, Endian::Little) {
 None => None,
 Some((_, q21)) => Some(q21),
 }
 } else {
 let q21 = q20;
 Some(q21)
 },
 }
 } else {
 let q20 = q19;
 if v.has_point12 {
 match spec_rd(d, q20, Endian::Little) {
 None => None,
 Some((_, q21)) => Some(q21),
 }
 } else {
 let q21 = q20;
 Some(q21)
 }
 },
 }
 } else {
 let q19 = q18;
 if v.has_point12 {
 match spec_rd(d, q19, Endian::Little) {
 None => None,
 Some((_, q20)) => if v.has_point12 {
 match spec_rd(d, q20, Endian::Little) {
 None => None,
 Some((_, q21)) => Some(q21),
 }
 } else {
 let q21 = q20;
 Some(q21)
 },
 }
 } else {
 let q20 = q19;
 if v.has_point12 {
 match spec_rd(d, q20, Endian::Little) {
 None => None,
 Some((_, q21)) => Some(q21),
 }
 } else {
 let q21 = q20;
 Some(q21)
 }
 }
 },
 }
 } else {
 let q18 = q17;
 if v.has_flip_arrow2 {
 match spec_b(d, q18) {
 None => None,
 Some((_, q19)) => if v.has_point12 {
 match spec_rd(d, q19, Endian::Little) {
 None => None,
 Some((_, q20)) => if v.has_point12 {
 match spec_rd(d, q20, Endian::Little) {
 None => None,
 Some((_, q21)) => Some(q21),
 }
 } else {
 let q21 = q20;
 Some(q21)
 },
 }
 } else {
 let q20 = q19;
 if v.has_point12 {
 match spec_rd(d, q20, Endian::Little) {
 None => None,
 Some((_, q21)) => Some(q21),
 }
 } else {
 let q21 = q20;
 Some(q21)
 }
 },
 }
 } else {
 let q19 = q18;
 if v.has_point12 {
 match spec_rd(d, q19, Endian::Little) {
 None => None,
 Some((_, q20)) => if v.has_point12 {
 match spec_rd(d, q20, Endian::Little) {
 None => None,
 Some((_, q21)) => Some(q21),
 }
 } else {
 let q21 = q20;
 Some(q21)
 },
 }
 } else {
 let q20 = q19;
 if v.has_point12 {
 match spec_rd(d, q20, Endian::Little) {
 None => None,
 Some((_, q21)) => Some(q21),
 }
 } else {
 let q21 = q20;
 Some(q21)
 }
 }
 }
 },
 }
 } else {
 let q17 = q16;
 if v.has_flip_arrow1 {
 match spec_b(d, q17) {
 None => None,
 Some((_, q18)) => if v.has_flip_arrow2 {
 match spec_b(d, q18) {
 None => None,
 Some((_, q19)) => if v.has_point12 {
 match spec_rd(d, q19, Endian::Little) {
 None => None,
 Some((_, q20)) => if v.has_point12 {
 match spec_rd(d, q20, Endian::Little) {
 None => None,
 Some((_, q21)) => Some(q21),
 }
 } else {
 let q21 = q20;
 Some(q21)
 },
 }
 } else {
 let q20 = q19;
 if v.has_point12 {
 match spec_rd(d, q20, Endian::Little) {
 None => None,
 Some((_, q21)) => Some(q21),
 }
 } else {
 let q21 = q20;
 Some(q21)
 }
 },
 }
 } else {
 let q19 = q18;
 if v.has_point12 {
 match spec_rd(d, q19, Endian::Little) {
 None => None,
 Some((_, q20)) => if v.has_point12 {
 match spec_rd(d, q20, Endian::Little) {
 None => None,
 Some((_, q21)) => Some(q21),
 }
 } else {
 let q21 = q20;
 Some(q21)
 },
 }
 } else {
 let q20 = q19;
 if v.has_point12 {
 match spec_rd(d, q20, Endian::Little) {
 None => None,
 Some((_, q21)) => Some(q21),
 }
 } else {
 let q21 = q20;
 Some(q21)
 }
 }
 },
 }
 } else {
 let q18 = q17;
 if v.has_flip_arrow2 {
 match spec_b(d, q18) {
 None => None,
 Some((_, q19)) => if v.has_point12 {
 match spec_rd(d, q19, Endian::Little) {
 None => None,
 Some((_, q20)) => if v.has_point12 {
 match spec_rd(d, q20, Endian::Little) {
 None => None,
 Some((_, q21)) => Some(q21),
 }
 } else {
 let q21 = q20;
 Some(q21)
 },
 }
 } else {
 let q20 = q19;
 if v.has_point12 {
 match spec_rd(d, q20, Endian::Little) {
 None => None,
 Some((_, q21)) => Some(q21),
 }
 } else {
 let q21 = q20;
 Some(q21)
 }
 },
 }
 } else {
 let q19 = q18;
 if v.has_point12 {
 match spec_rd(d, q19, Endian::Little) {
 None => None,
 Some((_, q20)) => if v.has_point12 {
 match spec_rd(d, q20, Endian::Little) {
 None => None,
 Some((_, q21)) => Some(q21),
 }
 } else {
 let q21 = q20;
 Some(q21)
 },
 }
 } else {
 let q20 = q19;
 if v.has_point12 {
 match spec_rd(d, q20, Endian::Little) {
 None => None,
 Some((_, q21)) => Some(q21),
 }
 } else {
 let q21 = q20;
 Some(q21)
 }
 }
 }
 }
 }
 }
 },
 }
 } else {
 let q14 = q13;
 if v.has_attachment {
 match spec_bd(d, q14) {
 None => None,
 Some((_, q15)) => if v.has_attachment {
 match spec_bd(d, q15) {
 None => None,
 Some((_, q16)) => if v.has_unknown_flag {
 match spec_b(d, q16) {
 None => None,
 Some((_, q17)) => if v.has_flip_arrow1 {
 match spec_b(d, q17) {
 None => None,
 Some((_, q18)) => if v.has_flip_arrow2 {
 match spec_b(d, q18) {
 None => None,
 Some((_, q19)) => if v.has_point12 {
 match spec_rd(d, q19, Endian::Little) {
 None => None,
 Some((_, q20)) => if v.has_point12 {
 match spec_rd(d, q20, Endian::Little) {
 None => None,
 Some((_, q21)) => Some(q21),
 }
 } else {
 let q21 = q20;
 Some(q21)
 },
 }
 } else {
 let q20 = q19;
 if v.has_point12 {
 match spec_rd(d, q20, Endian::Little) {
 None => None,
 Some((_, q21)) => Some(q21),
 }
 } else {
 let q21 = q20;
 Some(q21)
 }
 },
 }
 } else {
 let q19 = q18;
 if v.has_point12 {
 match spec_rd(d, q19, Endian::Little) {
 None => None,
 Some((_, q20)) => if v.has_point12 {
 match spec_rd(d, q20, Endian::Little) {
 None => None,
 Some((_, q21)) => Some(q21),
 }
 } else {
 let q21 = q20;
 Some(q21)
 },
 }
 } else {
 let q20 = q19;
 if v.has_point12 {
 match spec_rd(d, q20, Endian::Little) {
 None => None,
 Some((_, q21)) => Some(q21),
 }
 } else {
 let q21 = q20;
 Some(q21)
 }
 }
 },
 }
 } else {
 let q18 = q17;
 if v.has_flip_arrow2 {
 match spec_b(d, q18) {
 None => None,
 Some((_, q19)) => if v.has_point12 {
 match spec_rd(d, q19, Endian::Little) {
 None => None,
 Some((_, q20)) => if v.has_point12 {
 match spec_rd(d, q20, Endian::Little) {
 None => None,
 Some((_, q21)) => Some(q21),
 }
 } else {
 let q21 = q20;
 Some(q21)
 },
 }
 } else {
 let q20 = q19;
 if v.has_point12 {
 match spec_rd(d, q20, Endian::Little) {
 None => None,
 Some((_, q21)) => Some(q21),
 }
 } else {
 let q21 = q20;
 Some(q21)
 }
 },
 }
 } else {
 let q19 = q18;
 if v.has_point12 {
 match spec_rd(d, q19, Endian::Little) {
 None => None,
 Some((_, q20)) => if v.has_point12 {
 match spec_rd(d, q20, Endian::Little) {
 None => None,
 Some((_, q21)) => Some(q21),
 }
 } else {
 let q21 = q20;
 Some(q21)
 },
 }
 } else {
 let q20 = q19;
 if v.has_point12 {
 match spec_rd(d, q20, Endian::Little) {
 None => None,
 Some((_, q21)) => Some(q21),
 }
 } else {
 let q21 = q20;
 Some(q21)
 }
 }
 }
 },
 }
 } else {
 let q17 = q16;
 if v.has_flip_arrow1 {
 match spec_b(d, q17) {
 None => None,
 Some((_, q18)) => if v.has_flip_arrow2 {
 match spec_b(d, q18) {
 None => None,
 Some((_, q19)) => if v.has_point12 {
 match spec_rd(d, q19, Endian::Little) {
 None => None,
 Some((_, q20)) => if v.has_point12 {
 match spec_rd(d, q20, Endian::Little) {
 None => None,
 Some((_, q21)) => Some(q21),
 }
 } else {
 let q21 = q20;
 Some(q21)
 },
 }
 } else {
 let q20 = q19;
 if v.has_point12 {
 match spec_rd(d, q20, Endian::Little) {
 None => None,
 Some((_, q21)) => Some(q21),
 }
 } else {
 let q21 = q20;
 Some(q21)
 }
 },
 }
 } else {
 let q19 = q18;
 if v.has_point12 {
 match spec_rd(d, q19, Endian::Little) {
 None => None,
 Some((_, q20)) => if v.has_point12 {
 match spec_rd(d, q20, Endian::Little) {
 None => None,
 Some((_, q21)) => Some(q21),
 }
 } else {
 let q21 = q20;
 Some(q21)
 },
 }
 } else {
 let q20 = q19;
 if v.has_point12 {
 match spec_rd(d, q20, Endian::Little) {
 None => None,
 Some((_, q21)) => Some(q21),
 }
 } else {
 let q21 = q20;
 Some(q21)
 }
 }
 },
 }
 } else {
 let q18 = q17;
 if v.has_flip_arrow2 {
 match spec_b(d, q18) {
 None => None,
 Some((_, q19)) => if v.has_point12 {
 match spec_rd(d, q19, Endian::Little) {
 None => None,
 Some((_, q20)) => if v.has_point12 {
 match spec_rd(d, q20, Endian::Little) {
 None => None,
 Some((_, q21)) => Some(q21),
 }
 } else {
 let q21 = q20;
 Some(q21)
 },
 }
 } else {
 let q20 = q19;
 if v.has_point12 {
 match spec_rd(d, q20, Endian::Little) {
 None => None,
 Some((_, q21)) => Some(q21),
 }
 } else {
 let q21 = q20;
 Some(q21)
 }
 },
 }
 } else {
 let q19 = q18;
 if v.has_point12 {
 match spec_rd(d, q19, Endian::Little) {
 None => None,
 Some((_, q20)) => if v.has_point12 {
 match spec_rd(d, q20, Endian::Little) {
 None => None,
 Some((_, q21)) => Some(q21),
 }
 } else {
 let q21 = q20;
 Some(q21)
 },
 }
 } else {
 let q20 = q19;
 if v.has_point12 {
 match spec_rd(d, q20, Endian::Little) {
 None => None,
 Some((_, q21)) => Some(q21),
 }
 } else {
 let q21 = q20;
 Some(q21)
 }
 }
 }
 }
 },
 }
 } else {
 let q16 = q15;
 if v.has_unknown_flag {
 match spec_b(d, q16) {
 None => None,
 Some((_, q17)) => if v.has_flip_arrow1 {
 match spec_b(d, q17) {
 None => None,
 Some((_, q18)) => if v.has_flip_arrow2 {
 match spec_b(d, q18) {
 None => None,
 Some((_, q19)) => if v.has_point12 {
 match spec_rd(d, q19, Endian::Little) {
 None => None,
 Some((_, q20)) => if v.has_point12 {
 match spec_rd(d, q20, Endian::Little) {
 None => None,
 Some((_, q21)) => Some(q21),
 }
 } else {
 let q21 = q20;
 Some(q21)
 },
 }
 } else {
 let q20 = q19;
 if v.has_point12 {
 match spec_rd(d, q20, Endian::Little) {
 None => None,
 Some((_, q21)) => Some(q21),
 }
 } else {
 let q21 = q20;
 Some(q21)
 }
 },
 }
 } else {
 let q19 = q18;
 if v.has_point12 {
 match spec_rd(d, q19, Endian::Little) {
 None => None,
 Some((_, q20)) => if v.has_point12 {
 match spec_rd(d, q20, Endian::Little) {
 None => None,
 Some((_, q21)) => Some(q21),
 }
 } else {
 let q21 = q20;
 Some(q21)
 },
 }
 } else {
 let q20 = q19;
 if v.has_point12 {
 match spec_rd(d, q20, Endian::Little) {
 None => None,
 Some((_, q21)) => Some(q21),
 }
 } else {
 let q21 = q20;
 Some(q21)
 }
 }
 },
 }
 } else {
 let q18 = q17;
 if v.has_flip_arrow2 {
 match spec_b(d, q18) {
 None => None,
 Some((_, q19)) => if v.has_point12 {
 match spec_rd(d, q19, Endian::Little) {
 None => None,
 Some((_, q20)) => if v.has_point12 {
 match spec_rd(d, q20, Endian::Little) {
 None => None,
 Some((_, q21)) => Some(q21),
 }
 } else {
 let q21 = q20;
 Some(q21)
 },
 }
 } else {
 let q20 = q19;
 if v.has_point12 {
 match spec_rd(d, q20, Endian::Little) {
 None => None,
 Some((_, q21)) => Some(q21),
 }
 } else {
 let q21 = q20;
 Some(q21)
 }
 },
 }
 } else {
 let q19 = q18;
 if v.has_point12 {
 match spec_rd(d, q19, Endian::Little) {
 None => None,
 Some((_, q20)) => if v.has_point12 {
 match spec_rd(d, q20, Endian::Little) {
 None => None,
 Some((_, q21)) => Some(q21),
 }
 } else {
 let q21 = q20;
 Some(q21)
 },
 }
 } else {
 let q20 = q19;
 if v.has_point12 {
 match spec_rd(d, q20, Endian::Little) {
 None => None,
 Some((_, q21)) => Some(q21),
 }
 } else {
 let q21 = q20;
 Some(q21)
 }
 }
 }
 },
 }
 } else {
 let q17 = q16;
 if v.has_flip_arrow1 {
 match spec_b(d, q17) {
 None => None,
 Some((_, q18)) => if v.has_flip_arrow2 {
 match spec_b(d, q18) {
 None => None,
 Some((_, q19)) => if v.has_point12 {
 match spec_rd(d, q19, Endian::Little) {
 None => None,
 Some((_, q20)) => if v.has_point12 {
 match spec_rd(d, q20, Endian::Little) {
 None => None,
 Some((_, q21)) => Some(q21),
 }
 } else {
 let q21 = q20;
 Some(q21)
 },
 }
 } else {
 let q20 = q19;
 if v.has_point12 {
 match spec_rd(d, q20, Endian::Little) {
 None => None,
 Some((_, q21)) => Some(q21),
 }
 } else {
 let q21 = q20;
 Some(q21)
 }
 },
 }
 } else {
 let q19 = q18;
 if v.has_point12 {
 match spec_rd(d, q19, Endian::Little) {
 None => None,
 Some((_, q20)) => if v.has_point12 {
 match spec_rd(d, q20, Endian::Little) {
 None => None,
 Some((_, q21)) => Some(q21),
 }
 } else {
 let q21 = q20;
 Some(q21)
 },
 }
 } else {
 let q20 = q19;
 if v.has_point12 {
 match spec_rd(d, q20, Endian::Little) {
 None => None,
 Some((_, q21)) => Some(q21),
 }
 } else {
 let q21 = q20;
 Some(q21)
 }
 }
 },
 }
 } else {
 let q18 = q17;
 if v.has_flip_arrow2 {
 match spec_b(d, q18) {
 None => None,
 Some((_, q19)) => if v.has_point12 {
 match spec_rd(d, q19, Endian::Little) {
 None => None,
 Some((_, q20)) => if v.has_point12 {
 match spec_rd(d, q20, Endian::Little) {
 None => None,
 Some((_, q21)) => Some(q21),
 }
 } else {
 let q21 = q20;
 Some(q21)
 },
 }
 } else {
 let q20 = q19;
 if v.has_point12 {
 match spec_rd(d, q20, Endian::Little) {
 None => None,
 Some((_, q21)) => Some(q21),
 }
 } else {
 let q21 = q20;
 Some(q21)
 }
 },
 }
 } else {
 let q19 = q18;
 if v.has_point12 {
 match spec_rd(d, q19, Endian::Little) {
 None => None,
 Some((_, q20)) => if v.has_point12 {
 match spec_rd(d, q20, Endian::Little) {
 None => None,
 Some((_, q21)) => Some(q21),
 }
 } else {
 let q21 = q20;
 Some(q21)
 },
 }
 } else {
 let q20 = q19;
 if v.has_point12 {
 match spec_rd(d, q20, Endian::Little) {
 None => None,
 Some((_, q21)) => Some(q21),
 }
 } else {
 let q21 = q20;
 Some(q21)
 }
 }
 }
 }
 }
 },
 }
 } else {
 let q15 = q14;
 if v.has_attachment {
 match spec_bd(d, q15) {
 None => None,
 Some((_, q16)) => if v.has_unknown_flag {
 match spec_b(d, q16) {
 None => None,
 Some((_, q17)) => if v.has_flip_arrow1 {
 match spec_b(d, q17) {
 None => None,
 Some((_, q18)) => if v.has_flip_arrow2 {
 match spec_b(d, q18) {
 None => None,
 Some((_, q19)) => if v.has_point12 {
 match spec_rd(d, q19, Endian::Little) {
 None => None,
 Some((_, q20)) => if v.has_point12 {
 match spec_rd(d, q20, Endian::Little) {
 None => None,
 Some((_, q21)) => Some(q21),
 }
 } else {
 let q21 = q20;
 Some(q21)
 },
 }
 } else {
 let q20 = q19;
 if v.has_point12 {
 match spec_rd(d, q20, Endian::Little) {
 None => None,
 Some((_, q21)) => Some(q21),
 }
 } else {
 let q21 = q20;
 Some(q21)
 }
 },
 }
 } else {
 let q19 = q18;
 if v.has_point12 {
 match spec_rd(d, q19, Endian::Little) {
 None => None,
 Some((_, q20)) => if v.has_point12 {
 match spec_rd(d, q20, Endian::Little) {
 None => None,
 Some((_, q21)) => Some(q21),
 }
 } else {
 let q21 = q20;
 Some(q21)
 },
 }
 } else {
 let q20 = q19;
 if v.has_point12 {
 match spec_rd(d, q20, Endian::Little) {
 None => None,
 Some((_, q21)) => Some(q21),
 }
 } else {
 let q21 = q20;
 Some(q21)
 }
 }
 },
 }
 } else {
 let q18 = q17;
 if v.has_flip_arrow2 {
 match spec_b(d, q18) {
 None => None,
 Some((_, q19)) => if v.has_point12 {
 match spec_rd(d, q19, Endian::Little) {
 None => None,
 Some((_, q20)) => if v.has_point12 {
 match spec_rd(d, q20, Endian::Little) {
 None => None,
 Some((_, q21)) => Some(q21),
 }
 } else {
 let q21 = q20;
 Some(q21)
 },
 }
 } else {
 let q20 = q19;
 if v.has_point12 {
 match spec_rd(d, q20, Endian::Little) {
 None => None,
 Some((_, q21)) => Some(q21),
 }
 } else {
 let q21 = q20;
 Some(q21)
 }
 },
 }
 } else {
 let q19 = q18;
 if v.has_point12 {
 match spec_rd(d, q19, Endian::Little) {
 None => None,
 Some((_, q20)) => if v.has_point12 {
 match spec_rd(d, q20, Endian::Little) {
 None => None,
 Some((_, q21)) => Some(q21),
 }
 } else {
 let q21 = q20;
 Some(q21)
 },
 }
 } else {
 let q20 = q19;
 if v.has_point12 {
 match spec_rd(d, q20, Endian::Little) {
 None => None,
 Some((_, q21)) => Some(q21),
 }
 } else {
 let q21 = q20;
 Some(q21)
 }
 }
 }
 },
 }
 } else {
 let q17 = q16;
 if v.has_flip_arrow1 {
 match spec_b(d, q17) {
 None => None,
 Some((_, q18)) => if v.has_flip_arrow2 {
 match spec_b(d, q18) {
 None => None,
 Some((_, q19)) => if v.has_point12 {
 match spec_rd(d, q19, Endian::Little) {
 None => None,
 Some((_, q20)) => if v.has_point12 {
 match spec_rd(d, q20, Endian::Little) {
 None => None,
 Some((_, q21)) => Some(q21),
 }
 } else {
 let q21 = q20;
 Some(q21)
 },
 }
 } else {
 let q20 = q19;
 if v.has_point12 {
 match spec_rd(d, q20, Endian::Little) {
 None => None,
 Some((_, q21)) => Some(q21),
 }
 } else {
 let q21 = q20;
 Some(q21)
 }
 },
 }
 } else {
 let q19 = q18;
 if v.has_point12 {
 match spec_rd(d, q19, Endian::Little) {
 None => None,
 Some((_, q20)) => if v.has_point12 {
 match spec_rd(d, q20, Endian::Little) {
 None => None,
 Some((_, q21)) => Some(q21),
 }
 } else {
 let q21 = q20;
 Some(q21)
 },
 }
 } else {
 let q20 = q19;
 if v.has_point12 {
 match spec_rd(d, q20, Endian::Little) {
 None => None,
 Some((_, q21)) => Some(q21),
 }
 } else {
 let q21 = q20;
 Some(q21)
 }
 }
 },
 }
 } else {
 let q18 = q17;
 if v.has_flip_arrow2 {
 match spec_b(d, q18) {
 None => None,
 Some((_, q19)) => if v.has_point12 {
 match spec_rd(d, q19, Endian::Little) {
 None => None,
 Some((_, q20)) => if v.has_point12 {
 match spec_rd(d, q20, Endian::Little) {
 None => None,
 Some((_, q21)) => Some(q21),
 }
 } else {
 let q21 = q20;
 Some(q21)
 },
 }
 } else {
 let q20 = q19;
 if v.has_point12 {
 match spec_rd(d, q20, Endian::Little) {
 None => None,
 Some((_, q21)) => Some(q21),
 }
 } else {
 let q21 = q20;
 Some(q21)
 }
 },
 }
 } else {
 let q19 = q18;
 if v.has_point12 {
 match spec_rd(d, q19, Endian::Little) {
 None => None,
 Some((_, q20)) => if v.has_point12 {
 match spec_rd(d, q20, Endian::Little) {
 None => None,
 Some((_, q21)) => Some(q21),
 }
 } else {
 let q21 = q20;
 Some(q21)
 },
 }
 } else {
 let q20 = q19;
 if v.has_point12 {
 match spec_rd(d, q20, Endian::Little) {
 None => None,
 Some((_, q21)) => Some(q21),
 }
 } else {
 let q21 = q20;
 Some(q21)
 }
 }
 }
 }
 },
 }
 } else {
 let q16 = q15;
 if v.has_unknown_flag {
 match spec_b(d, q16) {
 None => None,
 Some((_, q17)) => if v.has_flip_arrow1 {
 match spec_b(d, q17) {
 None => None,
 Some((_, q18)) => if v.has_flip_arrow2 {
 match spec_b(d, q18) {
 None => None,
 Some((_, q19)) => if v.has_point12 {
 match spec_rd(d, q19, Endian::Little) {
 None => None,
 Some((_, q20)) => if v.has_point12 {
 match spec_rd(d, q20, Endian::Little) {
 None => None,
 Some((_, q21)) => Some(q21),
 }
 } else {
 let q21 = q20;
 Some(q21)
 },
 }
 } else {
 let q20 = q19;
 if v.has_point12 {
 match spec_rd(d, q20, Endian::Little) {
 None => None,
 Some((_, q21)) => Some(q21),
 }
 } else {
 let q21 = q20;
 Some(q21)
 }
 },
 }
 } else {
 let q19 = q18;
 if v.has_point12 {
 match spec_rd(d, q19, Endian::Little) {
 None => None,
 Some((_, q20)) => if v.has_point12 {
 match spec_rd(d, q20, Endian::Little) {
 None => None,
 Some((_, q21)) => Some(q21),
 }
 } else {
 let q21 = q20;
 Some(q21)
 },
 }
 } else {
 let q20 = q19;
 if v.has_point12 {
 match spec_rd(d, q20, Endian::Little) {
 None => None,
 Some((_, q21)) => Some(q21),
 }
 } else {
 let q21 = q20;
 Some(q21)
 }
 }
 },
 }
 } else {
 let q18 = q17;
 if v.has_flip_arrow2 {
 match spec_b(d, q18) {
 None => None,
 Some((_, q19)) => if v.has_point12 {
 match spec_rd(d, q19, Endian::Little) {
 None => None,
 Some((_, q20)) => if v.has_point12 {
 match spec_rd(d, q20, Endian::Little) {
 None => None,
 Some((_, q21)) => Some(q21),
 }
 } else {
 let q21 = q20;
 Some(q21)
 },
 }
 } else {
 let q20 = q19;
 if v.has_point12 {
 match spec_rd(d, q20, Endian::Little) {
 None => None,
 Some((_, q21)) => Some(q21),
 }
 } else {
 let q21 = q20;
 Some(q21)
 }
 },
 }
 } else {
 let q19 = q18;
 if v.has_point12 {
 match spec_rd(d, q19, Endian::Little) {
 None => None,
 Some((_, q20)) => if v.has_point12 {
 match spec_rd(d, q20, Endian::Little) {
 None => None,
 Some((_, q21)) => Some(q21),
 }
 } else {
 let q21 = q20;
 Some(q21)
 },
 }
 } else {
 let q20 = q19;
 if v.has_point12 {
 match spec_rd(d, q20, Endian::Little) {
 None => None,
 Some((_, q21)) => Some(q21),
 }
 } else {
 let q21 = q20;
 Some(q21)
 }
 }
 }
 },
 }
 } else {
 let q17 = q16;
 if v.has_flip_arrow1 {
 match spec_b(d, q17) {
 None => None,
 Some((_, q18)) => if v.has_flip_arrow2 {
 match spec_b(d, q18) {
 None => None,
 Some((_, q19)) => if v.has_point12 {
 match spec_rd(d, q19, Endian::Little) {
 None => None,
 Some((_, q20)) => if v.has_point12 {
 match spec_rd(d, q20, Endian::Little) {
 None => None,
 Some((_, q21)) => Some(q21),
 }
 } else {
 let q21 = q20;
 Some(q21)
 },
 }
 } else {
 let q20 = q19;
 if v.has_point12 {
 match spec_rd(d, q20, Endian::Little) {
 None => None,
 Some((_, q21)) => Some(q21),
 }
 } else {
 let q21 = q20;
 Some(q21)
 }
 },
 }
 } else {
 let q19 = q18;
 if v.has_point12 {
 match spec_rd(d, q19, Endian::Little) {
 None => None,
 Some((_, q20)) => if v.has_point12 {
 match spec_rd(d, q20, Endian::Little) {
 None => None,
 Some((_, q21)) => Some(q21),
 }
 } else {
 let q21 = q20;
 Some(q21)
 },
 }
 } else {
 let q20 = q19;
 if v.has_point12 {
 match spec_rd(d, q20, Endian::Little) {
 None => None,
 Some((_, q21)) => Some(q21),
 }
 } else {
 let q21 = q20;
 Some(q21)
 }
 }
 },
 }
 } else {
 let q18 = q17;
 if v.has_flip_arrow2 {
 match spec_b(d, q18) {
 None => None,
 Some((_, q19)) => if v.has_point12 {
 match spec_rd(d, q19, Endian::Little) {
 None => None,
 Some((_, q20)) => if v.has_point12 {
 match spec_rd(d, q20, Endian::Little) {
 None => None,
 Some((_, q21)) => Some(q21),
 }
 } else {
 let q21 = q20;
 Some(q21)
 },
 }
 } else {
 let q20 = q19;
 if v.has_point12 {
 match spec_rd(d, q20, Endian::Little) {
 None => None,
 Some((_, q21)) => Some(q21),
 }
 } else {
 let q21 = q20;
 Some(q21)
 }
 },
 }
 } else {
 let q19 = q18;
 if v.has_point12 {
 match spec_rd(d, q19, Endian::Little) {
 None => None,
 Some((_, q20)) => if v.has_point12 {
 match spec_rd(d, q20, Endian::Little) {
 None => None,
 Some((_, q21)) => Some(q21),
 }
 } else {
 let q21 = q20;
 Some(q21)
 },
 }
 } else {
 let q20 = q19;
 if v.has_point12 {
 match spec_rd(d, q20, Endian::Little) {
 None => None,
 Some((_, q21)) => Some(q21),
 }
 } else {
 let q21 = q20;
 Some(q21)
 }
 }
 }
 }
 }
 }
 }
 },
 }
 } else {
 let q13 = q12;
 if v.has_attachment {
 match spec_bs(d, q13) {
 None => None,
 Some((_, q14)) => if v.has_attachment {
 match spec_bd(d, q14) {
 None => None,
 Some((_, q15)) => if v.has_attachment {
 match spec_bd(d, q15) {
 None => None,
 Some((_, q16)) => if v.has_unknown_flag {
 match spec_b(d, q16) {
 None => None,
 Some((_, q17)) => if v.has_flip_arrow1 {
 match spec_b(d, q17) {
 None => None,
 Some((_, q18)) => if v.has_flip_arrow2 {
 match spec_b(d, q18) {
 None => None,
 Some((_, q19)) => if v.has_point12 {
 match spec_rd(d, q19, Endian::Little) {
 None => None,
 Some((_, q20)) => if v.has_point12 {
 match spec_rd(d, q20, Endian::Little) {
 None => None,
 Some((_, q21)) => Some(q21),
 }
 } else {
 let q21 = q20;
 Some(q21)
 },
 }
 } else {
 let q20 = q19;
 if v.has_point12 {
 match spec_rd(d, q20, Endian::Little) {
 None => None,
 Some((_, q21)) => Some(q21),
 }
 } else {
 let q21 = q20;
 Some(q21)
 }
 },
 }
 } else {
 let q19 = q18;
 if v.has_point12 {
 match spec_rd(d, q19, Endian::Little) {
 None => None,
 Some((_, q20)) => if v.has_point12 {
 match spec_rd(d, q20, Endian::Little) {
 None => None,
 Some((_, q21)) => Some(q21),
 }
 } else {
 let q21 = q20;
 Some(q21)
 },
 }
 } else {
 let q20 = q19;
 if v.has_point12 {
 match spec_rd(d, q20, Endian::Little) {
 None => None,
 Some((_, q21)) => Some(q21),
 }
 } else {
 let q21 = q20;
 Some(q21)
 }
 }
 },
 }
 } else {
 let q18 = q17;
 if v.has_flip_arrow2 {
 match spec_b(d, q18) {
 None => None,
 Some((_, q19)) => if v.has_point12 {
 match spec_rd(d, q19, Endian::Little) {
 None => None,
 Some((_, q20)) => if v.has_point12 {
 match spec_rd(d, q20, Endian::Little) {
 None => None,
 Some((_, q21)) => Some(q21),
 }
 } else {
 let q21 = q20;
 Some(q21)
 },
 }
 } else {
 let q20 = q19;
 if v.has_point12 {
 match spec_rd(d, q20, Endian::Little) {
 None => None,
 Some((_, q21)) => Some(q21),
 }
 } else {
 let q21 = q20;
 Some(q21)
 }
 },
 }
 } else {
 let q19 = q18;
 if v.has_point12 {
 match spec_rd(d, q19, Endian::Little) {
 None => None,
 Some((_, q20)) => if v.has_point12 {
 match spec_rd(d, q20, Endian::Little) {
 None => None,
 Some((_, q21)) => Some(q21),
 }
 } else {
 let q21 = q20;
 Some(q21)
 },
 }
 } else {
 let q20 = q19;
 if v.has_point12 {
 match spec_rd(d, q20, Endian::Little) {
 None => None,
 Some((_, q21)) => Some(q21),
 }
 } else {
 let q21 = q20;
 Some(q21)
 }
 }
 }
 },
 }
 } else {
 let q17 = q16;
 if v.has_flip_arrow1 {
 match spec_b(d, q17) {
 None => None,
 Some((_, q18)) => if v.has_flip_arrow2 {
 match spec_b(d, q18) {
 None => None,
 Some((_, q19)) => if v.has_point12 {
 match spec_rd(d, q19, Endian::Little) {
 None => None,
 Some((_, q20)) => if v.has_point12 {
 match spec_rd(d, q20, Endian::Little) {
 None => None,
 Some((_, q21)) => Some(q21),
 }
 } else {
 let q21 = q20;
 Some(q21)
 },
 }
 } else {
 let q20 = q19;
 if v.has_point12 {
 match spec_rd(d, q20, Endian::Little) {
 None => None,
 Some((_, q21)) => Some(q21),
 }
 } else {
 let q21 = q20;
 Some(q21)
 }
 },
 }
 } else {
 let q19 = q18;
 if v.has_point12 {
 match spec_rd(d, q19, Endian::Little) {
 None => None,
 Some((_, q20)) => if v.has_point12 {
 match spec_rd(d, q20, Endian::Little) {
 None => None,
 Some((_, q21)) => Some(q21),
 }
 } else {
 let q21 = q20;
 Some(q21)
 },
 }
 } else {
 let q20 = q19;
 if v.has_point12 {
 match spec_rd(d, q20, Endian::Little) {
 None => None,
 Some((_, q21)) => Some(q21),
 }
 } else {
 let q21 = q20;
 Some(q21)
 }
 }
 },
 }
 } else {
 let q18 = q17;
 if v.has_flip_arrow2 {
 match spec_b(d, q18) {
 None => None,
 Some((_, q19)) => if v.has_point12 {
 match spec_rd(d, q19, Endian::Little) {
 None => None,
 Some((_, q20)) => if v.has_point12 {
 match spec_rd(d, q20, Endian::Little) {
 None => None,
 Some((_, q21)) => Some(q21),
 }
 } else {
 let q21 = q20;
 Some(q21)
 },
 }
 } else {
 let q20 = q19;
 if v.has_point12 {
 match spec_rd(d, q20, Endian::Little) {
 None => None,
 Some((_, q21)) => Some(q21),
 }
 } else {
 let q21 = q20;
 Some(q21)
 }
 },
 }
 } else {
 let q19 = q18;
 if v.has_point12 {
 match spec_rd(d, q19, Endian::Little) {
 None => None,
 Some((_, q20)) => if v.has_point12 {
 match spec_rd(d, q20, Endian::Little) {
 None => None,
 Some((_, q21)) => Some(q21),
 }
 } else {
 let q21 = q20;
 Some(q21)
 },
 }
 } else {
 let q20 = q19;
 if v.has_point12 {
 match spec_rd(d, q20, Endian::Little) {
 None => None,
 Some((_, q21)) => Some(q21),
 }
 } else {
 let q21 = q20;
 Some(q21)
 }
 }
 }
 }
 },
 }
 } else {
 let q16 = q15;
 if v.has_unknown_flag {
 match spec_b(d, q16) {
 None => None,
 Some((_, q17)) => if v.has_flip_arrow1 {
 match spec_b(d, q17) {
 None => None,
 Some((_, q18)) => if v.has_flip_arrow2 {
 match spec_b(d, q18) {
 None => None,
 Some((_, q19)) => if v.has_point12 {
 match spec_rd(d, q19, Endian::Little) {
 None => None,
 Some((_, q20)) => if v.has_point12 {
 match spec_rd(d, q20, Endian::Little) {
 None => None,
 Some((_, q21)) => Some(q21),
 }
 } else {
 let q21 = q20;
 Some(q21)
 },
 }
 } else {
 let q20 = q19;
 if v.has_point12 {
 match spec_rd(d, q20, Endian::Little) {
 None => None,
 Some((_, q21)) => Some(q21),
 }
 } else {
 let q21 = q20;
 Some(q21)
 }
 },
 }
 } else {
 let q19 = q18;
 if v.has_point12 {
 match spec_rd(d, q19, Endian::Little) {
 None => None,
 Some((_, q20)) => if v.has_point12 {
 match spec_rd(d, q20, Endian::Little) {
 None => None,
 Some((_, q21)) => Some(q21),
 }
 } else {
 let q21 = q20;
 Some(q21)
 },
 }
 } else {
 let q20 = q19;
 if v.has_point12 {
 match spec_rd(d, q20, Endian::Little) {
 None => None,
 Some((_, q21)) => Some(q21),
 }
 } else {
 let q21 = q20;
 Some(q21)
 }
 }
 },
 }
 } else {
 let q18 = q17;
 if v.has_flip_arrow2 {
 match spec_b(d, q18) {
 None => None,
 Some((_, q19)) => if v.has_point12 {
 match spec_rd(d, q19, Endian::Little) {
 None => None,
 Some((_, q20)) => if v.has_point12 {
 match spec_rd(d, q20, Endian::Little) {
 None => None,
 Some((_, q21)) => Some(q21),
 }
 } else {
 let q21 = q20;
 Some(q21)
 },
 }
 } else {
 let q20 = q19;
 if v.has_point12 {
 match spec_rd(d, q20, Endian::Little) {
 None => None,
 Some((_, q21)) => Some(q21),
 }
 } else {
 let q21 = q20;
 Some(q21)
 }
 },
 }
 } else {
 let q19 = q18;
 if v.has_point12 {
 match spec_rd(d, q19, Endian::Little) {
 None => None,
 Some((_, q20)) => if v.has_point12 {
 match spec_rd(d, q20, Endian::Little) {
 None => None,
 Some((_, q21)) => Some(q21),
 }
 } else {
 let q21 = q20;
 Some(q21)
 },
 }
 } else {
 let q20 = q19;
 if v.has_point12 {
 match spec_rd(d, q20, Endian::Little) {
 None => None,
 Some((_, q21)) => Some(q21),
 }
 } else {
 let q21 = q20;
 Some(q21)
 }
 }
 }
 },
 }
 } else {
 let q17 = q16;
 if v.has_flip_arrow1 {
 match spec_b(d, q17) {
 None => None,
 Some((_, q18)) => if v.has_flip_arrow2 {
 match spec_b(d, q18) {
 None => None,
 Some((_, q19)) => if v.has_point12 {
 match spec_rd(d, q19, Endian::Little) {
 None => None,
 Some((_, q20)) => if v.has_point12 {
 match spec_rd(d, q20, Endian::Little) {
 None => None,
 Some((_, q21)) => Some(q21),
 }
 } else {
 let q21 = q20;
 Some(q21)
 },
 }
 } else {
 let q20 = q19;
 if v.has_point12 {
 match spec_rd(d, q20, Endian::Little) {
 None => None,
 Some((_, q21)) => Some(q21),
 }
 } else {
 let q21 = q20;
 Some(q21)
 }
 },
 }
 } else {
 let q19 = q18;
 if v.has_point12 {
 match spec_rd(d, q19, Endian::Little) {
 None => None,
 Some((_, q20)) => if v.has_point12 {
 match spec_rd(d, q20, Endian::Little) {
 None => None,
 Some((_, q21)) => Some(q21),
 }
 } else {
 let q21 = q20;
 Some(q21)
 },
 }
 } else {
 let q20 = q19;
 if v.has_point12 {
 match spec_rd(d, q20, Endian::Little) {
 None => None,
 Some((_, q21)) => Some(q21),
 }
 } else {
 let q21 = q20;
 Some(q21)
 }
 }
 },
 }
 } else {
 let q18 = q17;
 if v.has_flip_arrow2 {
 match spec_b(d, q18) {
 None => None,
 Some((_, q19)) => if v.has_point12 {
 match spec_rd(d, q19, Endian::Little) {
 None => None,
 Some((_, q20)) => if v.has_point12 {
 match spec_rd(d, q20, Endian::Little) {
 None => None,
 Some((_, q21)) => Some(q21),
 }
 } else {
 let q21 = q20;
 Some(q21)
 },
 }
 } else {
 let q20 = q19;
 if v.has_point12 {
 match spec_rd(d, q20, Endian::Little) {
 None => None,
 Some((_, q21)) => Some(q21),
 }
 } else {
 let q21 = q20;
 Some(q21)
 }
 },
 }
 } else {
 let q19 = q18;
 if v.has_point12 {
 match spec_rd(d, q19, Endian::Little) {
 None => None,
 Some((_, q20)) => if v.has_point12 {
 match spec_rd(d, q20, Endian::Little) {
 None => None,
 Some((_, q21)) => Some(q21),
 }
 } else {
 let q21 = q20;
 Some(q21)
 },
 }
 } else {
 let q20 = q19;
 if v.has_point12 {
 match spec_rd(d, q20, Endian::Little) {
 None => None,
 Some((_, q21)) => Some(q21),
 }
 } else {
 let q21 = q20;
 Some(q21)
 }
 }
 }
 }
 }
 },
 }
 } else {
 let q15 = q14;
 if v.has_attachment {
 match spec_bd(d, q15) {
 None => None,
 Some((_, q16)) => if v.has_unknown_flag {
 match spec_b(d, q16) {
 None => None,
 Some((_, q17)) => if v.has_flip_arrow1 {
 match spec_b(d, q17) {
 None => None,
 Some((_, q18)) => if v.has_flip_arrow2 {
 match spec_b(d, q18) {
 None => None,
 Some((_, q19)) => if v.has_point12 {
 match spec_rd(d, q19, Endian::Little) {
 None => None,
 Some((_, q20)) => if v.has_point12 {
 match spec_rd(d, q20, Endian::Little) {
 None => None,
 Some((_, q21)) => Some(q21),
 }
 } else {
 let q21 = q20;
 Some(q21)
 },
 }
 } else {
 let q20 = q19;
 if v.has_point12 {
 match spec_rd(d, q20, Endian::Little) {
 None => None,
 Some((_, q21)) => Some(q21),
 }
 } else {
 let q21 = q20;
 Some(q21)
 }
 },
 }
 } else {
 let q19 = q18;
 if v.has_point12 {
 match spec_rd(d, q19, Endian::Little) {
 None => None,
 Some((_, q20)) => if v.has_point12 {
 match spec_rd(d, q20, Endian::Little) {
 None => None,
 Some((_, q21)) => Some(q21),
 }
 } else {
 let q21 = q20;
 Some(q21)
 },
 }
 } else {
 let q20 = q19;
 if v.has_point12 {
 match spec_rd(d, q20, Endian::Little) {
 None => None,
 Some((_, q21)) => Some(q21),
 }
 } else {
 let q21 = q20;
 Some(q21)
 }
 }
 },
 }
 } else {
 let q18 = q17;
 if v.has_flip_arrow2 {
 match spec_b(d, q18) {
 None => None,
 Some((_, q19)) => if v.has_point12 {
 match spec_rd(d, q19, Endian::Little) {
 None => None,
 Some((_, q20)) => if v.has_point12 {
 match spec_rd(d, q20, Endian::Little) {
 None => None,
 Some((_, q21)) => Some(q21),
 }
 } else {
 let q21 = q20;
 Some(q21)
 },
 }
 } else {
 let q20 = q19;
 if v.has_point12 {
 match spec_rd(d, q20, Endian::Little) {
 None => None,
 Some((_, q21)) => Some(q21),
 }
 } else {
 let q21 = q20;
 Some(q21)
 }
 },
 }
 } else {
 let q19 = q18;
 if v.has_point12 {
 match spec_rd(d, q19, Endian::Little) {
 None => None,
 Some((_, q20)) => if v.has_point12 {
 match spec_rd(d, q20, Endian::Little) {
 None => None,
 Some((_, q21)) => Some(q21),
 }
 } else {
 let q21 = q20;
 Some(q21)
 },
 }
 } else {
 let q20 = q19;
 if v.has_point12 {
 match spec_rd(d, q20, Endian::Little) {
 None => None,
 Some((_, q21)) => Some(q21),
 }
 } else {
 let q21 = q20;
 Some(q21)
 }
 }
 }
 },
 }
 } else {
 let q17 = q16;
 if v.has_flip_arrow1 {
 match spec_b(d, q17) {
 None => None,
 Some((_, q18)) => if v.has_flip_arrow2 {
 match spec_b(d, q18) {
 None => None,
 Some((_, q19)) => if v.has_point12 {
 match spec_rd(d, q19, Endian::Little) {
 None => None,
 Some((_, q20)) => if v.has_point12 {
 match spec_rd(d, q20, Endian::Little) {
 None => None,
 Some((_, q21)) => Some(q21),
 }
 } else {
 let q21 = q20;
 Some(q21)
 },
 }
 } else {
 let q20 = q19;
 if v.has_point12 {
 match spec_rd(d, q20, Endian::Little) {
 None => None,
 Some((_, q21)) => Some(q21),
 }
 } else {
 let q21 = q20;
 Some(q21)
 }
 },
 }
 } else {
 let q19 = q18;
 if v.has_point12 {
 match spec_rd(d, q19, Endian::Little) {
 None => None,
 Some((_, q20)) => if v.has_point12 {
 match spec_rd(d, q20, Endian::Little) {
 None => None,
 Some((_, q21)) => Some(q21),
 }
 } else {
 let q21 = q20;
 Some(q21)
 },
 }
 } else {
 let q20 = q19;
 if v.has_point12 {
 match spec_rd(d, q20, Endian::Little) {
 None => None,
 Some((_, q21)) => Some(q21),
 }
 } else {
 let q21 = q20;
 Some(q21)
 }
 }
 },
 }
 } else {
 let q18 = q17;
 if v.has_flip_arrow2 {
 match spec_b(d, q18) {
 None => None,
 Some((_, q19)) => if v.has_point12 {
 match spec_rd(d, q19, Endian::Little) {
 None => None,
 Some((_, q20)) => if v.has_point12 {
 match spec_rd(d, q20, Endian::Little) {
 None => None,
 Some((_, q21)) => Some(q21),
 }
 } else {
 let q21 = q20;
 Some(q21)
 },
 }
 } else {
 let q20 = q19;
 if v.has_point12 {
 match spec_rd(d, q20, Endian::Little) {
 None => None,
 Some((_, q21)) => Some(q21),
 }
 } else {
 let q21 = q20;
 Some(q21)
 }
 },
 }
 } else {
 let q19 = q18;
 if v.has_point12 {
 match spec_rd(d, q19, Endian::Little) {
 None => None,
 Some((_, q20)) => if v.has_point12 {
 match spec_rd(d, q20, Endian::Little) {
 None => None,
 Some((_, q21)) => Some(q21),
 }
 } else {
 let q21 = q20;
 Some(q21)
 },
 }
 } else {
 let q20 = q19;
 if v.has_point12 {
 match spec_rd(d, q20, Endian::Little) {
 None => None,
 Some((_, q21)) => Some(q21),
 }
 } else {
 let q21 = q20;
 Some(q21)
 }
 }
 }
 }
 },
 }
 } else {
 let q16 = q15;
 if v.has_unknown_flag {
 match spec_b(d, q16) {
 None => None,
 Some((_, q17)) => if v.has_flip_arrow1 {
 match spec_b(d, q17) {
 None => None,
 Some((_, q18)) => if v.has_flip_arrow2 {
 match spec_b(d, q18) {
 None => None,
 Some((_, q19)) => if v.has_point12 {
 match spec_rd(d, q19, Endian::Little) {
 None => None,
 Some((_, q20)) => if v.has_point12 {
 match spec_rd(d, q20, Endian::Little) {
 None => None,
 Some((_, q21)) => Some(q21),
 }
 } else {
 let q21 = q20;
 Some(q21)
 },
 }
 } else {
 let q20 = q19;
 if v.has_point12 {
 match spec_rd(d, q20, Endian::Little) {
 None => None,
 Some((_, q21)) => Some(q21),
 }
 } else {
 let q21 = q20;
 Some(q21)
 }
 },
 }
 } else {
 let q19 = q18;
 if v.has_point12 {
 match spec_rd(d, q19, Endian::Little) {
 None => None,
 Some((_, q20)) => if v.has_point12 {
 match spec_rd(d, q20, Endian::Little) {
 None => None,
 Some((_, q21)) => Some(q21),
 }
 } else {
 let q21 = q20;
 Some(q21)
 },
 }
 } else {
 let q20 = q19;
 if v.has_point12 {
 match spec_rd(d, q20, Endian::Little) {
 None => None,
 Some((_, q21)) => Some(q21),
 }
 } else {
 let q21 = q20;
 Some(q21)
 }
 }
 },
 }
 } else {
 let q18 = q17;
 if v.has_flip_arrow2 {
 match spec_b(d, q18) {
 None => None,
 Some((_, q19)) => if v.has_point12 {
 match spec_rd(d, q19, Endian::Little) {
 None => None,
 Some((_, q20)) => if v.has_point12 {
 match spec_rd(d, q20, Endian::Little) {
 None => None,
 Some((_, q21)) => Some(q21),
 }
 } else {
 let q21 = q20;
 Some(q21)
 },
 }
 } else {
 let q20 = q19;
 if v.has_point12 {
 match spec_rd(d, q20, Endian::Little) {
 None => None,
 Some((_, q21)) => Some(q21),
 }
 } else {
 let q21 = q20;
 Some(q21)
 }
 },
 }
 } else {
 let q19 = q18;
 if v.has_point12 {
 match spec_rd(d, q19, Endian::Little) {
 None => None,
 Some((_, q20)) => if v.has_point12 {
 match spec_rd(d, q20, Endian::Little) {
 None => None,
 Some((_, q21)) => Some(q21),
 }
 } else {
 let q21 = q20;
 Some(q21)
 },
 }
 } else {
 let q20 = q19;
 if v.has_point12 {
 match spec_rd(d, q20, Endian::Little) {
 None => None,
 Some((_, q21)) => Some(q21),
 }
 } else {
 let q21 = q20;
 Some(q21)
 }
 }
 }
 },
 }
 } else {
 let q17 = q16;
 if v.has_flip_arrow1 {
 match spec_b(d, q17) {
 None => None,
 Some((_, q18)) => if v.has_flip_arrow2 {
 match spec_b(d, q18) {
 None => None,
 Some((_, q19)) => if v.has_point12 {
 match spec_rd(d, q19, Endian::Little) {
 None => None,
 Some((_, q20)) => if v.has_point12 {
 match spec_rd(d, q20, Endian::Little) {
 None => None,
 Some((_, q21)) => Some(q21),
 }
 } else {
 let q21 = q20;
 Some(q21)
 },
 }
 } else {
 let q20 = q19;
 if v.has_point12 {
 match spec_rd(d, q20, Endian::Little) {
 None => None,
 Some((_, q21)) => Some(q21),
 }
 } else {
 let q21 = q20;
 Some(q21)
 }
 },
 }
 } else {
 let q19 = q18;
 if v.has_point12 {
 match spec_rd(d, q19, Endian::Little) {
 None => None,
 Some((_, q20)) => if v.has_point12 {
 match spec_rd(d, q20, Endian::Little) {
 None => None,
 Some((_, q21)) => Some(q21),
 }
 } else {
 let q21 = q20;
 Some(q21)
 },
 }
 } else {
 let q20 = q19;
 if v.has_point12 {
 match spec_rd(d, q20, Endian::Little) {
 None => None,
 Some((_, q21)) => Some(q21),
 }
 } else {
 let q21 = q20;
 Some(q21)
 }
 }
 },
 }
 } else {
 let q18 = q17;
 if v.has_flip_arrow2 {
 match spec_b(d, q18) {
 None => None,
 Some((_, q19)) => if v.has_point12 {
 match spec_rd(d, q19, Endian::Little) {
 None => None,
 Some((_, q20)) => if v.has_point12 {
 match spec_rd(d, q20, Endian::Little) {
 None => None,
 Some((_, q21)) => Some(q21),
 }
 } else {
 let q21 = q20;
 Some(q21)
 },
 }
 } else {
 let q20 = q19;
 if v.has_point12 {
 match spec_rd(d, q20, Endian::Little) {
 None => None,
 Some((_, q21)) => Some(q21),
 }
 } else {
 let q21 = q20;
 Some(q21)
 }
 },
 }
 } else {
 let q19 = q18;
 if v.has_point12 {
 match spec_rd(d, q19, Endian::Little) {
 None => None,
 Some((_, q20)) => if v.has_point12 {
 match spec_rd(d, q20, Endian::Little) {
 None => None,
 Some((_, q21)) => Some(q21),
 }
 } else {
 let q21 = q20;
 Some(q21)
 },
 }
 } else {
 let q20 = q19;
 if v.has_point12 {
 match spec_rd(d, q20, Endian::Little) {
 None => None,
 Some((_, q21)) => Some(q21),
 }
 } else {
 let q21 = q20;
 Some(q21)
 }
 }
 }
 }
 }
 }
 },
 }
 } else {
 let q14 = q13;
 if v.has_attachment {
 match spec_bd(d, q14) {
 None => None,
 Some((_, q15)) => if v.has_attachment {
 match spec_bd(d, q15) {
 None => None,
 Some((_, q16)) => if v.has_unknown_flag {
 match spec_b(d, q16) {
 None => None,
 Some((_, q17)) => if v.has_flip_arrow1 {
 match spec_b(d, q17) {
 None => None,
 Some((_, q18)) => if v.has_flip_arrow2 {
 match spec_b(d, q18) {
 None => None,
 Some((_, q19)) => if v.has_point12 {
 match spec_rd(d, q19, Endian::Little) {
 None => None,
 Some((_, q20)) => if v.has_point12 {
 match spec_rd(d, q20, Endian::Little) {
 None => None,
 Some((_, q21)) => Some(q21),
 }
 } else {
 let q21 = q20;
 Some(q21)
 },
 }
 } else {
 let q20 = q19;
 if v.has_point12 {
 match spec_rd(d, q20, Endian::Little) {
 None => None,
 Some((_, q21)) => Some(q21),
 }
 } else {
 let q21 = q20;
 Some(q21)
 }
 },
 }
 } else {
 let q19 = q18;
 if v.has_point12 {
 match spec_rd(d, q19, Endian::Little) {
 None => None,
 Some((_, q20)) => if v.has_point12 {
 match spec_rd(d, q20, Endian::Little) {
 None => None,
 Some((_, q21)) => Some(q21),
 }
 } else {
 let q21 = q20;
 Some(q21)
 },
 }
 } else {
 let q20 = q19;
 if v.has_point12 {
 match spec_rd(d, q20, Endian::Little) {
 None => None,
 Some((_, q21)) => Some(q21),
 }
 } else {
 let q21 = q20;
 Some(q21)
 }
 }
 },
 }
 } else {
 let q18 = q17;
 if v.has_flip_arrow2 {
 match spec_b(d, q18) {
 None => None,
 Some((_, q19)) => if v.has_point12 {
 match spec_rd(d, q19, Endian::Little) {
 None => None,
 Some((_, q20)) => if v.has_point12 {
 match spec_rd(d, q20, Endian::Little) {
 None => None,
 Some((_, q21)) => Some(q21),
 }
 } else {
 let q21 = q20;
 Some(q21)
 },
 }
 } else {
 let q20 = q19;
 if v.has_point12 {
 match spec_rd(d, q20, Endian::Little) {
 None => None,
 Some((_, q21)) => Some(q21),
 }
 } else {
 let q21 = q20;
 Some(q21)
 }
 },
 }
 } else {
 let q19 = q18;
 if v.has_point12 {
 match spec_rd(d, q19, Endian::Little) {
 None => None,
 Some((_, q20)) => if v.has_point12 {
 match spec_rd(d, q20, Endian::Little) {
 None => None,
 Some((_, q21)) => Some(q21),
 }
 } else {
 let q21 = q20;
 Some(q21)
 },
 }
 } else {
 let q20 = q19;
 if v.has_point12 {
 match spec_rd(d, q20, Endian::Little) {
 None => None,
 Some((_, q21)) => Some(q21),
 }
 } else {
 let q21 = q20;
 Some(q21)
 }
 }
 }
 },
 }
 } else {
 let q17 = q16;
 if v.has_flip_arrow1 {
 match spec_b(d, q17) {
 None => None,
 Some((_, q18)) => if v.has_flip_arrow2 {
 match spec_b(d, q18) {
 None => None,
 Some((_, q19)) => if v.has_point12 {
 match spec_rd(d, q19, Endian::Little) {
 None => None,
 Some((_, q20)) => if v.has_point12 {
 match spec_rd(d, q20, Endian::Little) {
 None => None,
 Some((_, q21)) => Some(q21),
 }
 } else {
 let q21 = q20;
 Some(q21)
 },
 }
 } else {
 let q20 = q19;
 if v.has_point12 {
 match spec_rd(d, q20, Endian::Little) {
 None => None,
 Some((_, q21)) => Some(q21),
 }
 } else {
 let q21 = q20;
 Some(q21)
 }
 },
 }
 } else {
 let q19 = q18;
 if v.has_point12 {
 match spec_rd(d, q19, Endian::Little) {
 None => None,
 Some((_, q20)) => if v.has_point12 {
 match spec_rd(d, q20, Endian::Little) {
 None => None,
 Some((_, q21)) => Some(q21),
 }
 } else {
 let q21 = q20;
 Some(q21)
 },
 }
 } else {
 let q20 = q19;
 if v.has_point12 {
 match spec_rd(d, q20, Endian::Little) {
 None => None,
 Some((_, q21)) => Some(q21),
 }
 } else {
 let q21 = q20;
 Some(q21)
 }
 }
 },
 }
 } else {
 let q18 = q17;
 if v.has_flip_arrow2 {
 match spec_b(d, q18) {
 None => None,
 Some((_, q19)) => if v.has_point12 {
 match spec_rd(d, q19, Endian::Little) {
 None => None,
 Some((_, q20)) => if v.has_point12 {
 match spec_rd(d, q20, Endian::Little) {
 None => None,
 Some((_, q21)) => Some(q21),
 }
 } else {
 let q21 = q20;
 Some(q21)
 },
 }
 } else {
 let q20 = q19;
 if v.has_point12 {
 match spec_rd(d, q20, Endian::Little) {
 None => None,
 Some((_, q21)) => Some(q21),
 }
 } else {
 let q21 = q20;
 Some(q21)
 }
 },
 }
 } else {
 let q19 = q18;
 if v.has_point12 {
 match spec_rd(d, q19, Endian::Little) {
 None => None,
 Some((_, q20)) => if v.has_point12 {
 match spec_rd(d, q20, Endian::Little) {
 None => None,
 Some((_, q21)) => Some(q21),
 }
 } else {
 let q21 = q20;
 Some(q21)
 },
 }
 } else {
 let q20 = q19;
 if v.has_point12 {
 match spec_rd(d, q20, Endian::Little) {
 None => None,
 Some((_, q21)) => Some(q21),
 }
 } else {
 let q21 = q20;
 Some(q21)
 }
 }
 }
 }
 },
 }
 } else {
 let q16 = q15;
 if v.has_unknown_flag {
 match spec_b(d, q16) {
 None => None,
 Some((_, q17)) => if v.has_flip_arrow1 {
 match spec_b(d, q17) {
 None => None,
 Some((_, q18)) => if v.has_flip_arrow2 {
 match spec_b(d, q18) {
 None => None,
 Some((_, q19)) => if v.has_point12 {
 match spec_rd(d, q19, Endian::Little) {
 None => None,
 Some((_, q20)) => if v.has_point12 {
 match spec_rd(d, q20, Endian::Little) {
 None => None,
 Some((_, q21)) => Some(q21),
 }
 } else {
 let q21 = q20;
 Some(q21)
 },
 }
 } else {
 let q20 = q19;
 if v.has_point12 {
 match spec_rd(d, q20, Endian::Little) {
 None => None,
 Some((_, q21)) => Some(q21),
 }
 } else {
 let q21 = q20;
 Some(q21)
 }
 },
 }
 } else {
 let q19 = q18;
 if v.has_point12 {
 match spec_rd(d, q19, Endian::Little) {
 None => None,
 Some((_, q20)) => if v.has_point12 {
 match spec_rd(d, q20, Endian::Little) {
 None => None,
 Some((_, q21)) => Some(q21),
 }
 } else {
 let q21 = q20;
 Some(q21)
 },
 }
 } else {
 let q20 = q19;
 if v.has_point12 {
 match spec_rd(d, q20, Endian::Little) {
 None => None,
 Some((_, q21)) => Some(q21),
 }
 } else {
 let q21 = q20;
 Some(q21)
 }
 }
 },
 }
 } else {
 let q18 = q17;
 if v.has_flip_arrow2 {
 match spec_b(d, q18) {
 None => None,
 Some((_, q19)) => if v.has_point12 {
 match spec_rd(d, q19, Endian::Little) {
 None => None,
 Some((_, q20)) => if v.has_point12 {
 match spec_rd(d, q20, Endian::Little) {
 None => None,
 Some((_, q21)) => Some(q21),
 }
 } else {
 let q21 = q20;
 Some(q21)
 },
 }
 } else {
 let q20 = q19;
 if v.has_point12 {
 match spec_rd(d, q20, Endian::Little) {
 None => None,
 Some((_, q21)) => Some(q21),
 }
 } else {
 let q21 = q20;
 Some(q21)
 }
 },
 }
 } else {
 let q19 = q18;
 if v.has_point12 {
 match spec_rd(d, q19, Endian::Little) {
 None => None,
 Some((_, q20)) => if v.has_point12 {
 match spec_rd(d, q20, Endian::Little) {
 None => None,
 Some((_, q21)) => Some(q21),
 }
 } else {
 let q21 = q20;
 Some(q21)
 },
 }
 } else {
 let q20 = q19;
 if v.has_point12 {
 match spec_rd(d, q20, Endian::Little) {
 None => None,
 Some((_, q21)) => Some(q21),
 }
 } else {
 let q21 = q20;
 Some(q21)
 }
 }
 }
 },
 }
 } else {
 let q17 = q16;
 if v.has_flip_arrow1 {
 match spec_b(d, q17) {
 None => None,
 Some((_, q18)) => if v.has_flip_arrow2 {
 match spec_b(d, q18) {
 None => None,
 Some((_, q19)) => if v.has_point12 {
 match spec_rd(d, q19, Endian::Little) {
 None => None,
 Some((_, q20)) => if v.has_point12 {
 match spec_rd(d, q20, Endian::Little) {
 None => None,
 Some((_, q21)) => Some(q21),
 }
 } else {
 let q21 = q20;
 Some(q21)
 },
 }
 } else {
 let q20 = q19;
 if v.has_point12 {
 match spec_rd(d, q20, Endian::Little) {
 None => None,
 Some((_, q21)) => Some(q21),
 }
 } else {
 let q21 = q20;
 Some(q21)
 }
 },
 }
 } else {
 let q19 = q18;
 if v.has_point12 {
 match spec_rd(d, q19, Endian::Little) {
 None => None,
 Some((_, q20)) => if v.has_point12 {
 match spec_rd(d, q20, Endian::Little) {
 None => None,
 Some((_, q21)) => Some(q21),
 }
 } else {
 let q21 = q20;
 Some(q21)
 },
 }
 } else {
 let q20 = q19;
 if v.has_point12 {
 match spec_rd(d, q20, Endian::Little) {
 None => None,
 Some((_, q21)) => Some(q21),
 }
 } else {
 let q21 = q20;
 Some(q21)
 }
 }
 },
 }
 } else {
 let q18 = q17;
 if v.has_flip_arrow2 {
 match spec_b(d, q18) {
 None => None,
 Some((_, q19)) => if v.has_point12 {
 match spec_rd(d, q19, Endian::Little) {
 None => None,
 Some((_, q20)) => if v.has_point12 {
 match spec_rd(d, q20, Endian::Little) {
 None => None,
 Some((_, q21)) => Some(q21),
 }
 } else {
 let q21 = q20;
 Some(q21)
 },
 }
 } else {
 let q20 = q19;
 if v.has_point12 {
 match spec_rd(d, q20, Endian::Little) {
 None => None,
 Some((_, q21)) => Some(q21),
 }
 } else {
 let q21 = q20;
 Some(q21)
 }
 },
 }
 } else {
 let q19 = q18;
 if v.has_point12 {
 match spec_rd(d, q19, Endian::Little) {
 None => None,
 Some((_, q20)) => if v.has_point12 {
 match spec_rd(d, q20, Endian::Little) {
 None => None,
 Some((_, q21)) => Some(q21),
 }
 } else {
 let q21 = q20;
 Some(q21)
 },
 }
 } else {
 let q20 = q19;
 if v.has_point12 {
 match spec_rd(d, q20, Endian::Little) {
 None => None,
 Some((_, q21)) => Some(q21),
 }
 } else {
 let q21 = q20;
 Some(q21)
 }
 }
 }
 }
 }
 },
 }
 } else {
 let q15 = q14;
 if v.has_attachment {
 match spec_bd(d, q15) {
 None => None,
 Some((_, q16)) => if v.has_unknown_flag {
 match spec_b(d, q16) {
 None => None,
 Some((_, q17)) => if v.has_flip_arrow1 {
 match spec_b(d, q17) {
 None => None,
 Some((_, q18)) => if v.has_flip_arrow2 {
 match spec_b(d, q18) {
 None => None,
 Some((_, q19)) => if v.has_point12 {
 match spec_rd(d, q19, Endian::Little) {
 None => None,
 Some((_, q20)) => if v.has_point12 {
 match spec_rd(d, q20, Endian::Little) {
 None => None,
 Some((_, q21)) => Some(q21),
 }
 } else {
 let q21 = q20;
 Some(q21)
 },
 }
 } else {
 let q20 = q19;
 if v.has_point12 {
 match spec_rd(d, q20, Endian::Little) {
 None => None,
 Some((_, q21)) => Some(q21),
 }
 } else {
 let q21 = q20;
 Some(q21)
 }
 },
 }
 } else {
 let q19 = q18;
 if v.has_point12 {
 match spec_rd(d, q19, Endian::Little) {
 None => None,
 Some((_, q20)) => if v.has_point12 {
 match spec_rd(d, q20, Endian::Little) {
 None => None,
 Some((_, q21)) => Some(q21),
 }
 } else {
 let q21 = q20;
 Some(q21)
 },
 }
 } else {
 let q20 = q19;
 if v.has_point12 {
 match spec_rd(d, q20, Endian::Little) {
 None => None,
 Some((_, q21)) => Some(q21),
 }
 } else {
 let q21 = q20;
 Some(q21)
 }
 }
 },
 }
 } else {
 let q18 = q17;
 if v.has_flip_arrow2 {
 match spec_b(d, q18) {
 None => None,
 Some((_, q19)) => if v.has_point12 {
 match spec_rd(d, q19, Endian::Little) {
 None => None,
 Some((_, q20)) => if v.has_point12 {
 match spec_rd(d, q20, Endian::Little) {
 None => None,
 Some((_, q21)) => Some(q21),
 }
 } else {
 let q21 = q20;
 Some(q21)
 },
 }
 } else {
 let q20 = q19;
 if v.has_point12 {
 match spec_rd(d, q20, Endian::Little) {
 None => None,
 Some((_, q21)) => Some(q21),
 }
 } else {
 let q21 = q20;
 Some(q21)
 }
 },
 }
 } else {
 let q19 = q18;
 if v.has_point12 {
 match spec_rd(d, q19, Endian::Little) {
 None => None,
 Some((_, q20)) => if v.has_point12 {
 match spec_rd(d, q20, Endian::Little) {
 None => None,
 Some((_, q21)) => Some(q21),
 }
 } else {
 let q21 = q20;
 Some(q21)
 },
 }
 } else {
 let q20 = q19;
 if v.has_point12 {
 match spec_rd(d, q20, Endian::Little) {
 None => None,
 Some((_, q21)) => Some(q21),
 }
 } else {
 let q21 = q20;
 Some(q21)
 }
 }
 }
 },
 }
 } else {
 let q17 = q16;
 if v.has_flip_arrow1 {
 match spec_b(d, q17) {
 None => None,
 Some((_, q18)) => if v.has_flip_arrow2 {
 match spec_b(d, q18) {
 None => None,
 Some((_, q19)) => if v.has_point12 {
 match spec_rd(d, q19, Endian::Little) {
 None => None,
 Some((_, q20)) => if v.has_point12 {
 match spec_rd(d, q20, Endian::Little) {
 None => None,
 Some((_, q21)) => Some(q21),
 }
 } else {
 let q21 = q20;
 Some(q21)
 },
 }
 } else {
 let q20 = q19;
 if v.has_point12 {
 match spec_rd(d, q20, Endian::Little) {
 None => None,
 Some((_, q21)) => Some(q21),
 }
 } else {
 let q21 = q20;
 Some(q21)
 }
 },
 }
 } else {
 let q19 = q18;
 if v.has_point12 {
 match spec_rd(d, q19, Endian::Little) {
 None => None,
 Some((_, q20)) => if v.has_point12 {
 match spec_rd(d, q20, Endian::Little) {
 None => None,
 Some((_, q21)) => Some(q21),
 }
 } else {
 let q21 = q20;
 Some(q21)
 },
 }
 } else {
 let q20 = q19;
 if v.has_point12 {
 match spec_rd(d, q20, Endian::Little) {
 None => None,
 Some((_, q21)) => Some(q21),
 }
 } else {
 let q21 = q20;
 Some(q21)
 }
 }
 },
 }
 } else {
 let q18 = q17;
 if v.has_flip_arrow2 {
 match spec_b(d, q18) {
 None => None,
 Some((_, q19)) => if v.has_point12 {
 match spec_rd(d, q19, Endian::Little) {
 None => None,
 Some((_, q20)) => if v.has_point12 {
 match spec_rd(d, q20, Endian::Little) {
 None => None,
 Some((_, q21)) => Some(q21),
 }
 } else {
 let q21 = q20;
 Some(q21)
 },
 }
 } else {
 let q20 = q19;
 if v.has_point12 {
 match spec_rd(d, q20, Endian::Little) {
 None => None,
 Some((_, q21)) => Some(q21),
 }
 } else {
 let q21 = q20;
 Some(q21)
 }
 },
 }
 } else {
 let q19 = q18;
 if v.has_point12 {
 match spec_rd(d, q19, Endian::Little) {
 None => None,
 Some((_, q20)) => if v.has_point12 {
 match spec_rd(d, q20, Endian::Little) {
 None => None,
 Some((_, q21)) => Some(q21),
 }
 } else {
 let q21 = q20;
 Some(q21)
 },
 }
 } else {
 let q20 = q19;
 if v.has_point12 {
 match spec_rd(d, q20, Endian::Little) {
 None => None,
 Some((_, q21)) => Some(q21),
 }
 } else {
 let q21 = q20;
 Some(q21)
 }
 }
 }
 }
 },
 }
 } else {
 let q16 = q15;
 if v.has_unknown_flag {
 match spec_b(d, q16) {
 None => None,
 Some((_, q17)) => if v.has_flip_arrow1 {
 match spec_b(d, q17) {
 None => None,
 Some((_, q18)) => if v.has_flip_arrow2 {
 match spec_b(d, q18) {
 None => None,
 Some((_, q19)) => if v.has_point12 {
 match spec_rd(d, q19, Endian::Little) {
 None => None,
 Some((_, q20)) => if v.has_point12 {
 match spec_rd(d, q20, Endian::Little) {
 None => None,
 Some((_, q21)) => Some(q21),
 }
 } else {
 let q21 = q20;
 Some(q21)
 },
 }
 } else {
 let q20 = q19;
 if v.has_point12 {
 match spec_rd(d, q20, Endian::Little) {
 None => None,
 Some((_, q21)) => Some(q21),
 }
 } else {
 let q21 = q20;
 Some(q21)
 }
 },
 }
 } else {
 let q19 = q18;
 if v.has_point12 {
 match spec_rd(d, q19, Endian::Little) {
 None => None,
 Some((_, q20)) => if v.has_point12 {
 match spec_rd(d, q20, Endian::Little) {
 None => None,
 Some((_, q21)) => Some(q21),
 }
 } else {
 let q21 = q20;
 Some(q21)
 },
 }
 } else {
 let q20 = q19;
 if v.has_point12 {
 match spec_rd(d, q20, Endian::Little) {
 None => None,
 Some((_, q21)) => Some(q21),
 }
 } else {
 let q21 = q20;
 Some(q21)
 }
 }
 },
 }
 } else {
 let q18 = q17;
 if v.has_flip_arrow2 {
 match spec_b(d, q18) {
 None => None,
 Some((_, q19)) => if v.has_point12 {
 match spec_rd(d, q19, Endian::Little) {
 None => None,
 Some((_, q20)) => if v.has_point12 {
 match spec_rd(d, q20, Endian::Little) {
 None => None,
 Some((_, q21)) => Some(q21),
 }
 } else {
 let q21 = q20;
 Some(q21)
 },
 }
 } else {
 let q20 = q19;
 if v.has_point12 {
 match spec_rd(d, q20, Endian::Little) {
 None => None,
 Some((_, q21)) => Some(q21),
 }
 } else {
 let q21 = q20;
 Some(q21)
 }
 },
 }
 } else {
 let q19 = q18;
 if v.has_point12 {
 match spec_rd(d, q19, Endian::Little) {
 None => None,
 Some((_, q20)) => if v.has_point12 {
 match spec_rd(d, q20, Endian::Little) {
 None => None,
 Some((_, q21)) => Some(q21),
 }
 } else {
 let q21 = q20;
 Some(q21)
 },
 }
 } else {
 let q20 = q19;
 if v.has_point12 {
 match spec_rd(d, q20, Endian::Little) {
 None => None,
 Some((_, q21)) => Some(q21),
 }
 } else {
 let q21 = q20;
 Some(q21)
 }
 }
 }
 },
 }
 } else {
 let q17 = q16;
 if v.has_flip_arrow1 {
 match spec_b(d, q17) {
 None => None,
 Some((_, q18)) => if v.has_flip_arrow2 {
 match spec_b(d, q18) {
 None => None,
 Some((_, q19)) => if v.has_point12 {
 match spec_rd(d, q19, Endian::Little) {
 None => None,
 Some((_, q20)) => if v.has_point12 {
 match spec_rd(d, q20, Endian::Little) {
 None => None,
 Some((_, q21)) => Some(q21),
 }
 } else {
 let q21 = q20;
 Some(q21)
 },
 }
 } else {
 let q20 = q19;
 if v.has_point12 {
 match spec_rd(d, q20, Endian::Little) {
 None => None,
 Some((_, q21)) => Some(q21),
 }
 } else {
 let q21 = q20;
 Some(q21)
 }
 },
 }
 } else {
 let q19 = q18;
 if v.has_point12 {
 match spec_rd(d, q19, Endian::Little) {
 None => None,
 Some((_, q20)) => if v.has_point12 {
 match spec_rd(d, q20, Endian::Little) {
 None => None,
 Some((_, q21)) => Some(q21),
 }
 } else {
 let q21 = q20;
 Some(q21)
 },
 }
 } else {
 let q20 = q19;
 if v.has_point12 {
 match spec_rd(d, q20, Endian::Little) {
 None => None,
 Some((_, q21)) => Some(q21),
 }
 } else {
 let q21 = q20;
 Some(q21)
 }
 }
 },
 }
 } else {
 let q18 = q17;
 if v.has_flip_arrow2 {
 match spec_b(d, q18) {
 None => None,
 Some((_, q19)) => if v.has_point12 {
 match spec_rd(d, q19, Endian::Little) {
 None => None,
 Some((_, q20)) => if v.has_point12 {
 match spec_rd(d, q20, Endian::Little) {
 None => None,
 Some((_, q21)) => Some(q21),
 }
 } else {
 let q21 = q20;
 Some(q21)
 },
 }
 } else {
 let q20 = q19;
 if v.has_point12 {
 match spec_rd(d, q20, Endian::Little) {
 None => None,
 Some((_, q21)) => Some(q21),
 }
 } else {
 let q21 = q20;
 Some(q21)
 }
 },
 }
 } else {
 let q19 = q18;
 if v.has_point12 {
 match spec_rd(d, q19, Endian::Little) {
 None => None,
 Some((_, q20)) => if v.has_point12 {
 match spec_rd(d, q20, Endian::Little) {
 None => None,
 Some((_, q21)) => Some(q21),
 }
 } else {
 let q21 = q20;
 Some(q21)
 },
 }
 } else {
 let q20 = q19;
 if v.has_point12 {
 match spec_rd(d, q20, Endian::Little) {
 None => None,
 Some((_, q21)) => Some(q21),
 }
 } else {
 let q21 = q20;
 Some(q21)
 }
 }
 }
 }
 }
 }
 }
 }
 },
 },
 },
 },
 },
 },
 },
 },
 },
 },
 },
 },
 }
}

/// The 13, 14 and 10 points and the two rotations that close a linear
/// dimension's data stream.
pub open spec fn spec_dim_points(d: Seq<u8>, p: int) -> Option<
    (((u64, u64, u64), (u64, u64, u64), (u64, u64, u64), u64, u64), int),
> {
    match spec_3bd(d, p) {
        None => None,
        Some((a, p1)) => match spec_3bd(d, p1) {
            None => None,
            Some((b, p2)) => match spec_3bd(d, p2) {
                None => None,
                Some((c, p3)) => match spec_bd(d, p3) {
                    None => None,
                    Some((e, p4)) => match spec_bd(d, p4) {
                        None => None,
                        Some((f, p5)) => Some(((a, b, c, e, f), p5)),
                    },
                },
            },
        },
    }
}

/// The common dimension block laid out as `variant`.
#[verifier::rlimit(60)]
fn read_dim_block(reader: &mut BitReader<'_>, variant: DimLinearVariant) -> (r: Result<
    (
        (u64, u64, u64),
        (u64, u64, u64),
        u64,
        u8,
        String,
        (u64, u64, u64, u64, u64, u64),
        (Option<u16>, Option<u16>, Option<u64>, Option<u64>),
        Option<(u64, u64, u64)>,
    ),
    DwgError,
>)
    requires
        old(reader).wf(),
    ensures
        final(reader).keeps(old(reader)),
        match r {
            Ok(t) => spec_dim_block_end(old(reader).bytes(), old(reader).pos(), variant) == Some(final(reader).pos())
                && t.6.0.is_some() == variant.has_attachment && t.7.is_some() == variant.has_point12,
            Err(_) => spec_dim_block_end(old(reader).bytes(), old(reader).pos(), variant).is_none(),
        },
{
    let extrusion = reader.read_3bd()?;
    let text_mid_x = reader.read_rd(Endian::Little)?;
    let text_mid_y = reader.read_rd(Endian::Little)?;
    let elevation = reader.read_bd()?;
    let dim_flags = reader.read_rc()?;
    let user_text = reader.read_tv()?;
    let text_rotation = reader.read_bd()?;
    let horizontal_direction = reader.read_bd()?;
    let scale_x = reader.read_bd()?;
    let scale_y = reader.read_bd()?;
    let scale_z = reader.read_bd()?;
    let insert_rotation = reader.read_bd()?;
    let mut attachment_point: Option<u16> = None;
    let mut line_spacing_style: Option<u16> = None;
    let mut line_spacing_factor: Option<u64> = None;
    let mut actual_measurement: Option<u64> = None;
    if variant.has_attachment {
        attachment_point = Some(reader.read_bs()?);
        line_spacing_style = Some(reader.read_bs()?);
        line_spacing_factor = Some(reader.read_bd()?);
        actual_measurement = Some(reader.read_bd()?);
    }
    if variant.has_unknown_flag {
        let _unknown = reader.read_b()?;
    }
    if variant.has_flip_arrow1 {
        let _flip_arrow1 = reader.read_b()?;
    }
    if variant.has_flip_arrow2 {
        let _flip_arrow2 = reader.read_b()?;
    }
    let insert_point = if variant.has_point12 {
        let x = reader.read_rd(Endian::Little)?;
        let y = reader.read_rd(Endian::Little)?;
        Some((x, y, elevation))
    } else {
        None
    };
    Ok((
        extrusion,
        (text_mid_x, text_mid_y, elevation),
        elevation,
        dim_flags,
        user_text,
        (text_rotation, horizontal_direction, scale_x, scale_y, scale_z, insert_rotation),
        (attachment_point, line_spacing_style, line_spacing_factor, actual_measurement),
        insert_point,
    ))
}

fn read_dim_points(reader: &mut BitReader<'_>) -> (r: Result<
    ((u64, u64, u64), (u64, u64, u64), (u64, u64, u64), u64, u64),
    DwgError,
>)
    requires
        old(reader).wf(),
    ensures
        final(reader).keeps(old(reader)),
        match r {
            Ok(t) => spec_dim_points(old(reader).bytes(), old(reader).pos()) == Some((t, final(reader).pos())),
            Err(_) => spec_dim_points(old(reader).bytes(), old(reader).pos()).is_none(),
        },
{
    let point13 = reader.read_3bd()?;
    let point14 = reader.read_3bd()?;
    let point10 = reader.read_3bd()?;
    let ext_line_rotation = reader.read_bd()?;
    let dim_rotation = reader.read_bd()?;
    Ok((point13, point14, point10, ext_line_rotation, dim_rotation))
}

/// Reads a linear dimension's data stream under one layout, starting after
/// the common entity preamble `header`, then its handles.
pub fn decode_dim_linear_variant(
    reader: &mut BitReader<'_>,
    header: &CommonEntityHeader,
    variant: DimLinearVariant,
    allow_handle_failure: bool,
) -> (r: Result<DimLinearEntity, DwgError>)
    requires
        old(reader).wf(),
    ensures
        final(reader).keeps(old(reader)),
        r matches Ok(e) ==> {
            &&& e.common.handle == header.handle
            &&& e.common.attachment_point.is_some() == variant.has_attachment
            &&& e.common.insert_point.is_some() == variant.has_point12
            &&& spec_dim_block_end(old(reader).bytes(), old(reader).pos(), variant) matches Some(q)
            &&& spec_dim_points(old(reader).bytes(), q) matches Some((pts, _))
            &&& pts == (e.point13, e.point14, e.point10, e.ext_line_rotation, e.dim_rotation)
        },
        allow_handle_failure && (spec_dim_block_end(old(reader).bytes(), old(reader).pos(), variant) matches Some(q)
            && spec_dim_points(old(reader).bytes(), q) is Some) ==> r.is_ok(),
        spec_dim_block_end(old(reader).bytes(), old(reader).pos(), variant) is None ==> r.is_err(),
{
    let (extrusion, text_midpoint, elevation, dim_flags, user_text, rots, attach, insert_point) = read_dim_block(
        reader,
        variant,
    )?;
    let (text_rotation, horizontal_direction, scale_x, scale_y, scale_z, insert_rotation) = rots;
    let (attachment_point, line_spacing_style, line_spacing_factor, actual_measurement) = attach;
    let (point13, point14, point10, ext_line_rotation, dim_rotation) = read_dim_points(reader)?;
    let (dimstyle_handle, anonymous_block_handle, layer_handle) = dimension_handles(
        reader,
        header,
        variant.style_before_common,
        allow_handle_failure,
    )?;
    Ok(DimLinearEntity {
        common: DimensionCommonData {
            handle: header.handle,
            layer_handle,
            extrusion,
            text_midpoint,
            elevation,
            dim_flags,
            user_text,
            text_rotation,
            horizontal_direction,
            insert_scale: (scale_x, scale_y, scale_z),
            insert_rotation,
            attachment_point,
            line_spacing_style,
            line_spacing_factor,
            actual_measurement,
            insert_point,
            dimstyle_handle,
            anonymous_block_handle,
        },
        point13,
        point14,
        point10,
        ext_line_rotation,
        dim_rotation,
    })
}

/// The integer part of a reading's implausibility: 10 000 for an
/// attachment point above 9, 10 000 for a line-spacing style above 2, and
/// 1 000 for dimension flags above 0x3F.
pub open spec fn field_penalty_of(c: &DimensionCommonData) -> int {
    (if c.attachment_point matches Some(a) && a > 9 { 10000int } else { 0int }) + (if c.line_spacing_style matches Some(s)
        && s > 2 { 10000int } else { 0int }) + (if c.dim_flags > 0x3F { 1000int } else { 0int })
}

pub fn field_penalty(c: &DimensionCommonData) -> (r: u64)
    ensures
        r == field_penalty_of(c),
{
    let mut score: u64 = 0;
    if let Some(a) = c.attachment_point {
        if a > 9 {
            score = score + 10000;
        }
    }
    if let Some(s) = c.line_spacing_style {
        if s > 2 {
            score = score + 10000;
        }
    }
    if c.dim_flags > 0x3F {
        score = score + 1000;
    }
    score
}

/// A reading's score, with a failed reading above every score.
pub open spec fn score_at(scores: Seq<Option<u64>>, i: int) -> int {
    match scores[i] {
        Some(s) => s as int,
        None => u64::MAX as int + 1,
    }
}

/// The position of the lowest score among the readings that succeeded; the
/// first such position on a tie; `None` where none succeeded.
pub fn select_lowest(scores: &Vec<Option<u64>>) -> (r: Option<usize>)
    ensures
        r.is_none() == (forall|i: int| 0 <= i < scores@.len() ==> #[trigger] scores@[i].is_none()),
        r matches Some(b) ==> b < scores@.len() && scores@[b as int].is_some() && (forall|i: int|
            0 <= i < scores@.len() ==> score_at(scores@, b as int) <= #[trigger] score_at(scores@, i)) && (forall|i: int|
            0 <= i < b ==> score_at(scores@, b as int) < #[trigger] score_at(scores@, i)),
{
    let mut best: Option<usize> = None;
    let mut i: usize = 0;
    while i < scores.len()
        invariant
            0 <= i <= scores@.len(),
            best.is_none() == (forall|k: int| 0 <= k < i ==> #[trigger] scores@[k].is_none()),
            best matches Some(b) ==> b < i && scores@[b as int].is_some() && (forall|k: int|
                0 <= k < i ==> score_at(scores@, b as int) <= #[trigger] score_at(scores@, k)) && (forall|k: int|
                0 <= k < b ==> score_at(scores@, b as int) < #[trigger] score_at(scores@, k)),
        decreases scores@.len() - i,
    {
        let ghost old_best = best;
        assert(scores@[i as int].is_none() ==> score_at(scores@, i as int) == u64::MAX as int + 1);
        if let Some(s) = scores[i] {
            assert(score_at(scores@, i as int) == s);
            match best {
                None => {
                    best = Some(i);
                },
                Some(b) => {
                    if let Some(bs) = scores[b] {
                        if s < bs {
                            best = Some(i);
                        }
                    }
                },
            }
        }
        proof {
            if let Some(b) = best {
                if old_best.is_none() {
                    assert forall|k: int| 0 <= k < i implies score_at(scores@, b as int) <= #[trigger] score_at(
                        scores@,
                        k,
                    ) by {
                        assert(scores@[k].is_none());
                    }
                }
            }
        }
        i = i + 1;
    }
    best
}

/// Which optional fields a later-dialect (R2010 and R2013) dimension block
/// holds: a leading version byte, the user text, and an extrusion stored as
/// a bit-extrusion rather than three bit-doubles.
#[derive(Debug, Clone, Copy, PartialEq, Eq, Structural)]
pub struct R2010PlusVariant {
    pub has_dimension_version: bool,
    pub has_user_text: bool,
    pub extrusion_is_be: bool,
}

/// The eight later-dialect layouts, in the order they are tried: three
/// bit-doubles for the extrusion first, then a bit-extrusion; within each,
/// version byte and user text, version byte only, user text only, neither.
pub fn dim_r2010_variants() -> (r: Vec<R2010PlusVariant>)
    ensures
        r@.len() == 8,
        forall|i: int| 0 <= i < 4 ==> !(#[trigger] r@[i]).extrusion_is_be,
        forall|i: int| 4 <= i < 8 ==> (#[trigger] r@[i]).extrusion_is_be,
        forall|i: int| 0 <= i < 8 ==> (#[trigger] r@[i]).has_dimension_version == (i % 4 < 2),
        forall|i: int| 0 <= i < 8 ==> (#[trigger] r@[i]).has_user_text == (i % 2 == 0),
{
    let mut v: Vec<R2010PlusVariant> = Vec::new();
    let mut k: usize = 0;
    while k < 2
        invariant
            0 <= k <= 2,
            v@.len() == 4 * k,
            forall|i: int| 0 <= i < v@.len() ==> (#[trigger] v@[i]).extrusion_is_be == (i >= 4),
            forall|i: int| 0 <= i < v@.len() ==> (#[trigger] v@[i]).has_dimension_version == (i % 4 < 2),
            forall|i: int| 0 <= i < v@.len() ==> (#[trigger] v@[i]).has_user_text == (i % 2 == 0),
        decreases 2 - k,
    {
        let be = k == 1;
        v.push(R2010PlusVariant { has_dimension_version: true, has_user_text: true, extrusion_is_be: be });
        v.push(R2010PlusVariant { has_dimension_version: true, has_user_text: false, extrusion_is_be: be });
        v.push(R2010PlusVariant { has_dimension_version: false, has_user_text: true, extrusion_is_be: be });
        v.push(R2010PlusVariant { has_dimension_version: false, has_user_text: false, extrusion_is_be: be });
        k = k + 1;
    }
    v
}

/// Where a later-dialect dimension block laid out as `v` ends, when every
/// field of it can be read: an optional version byte, the extrusion (a
/// bit-extrusion or three bit-doubles), the text midpoint, elevation, flags,
/// optional user text, rotations and scales, attachment and line spacing,
/// three bits and the 12 point.
pub open spec fn spec_dim_r2010_block_end(d: Seq<u8>, p: int, v: R2010PlusVariant) -> Option<int> {
    match spec_dim_r2010_start(d, p, v) {
        None => None,
        Some(q) => spec_dim_r2010_rest(d, q, v),
    }
}

/// Where the optional version byte and the extrusion end.
pub open spec fn spec_dim_r2010_start(d: Seq<u8>, p: int, v: R2010PlusVariant) -> Option<int> {
    let start = if v.has_dimension_version {
        match spec_rc(d, p) {
            None => -1,
            Some((_, q)) => q,
        }
    } else {
        p
    };
    if start < 0 {
        None
    } else if v.extrusion_is_be {
        match spec_be(d, start) {
            None => None,
            Some((_, q)) => Some(q),
        }
    } else {
        match spec_3bd(d, start) {
            None => None,
            Some((_, q)) => Some(q),
        }
    }
}

pub open spec fn spec_dim_r2010_rest(d: Seq<u8>, p: int, v: R2010PlusVariant) -> Option<int> {
    match spec_dim_r2010_text(d, p, v) {
        None => None,
        Some(q) => spec_dim_r2010_tail(d, q),
    }
}

/// The text midpoint, elevation, flags and optional user text.
pub open spec fn spec_dim_r2010_text(d: Seq<u8>, p: int, v: R2010PlusVariant) -> Option<int> {
    match spec_rd(d, p, Endian::Little) {
 None => None,
 Some((_, q1)) => match spec_rd(d, q1, Endian::Little) {
 None => None,
 Some((_, q2)) => match spec_bd(d, q2) {
 None => None,
 Some((_, q3)) => match spec_rc(d, q3) {
 None => None,
 Some((_, q4)) => if v.has_user_text {
 match spec_tv(d, q4) {
 None => None,
 Some((_, q5)) => Some(q5),
 }
 } else {
 let q5 = q4;
 Some(q5)
 },
 },
 },
 },
 }
}

/// Rotations, scales, attachment, line spacing, three bits and point 12.
pub open spec fn spec_dim_r2010_tail(d: Seq<u8>, p: int) -> Option<int> {
    match spec_bd(d, p) {
 None => None,
 Some((_, q1)) => match spec_bd(d, q1) {
 None => None,
 Some((_, q2)) => match spec_bd(d, q2) {
 None => None,
 Some((_, q3)) => match spec_bd(d, q3) {
 None => None,
 Some((_, q4)) => match spec_bd(d, q4) {
 None => None,
 Some((_, q5)) => match spec_bd(d, q5) {
 None => None,
 Some((_, q6)) => match spec_bs(d, q6) {
 None => None,
 Some((_, q7)) => match spec_bs(d, q7) {
 None => None,
 Some((_, q8)) => match spec_bd(d, q8) {
 None => None,
 Some((_, q9)) => match spec_bd(d, q9) {
 None => None,
 Some((_, q10)) => match spec_b(d, q10) {
 None => None,
 Some((_, q11)) => match spec_b(d, q11) {
 None => None,
 Some((_, q12)) => match spec_b(d, q12) {
 None => None,
 Some((_, q13)) => match spec_rd(d, q13, Endian::Little) {
 None => None,
 Some((_, q14)) => match spec_rd(d, q14, Endian::Little) {
 None => None,
 Some((_, q15)) => Some(q15),
 },
 },
 },
 },
 },
 },
 },
 },
 },
 },
 },
 },
 },
 },
 }
}

/// The 15 and 10 points and the leader length that close a diameter
/// dimension, reported as points 13, 14 and 10 with zero rotations.
pub open spec fn spec_dim_diameter_points(d: Seq<u8>, p: int) -> Option<
    (((u64, u64, u64), (u64, u64, u64), (u64, u64, u64), u64, u64), int),
> {
    match spec_3bd(d, p) {
        None => None,
        Some((a, p1)) => match spec_3bd(d, p1) {
            None => None,
            Some((b, p2)) => match spec_bd(d, p2) {
                None => None,
                Some((_, p3)) => Some(((a, b, b, 0u64, 0u64), p3)),
            },
        },
    }
}

fn read_dim_r2010_start(reader: &mut BitReader<'_>, variant: R2010PlusVariant) -> (r: Result<(u64, u64, u64), DwgError>)
    requires
        old(reader).wf(),
    ensures
        final(reader).keeps(old(reader)),
        match r {
            Ok(_) => spec_dim_r2010_start(old(reader).bytes(), old(reader).pos(), variant) == Some(final(reader).pos()),
            Err(_) => spec_dim_r2010_start(old(reader).bytes(), old(reader).pos(), variant).is_none(),
        },
{
    if variant.has_dimension_version {
        let _dimension_version = reader.read_rc()?;
    }
    if variant.extrusion_is_be {
        reader.read_be()
    } else {
        reader.read_3bd()
    }
}

fn read_dim_r2010_text(reader: &mut BitReader<'_>, variant: R2010PlusVariant) -> (r: Result<(u64, u64, u64, u8, String), DwgError>)
    requires
        old(reader).wf(),
    ensures
        final(reader).keeps(old(reader)),
        match r {
            Ok(t) => spec_dim_r2010_text(old(reader).bytes(), old(reader).pos(), variant) == Some(final(reader).pos())
                && (!variant.has_user_text ==> t.4@.len() == 0),
            Err(_) => spec_dim_r2010_text(old(reader).bytes(), old(reader).pos(), variant).is_none(),
        },
{
    let text_mid_x = reader.read_rd(Endian::Little)?;
    let text_mid_y = reader.read_rd(Endian::Little)?;
    let elevation = reader.read_bd()?;
    let dim_flags = reader.read_rc()?;
    let user_text = if variant.has_user_text { reader.read_tv()? } else { String::new() };
    Ok((text_mid_x, text_mid_y, elevation, dim_flags, user_text))
}

#[verifier::rlimit(60)]
fn read_dim_r2010_tail(reader: &mut BitReader<'_>) -> (r: Result<
    ((u64, u64, u64, u64, u64, u64), (u16, u16, u64, u64), (u64, u64)),
    DwgError,
>)
    requires
        old(reader).wf(),
    ensures
        final(reader).keeps(old(reader)),
        match r {
            Ok(_) => spec_dim_r2010_tail(old(reader).bytes(), old(reader).pos()) == Some(final(reader).pos()),
            Err(_) => spec_dim_r2010_tail(old(reader).bytes(), old(reader).pos()).is_none(),
        },
{
    let text_rotation = reader.read_bd()?;
    let horizontal_direction = reader.read_bd()?;
    let scale_x = reader.read_bd()?;
    let scale_y = reader.read_bd()?;
    let scale_z = reader.read_bd()?;
    let insert_rotation = reader.read_bd()?;
    let attachment_point = reader.read_bs()?;
    let line_spacing_style = reader.read_bs()?;
    let line_spacing_factor = reader.read_bd()?;
    let actual_measurement = reader.read_bd()?;
    let _unknown = reader.read_b()?;
    let _flip_arrow1 = reader.read_b()?;
    let _flip_arrow2 = reader.read_b()?;
    let point12_x = reader.read_rd(Endian::Little)?;
    let point12_y = reader.read_rd(Endian::Little)?;
    Ok((
        (text_rotation, horizontal_direction, scale_x, scale_y, scale_z, insert_rotation),
        (attachment_point, line_spacing_style, line_spacing_factor, actual_measurement),
        (point12_x, point12_y),
    ))
}

/// The later-dialect dimension block laid out as `variant`.
fn read_dim_r2010_block(reader: &mut BitReader<'_>, variant: R2010PlusVariant) -> (r: Result<
    (
        (u64, u64, u64),
        (u64, u64, u64),
        u64,
        u8,
        String,
        (u64, u64, u64, u64, u64, u64),
        (u16, u16, u64, u64),
        (u64, u64, u64),
    ),
    DwgError,
>)
    requires
        old(reader).wf(),
    ensures
        final(reader).keeps(old(reader)),
        match r {
            Ok(t) => spec_dim_r2010_block_end(old(reader).bytes(), old(reader).pos(), variant) == Some(final(reader).pos())
                && (!variant.has_user_text ==> t.4@.len() == 0),
            Err(_) => spec_dim_r2010_block_end(old(reader).bytes(), old(reader).pos(), variant).is_none(),
        },
{
    let extrusion = read_dim_r2010_start(reader, variant)?;
    let (text_mid_x, text_mid_y, elevation, dim_flags, user_text) = read_dim_r2010_text(reader, variant)?;
    let (rots, attach, point12) = read_dim_r2010_tail(reader)?;
    let (text_rotation, horizontal_direction, scale_x, scale_y, scale_z, insert_rotation) = rots;
    let (attachment_point, line_spacing_style, line_spacing_factor, actual_measurement) = attach;
    let (point12_x, point12_y) = point12;
    Ok((
        extrusion,
        (text_mid_x, text_mid_y, elevation),
        elevation,
        dim_flags,
        user_text,
        (text_rotation, horizontal_direction, scale_x, scale_y, scale_z, insert_rotation),
        (attachment_point, line_spacing_style, line_spacing_factor, actual_measurement),
        (point12_x, point12_y, elevation),
    ))
}

fn read_dim_diameter_points(reader: &mut BitReader<'_>) -> (r: Result<
    ((u64, u64, u64), (u64, u64, u64), (u64, u64, u64), u64, u64),
    DwgError,
>)
    requires
        old(reader).wf(),
    ensures
        final(reader).keeps(old(reader)),
        match r {
            Ok(t) => spec_dim_diameter_points(old(reader).bytes(), old(reader).pos()) == Some((t, final(reader).pos())),
            Err(_) => spec_dim_diameter_points(old(reader).bytes(), old(reader).pos()).is_none(),
        },
{
    let point15 = reader.read_3bd()?;
    let point10 = reader.read_3bd()?;
    let _leader_length = reader.read_bd()?;
    Ok((point15, point10, point10, 0u64, 0u64))
}

/// Reads a later-dialect dimension's data stream under one layout. A linear
/// dimension ends with its 13, 14 and 10 points and two rotations; a
/// diameter dimension (`diameter`) with its 15 and 10 points and the leader
/// length, reported as points 13 and 14 (and 10) with zero rotations. The
/// style, block and common handles follow, style first; where they cannot be
/// read, `allow_handle_failure` keeps the reading without them (layer 0 where
/// the common handles fail too), and otherwise it is a decode failure.
fn decode_dim_r2010_variant(
    reader: &mut BitReader<'_>,
    header: &CommonEntityHeader,
    variant: R2010PlusVariant,
    diameter: bool,
    allow_handle_failure: bool,
) -> (r: Result<DimLinearEntity, DwgError>)
    requires
        old(reader).wf(),
    ensures
        final(reader).keeps(old(reader)),
        r matches Ok(e) ==> {
            &&& e.common.handle == header.handle
            &&& e.common.attachment_point.is_some()
            &&& e.common.insert_point.is_some()
            &&& (!variant.has_user_text ==> e.common.user_text@.len() == 0)
            &&& (diameter ==> e.point14 == e.point10 && e.ext_line_rotation == 0 && e.dim_rotation == 0)
            &&& spec_dim_r2010_block_end(old(reader).bytes(), old(reader).pos(), variant) matches Some(q)
            &&& (if diameter { spec_dim_diameter_points(old(reader).bytes(), q) } else { spec_dim_points(
                old(reader).bytes(),
                q,
            ) }) matches Some((pts, _))
            &&& pts == (e.point13, e.point14, e.point10, e.ext_line_rotation, e.dim_rotation)
        },
        allow_handle_failure && (spec_dim_r2010_block_end(old(reader).bytes(), old(reader).pos(), variant) matches Some(q)
            && (if diameter { spec_dim_diameter_points(old(reader).bytes(), q) } else { spec_dim_points(
            old(reader).bytes(),
            q,
        ) }) is Some) ==> r.is_ok(),
        spec_dim_r2010_block_end(old(reader).bytes(), old(reader).pos(), variant) is None ==> r.is_err(),
{
    let (extrusion, text_midpoint, elevation, dim_flags, user_text, rots, attach, insert_point) = read_dim_r2010_block(
        reader,
        variant,
    )?;
    let (text_rotation, horizontal_direction, scale_x, scale_y, scale_z, insert_rotation) = rots;
    let (attachment_point, line_spacing_style, line_spacing_factor, actual_measurement) = attach;
    let (point13, point14, point10, ext_line_rotation, dim_rotation) = if diameter {
        read_dim_diameter_points(reader)?
    } else {
        read_dim_points(reader)?
    };
    let (dimstyle_handle, anonymous_block_handle, layer_handle) = dimension_handles(
        reader,
        header,
        true,
        allow_handle_failure,
    )?;
    Ok(DimLinearEntity {
        common: DimensionCommonData {
            handle: header.handle,
            layer_handle,
            extrusion,
            text_midpoint,
            elevation,
            dim_flags,
            user_text,
            text_rotation,
            horizontal_direction,
            insert_scale: (scale_x, scale_y, scale_z),
            insert_rotation,
            attachment_point: Some(attachment_point),
            line_spacing_style: Some(line_spacing_style),
            line_spacing_factor: Some(line_spacing_factor),
            actual_measurement: Some(actual_measurement),
            insert_point: Some(insert_point),
            dimstyle_handle,
            anonymous_block_handle,
        },
        point13,
        point14,
        point10,
        ext_line_rotation,
        dim_rotation,
    })
}

/// Reads a later-dialect linear dimension under one layout.
pub fn decode_dim_linear_r2010_variant(
    reader: &mut BitReader<'_>,
    header: &CommonEntityHeader,
    variant: R2010PlusVariant,
    allow_handle_failure: bool,
) -> (r: Result<DimLinearEntity, DwgError>)
    requires
        old(reader).wf(),
    ensures
        spec_dim_r2010_block_end(old(reader).bytes(), old(reader).pos(), variant) is None ==> r.is_err(),
        allow_handle_failure && (spec_dim_r2010_block_end(old(reader).bytes(), old(reader).pos(), variant) matches Some(q)
            && spec_dim_points(old(reader).bytes(), q) is Some) ==> r.is_ok(),
        r matches Ok(e) ==> (spec_dim_r2010_block_end(old(reader).bytes(), old(reader).pos(), variant) matches Some(q)
            && spec_dim_points(old(reader).bytes(), q) matches Some((pts, _)) && pts == (e.point13, e.point14, e.point10, e.ext_line_rotation, e.dim_rotation)),
        final(reader).keeps(old(reader)),
        r matches Ok(e) ==> e.common.handle == header.handle && e.common.insert_point.is_some(),
{
    decode_dim_r2010_variant(reader, header, variant, false, allow_handle_failure)
}

/// Reads a later-dialect diameter dimension under one layout.
pub fn decode_dim_diameter_r2010_variant(
    reader: &mut BitReader<'_>,
    header: &CommonEntityHeader,
    variant: R2010PlusVariant,
    allow_handle_failure: bool,
) -> (r: Result<DimLinearEntity, DwgError>)
    requires
        old(reader).wf(),
    ensures
        spec_dim_r2010_block_end(old(reader).bytes(), old(reader).pos(), variant) is None ==> r.is_err(),
        allow_handle_failure && (spec_dim_r2010_block_end(old(reader).bytes(), old(reader).pos(), variant) matches Some(q)
            && spec_dim_diameter_points(old(reader).bytes(), q) is Some) ==> r.is_ok(),
        r matches Ok(e) ==> (spec_dim_r2010_block_end(old(reader).bytes(), old(reader).pos(), variant) matches Some(q)
            && spec_dim_diameter_points(old(reader).bytes(), q) matches Some((pts, _)) && pts == (e.point13, e.point14, e.point10, e.ext_line_rotation, e.dim_rotation)),
        final(reader).keeps(old(reader)),
        r matches Ok(e) ==> e.common.handle == header.handle && e.point14 == e.point10 && e.dim_rotation == 0,
{
    decode_dim_r2010_variant(reader, header, variant, true, allow_handle_failure)
}

} // verus!

//! Entity bodies. Doubles are carried as their IEEE-754 binary64 encodings
//! (`u64`): decoding moves bits and never computes on them.
use vstd::prelude::*;
use crate::bit_reader::{
    spec_3bd, spec_b, spec_bd, spec_be, spec_bl, spec_bs, spec_bt, spec_dd, spec_rc, spec_rd, spec_rs, spec_small,
    spec_tv,
    BitReader,
    Endian, ONE_BITS,
};
use crate::common::{
    parse_common_entity_handles, parse_common_entity_header, parse_common_entity_header_layout,
    read_handle_reference, reactor_refs, lemma_reactor_refs_fail, spec_common_header, spec_entity_handles,
    spec_handle_ref,
    CommonEntityHeader, HeaderLayout,
};
use crate::error::{DwgError, ErrorKind};
use crate::polyline::{curve_type_of, PolylineCurveType, PolylineFlagsInfo};

verus! {

/// Whether the record at `start` opens with a common preamble whose handle
/// is `handle`.
pub open spec fn preamble(d: Seq<u8>, start: int, handle: u64) -> bool {
    spec_common_header(d, start) matches Some((h, _)) && h.handle == handle
}

/// Where the entity body after the preamble at `start` begins.
pub open spec fn body_start(d: Seq<u8>, start: int) -> int {
    match spec_common_header(d, start) {
        Some((_, q)) => q,
        None => start,
    }
}

/// Whether the three bit-doubles at `p` are `v`.
pub open spec fn point_at(d: Seq<u8>, p: int, v: (u64, u64, u64)) -> bool {
    spec_3bd(d, p) matches Some((w, _)) && w == v
}

/// Whether the body at `p` starts with `center` and then `radius`.
pub open spec fn round_matches(d: Seq<u8>, p: int, center: (u64, u64, u64), radius: u64) -> bool {
    spec_3bd(d, p) matches Some((c, q)) && c == center && (spec_bd(d, q) matches Some((r, _)) && r
        == radius)
}

/// Whether the body at `p` starts with `center` and then `major`.
pub open spec fn ellipse_matches(d: Seq<u8>, p: int, center: (u64, u64, u64), major: (u64, u64, u64)) -> bool {
    spec_3bd(d, p) matches Some((c, q)) && c == center && (spec_3bd(d, q) matches Some((m, _)) && m
        == major)
}

fn read_point_at(reader: &mut BitReader<'_>) -> (r: Result<(u64, u64, u64), DwgError>)
    requires
        old(reader).wf(),
    ensures
        final(reader).keeps(old(reader)),
        r matches Ok(v) ==> point_at(old(reader).bytes(), old(reader).pos(), v),
        match r {
            Ok(v) => spec_3bd(old(reader).bytes(), old(reader).pos()) == Some((v, final(reader).pos())),
            Err(_) => spec_3bd(old(reader).bytes(), old(reader).pos()).is_none(),
        },
{
    reader.read_3bd()
}

/// A center and radius, then thickness and extrusion.
pub open spec fn spec_round_body(d: Seq<u8>, p: int) -> Option<((u64, u64, u64), u64, int)> {
    match spec_3bd(d, p) {
        None => None,
        Some((c, p1)) => match spec_bd(d, p1) {
            None => None,
            Some((r, p2)) => match spec_bt(d, p2) {
                None => None,
                Some((_, p3)) => match spec_be(d, p3) {
                    None => None,
                    Some((_, p4)) => Some((c, r, p4)),
                },
            },
        },
    }
}

/// The layer handle in the handle stream that the preamble `h` locates.
pub open spec fn spec_layer(d: Seq<u8>, h: CommonEntityHeader) -> Option<u64> {
    match spec_entity_handles(d, h.obj_size as int, h) {
        Some((m, _)) => Some(m.3),
        None => None,
    }
}

fn read_round_body(reader: &mut BitReader<'_>) -> (r: Result<((u64, u64, u64), u64), DwgError>)
    requires
        old(reader).wf(),
    ensures
        final(reader).keeps(old(reader)),
        r matches Ok((c, rad)) ==> round_matches(old(reader).bytes(), old(reader).pos(), c, rad),
        match r {
            Ok((c, rad)) => spec_round_body(old(reader).bytes(), old(reader).pos()) == Some((c, rad, final(reader).pos())),
            Err(_) => spec_round_body(old(reader).bytes(), old(reader).pos()).is_none(),
        },
{
    let center = reader.read_3bd()?;
    let radius = reader.read_bd()?;
    let _thickness = reader.read_bt()?;
    let _extrusion = reader.read_be()?;
    Ok((center, radius))
}

fn read_ellipse_axes(reader: &mut BitReader<'_>) -> (r: Result<((u64, u64, u64), (u64, u64, u64)), DwgError>)
    requires
        old(reader).wf(),
    ensures
        final(reader).keeps(old(reader)),
        r matches Ok((c, m)) ==> ellipse_matches(old(reader).bytes(), old(reader).pos(), c, m),
{
    let center = reader.read_3bd()?;
    let major_axis = reader.read_3bd()?;
    Ok((center, major_axis))
}

/// A LINE.
#[derive(Debug, Clone, Copy, PartialEq, Eq)]
pub struct LineEntity {
    pub handle: u64,
    pub start: (u64, u64, u64),
    pub end: (u64, u64, u64),
}

/// The LINE body at `p`: a flag for zero z, then x start (raw) and end
/// (default: start), y likewise, and z likewise unless the flag is set.
pub open spec fn spec_line_body(d: Seq<u8>, p: int) -> Option<((u64, u64, u64), (u64, u64, u64), int)> {
    match spec_b(d, p) {
        None => None,
        Some((z_zero, p1)) => match spec_rd(d, p1, Endian::Little) {
            None => None,
            Some((xs, p2)) => match spec_dd(d, p2, xs) {
                None => None,
                Some((xe, p3)) => match spec_rd(d, p3, Endian::Little) {
                    None => None,
                    Some((ys, p4)) => match spec_dd(d, p4, ys) {
                        None => None,
                        Some((ye, p5)) => if z_zero == 0 {
                            match spec_rd(d, p5, Endian::Little) {
                                None => None,
                                Some((zs, p6)) => match spec_dd(d, p6, zs) {
                                    None => None,
                                    Some((ze, p7)) => Some(((xs, ys, zs), (xe, ye, ze), p7)),
                                },
                            }
                        } else {
                            Some(((xs, ys, 0u64), (xe, ye, 0u64), p5))
                        },
                    },
                },
            },
        },
    }
}

/// Whether the LINE body at `p` gives the end points of `e`.
pub open spec fn line_matches(d: Seq<u8>, p: int, e: LineEntity) -> bool {
    spec_line_body(d, p) matches Some((s, t, _)) && s == e.start && t == e.end
}

fn read_line_body(reader: &mut BitReader<'_>) -> (r: Result<((u64, u64, u64), (u64, u64, u64)), DwgError>)
    requires
        old(reader).wf(),
    ensures
        final(reader).keeps(old(reader)),
        r matches Ok((s, e)) ==> spec_line_body(old(reader).bytes(), old(reader).pos()) == Some(
            (s, e, final(reader).pos()),
        ),
        r.is_err() ==> spec_line_body(old(reader).bytes(), old(reader).pos()).is_none(),
{
    let z_is_zero = reader.read_b()?;
    let x_start = reader.read_rd(Endian::Little)?;
    let x_end = reader.read_dd(x_start)?;
    let y_start = reader.read_rd(Endian::Little)?;
    let y_end = reader.read_dd(y_start)?;
    if z_is_zero == 0 {
        let z_start = reader.read_rd(Endian::Little)?;
        let z_end = reader.read_dd(z_start)?;
        Ok(((x_start, y_start, z_start), (x_end, y_end, z_end)))
    } else {
        Ok(((x_start, y_start, 0), (x_end, y_end, 0)))
    }
}

/// Reads a LINE record (R2000 layout) from its preamble on.
pub fn decode_line(reader: &mut BitReader<'_>) -> (r: Result<LineEntity, DwgError>)
    requires
        old(reader).wf(),
    ensures
        match r {
            Ok(e) => spec_line(old(reader).bytes(), old(reader).pos()) == Some(e),
            Err(_) => spec_line(old(reader).bytes(), old(reader).pos()).is_none(),
        },
        final(reader).keeps(old(reader)),
        r matches Ok(e) ==> preamble(old(reader).bytes(), old(reader).pos(), e.handle) && line_matches(
                old(reader).bytes(),
                body_start(old(reader).bytes(), old(reader).pos()),
                e,
            ),
{
    let header = parse_common_entity_header(reader)?;
    let (start, end) = read_line_body(reader)?;
    let _thickness = reader.read_bt()?;
    let _extrusion = reader.read_be()?;
    Ok(LineEntity { handle: header.handle, start, end })
}

/// A CIRCLE.
#[derive(Debug, Clone, Copy, PartialEq, Eq)]
pub struct CircleEntity {
    pub handle: u64,
    pub layer_handle: u64,
    pub center: (u64, u64, u64),
    pub radius: u64,
}

/// The layer handle of an entity: its handle stream read from the bit
/// position its preamble declares.
fn layer_of(reader: &mut BitReader<'_>, header: &CommonEntityHeader) -> (r: Result<u64, DwgError>)
    requires
        old(reader).wf(),
    ensures
        final(reader).keeps(old(reader)),
        match r {
            Ok(l) => spec_layer(old(reader).bytes(), *header) == Some(l),
            Err(_) => spec_layer(old(reader).bytes(), *header).is_none(),
        },
{
    reader.set_bit_pos(header.obj_size);
    let handles = parse_common_entity_handles(reader, header)?;
    Ok(handles.layer)
}

/// Reads a CIRCLE record: center, radius, thickness, extrusion, then the
/// layer from the handle stream.
pub fn decode_circle(reader: &mut BitReader<'_>) -> (r: Result<CircleEntity, DwgError>)
    requires
        old(reader).wf(),
    ensures
        match r {
            Ok(e) => spec_circle(old(reader).bytes(), old(reader).pos()) == Some(e),
            Err(_) => spec_circle(old(reader).bytes(), old(reader).pos()).is_none(),
        },
        final(reader).keeps(old(reader)),
        r matches Ok(e) ==> preamble(old(reader).bytes(), old(reader).pos(), e.handle) && round_matches(
                old(reader).bytes(),
                body_start(old(reader).bytes(), old(reader).pos()),
                e.center,
                e.radius,
            ),
{
    let header = parse_common_entity_header(reader)?;
    let (center, radius) = read_round_body(reader)?;
    let layer_handle = layer_of(reader, &header)?;
    Ok(CircleEntity { handle: header.handle, layer_handle, center, radius })
}

/// An ARC.
#[derive(Debug, Clone, Copy, PartialEq, Eq)]
pub struct ArcEntity {
    pub handle: u64,
    pub center: (u64, u64, u64),
    pub radius: u64,
    pub angle_start: u64,
    pub angle_end: u64,
}

/// Reads an ARC record: center, radius, thickness, extrusion, start and end
/// angles.
pub fn decode_arc(reader: &mut BitReader<'_>) -> (r: Result<ArcEntity, DwgError>)
    requires
        old(reader).wf(),
    ensures
        match r {
            Ok(e) => spec_arc(old(reader).bytes(), old(reader).pos()) == Some(e),
            Err(_) => spec_arc(old(reader).bytes(), old(reader).pos()).is_none(),
        },
        final(reader).keeps(old(reader)),
        r matches Ok(e) ==> preamble(old(reader).bytes(), old(reader).pos(), e.handle) && round_matches(
                old(reader).bytes(),
                body_start(old(reader).bytes(), old(reader).pos()),
                e.center,
                e.radius,
            ),
{
    let header = parse_common_entity_header(reader)?;
    let (center, radius) = read_round_body(reader)?;
    let angle_start = reader.read_bd()?;
    let angle_end = reader.read_bd()?;
    Ok(ArcEntity { handle: header.handle, center, radius, angle_start, angle_end })
}

/// A POINT.
#[derive(Debug, Clone, Copy, PartialEq, Eq)]
pub struct PointEntity {
    pub handle: u64,
    pub layer_handle: u64,
    pub location: (u64, u64, u64),
    pub x_axis_angle: u64,
}

/// Reads a POINT record: location, thickness, extrusion, x-axis angle, then
/// the layer from the handle stream.
pub fn decode_point(reader: &mut BitReader<'_>) -> (r: Result<PointEntity, DwgError>)
    requires
        old(reader).wf(),
    ensures
        match r {
            Ok(e) => spec_point(old(reader).bytes(), old(reader).pos()) == Some(e),
            Err(_) => spec_point(old(reader).bytes(), old(reader).pos()).is_none(),
        },
        final(reader).keeps(old(reader)),
        r matches Ok(e) ==> preamble(old(reader).bytes(), old(reader).pos(), e.handle) && point_at(
                old(reader).bytes(),
                body_start(old(reader).bytes(), old(reader).pos()),
                e.location,
            ),
{
    let header = parse_common_entity_header(reader)?;
    let location = read_point_at(reader)?;
    let _thickness = reader.read_bt()?;
    let _extrusion = reader.read_be()?;
    let x_axis_angle = reader.read_bd()?;
    let layer_handle = layer_of(reader, &header)?;
    Ok(PointEntity { handle: header.handle, layer_handle, location, x_axis_angle })
}

/// An ELLIPSE.
#[derive(Debug, Clone, Copy, PartialEq, Eq)]
pub struct EllipseEntity {
    pub handle: u64,
    pub layer_handle: u64,
    pub center: (u64, u64, u64),
    pub major_axis: (u64, u64, u64),
    pub extrusion: (u64, u64, u64),
    pub axis_ratio: u64,
    pub start_angle: u64,
    pub end_angle: u64,
}

/// Reads an ELLIPSE record: center, major axis, extrusion, axis ratio,
/// start and end angles, then the layer from the handle stream.
pub fn decode_ellipse(reader: &mut BitReader<'_>) -> (r: Result<EllipseEntity, DwgError>)
    requires
        old(reader).wf(),
    ensures
        match r {
            Ok(e) => spec_ellipse(old(reader).bytes(), old(reader).pos()) == Some(e),
            Err(_) => spec_ellipse(old(reader).bytes(), old(reader).pos()).is_none(),
        },
        final(reader).keeps(old(reader)),
        r matches Ok(e) ==> preamble(old(reader).bytes(), old(reader).pos(), e.handle) && ellipse_matches(
                old(reader).bytes(),
                body_start(old(reader).bytes(), old(reader).pos()),
                e.center,
                e.major_axis,
            ),
{
    let header = parse_common_entity_header(reader)?;
    let (center, major_axis, extrusion, axis_ratio, start_angle, end_angle) = read_ellipse_body(reader)?;
    let layer_handle = layer_of(reader, &header)?;
    Ok(EllipseEntity {
        handle: header.handle,
        layer_handle,
        center,
        major_axis,
        extrusion,
        axis_ratio,
        start_angle,
        end_angle,
    })
}

/// An INSERT.
#[derive(Debug, Clone, Copy, PartialEq, Eq)]
pub struct InsertEntity {
    pub handle: u64,
    pub position: (u64, u64, u64),
    pub scale: (u64, u64, u64),
    pub rotation: u64,
}

/// The INSERT scale for `flags` read at `p`.
pub open spec fn spec_insert_scale(d: Seq<u8>, p: int, flags: u8) -> Option<((u64, u64, u64), int)> {
    if flags == 3 {
        Some(((ONE_BITS, ONE_BITS, ONE_BITS), p))
    } else if flags == 1 {
        match spec_dd(d, p, ONE_BITS) {
            None => None,
            Some((y, p1)) => match spec_dd(d, p1, ONE_BITS) {
                None => None,
                Some((z, p2)) => Some(((ONE_BITS, y, z), p2)),
            },
        }
    } else if flags == 2 {
        match spec_rd(d, p, Endian::Little) {
            None => None,
            Some((x, p1)) => Some(((x, x, x), p1)),
        }
    } else {
        match spec_rd(d, p, Endian::Little) {
            None => None,
            Some((x, p1)) => match spec_dd(d, p1, x) {
                None => None,
                Some((y, p2)) => match spec_dd(d, p2, x) {
                    None => None,
                    Some((z, p3)) => Some(((x, y, z), p3)),
                },
            },
        }
    }
}

/// The INSERT body after the preamble, and where it ends.
pub open spec fn spec_insert_body(d: Seq<u8>, q: int) -> Option<((u64, u64, u64), (u64, u64, u64), u64, int)> {
    match spec_3bd(d, q) {
        None => None,
        Some((pos, q1)) => match spec_small(d, q1, 2) {
            None => None,
            Some((fl, q2)) => match spec_insert_scale(d, q2, fl) {
                None => None,
                Some((sc, q3)) => match spec_bd(d, q3) {
                    None => None,
                    Some((rot, q4)) => match spec_3bd(d, q4) {
                        None => None,
                        Some((_, q5)) => match spec_b(d, q5) {
                            None => None,
                            Some((att, q6)) => if att == 1 {
                                match spec_bl(d, q6) {
                                    None => None,
                                    Some((_, q7)) => Some((pos, sc, rot, q7)),
                                }
                            } else {
                                Some((pos, sc, rot, q6))
                            },
                        },
                    },
                },
            },
        },
    }
}

/// An INSERT record (R2000 layout) at `p`, and where it ends.
pub open spec fn spec_insert(d: Seq<u8>, p: int) -> Option<(InsertEntity, int)> {
    match spec_common_header(d, p) {
        None => None,
        Some((h, q)) => match spec_insert_body(d, q) {
            None => None,
            Some((pos, sc, rot, e)) => Some((InsertEntity { handle: h.handle, position: pos, scale: sc, rotation: rot }, e)),
        },
    }
}

fn read_insert_body(reader: &mut BitReader<'_>) -> (r: Result<((u64, u64, u64), (u64, u64, u64), u64), DwgError>)
    requires
        old(reader).wf(),
    ensures
        final(reader).keeps(old(reader)),
        match r {
            Ok((pos, sc, rot)) => spec_insert_body(old(reader).bytes(), old(reader).pos()) == Some(
                (pos, sc, rot, final(reader).pos()),
            ),
            Err(_) => spec_insert_body(old(reader).bytes(), old(reader).pos()).is_none(),
        },
{
    let position = reader.read_3bd()?;
    let data_flags = reader.read_bb()?;
    let scale = read_insert_scale(reader, data_flags)?;
    let rotation = reader.read_bd()?;
    let _extrusion = reader.read_3bd()?;
    let has_attribs = reader.read_b()?;
    if has_attribs == 1 {
        let _owned = reader.read_bl()?;
    }
    Ok((position, scale, rotation))
}

/// The scale of an INSERT for the 2-bit `flags`: 3 is unit scale, 1 is x of
/// 1.0 with y and z as default doubles of 1.0, 2 is one raw double for all
/// three, 0 is a raw x with y and z as default doubles of x.
pub fn read_insert_scale(reader: &mut BitReader<'_>, flags: u8) -> (r: Result<(u64, u64, u64), DwgError>)
    requires
        old(reader).wf(),
    ensures
        final(reader).keeps(old(reader)),
        flags == 3 ==> r == Ok::<(u64, u64, u64), DwgError>((ONE_BITS, ONE_BITS, ONE_BITS)),
        flags == 2 ==> (r matches Ok((x, y, z)) ==> x == y && y == z),
        flags == 1 ==> (r matches Ok((x, _, _)) ==> x == ONE_BITS),
        match r {
            Ok(v) => spec_insert_scale(old(reader).bytes(), old(reader).pos(), flags) == Some((v, final(reader).pos())),
            Err(_) => spec_insert_scale(old(reader).bytes(), old(reader).pos(), flags).is_none(),
        },
{
    if flags == 3 {
        Ok((ONE_BITS, ONE_BITS, ONE_BITS))
    } else if flags == 1 {
        let y = reader.read_dd(ONE_BITS)?;
        let z = reader.read_dd(ONE_BITS)?;
        Ok((ONE_BITS, y, z))
    } else if flags == 2 {
        let x = reader.read_rd(Endian::Little)?;
        Ok((x, x, x))
    } else {
        let x = reader.read_rd(Endian::Little)?;
        let y = reader.read_dd(x)?;
        let z = reader.read_dd(x)?;
        Ok((x, y, z))
    }
}

/// Reads an INSERT record: position, scale, rotation, extrusion and the
/// attribute flag (with its owned count).
pub fn decode_insert(reader: &mut BitReader<'_>) -> (r: Result<InsertEntity, DwgError>)
    requires
        old(reader).wf(),
    ensures
        final(reader).keeps(old(reader)),
        match r {
            Ok(e) => spec_insert(old(reader).bytes(), old(reader).pos()) == Some((e, final(reader).pos())),
            Err(_) => spec_insert(old(reader).bytes(), old(reader).pos()).is_none(),
        },
        r matches Ok(e) ==> preamble(old(reader).bytes(), old(reader).pos(), e.handle) && point_at(
                old(reader).bytes(),
                body_start(old(reader).bytes(), old(reader).pos()),
                e.position,
            ),
{
    let header = parse_common_entity_header(reader)?;
    let (position, scale, rotation) = read_insert_body(reader)?;
    Ok(InsertEntity { handle: header.handle, position, scale, rotation })
}

/// A lightweight polyline.
#[derive(Debug, Clone)]
pub struct LwPolylineEntity {
    pub handle: u64,
    pub flags: u16,
    /// The constant width, where flag 0x04 declares one; 0 otherwise.
    pub const_width: u64,
    pub vertices: Vec<(u64, u64)>,
    pub bulges: Vec<u64>,
    /// Per-vertex (start, end) widths, where flag 0x20 declares them.
    pub widths: Vec<(u64, u64)>,
}

/// The width of vertex `i`: its own where the record lists widths for it,
/// else the constant width for both ends.
pub open spec fn vertex_width(e: LwPolylineEntity, i: int) -> (u64, u64) {
    if i < e.widths@.len() {
        e.widths@[i]
    } else {
        (e.const_width, e.const_width)
    }
}

/// The (start, end) width of every vertex.
pub fn lwpolyline_vertex_widths(e: &LwPolylineEntity) -> (r: Vec<(u64, u64)>)
    ensures
        r@.len() == e.vertices@.len(),
        forall|i: int| 0 <= i < r@.len() ==> #[trigger] r@[i] == vertex_width(*e, i),
        forall|i: int|
            0 <= i < r@.len() && i >= e.widths@.len() ==> #[trigger] r@[i] == (e.const_width, e.const_width),
{
    let mut out: Vec<(u64, u64)> = Vec::new();
    let mut i: usize = 0;
    while i < e.vertices.len()
        invariant
            0 <= i <= e.vertices@.len(),
            out@.len() == i,
            forall|k: int| 0 <= k < i ==> #[trigger] out@[k] == vertex_width(*e, k),
        decreases e.vertices@.len() - i,
    {
        if i < e.widths.len() {
            out.push(e.widths[i]);
        } else {
            out.push((e.const_width, e.const_width));
        }
        i = i + 1;
    }
    out
}

/// `k` more bit-doubles from `p`, appended to `acc`.
pub open spec fn bd_acc(d: Seq<u8>, p: int, k: nat, acc: Seq<u64>) -> Option<(Seq<u64>, int)>
    decreases k,
{
    if k == 0 {
        Some((acc, p))
    } else {
        match spec_bd(d, p) {
            None => None,
            Some((v, q)) => bd_acc(d, q, (k - 1) as nat, acc.push(v)),
        }
    }
}

/// `k` more (start, end) width pairs of bit-doubles from `p`, appended to `acc`.
pub open spec fn width_acc(d: Seq<u8>, p: int, k: nat, acc: Seq<(u64, u64)>) -> Option<(Seq<(u64, u64)>, int)>
    decreases k,
{
    if k == 0 {
        Some((acc, p))
    } else {
        match spec_bd(d, p) {
            None => None,
            Some((a, q)) => match spec_bd(d, q) {
                None => None,
                Some((b, q2)) => width_acc(d, q2, (k - 1) as nat, acc.push((a, b))),
            },
        }
    }
}

/// `k` more vertices from `p`, each coordinate a default double of the
/// previous vertex's, appended to `acc`.
pub open spec fn point_acc(d: Seq<u8>, p: int, k: nat, prev: (u64, u64), acc: Seq<(u64, u64)>) -> Option<
    (Seq<(u64, u64)>, int),
>
    decreases k,
{
    if k == 0 {
        Some((acc, p))
    } else {
        match spec_dd(d, p, prev.0) {
            None => None,
            Some((x, q)) => match spec_dd(d, q, prev.1) {
                None => None,
                Some((y, q2)) => point_acc(d, q2, (k - 1) as nat, (x, y), acc.push((x, y))),
            },
        }
    }
}

/// `n` vertices at `p`: the first as two raw doubles, the rest relative.
pub open spec fn spec_lw_points(d: Seq<u8>, p: int, n: nat) -> Option<(Seq<(u64, u64)>, int)> {
    if n == 0 {
        Some((Seq::empty(), p))
    } else {
        match spec_rd(d, p, Endian::Little) {
            None => None,
            Some((x0, p1)) => match spec_rd(d, p1, Endian::Little) {
                None => None,
                Some((y0, p2)) => point_acc(d, p2, (n - 1) as nat, (x0, y0), seq![(x0, y0)]),
            },
        }
    }
}

/// Reads `n` encodings of bit-doubles.
fn read_bd_list(reader: &mut BitReader<'_>, n: u32) -> (r: Result<Vec<u64>, DwgError>)
    requires
        old(reader).wf(),
    ensures
        final(reader).keeps(old(reader)),
        r matches Ok(v) ==> v@.len() == n,
        match r {
            Ok(v) => bd_acc(old(reader).bytes(), old(reader).pos(), n as nat, Seq::empty()) == Some((v@, final(reader).pos())),
            Err(_) => bd_acc(old(reader).bytes(), old(reader).pos(), n as nat, Seq::empty()).is_none(),
        },
{
    let ghost d = reader.bytes();
    let mut v: Vec<u64> = Vec::new();
    let mut i: u32 = 0;
    while i < n
        invariant
            reader.keeps(old(reader)),
            d == reader.bytes(),
            0 <= i <= n,
            v@.len() == i,
            bd_acc(d, old(reader).pos(), n as nat, Seq::empty()) == bd_acc(d, reader.pos(), (n - i) as nat, v@),
        decreases n - i,
    {
        v.push(reader.read_bd()?);
        i = i + 1;
    }
    Ok(v)
}

fn read_width_list(reader: &mut BitReader<'_>, n: u32) -> (r: Result<Vec<(u64, u64)>, DwgError>)
    requires
        old(reader).wf(),
    ensures
        final(reader).keeps(old(reader)),
        r matches Ok(v) ==> v@.len() == n,
        match r {
            Ok(v) => width_acc(old(reader).bytes(), old(reader).pos(), n as nat, Seq::empty()) == Some(
                (v@, final(reader).pos()),
            ),
            Err(_) => width_acc(old(reader).bytes(), old(reader).pos(), n as nat, Seq::empty()).is_none(),
        },
{
    let ghost d = reader.bytes();
    let mut v: Vec<(u64, u64)> = Vec::new();
    let mut i: u32 = 0;
    while i < n
        invariant
            reader.keeps(old(reader)),
            d == reader.bytes(),
            0 <= i <= n,
            v@.len() == i,
            width_acc(d, old(reader).pos(), n as nat, Seq::empty()) == width_acc(d, reader.pos(), (n - i) as nat, v@),
        decreases n - i,
    {
        let start = reader.read_bd()?;
        let end = reader.read_bd()?;
        v.push((start, end));
        i = i + 1;
    }
    Ok(v)
}

fn read_lw_points(reader: &mut BitReader<'_>, n: u32) -> (r: Result<Vec<(u64, u64)>, DwgError>)
    requires
        old(reader).wf(),
    ensures
        final(reader).keeps(old(reader)),
        match r {
            Ok(v) => spec_lw_points(old(reader).bytes(), old(reader).pos(), n as nat) == Some((v@, final(reader).pos())),
            Err(_) => spec_lw_points(old(reader).bytes(), old(reader).pos(), n as nat).is_none(),
        },
{
    let mut vertices: Vec<(u64, u64)> = Vec::new();
    if n == 0 {
        return Ok(vertices);
    }
    let ghost d = reader.bytes();
    let x0 = reader.read_rd(Endian::Little)?;
    let y0 = reader.read_rd(Endian::Little)?;
    vertices.push((x0, y0));
    assert(vertices@ =~= seq![(x0, y0)]);
    let mut prev = (x0, y0);
    let mut i: u32 = 1;
    while i < n
        invariant
            reader.keeps(old(reader)),
            d == reader.bytes(),
            1 <= i <= n,
            spec_lw_points(d, old(reader).pos(), n as nat) == point_acc(d, reader.pos(), (n - i) as nat, prev, vertices@),
        decreases n - i,
    {
        let x = reader.read_dd(prev.0)?;
        let y = reader.read_dd(prev.1)?;
        vertices.push((x, y));
        prev = (x, y);
        i = i + 1;
    }
    Ok(vertices)
}

/// The LWPOLYLINE fields before the vertices: flags, the constant width
/// (0x04), elevation (0x08), thickness (0x02) and normal (0x01) where
/// flagged, then the point count and the bulge (0x10) and width (0x20)
/// counts.
pub open spec fn spec_lw_head(d: Seq<u8>, p: int) -> Option<((u16, u64, u32, u32, u32), int)> {
    match spec_bs(d, p) {
        None => None,
        Some((flags, p1)) => {
            let cw = if flags & 0x04 != 0 { spec_bd(d, p1) } else { Some((0u64, p1)) };
            match cw {
                None => None,
                Some((w, p2)) => {
                    let e = if flags & 0x08 != 0 { spec_bd(d, p2) } else { Some((0u64, p2)) };
                    match e {
                        None => None,
                        Some((_, p3)) => {
                            let t = if flags & 0x02 != 0 { spec_bd(d, p3) } else { Some((0u64, p3)) };
                            match t {
                                None => None,
                                Some((_, p4)) => {
                                    let nrm = if flags & 0x01 != 0 {
                                        match spec_3bd(d, p4) {
                                            None => None,
                                            Some((_, q)) => Some(q),
                                        }
                                    } else {
                                        Some(p4)
                                    };
                                    match nrm {
                                        None => None,
                                        Some(p5) => match spec_bl(d, p5) {
                                            None => None,
                                            Some((np, p6)) => {
                                                let nb = if flags & 0x10 != 0 { spec_bl(d, p6) } else { Some((0u32, p6)) };
                                                match nb {
                                                    None => None,
                                                    Some((b, p7)) => {
                                                        let nw = if flags & 0x20 != 0 {
                                                            spec_bl(d, p7)
                                                        } else {
                                                            Some((0u32, p7))
                                                        };
                                                        match nw {
                                                            None => None,
                                                            Some((wc, p8)) => Some(((flags, w, np, b, wc), p8)),
                                                        }
                                                    },
                                                }
                                            },
                                        },
                                    }
                                },
                            }
                        },
                    }
                },
            }
        },
    }
}

fn read_lw_head(reader: &mut BitReader<'_>) -> (r: Result<(u16, u64, u32, u32, u32), DwgError>)
    requires
        old(reader).wf(),
    ensures
        final(reader).keeps(old(reader)),
        match r {
            Ok(v) => spec_lw_head(old(reader).bytes(), old(reader).pos()) == Some((v, final(reader).pos())),
            Err(_) => spec_lw_head(old(reader).bytes(), old(reader).pos()).is_none(),
        },
{
    let flags = reader.read_bs()?;
    let const_width = if flags & 0x04 != 0 { reader.read_bd()? } else { 0 };
    if flags & 0x08 != 0 {
        let _elevation = reader.read_bd()?;
    }
    if flags & 0x02 != 0 {
        let _thickness = reader.read_bd()?;
    }
    if flags & 0x01 != 0 {
        let _normal = reader.read_3bd()?;
    }
    let num_points = reader.read_bl()?;
    let num_bulges = if flags & 0x10 != 0 { reader.read_bl()? } else { 0 };
    let num_widths = if flags & 0x20 != 0 { reader.read_bl()? } else { 0 };
    Ok((flags, const_width, num_points, num_bulges, num_widths))
}

/// What an LWPOLYLINE reading holds.
pub struct LwModel {
    pub handle: u64,
    pub flags: u16,
    pub const_width: u64,
    pub vertices: Seq<(u64, u64)>,
    pub bulges: Seq<u64>,
    pub widths: Seq<(u64, u64)>,
}

pub open spec fn lw_model(e: LwPolylineEntity) -> LwModel {
    LwModel {
        handle: e.handle,
        flags: e.flags,
        const_width: e.const_width,
        vertices: e.vertices@,
        bulges: e.bulges@,
        widths: e.widths@,
    }
}

/// An LWPOLYLINE record (R2000 layout) at `p`.
pub open spec fn spec_lwpolyline(d: Seq<u8>, p: int) -> Option<LwModel> {
    match spec_common_header(d, p) {
        None => None,
        Some((h, q)) => match spec_lw_head(d, q) {
            None => None,
            Some(((flags, w, np, nb, nw), q1)) => match spec_lw_points(d, q1, np as nat) {
                None => None,
                Some((pts, q2)) => match bd_acc(d, q2, nb as nat, Seq::empty()) {
                    None => None,
                    Some((bulges, q3)) => match width_acc(d, q3, nw as nat, Seq::empty()) {
                        None => None,
                        Some((widths, _)) => Some(
                            LwModel { handle: h.handle, flags, const_width: w, vertices: pts, bulges, widths },
                        ),
                    },
                },
            },
        },
    }
}

/// Reads an LWPOLYLINE record (R2000 layout): flags; the constant width
/// (0x04), elevation (0x08), thickness (0x02) and normal (0x01) where
/// flagged; the point count, bulge count (0x10) and width count (0x20); the
/// first point raw and each later one as default doubles of the point
/// before; then the bulges and the (start, end) widths.
pub fn decode_lwpolyline(reader: &mut BitReader<'_>) -> (r: Result<LwPolylineEntity, DwgError>)
    requires
        old(reader).wf(),
    ensures
        final(reader).keeps(old(reader)),
        match r {
            Ok(e) => spec_lwpolyline(old(reader).bytes(), old(reader).pos()) == Some(lw_model(e)),
            Err(_) => spec_lwpolyline(old(reader).bytes(), old(reader).pos()).is_none(),
        },
        r matches Ok(e) ==> (e.flags & 0x04 == 0 ==> e.const_width == 0) && (e.flags & 0x20 == 0
            ==> e.widths@.len() == 0) && (e.flags & 0x10 == 0 ==> e.bulges@.len() == 0),
{
    let header = parse_common_entity_header(reader)?;
    let (flags, const_width, num_points, num_bulges, num_widths) = read_lw_head(reader)?;
    let vertices = read_lw_points(reader, num_points)?;
    let bulges = read_bd_list(reader, num_bulges)?;
    let widths = read_width_list(reader, num_widths)?;
    Ok(LwPolylineEntity { handle: header.handle, flags, const_width, vertices, bulges, widths })
}

/// Whether an encoding is a negative number (not -0.0, not a NaN).
pub open spec fn is_negative(bits: u64) -> bool {
    bits >= 0x8000_0000_0000_0000 && bits != 0x8000_0000_0000_0000 && bits <= 0xFFF0_0000_0000_0000
}

/// A 2D vertex.
#[derive(Debug, Clone, Copy, PartialEq, Eq)]
pub struct Vertex2dEntity {
    pub handle: u64,
    pub flags: u16,
    pub position: (u64, u64, u64),
    pub start_width: u64,
    pub end_width: u64,
    pub bulge: u64,
    pub tangent_dir: u64,
}

/// The VERTEX_2D fields after the preamble: raw-short flags, position,
/// start width (a negative one, made positive, serves both ends; otherwise
/// the end width follows), bulge and tangent direction.
pub open spec fn spec_vertex_body(d: Seq<u8>, q: int) -> Option<((u16, (u64, u64, u64), u64, u64, u64, u64), int)> {
    match spec_rs(d, q, Endian::Little) {
        None => None,
        Some((flags, q1)) => match spec_3bd(d, q1) {
            None => None,
            Some((pos, q2)) => match spec_bd(d, q2) {
                None => None,
                Some((raw, q3)) => {
                    let widths = if is_negative(raw) {
                        Some(((raw - 0x8000_0000_0000_0000) as u64, (raw - 0x8000_0000_0000_0000) as u64, q3))
                    } else {
                        match spec_bd(d, q3) {
                            None => None,
                            Some((end, q4)) => Some((raw, end, q4)),
                        }
                    };
                    match widths {
                        None => None,
                        Some((sw, ew, q4)) => match spec_bd(d, q4) {
                            None => None,
                            Some((bulge, q5)) => match spec_bd(d, q5) {
                                None => None,
                                Some((tan, q6)) => Some(((flags, pos, sw, ew, bulge, tan), q6)),
                            },
                        },
                    }
                },
            },
        },
    }
}

/// A VERTEX_2D record (R2000 layout) at `p`, its handle stream following
/// the fields.
pub open spec fn spec_vertex_2d(d: Seq<u8>, p: int) -> Option<Vertex2dEntity> {
    match spec_common_header(d, p) {
        None => None,
        Some((h, q)) => match spec_vertex_body(d, q) {
            None => None,
            Some(((flags, pos, sw, ew, bulge, tan), q1)) => match spec_entity_handles(d, q1, h) {
                None => None,
                Some(_) => Some(
                    Vertex2dEntity {
                        handle: h.handle,
                        flags,
                        position: pos,
                        start_width: sw,
                        end_width: ew,
                        bulge,
                        tangent_dir: tan,
                    },
                ),
            },
        },
    }
}

fn read_vertex_body(reader: &mut BitReader<'_>) -> (r: Result<(u16, (u64, u64, u64), u64, u64, u64, u64), DwgError>)
    requires
        old(reader).wf(),
    ensures
        final(reader).keeps(old(reader)),
        match r {
            Ok(v) => spec_vertex_body(old(reader).bytes(), old(reader).pos()) == Some((v, final(reader).pos())),
            Err(_) => spec_vertex_body(old(reader).bytes(), old(reader).pos()).is_none(),
        },
{
    let flags = reader.read_rs(Endian::Little)?;
    let position = reader.read_3bd()?;
    let raw_start = reader.read_bd()?;
    let (start_width, end_width) = if raw_start >= 0x8000_0000_0000_0000 && raw_start != 0x8000_0000_0000_0000
        && raw_start <= 0xFFF0_0000_0000_0000 {
        let w = raw_start - 0x8000_0000_0000_0000;
        (w, w)
    } else {
        let end = reader.read_bd()?;
        (raw_start, end)
    };
    let bulge = reader.read_bd()?;
    let tangent_dir = reader.read_bd()?;
    Ok((flags, position, start_width, end_width, bulge, tangent_dir))
}

/// Reads a VERTEX_2D record: raw-short flags, position, start width (a
/// negative one is used, made positive, for both ends; otherwise the end
/// width follows), bulge, tangent direction, then the handle stream.
pub fn decode_vertex_2d(reader: &mut BitReader<'_>) -> (r: Result<Vertex2dEntity, DwgError>)
    requires
        old(reader).wf(),
    ensures
        final(reader).keeps(old(reader)),
        r matches Ok(e) ==> !is_negative(e.start_width),
        match r {
            Ok(e) => spec_vertex_2d(old(reader).bytes(), old(reader).pos()) == Some(e),
            Err(_) => spec_vertex_2d(old(reader).bytes(), old(reader).pos()).is_none(),
        },
{
    let header = parse_common_entity_header(reader)?;
    let (flags, position, start_width, end_width, bulge, tangent_dir) = read_vertex_body(reader)?;
    let _handles = parse_common_entity_handles(reader, &header)?;
    Ok(Vertex2dEntity { handle: header.handle, flags, position, start_width, end_width, bulge, tangent_dir })
}

/// Reads `n` handle references resolved against `base`.
fn read_handle_refs(reader: &mut BitReader<'_>, n: u32, base: u64) -> (r: Result<Vec<u64>, DwgError>)
    requires
        old(reader).wf(),
    ensures
        final(reader).keeps(old(reader)),
        match r {
            Ok(v) => reactor_refs(old(reader).bytes(), old(reader).pos(), n as nat, base) == Some((v@, final(reader).pos())),
            Err(_) => reactor_refs(old(reader).bytes(), old(reader).pos(), n as nat, base).is_none(),
        },
{
    let ghost d = reader.bytes();
    let ghost q3 = reader.pos();
    let mut refs: Vec<u64> = Vec::new();
    let mut i: u32 = 0;
    while i < n
        invariant
            reader.keeps(old(reader)),
            d == reader.bytes(),
            q3 == old(reader).pos(),
            0 <= i <= n,
            reactor_refs(d, q3, i as nat, base) == Some((refs@, reader.pos())),
        decreases n - i,
    {
        let v = match read_handle_reference(reader, base) {
            Ok(v) => v,
            Err(e) => {
                proof {
                    lemma_reactor_refs_fail(d, q3, (i + 1) as nat, n as nat, base);
                }
                return Err(e);
            },
        };
        refs.push(v);
        i = i + 1;
    }
    Ok(refs)
}

/// The POLYLINE_2D fields after the preamble: flags, curve type, start and
/// end widths, thickness, elevation, extrusion and the owned count.
pub open spec fn spec_polyline_body(d: Seq<u8>, q: int) -> Option<((u16, u16, u64, u64, u64, u64, u32), int)> {
    match spec_bs(d, q) {
        None => None,
        Some((flags, q1)) => match spec_bs(d, q1) {
            None => None,
            Some((ct, q2)) => match spec_bd(d, q2) {
                None => None,
                Some((ws, q3)) => match spec_bd(d, q3) {
                    None => None,
                    Some((we, q4)) => match spec_bt(d, q4) {
                        None => None,
                        Some((th, q5)) => match spec_bd(d, q5) {
                            None => None,
                            Some((el, q6)) => match spec_be(d, q6) {
                                None => None,
                                Some((_, q7)) => match spec_bl(d, q7) {
                                    None => None,
                                    Some((n, q8)) => Some(((flags, ct, ws, we, th, el, n), q8)),
                                },
                            },
                        },
                    },
                },
            },
        },
    }
}

fn read_polyline_body(reader: &mut BitReader<'_>) -> (r: Result<(u16, u16, u64, u64, u64, u64, u32), DwgError>)
    requires
        old(reader).wf(),
    ensures
        final(reader).keeps(old(reader)),
        match r {
            Ok(v) => spec_polyline_body(old(reader).bytes(), old(reader).pos()) == Some((v, final(reader).pos())),
            Err(_) => spec_polyline_body(old(reader).bytes(), old(reader).pos()).is_none(),
        },
{
    let flags = reader.read_bs()?;
    let curve_type = reader.read_bs()?;
    let width_start = reader.read_bd()?;
    let width_end = reader.read_bd()?;
    let thickness = reader.read_bt()?;
    let elevation = reader.read_bd()?;
    let _extrusion = reader.read_be()?;
    let owned_count = reader.read_bl()?;
    Ok((flags, curve_type, width_start, width_end, thickness, elevation, owned_count))
}

/// What a POLYLINE_2D reading holds.
pub struct PolylineModel {
    pub handle: u64,
    pub flags: u16,
    pub curve_type: u16,
    pub widths: (u64, u64),
    pub thickness: u64,
    pub elevation: u64,
    pub owned_handles: Seq<u64>,
}

pub open spec fn polyline_model(e: Polyline2dEntity) -> PolylineModel {
    PolylineModel {
        handle: e.handle,
        flags: e.flags,
        curve_type: e.curve_type,
        widths: (e.width_start, e.width_end),
        thickness: e.thickness,
        elevation: e.elevation,
        owned_handles: e.owned_handles@,
    }
}

/// A POLYLINE_2D record (R2000 layout) at `p`: its fields, the handle
/// stream, then the owned vertex handles.
pub open spec fn spec_polyline_2d(d: Seq<u8>, p: int) -> Option<PolylineModel> {
    match spec_common_header(d, p) {
        None => None,
        Some((h, q)) => match spec_polyline_body(d, q) {
            None => None,
            Some(((flags, ct, ws, we, th, el, n), q1)) => match spec_entity_handles(d, q1, h) {
                None => None,
                Some((_, q2)) => match reactor_refs(d, q2, n as nat, h.handle) {
                    None => None,
                    Some((owned, _)) => Some(
                        PolylineModel {
                            handle: h.handle,
                            flags,
                            curve_type: ct,
                            widths: (ws, we),
                            thickness: th,
                            elevation: el,
                            owned_handles: owned,
                        },
                    ),
                },
            },
        },
    }
}

/// A 2D polyline header record.
#[derive(Debug, Clone)]
pub struct Polyline2dEntity {
    pub handle: u64,
    pub flags: u16,
    pub curve_type: u16,
    pub flags_info: PolylineFlagsInfo,
    pub curve_type_info: PolylineCurveType,
    pub width_start: u64,
    pub width_end: u64,
    pub thickness: u64,
    pub elevation: u64,
    pub owned_handles: Vec<u64>,
}

/// Reads a POLYLINE_2D record: flags, curve type, widths, thickness,
/// elevation, extrusion and owned count, then the handle stream and the
/// owned vertex handles.
pub fn decode_polyline_2d(reader: &mut BitReader<'_>) -> (r: Result<Polyline2dEntity, DwgError>)
    requires
        old(reader).wf(),
    ensures
        final(reader).keeps(old(reader)),
        r matches Ok(e) ==> e.curve_type_info == curve_type_of(e.curve_type) && e.flags_info.closed == (e.flags
            & 0x01 != 0) && e.flags_info.is_3d_polyline == (e.flags & 0x08 != 0),
        match r {
            Ok(e) => spec_polyline_2d(old(reader).bytes(), old(reader).pos()) == Some(polyline_model(e)),
            Err(_) => spec_polyline_2d(old(reader).bytes(), old(reader).pos()).is_none(),
        },
{
    let header = parse_common_entity_header(reader)?;
    let (flags, curve_type, width_start, width_end, thickness, elevation, owned_count) = read_polyline_body(reader)?;
    let flags_info = PolylineFlagsInfo::from_flags(flags);
    let curve_type_info = PolylineCurveType::from_code(curve_type);
    let _common = parse_common_entity_handles(reader, &header)?;
    let owned_handles = read_handle_refs(reader, owned_count, header.handle)?;
    Ok(Polyline2dEntity {
        handle: header.handle,
        flags,
        curve_type,
        flags_info,
        curve_type_info,
        width_start,
        width_end,
        thickness,
        elevation,
        owned_handles,
    })
}

/// A TEXT.
#[derive(Debug)]
pub struct TextEntity {
    pub handle: u64,
    pub text: String,
    pub insertion: (u64, u64, u64),
    pub alignment: Option<(u64, u64, u64)>,
    pub extrusion: (u64, u64, u64),
    pub thickness: u64,
    pub oblique_angle: u64,
    pub height: u64,
    pub rotation: u64,
    pub width_factor: u64,
    pub generation: u16,
    pub horizontal_alignment: u16,
    pub vertical_alignment: u16,
    pub style_handle: Option<u64>,
}

/// A raw double at `p` unless `absent`, in which case `default`.
pub open spec fn opt_rd(d: Seq<u8>, p: int, absent: bool, default: u64) -> Option<(u64, int)> {
    if absent {
        Some((default, p))
    } else {
        spec_rd(d, p, Endian::Little)
    }
}

/// A bit-short at `p` unless `absent`, in which case 0.
pub open spec fn opt_bs(d: Seq<u8>, p: int, absent: bool) -> Option<(u16, int)> {
    if absent {
        Some((0u16, p))
    } else {
        spec_bs(d, p)
    }
}

/// A raw double unless `absent`, in which case `default`.
fn read_rd_unless(reader: &mut BitReader<'_>, absent: bool, default: u64) -> (r: Result<u64, DwgError>)
    requires
        old(reader).wf(),
    ensures
        final(reader).keeps(old(reader)),
        absent ==> r == Ok::<u64, DwgError>(default),
        match r {
            Ok(v) => opt_rd(old(reader).bytes(), old(reader).pos(), absent, default) == Some((v, final(reader).pos())),
            Err(_) => opt_rd(old(reader).bytes(), old(reader).pos(), absent, default).is_none(),
        },
{
    if absent {
        Ok(default)
    } else {
        reader.read_rd(Endian::Little)
    }
}

/// A bit-short unless `absent`, in which case 0.
fn read_bs_unless(reader: &mut BitReader<'_>, absent: bool) -> (r: Result<u16, DwgError>)
    requires
        old(reader).wf(),
    ensures
        final(reader).keeps(old(reader)),
        absent ==> r == Ok::<u16, DwgError>(0),
        match r {
            Ok(v) => opt_bs(old(reader).bytes(), old(reader).pos(), absent) == Some((v, final(reader).pos())),
            Err(_) => opt_bs(old(reader).bytes(), old(reader).pos(), absent).is_none(),
        },
{
    if absent {
        Ok(0)
    } else {
        reader.read_bs()
    }
}

/// What the TEXT data fields hold, with the text as characters.
pub struct TextModel {
    pub text: Seq<char>,
    pub insertion: (u64, u64, u64),
    pub alignment: Option<(u64, u64, u64)>,
    pub extrusion: (u64, u64, u64),
    pub thickness: u64,
    pub oblique_angle: u64,
    pub rotation: u64,
    pub height: u64,
    pub width_factor: u64,
    pub generation: u16,
    pub horizontal_alignment: u16,
    pub vertical_alignment: u16,
}

pub open spec fn text_model(e: TextEntity) -> TextModel {
    TextModel {
        text: e.text@,
        insertion: e.insertion,
        alignment: e.alignment,
        extrusion: e.extrusion,
        thickness: e.thickness,
        oblique_angle: e.oblique_angle,
        rotation: e.rotation,
        height: e.height,
        width_factor: e.width_factor,
        generation: e.generation,
        horizontal_alignment: e.horizontal_alignment,
        vertical_alignment: e.vertical_alignment,
    }
}

/// The alignment point: two default doubles of the insertion point unless
/// flag 0x02 marks it absent.
pub open spec fn opt_alignment(d: Seq<u8>, p: int, flags: u8, ix: u64, iy: u64, elevation: u64) -> Option<
    (Option<(u64, u64, u64)>, int),
> {
    if flags & 0x02 == 0 {
        match spec_dd(d, p, ix) {
            None => None,
            Some((ax, p1)) => match spec_dd(d, p1, iy) {
                None => None,
                Some((ay, p2)) => Some((Some((ax, ay, elevation)), p2)),
            },
        }
    } else {
        Some((None, p))
    }
}

/// The TEXT data fields at `p`, and where they end.
pub open spec fn spec_text_fields(d: Seq<u8>, p: int) -> Option<(TextModel, int)> {
    match spec_rc(d, p) {
        None => None,
        Some((f, p1)) => match opt_rd(d, p1, f & 0x01 != 0, 0) {
            None => None,
            Some((elev, p2)) => match spec_rd(d, p2, Endian::Little) {
                None => None,
                Some((ix, p3)) => match spec_rd(d, p3, Endian::Little) {
                    None => None,
                    Some((iy, p4)) => match opt_alignment(d, p4, f, ix, iy, elev) {
                        None => None,
                        Some((align, p5)) => match spec_be(d, p5) {
                            None => None,
                            Some((ext, p6)) => match spec_bt(d, p6) {
                                None => None,
                                Some((th, p7)) => match opt_rd(d, p7, f & 0x04 != 0, 0) {
                                    None => None,
                                    Some((obl, p8)) => match opt_rd(d, p8, f & 0x08 != 0, 0) {
                                        None => None,
                                        Some((rot, p9)) => match spec_rd(d, p9, Endian::Little) {
                                            None => None,
                                            Some((height, p10)) => match opt_rd(d, p10, f & 0x10 != 0, ONE_BITS) {
                                                None => None,
                                                Some((wf, p11)) => match spec_tv(d, p11) {
                                                    None => None,
                                                    Some((text, p12)) => match opt_bs(d, p12, f & 0x20 != 0) {
                                                        None => None,
                                                        Some((gen, p13)) => match opt_bs(d, p13, f & 0x40 != 0) {
                                                            None => None,
                                                            Some((ha, p14)) => match opt_bs(d, p14, f & 0x80 != 0) {
                                                                None => None,
                                                                Some((va, p15)) => Some(
                                                                    (
                                                                        TextModel {
                                                                            text,
                                                                            insertion: (ix, iy, elev),
                                                                            alignment: align,
                                                                            extrusion: ext,
                                                                            thickness: th,
                                                                            oblique_angle: obl,
                                                                            rotation: rot,
                                                                            height,
                                                                            width_factor: wf,
                                                                            generation: gen,
                                                                            horizontal_alignment: ha,
                                                                            vertical_alignment: va,
                                                                        },
                                                                        p15,
                                                                    ),
                                                                ),
                                                            },
                                                        },
                                                    },
                                                },
                                            },
                                        },
                                    },
                                },
                            },
                        },
                    },
                },
            },
        },
    }
}

/// The style handle after the common handles at `p`: `None` inside where
/// the common handles read but the style reference does not.
pub open spec fn spec_style(d: Seq<u8>, p: int, h: CommonEntityHeader) -> Option<Option<u64>> {
    match spec_entity_handles(d, p, h) {
        None => None,
        Some((_, q)) => Some(
            match spec_handle_ref(d, q, h.handle) {
                Some((v, _)) => Some(v),
                None => None,
            },
        ),
    }
}

/// A TEXT record (R2000 layout) at `p`: its fields and style handle.
pub open spec fn spec_text(d: Seq<u8>, p: int) -> Option<(u64, TextModel, Option<u64>)> {
    match spec_common_header(d, p) {
        None => None,
        Some((h, q)) => match spec_text_fields(d, q) {
            None => None,
            Some((t, q1)) => match spec_style(d, q1, h) {
                None => None,
                Some(style) => Some((h.handle, t, style)),
            },
        },
    }
}

/// The data fields shared by TEXT, ATTRIB and ATTDEF: a data-flags byte
/// whose set bits mark absent fields (0x01 elevation, 0x02 alignment point,
/// 0x04 oblique angle, 0x08 rotation, 0x10 width factor, 0x20 generation,
/// 0x40 and 0x80 the two alignments).
fn read_text_fields(reader: &mut BitReader<'_>, handle: u64) -> (r: Result<TextEntity, DwgError>)
    requires
        old(reader).wf(),
    ensures
        final(reader).keeps(old(reader)),
        r matches Ok(e) ==> e.handle == handle && e.style_handle.is_none(),
        match r {
            Ok(e) => spec_text_fields(old(reader).bytes(), old(reader).pos()) == Some((text_model(e), final(reader).pos())),
            Err(_) => spec_text_fields(old(reader).bytes(), old(reader).pos()).is_none(),
        },
{
    let data_flags = reader.read_rc()?;
    let elevation = read_rd_unless(reader, data_flags & 0x01 != 0, 0)?;
    let insertion_x = reader.read_rd(Endian::Little)?;
    let insertion_y = reader.read_rd(Endian::Little)?;
    let alignment = if data_flags & 0x02 == 0 {
        let align_x = reader.read_dd(insertion_x)?;
        let align_y = reader.read_dd(insertion_y)?;
        Some((align_x, align_y, elevation))
    } else {
        None
    };
    let extrusion = reader.read_be()?;
    let thickness = reader.read_bt()?;
    let oblique_angle = read_rd_unless(reader, data_flags & 0x04 != 0, 0)?;
    let rotation = read_rd_unless(reader, data_flags & 0x08 != 0, 0)?;
    let height = reader.read_rd(Endian::Little)?;
    let width_factor = read_rd_unless(reader, data_flags & 0x10 != 0, ONE_BITS)?;
    let text = reader.read_tv()?;
    let generation = read_bs_unless(reader, data_flags & 0x20 != 0)?;
    let horizontal_alignment = read_bs_unless(reader, data_flags & 0x40 != 0)?;
    let vertical_alignment = read_bs_unless(reader, data_flags & 0x80 != 0)?;
    Ok(TextEntity {
        handle,
        text,
        insertion: (insertion_x, insertion_y, elevation),
        alignment,
        extrusion,
        thickness,
        oblique_angle,
        height,
        rotation,
        width_factor,
        generation,
        horizontal_alignment,
        vertical_alignment,
        style_handle: None,
    })
}

/// The style handle after an entity's common handles, where one can be read.
fn read_style_handle(reader: &mut BitReader<'_>, header: &CommonEntityHeader) -> (r: Result<Option<u64>, DwgError>)
    requires
        old(reader).wf(),
    ensures
        final(reader).keeps(old(reader)),
        match r {
            Ok(v) => spec_style(old(reader).bytes(), old(reader).pos(), *header) == Some(v),
            Err(_) => spec_style(old(reader).bytes(), old(reader).pos(), *header).is_none(),
        },
{
    let _common = parse_common_entity_handles(reader, header)?;
    match read_handle_reference(reader, header.handle) {
        Ok(h) => Ok(Some(h)),
        Err(_) => Ok(None),
    }
}

/// Reads a TEXT record: its data fields, then the handle stream and the
/// style handle.
pub fn decode_text(reader: &mut BitReader<'_>) -> (r: Result<TextEntity, DwgError>)
    requires
        old(reader).wf(),
    ensures
        final(reader).keeps(old(reader)),
        r matches Ok(e) ==> preamble(old(reader).bytes(), old(reader).pos(), e.handle),
        match r {
            Ok(e) => spec_text(old(reader).bytes(), old(reader).pos()) == Some((e.handle, text_model(e), e.style_handle)),
            Err(_) => spec_text(old(reader).bytes(), old(reader).pos()).is_none(),
        },
{
    let header = parse_common_entity_header(reader)?;
    let mut text = read_text_fields(reader, header.handle)?;
    text.style_handle = read_style_handle(reader, &header)?;
    Ok(text)
}

/// An ATTRIB or ATTDEF: text fields plus the attribute tail.
#[derive(Debug)]
pub struct AttribEntity {
    pub text: TextEntity,
    pub tag: String,
    pub flags: u8,
    pub lock_position: bool,
    /// The prompt, for an ATTDEF.
    pub prompt: Option<String>,
}

fn decode_attrib_like(reader: &mut BitReader<'_>, is_attdef: bool) -> (r: Result<AttribEntity, DwgError>)
    requires
        old(reader).wf(),
    ensures
        final(reader).keeps(old(reader)),
        r matches Ok(e) ==> preamble(old(reader).bytes(), old(reader).pos(), e.text.handle) && (e.prompt.is_some()
            ==> is_attdef),
        match r {
            Ok(e) => spec_attrib(old(reader).bytes(), old(reader).pos(), is_attdef) == Some(attrib_model(e)),
            Err(_) => spec_attrib(old(reader).bytes(), old(reader).pos(), is_attdef).is_none(),
        },
{
    let header = parse_common_entity_header(reader)?;
    attrib_after_header(reader, &header, is_attdef, false)
}

/// The attribute tail: an optional leading version byte, then tag, field
/// length, flags, lock-position bit and, for an ATTDEF, the prompt.
/// The attribute tail at `p`: an optional version byte, the tag, field
/// length, flags, lock bit and, for an ATTDEF, the prompt.
pub open spec fn spec_attrib_tail(d: Seq<u8>, p: int, is_attdef: bool, prefix: bool) -> Option<
    ((Seq<char>, u8, bool, Option<Seq<char>>), int),
> {
    let start = if prefix {
        match spec_rc(d, p) {
            None => -1,
            Some((_, q)) => q,
        }
    } else {
        p
    };
    if start < 0 {
        None
    } else {
        match spec_tv(d, start) {
            None => None,
            Some((tag, p1)) => match spec_bs(d, p1) {
                None => None,
                Some((_, p2)) => match spec_rc(d, p2) {
                    None => None,
                    Some((flags, p3)) => match spec_b(d, p3) {
                        None => None,
                        Some((lock, p4)) => if is_attdef {
                            match spec_tv(d, p4) {
                                None => None,
                                Some((prompt, p5)) => Some(((tag, flags, lock != 0, Some(prompt)), p5)),
                            }
                        } else {
                            Some(((tag, flags, lock != 0, None), p4))
                        },
                    },
                },
            },
        }
    }
}

/// The tail as read: without a version byte, else with one, else empty
/// (the cursor staying put).
pub open spec fn spec_tail_choice(d: Seq<u8>, p: int, is_attdef: bool) -> ((Seq<char>, u8, bool, Option<Seq<char>>), int) {
    match spec_attrib_tail(d, p, is_attdef, false) {
        Some(t) => t,
        None => match spec_attrib_tail(d, p, is_attdef, true) {
            Some(t) => t,
            None => ((Seq::empty(), 0u8, false, None), p),
        },
    }
}

/// What an ATTRIB or ATTDEF reading holds.
pub struct AttribModel {
    pub handle: u64,
    pub text: TextModel,
    pub tail: (Seq<char>, u8, bool, Option<Seq<char>>),
    pub style: Option<u64>,
}

pub open spec fn attrib_model(e: AttribEntity) -> AttribModel {
    AttribModel {
        handle: e.text.handle,
        text: text_model(e.text),
        tail: (
            e.tag@,
            e.flags,
            e.lock_position,
            match e.prompt {
                Some(p) => Some(p@),
                None => None,
            },
        ),
        style: e.text.style_handle,
    }
}

/// The ATTRIB/ATTDEF reading after the preamble `h` at `q`.
pub open spec fn spec_attrib_rest(d: Seq<u8>, q: int, h: CommonEntityHeader, is_attdef: bool) -> Option<AttribModel> {
    match spec_text_fields(d, q) {
        None => None,
        Some((t, q1)) => {
            let (tail, q2) = spec_tail_choice(d, q1, is_attdef);
            match spec_style(d, q2, h) {
                None => None,
                Some(style) => Some(AttribModel { handle: h.handle, text: t, tail, style }),
            }
        },
    }
}

/// An ATTRIB (or, with `is_attdef`, ATTDEF) record (R2000 layout) at `p`.
pub open spec fn spec_attrib(d: Seq<u8>, p: int, is_attdef: bool) -> Option<AttribModel> {
    match spec_common_header(d, p) {
        None => None,
        Some((h, q)) => spec_attrib_rest(d, q, h, is_attdef),
    }
}

fn read_attrib_tail(reader: &mut BitReader<'_>, is_attdef: bool, with_version_prefix: bool) -> (r: Result<
    (String, u8, bool, Option<String>),
    DwgError,
>)
    requires
        old(reader).wf(),
    ensures
        final(reader).keeps(old(reader)),
        r matches Ok((_, _, _, prompt)) ==> prompt.is_some() == is_attdef,
        match r {
            Ok((tag, flags, lock, prompt)) => spec_attrib_tail(old(reader).bytes(), old(reader).pos(), is_attdef, with_version_prefix)
                == Some(
                (
                    (
                        tag@,
                        flags,
                        lock,
                        match prompt {
                            Some(p) => Some(p@),
                            None => None,
                        },
                    ),
                    final(reader).pos(),
                ),
            ),
            Err(_) => spec_attrib_tail(old(reader).bytes(), old(reader).pos(), is_attdef, with_version_prefix).is_none(),
        },
{
    if with_version_prefix {
        let _version = reader.read_rc()?;
    }
    let tag = reader.read_tv()?;
    let _field_length = reader.read_bs()?;
    let flags = reader.read_rc()?;
    let lock_position = reader.read_b()? != 0;
    let prompt = if is_attdef { Some(reader.read_tv()?) } else { None };
    Ok((tag, flags, lock_position, prompt))
}

/// The attribute tail read without a version byte, else with one, else
/// left empty with the cursor back where it started.
fn read_tail_choice(reader: &mut BitReader<'_>, is_attdef: bool) -> (r: (String, u8, bool, Option<String>))
    requires
        old(reader).wf(),
    ensures
        final(reader).keeps(old(reader)),
        spec_tail_choice(old(reader).bytes(), old(reader).pos(), is_attdef) == (
            (
                r.0@,
                r.1,
                r.2,
                match r.3 {
                    Some(p) => Some(p@),
                    None => None,
                },
            ),
            final(reader).pos(),
        ),
{
    let (byte_pos, bit_pos) = reader.get_pos();
    match read_attrib_tail(reader, is_attdef, false) {
        Ok(t) => t,
        Err(_) => {
            reader.set_pos(byte_pos, bit_pos);
            match read_attrib_tail(reader, is_attdef, true) {
                Ok(t) => t,
                Err(_) => {
                    reader.set_pos(byte_pos, bit_pos);
                    (String::new(), 0, false, None)
                },
            }
        },
    }
}

/// The ATTRIB/ATTDEF fields after the preamble. The tail is read without a
/// leading version byte, then with one; where neither reads, the tail is left
/// empty. With `tolerant`, a handle stream that cannot be read gives no
/// style handle.
fn attrib_after_header(reader: &mut BitReader<'_>, header: &CommonEntityHeader, is_attdef: bool, tolerant: bool) -> (r:
    Result<AttribEntity, DwgError>)
    requires
        old(reader).wf(),
    ensures
        final(reader).keeps(old(reader)),
        r matches Ok(e) ==> e.text.handle == header.handle && (e.prompt.is_some() ==> is_attdef),
        !tolerant ==> match r {
            Ok(e) => spec_attrib_rest(old(reader).bytes(), old(reader).pos(), *header, is_attdef) == Some(attrib_model(e)),
            Err(_) => spec_attrib_rest(old(reader).bytes(), old(reader).pos(), *header, is_attdef).is_none(),
        },
{
    let mut text = read_text_fields(reader, header.handle)?;
    let tail = read_tail_choice(reader, is_attdef);
    text.style_handle = match read_style_handle(reader, header) {
        Ok(h) => h,
        Err(e) => {
            if tolerant {
                None
            } else {
                return Err(e);
            }
        },
    };
    let (tag, flags, lock_position, prompt) = tail;
    Ok(AttribEntity { text, tag, flags, lock_position, prompt })
}

/// Reads an ATTRIB record: TEXT fields, then the tag, field length, flags
/// and lock-position bit.
pub fn decode_attrib(reader: &mut BitReader<'_>) -> (r: Result<AttribEntity, DwgError>)
    requires
        old(reader).wf(),
    ensures
        match r {
            Ok(e) => spec_attrib(old(reader).bytes(), old(reader).pos(), false) == Some(attrib_model(e)),
            Err(_) => spec_attrib(old(reader).bytes(), old(reader).pos(), false).is_none(),
        },
        final(reader).keeps(old(reader)),
        r matches Ok(e) ==> e.prompt.is_none(),
{
    decode_attrib_like(reader, false)
}

/// Reads an ATTDEF record: as ATTRIB, followed by the prompt.
pub fn decode_attdef(reader: &mut BitReader<'_>) -> (r: Result<AttribEntity, DwgError>)
    requires
        old(reader).wf(),
    ensures
        match r {
            Ok(e) => spec_attrib(old(reader).bytes(), old(reader).pos(), true) == Some(attrib_model(e)),
            Err(_) => spec_attrib(old(reader).bytes(), old(reader).pos(), true).is_none(),
        },
        final(reader).keeps(old(reader)),
{
    decode_attrib_like(reader, true)
}

/// An MINSERT: an INSERT repeated on a grid.
#[derive(Debug, Clone, Copy, PartialEq, Eq)]
pub struct MInsertEntity {
    pub insert: InsertEntity,
    pub num_columns: u16,
    pub num_rows: u16,
    pub column_spacing: u64,
    pub row_spacing: u64,
}

/// An MINSERT record (R2000 layout) at `p`: an INSERT, then column and row
/// counts and spacings.
pub open spec fn spec_minsert(d: Seq<u8>, p: int) -> Option<MInsertEntity> {
    match spec_insert(d, p) {
        None => None,
        Some((ins, q)) => match spec_bs(d, q) {
            None => None,
            Some((cols, q1)) => match spec_bs(d, q1) {
                None => None,
                Some((rows, q2)) => match spec_bd(d, q2) {
                    None => None,
                    Some((cs, q3)) => match spec_bd(d, q3) {
                        None => None,
                        Some((rs, _)) => Some(
                            MInsertEntity {
                                insert: ins,
                                num_columns: cols,
                                num_rows: rows,
                                column_spacing: cs,
                                row_spacing: rs,
                            },
                        ),
                    },
                },
            },
        },
    }
}

/// Reads an MINSERT record: the INSERT fields, then column and row counts
/// and spacings.
pub fn decode_minsert(reader: &mut BitReader<'_>) -> (r: Result<MInsertEntity, DwgError>)
    requires
        old(reader).wf(),
    ensures
        final(reader).keeps(old(reader)),
        match r {
            Ok(e) => spec_minsert(old(reader).bytes(), old(reader).pos()) == Some(e),
            Err(_) => spec_minsert(old(reader).bytes(), old(reader).pos()).is_none(),
        },
{
    let insert = decode_insert(reader)?;
    let num_columns = reader.read_bs()?;
    let num_rows = reader.read_bs()?;
    let column_spacing = reader.read_bd()?;
    let row_spacing = reader.read_bd()?;
    Ok(MInsertEntity { insert, num_columns, num_rows, column_spacing, row_spacing })
}

/// An MTEXT.
#[derive(Debug)]
pub struct MTextEntity {
    pub handle: u64,
    pub layer_handle: u64,
    pub text: String,
    pub insertion: (u64, u64, u64),
    pub extrusion: (u64, u64, u64),
    pub x_axis_dir: (u64, u64, u64),
    pub rect_width: u64,
    pub text_height: u64,
    pub attachment: u16,
    pub drawing_dir: u16,
    pub background_flags: u32,
    pub background_scale_factor: Option<u64>,
    pub background_color_index: Option<u16>,
    pub background_transparency: Option<u32>,
}

/// The background block of an MTEXT (R2004 and later): scale, color index,
/// RGB, a color byte whose bits 0x01 and 0x02 announce a color name and a
/// book name, and the transparency.
/// The MTEXT background block at `p`: scale, color index and
/// transparency (the RGB, color byte and optional names are skipped).
pub open spec fn spec_mtext_background(d: Seq<u8>, p: int) -> Option<(u64, u16, u32)> {
    match spec_bd(d, p) {
        None => None,
        Some((scale, p1)) => match spec_bs(d, p1) {
            None => None,
            Some((index, p2)) => match spec_bl(d, p2) {
                None => None,
                Some((_, p3)) => match spec_rc(d, p3) {
                    None => None,
                    Some((cb, p4)) => {
                        let p5 = if cb & 0x01 != 0 {
                            match spec_tv(d, p4) {
                                None => -1,
                                Some((_, q)) => q,
                            }
                        } else {
                            p4
                        };
                        let p6 = if p5 >= 0 && cb & 0x02 != 0 {
                            match spec_tv(d, p5) {
                                None => -1,
                                Some((_, q)) => q,
                            }
                        } else {
                            p5
                        };
                        if p6 < 0 {
                            None
                        } else {
                            match spec_bl(d, p6) {
                                None => None,
                                Some((transparency, _)) => Some((scale, index, transparency)),
                            }
                        }
                    },
                },
            },
        },
    }
}

/// The MTEXT fields between the insertion point and the background block.
pub struct MTextFields {
    pub extrusion: (u64, u64, u64),
    pub x_axis_dir: (u64, u64, u64),
    pub rect_width: u64,
    pub text_height: u64,
    pub attachment: u16,
    pub drawing_dir: u16,
    pub text: Seq<char>,
}

/// Those fields at `p`, and where they end: extrusion, x axis, rectangle
/// width, text height, attachment, drawing direction, two extents, text,
/// line-spacing style and factor, and one unknown bit.
pub open spec fn spec_mtext_fields(d: Seq<u8>, p: int) -> Option<(MTextFields, int)> {
    match spec_3bd(d, p) {
        None => None,
        Some((ext, p1)) => match spec_3bd(d, p1) {
            None => None,
            Some((xdir, p2)) => match spec_bd(d, p2) {
                None => None,
                Some((rw, p3)) => match spec_bd(d, p3) {
                    None => None,
                    Some((th, p4)) => match spec_bs(d, p4) {
                        None => None,
                        Some((att, p5)) => match spec_bs(d, p5) {
                            None => None,
                            Some((dir, p6)) => match spec_bd(d, p6) {
                                None => None,
                                Some((_, p7)) => match spec_bd(d, p7) {
                                    None => None,
                                    Some((_, p8)) => match spec_tv(d, p8) {
                                        None => None,
                                        Some((text, p9)) => match spec_bs(d, p9) {
                                            None => None,
                                            Some((_, p10)) => match spec_bd(d, p10) {
                                                None => None,
                                                Some((_, p11)) => match spec_b(d, p11) {
                                                    None => None,
                                                    Some((_, p12)) => Some(
                                                        (
                                                            MTextFields {
                                                                extrusion: ext,
                                                                x_axis_dir: xdir,
                                                                rect_width: rw,
                                                                text_height: th,
                                                                attachment: att,
                                                                drawing_dir: dir,
                                                                text,
                                                            },
                                                            p12,
                                                        ),
                                                    ),
                                                },
                                            },
                                        },
                                    },
                                },
                            },
                        },
                    },
                },
            },
        },
    }
}

fn read_mtext_fields(reader: &mut BitReader<'_>) -> (r: Result<
    ((u64, u64, u64), (u64, u64, u64), u64, u64, u16, u16, String),
    DwgError,
>)
    requires
        old(reader).wf(),
    ensures
        final(reader).keeps(old(reader)),
        match r {
            Ok(t) => spec_mtext_fields(old(reader).bytes(), old(reader).pos()) == Some(
                (
                    MTextFields {
                        extrusion: t.0,
                        x_axis_dir: t.1,
                        rect_width: t.2,
                        text_height: t.3,
                        attachment: t.4,
                        drawing_dir: t.5,
                        text: t.6@,
                    },
                    final(reader).pos(),
                ),
            ),
            Err(_) => spec_mtext_fields(old(reader).bytes(), old(reader).pos()).is_none(),
        },
{
    let extrusion = reader.read_3bd()?;
    let x_axis_dir = reader.read_3bd()?;
    let rect_width = reader.read_bd()?;
    let text_height = reader.read_bd()?;
    let attachment = reader.read_bs()?;
    let drawing_dir = reader.read_bs()?;
    let _extents_height = reader.read_bd()?;
    let _extents_width = reader.read_bd()?;
    let text = reader.read_tv()?;
    let _linespacing_style = reader.read_bs()?;
    let _linespacing_factor = reader.read_bd()?;
    let _unknown_bit = reader.read_b()?;
    Ok((extrusion, x_axis_dir, rect_width, text_height, attachment, drawing_dir, text))
}

fn read_mtext_background(reader: &mut BitReader<'_>) -> (r: Result<(u64, u16, u32), DwgError>)
    requires
        old(reader).wf(),
    ensures
        final(reader).keeps(old(reader)),
        match r {
            Ok(v) => spec_mtext_background(old(reader).bytes(), old(reader).pos()) == Some(v),
            Err(_) => spec_mtext_background(old(reader).bytes(), old(reader).pos()).is_none(),
        },
{
    let scale_factor = reader.read_bd()?;
    let color_index = reader.read_bs()?;
    let _color_rgb = reader.read_bl()?;
    let color_byte = reader.read_rc()?;
    if color_byte & 0x01 != 0 {
        let _color_name = reader.read_tv()?;
    }
    if color_byte & 0x02 != 0 {
        let _book_name = reader.read_tv()?;
    }
    let transparency = reader.read_bl()?;
    Ok((scale_factor, color_index, transparency))
}

/// Reads an MTEXT record. With `has_background_data` (R2004 and later) a
/// flags long follows the text; where it has bit 0x01 or 0x10 a background
/// block follows, and a background block that cannot be read is skipped.
pub fn decode_mtext_body(reader: &mut BitReader<'_>, has_background_data: bool) -> (r: Result<MTextEntity, DwgError>)
    requires
        old(reader).wf(),
    ensures
        final(reader).keeps(old(reader)),
        r matches Ok(e) ==> preamble(old(reader).bytes(), old(reader).pos(), e.handle) && point_at(
            old(reader).bytes(),
            body_start(old(reader).bytes(), old(reader).pos()),
            e.insertion,
        ),
        r matches Ok(e) ==> !has_background_data ==> e.background_flags == 0 && e.background_scale_factor.is_none(),
        match r {
            Ok(e) => spec_mtext(old(reader).bytes(), old(reader).pos(), has_background_data) == Some(mtext_model(e)),
            Err(_) => spec_mtext(old(reader).bytes(), old(reader).pos(), has_background_data).is_none(),
        },
{
    let header = parse_common_entity_header(reader)?;
    let insertion = read_point_at(reader)?;
    read_mtext_rest(reader, &header, insertion, has_background_data, false)
}

/// The MTEXT fields after the insertion point, then the layer; with
/// `tolerant`, a handle stream that cannot be read gives layer 0.
fn read_mtext_rest(
    reader: &mut BitReader<'_>,
    header: &CommonEntityHeader,
    insertion: (u64, u64, u64),
    has_background_data: bool,
    tolerant: bool,
) -> (r: Result<MTextEntity, DwgError>)
    requires
        old(reader).wf(),
    ensures
        final(reader).keeps(old(reader)),
        r matches Ok(e) ==> e.handle == header.handle && e.insertion == insertion,
        r matches Ok(e) ==> !has_background_data ==> e.background_flags == 0 && e.background_scale_factor.is_none(),
        !tolerant ==> match r {
            Ok(e) => spec_mtext_rest(old(reader).bytes(), old(reader).pos(), *header, insertion, has_background_data)
                == Some(mtext_model(e)),
            Err(_) => spec_mtext_rest(
                old(reader).bytes(),
                old(reader).pos(),
                *header,
                insertion,
                has_background_data,
            ).is_none(),
        },
{
    let (extrusion, x_axis_dir, rect_width, text_height, attachment, drawing_dir, text) = read_mtext_fields(reader)?;
    let mut background_flags: u32 = 0;
    let mut background_scale_factor: Option<u64> = None;
    let mut background_color_index: Option<u16> = None;
    let mut background_transparency: Option<u32> = None;
    if has_background_data {
        background_flags = reader.read_bl()?;
        if background_flags & 0x01 != 0 || background_flags & 0x10 != 0 {
            let (byte_pos, bit_pos) = reader.get_pos();
            match read_mtext_background(reader) {
                Ok((scale, index, transparency)) => {
                    background_scale_factor = Some(scale);
                    background_color_index = Some(index);
                    background_transparency = Some(transparency);
                },
                Err(_) => {
                    reader.set_pos(byte_pos, bit_pos);
                },
            }
        }
    }
    let layer_handle = if tolerant { layer_or_zero(reader, header)? } else { layer_of(reader, header)? };
    Ok(MTextEntity {
        handle: header.handle,
        layer_handle,
        text,
        insertion,
        extrusion,
        x_axis_dir,
        rect_width,
        text_height,
        attachment,
        drawing_dir,
        background_flags,
        background_scale_factor,
        background_color_index,
        background_transparency,
    })
}

/// What an MTEXT reading holds, with its text as characters.
pub struct MTextModel {
    pub handle: u64,
    pub layer_handle: u64,
    pub text: Seq<char>,
    pub insertion: (u64, u64, u64),
    pub fields: MTextFields,
    pub background_flags: u32,
    pub background: Option<(u64, u16, u32)>,
}

pub open spec fn mtext_model(e: MTextEntity) -> MTextModel {
    MTextModel {
        handle: e.handle,
        layer_handle: e.layer_handle,
        text: e.text@,
        insertion: e.insertion,
        fields: MTextFields {
            extrusion: e.extrusion,
            x_axis_dir: e.x_axis_dir,
            rect_width: e.rect_width,
            text_height: e.text_height,
            attachment: e.attachment,
            drawing_dir: e.drawing_dir,
            text: e.text@,
        },
        background_flags: e.background_flags,
        background: match (e.background_scale_factor, e.background_color_index, e.background_transparency) {
            (Some(a), Some(b), Some(c)) => Some((a, b, c)),
            _ => None,
        },
    }
}

/// An MTEXT record at `p` in the R2000 layout or, with `bg`, the R2004 one:
/// a background block that cannot be read is passed over.
pub open spec fn spec_mtext(d: Seq<u8>, p: int, bg: bool) -> Option<MTextModel> {
    match spec_common_header(d, p) {
        None => None,
        Some((h, q)) => match spec_3bd(d, q) {
            None => None,
            Some((ins, q1)) => spec_mtext_rest(d, q1, h, ins, bg),
        },
    }
}

/// The MTEXT reading from the fields after the insertion point on.
pub open spec fn spec_mtext_rest(
    d: Seq<u8>,
    q1: int,
    h: CommonEntityHeader,
    ins: (u64, u64, u64),
    bg: bool,
) -> Option<MTextModel> {
    match spec_mtext_fields(d, q1) {
        None => None,
        Some((f, q2)) => {
            let flags_read = if bg {
                spec_bl(d, q2)
            } else {
                Some((0u32, q2))
            };
            match flags_read {
                None => None,
                Some((flags, q3)) => {
                    let background = if bg && (flags & 0x01 != 0 || flags & 0x10 != 0) {
                        spec_mtext_background(d, q3)
                    } else {
                        None
                    };
                    match spec_layer(d, h) {
                        None => None,
                        Some(l) => Some(
                            MTextModel {
                                handle: h.handle,
                                layer_handle: l,
                                text: f.text,
                                insertion: ins,
                                fields: f,
                                background_flags: flags,
                                background,
                            },
                        ),
                    }
                },
            }
        },
    }
}

/// Reads an MTEXT record in the R2000 layout.
pub fn decode_mtext(reader: &mut BitReader<'_>) -> (r: Result<MTextEntity, DwgError>)
    requires
        old(reader).wf(),
    ensures
        match r {
            Ok(e) => spec_mtext(old(reader).bytes(), old(reader).pos(), false) == Some(mtext_model(e)),
            Err(_) => spec_mtext(old(reader).bytes(), old(reader).pos(), false).is_none(),
        },
        final(reader).keeps(old(reader)),
        r matches Ok(e) ==> preamble(old(reader).bytes(), old(reader).pos(), e.handle),
{
    decode_mtext_body(reader, false)
}

/// Reads an MTEXT record in the R2004 layout, with its background block.
pub fn decode_mtext_r2004(reader: &mut BitReader<'_>) -> (r: Result<MTextEntity, DwgError>)
    requires
        old(reader).wf(),
    ensures
        match r {
            Ok(e) => spec_mtext(old(reader).bytes(), old(reader).pos(), true) == Some(mtext_model(e)),
            Err(_) => spec_mtext(old(reader).bytes(), old(reader).pos(), true).is_none(),
        },
        final(reader).keeps(old(reader)),
        r matches Ok(e) ==> preamble(old(reader).bytes(), old(reader).pos(), e.handle),
{
    decode_mtext_body(reader, true)
}

/// Most points or other repeated items one entity may declare.
pub const MAX_ENTITY_ITEMS: u32 = 1000000;

/// A LEADER.
#[derive(Debug, Clone)]
pub struct LeaderEntity {
    pub handle: u64,
    pub layer_handle: u64,
    pub annotation_type: u16,
    pub path_type: u16,
    pub points: Vec<(u64, u64, u64)>,
}

/// The optional tail of a LEADER: origin, extrusion, x direction, block
/// offset and end-point projection, dimension gap, box sizes, arrowhead and
/// the trailing flags.
fn skip_optional_leader_payload(reader: &mut BitReader<'_>) -> (r: Result<(), DwgError>)
    requires
        old(reader).wf(),
    ensures
        final(reader).keeps(old(reader)),
{
    let _origin = reader.read_3bd()?;
    let _extrusion = reader.read_3bd()?;
    let _x_direction = reader.read_3bd()?;
    let _offset_to_block_insert = reader.read_3bd()?;
    let _endpoint_projection = reader.read_3bd()?;
    let _dimgap = reader.read_bd()?;
    let _box_height = reader.read_bd()?;
    let _box_width = reader.read_bd()?;
    let _hookline_on_x_dir = reader.read_b()?;
    let _arrowhead_on = reader.read_b()?;
    let _arrowhead_type = reader.read_bs()?;
    let _dimasz = reader.read_bd()?;
    let _unknown_a = reader.read_b()?;
    let _unknown_b = reader.read_b()?;
    let _unknown_c = reader.read_bs()?;
    let _by_block_color = reader.read_bs()?;
    let _unknown_d = reader.read_b()?;
    let _unknown_e = reader.read_b()?;
    let _unknown_f = reader.read_bs()?;
    let _unknown_g = reader.read_b()?;
    let _unknown_h = reader.read_b()?;
    Ok(())
}

/// Reads a LEADER record: a flag bit, annotation and path types, the points,
/// then the optional tail (read best-effort: a tail that cannot be read is
/// passed over), and the layer from the handle stream. More than
/// `MAX_ENTITY_ITEMS` points is a format failure.
pub fn decode_leader(reader: &mut BitReader<'_>) -> (r: Result<LeaderEntity, DwgError>)
    requires
        old(reader).wf(),
    ensures
        final(reader).keeps(old(reader)),
        r matches Ok(e) ==> preamble(old(reader).bytes(), old(reader).pos(), e.handle) && e.points@.len()
            <= MAX_ENTITY_ITEMS,
        match r {
            Ok(e) => spec_leader(old(reader).bytes(), old(reader).pos()) == Some(leader_model(e)),
            Err(_) => spec_leader(old(reader).bytes(), old(reader).pos()).is_none(),
        },
{
    let header = parse_common_entity_header(reader)?;
    leader_after_header(reader, &header, false)
}

/// `k` more 3D points of bit-doubles from `p`, appended to `acc`.
pub open spec fn point3_acc(d: Seq<u8>, p: int, k: nat, acc: Seq<(u64, u64, u64)>) -> Option<
    (Seq<(u64, u64, u64)>, int),
>
    decreases k,
{
    if k == 0 {
        Some((acc, p))
    } else {
        match spec_3bd(d, p) {
            None => None,
            Some((v, q)) => point3_acc(d, q, (k - 1) as nat, acc.push(v)),
        }
    }
}

/// What a LEADER reading holds.
pub struct LeaderModel {
    pub handle: u64,
    pub layer_handle: u64,
    pub annotation_type: u16,
    pub path_type: u16,
    pub points: Seq<(u64, u64, u64)>,
}

pub open spec fn leader_model(e: LeaderEntity) -> LeaderModel {
    LeaderModel {
        handle: e.handle,
        layer_handle: e.layer_handle,
        annotation_type: e.annotation_type,
        path_type: e.path_type,
        points: e.points@,
    }
}

/// The LEADER reading after the preamble `h` at `q`: a flag bit, annotation
/// and path types, the point count (at most `MAX_ENTITY_ITEMS`) and the
/// points; the optional tail does not change it; then the layer.
pub open spec fn spec_leader_rest(d: Seq<u8>, q: int, h: CommonEntityHeader) -> Option<LeaderModel> {
    match spec_b(d, q) {
        None => None,
        Some((_, q1)) => match spec_bs(d, q1) {
            None => None,
            Some((ann, q2)) => match spec_bs(d, q2) {
                None => None,
                Some((path, q3)) => match spec_bl(d, q3) {
                    None => None,
                    Some((n, q4)) => if n > MAX_ENTITY_ITEMS {
                        None
                    } else {
                        match point3_acc(d, q4, n as nat, Seq::empty()) {
                            None => None,
                            Some((pts, _)) => match spec_layer(d, h) {
                                None => None,
                                Some(l) => Some(
                                    LeaderModel {
                                        handle: h.handle,
                                        layer_handle: l,
                                        annotation_type: ann,
                                        path_type: path,
                                        points: pts,
                                    },
                                ),
                            },
                        }
                    },
                },
            },
        },
    }
}

/// A LEADER record (R2000 layout) at `p`.
pub open spec fn spec_leader(d: Seq<u8>, p: int) -> Option<LeaderModel> {
    match spec_common_header(d, p) {
        None => None,
        Some((h, q)) => spec_leader_rest(d, q, h),
    }
}

/// Reads `n` 3D points of bit-doubles.
fn read_points3(reader: &mut BitReader<'_>, n: u32) -> (r: Result<Vec<(u64, u64, u64)>, DwgError>)
    requires
        old(reader).wf(),
    ensures
        final(reader).keeps(old(reader)),
        r matches Ok(v) ==> v@.len() == n,
        match r {
            Ok(v) => point3_acc(old(reader).bytes(), old(reader).pos(), n as nat, Seq::empty()) == Some(
                (v@, final(reader).pos()),
            ),
            Err(_) => point3_acc(old(reader).bytes(), old(reader).pos(), n as nat, Seq::empty()).is_none(),
        },
{
    let ghost d = reader.bytes();
    let mut points: Vec<(u64, u64, u64)> = Vec::new();
    let mut i: u32 = 0;
    while i < n
        invariant
            reader.keeps(old(reader)),
            d == reader.bytes(),
            0 <= i <= n,
            points@.len() == i,
            point3_acc(d, old(reader).pos(), n as nat, Seq::empty()) == point3_acc(d, reader.pos(), (n - i) as nat, points@),
        decreases n - i,
    {
        points.push(reader.read_3bd()?);
        i = i + 1;
    }
    Ok(points)
}

fn leader_after_header(reader: &mut BitReader<'_>, header: &CommonEntityHeader, tolerant: bool) -> (r: Result<
    LeaderEntity,
    DwgError,
>)
    requires
        old(reader).wf(),
    ensures
        final(reader).keeps(old(reader)),
        r matches Ok(e) ==> e.handle == header.handle && e.points@.len() <= MAX_ENTITY_ITEMS,
        !tolerant ==> match r {
            Ok(e) => spec_leader_rest(old(reader).bytes(), old(reader).pos(), *header) == Some(leader_model(e)),
            Err(_) => spec_leader_rest(old(reader).bytes(), old(reader).pos(), *header).is_none(),
        },
{
    let _unknown = reader.read_b()?;
    let annotation_type = reader.read_bs()?;
    let path_type = reader.read_bs()?;
    let num_points = reader.read_bl()?;
    if num_points > MAX_ENTITY_ITEMS {
        return Err(DwgError::new(ErrorKind::Format, "too many leader points"));
    }
    let points = read_points3(reader, num_points)?;
    let _tail = skip_optional_leader_payload(reader);
    let layer_handle = if tolerant { layer_or_zero(reader, header)? } else { layer_of(reader, header)? };
    Ok(LeaderEntity { handle: header.handle, layer_handle, annotation_type, path_type, points })
}

/// The layer handle where a later dialect's handle stream can be read;
/// a stream that fails with a format, decode or I/O error gives 0.
fn layer_or_zero(reader: &mut BitReader<'_>, header: &CommonEntityHeader) -> (r: Result<u64, DwgError>)
    requires
        old(reader).wf(),
    ensures
        final(reader).keeps(old(reader)),
{
    match layer_of(reader, header) {
        Ok(layer) => Ok(layer),
        Err(e) => {
            if e.kind == ErrorKind::Format || e.kind == ErrorKind::Decode || e.kind == ErrorKind::Io {
                Ok(0)
            } else {
                Err(e)
            }
        },
    }
}

fn circle_with_layout(reader: &mut BitReader<'_>, layout: HeaderLayout, end_bit: u32) -> (r: Result<CircleEntity, DwgError>)
    requires
        old(reader).wf(),
    ensures
        final(reader).keeps(old(reader)),
{
    let header = parse_common_entity_header_layout(reader, layout, end_bit)?;
    let (center, radius) = read_round_body(reader)?;
    let layer_handle = layer_or_zero(reader, &header)?;
    Ok(CircleEntity { handle: header.handle, layer_handle, center, radius })
}

/// Reads a CIRCLE record in the R2007 layout.
pub fn decode_circle_r2007(reader: &mut BitReader<'_>) -> (r: Result<CircleEntity, DwgError>)
    requires
        old(reader).wf(),
    ensures
        final(reader).keeps(old(reader)),
{
    circle_with_layout(reader, HeaderLayout::R2007, 0)
}

/// Reads a CIRCLE record in the R2010 layout; its data stream ends at
/// `object_data_end_bit`.
pub fn decode_circle_r2010(reader: &mut BitReader<'_>, object_data_end_bit: u32) -> (r: Result<CircleEntity, DwgError>)
    requires
        old(reader).wf(),
    ensures
        final(reader).keeps(old(reader)),
{
    circle_with_layout(reader, HeaderLayout::R2010, object_data_end_bit)
}

/// Reads a CIRCLE record in the R2013 layout, which is the R2010 one.
pub fn decode_circle_r2013(reader: &mut BitReader<'_>, object_data_end_bit: u32) -> (r: Result<CircleEntity, DwgError>)
    requires
        old(reader).wf(),
    ensures
        final(reader).keeps(old(reader)),
{
    circle_with_layout(reader, HeaderLayout::R2010, object_data_end_bit)
}

fn point_with_layout(reader: &mut BitReader<'_>, layout: HeaderLayout, end_bit: u32) -> (r: Result<PointEntity, DwgError>)
    requires
        old(reader).wf(),
    ensures
        final(reader).keeps(old(reader)),
{
    let header = parse_common_entity_header_layout(reader, layout, end_bit)?;
    let location = reader.read_3bd()?;
    let _thickness = reader.read_bt()?;
    let _extrusion = reader.read_be()?;
    let x_axis_angle = reader.read_bd()?;
    let layer_handle = layer_or_zero(reader, &header)?;
    Ok(PointEntity { handle: header.handle, layer_handle, location, x_axis_angle })
}

/// Reads a POINT record in the R2007 layout.
pub fn decode_point_r2007(reader: &mut BitReader<'_>) -> (r: Result<PointEntity, DwgError>)
    requires
        old(reader).wf(),
    ensures
        final(reader).keeps(old(reader)),
{
    point_with_layout(reader, HeaderLayout::R2007, 0)
}

/// Reads a POINT record in the R2010 layout.
pub fn decode_point_r2010(reader: &mut BitReader<'_>, object_data_end_bit: u32) -> (r: Result<PointEntity, DwgError>)
    requires
        old(reader).wf(),
    ensures
        final(reader).keeps(old(reader)),
{
    point_with_layout(reader, HeaderLayout::R2010, object_data_end_bit)
}

/// Reads a POINT record in the R2013 layout, which is the R2010 one.
pub fn decode_point_r2013(reader: &mut BitReader<'_>, object_data_end_bit: u32) -> (r: Result<PointEntity, DwgError>)
    requires
        old(reader).wf(),
    ensures
        final(reader).keeps(old(reader)),
{
    point_with_layout(reader, HeaderLayout::R2010, object_data_end_bit)
}

fn ellipse_with_layout(reader: &mut BitReader<'_>, layout: HeaderLayout, end_bit: u32) -> (r: Result<EllipseEntity, DwgError>)
    requires
        old(reader).wf(),
    ensures
        final(reader).keeps(old(reader)),
{
    let header = parse_common_entity_header_layout(reader, layout, end_bit)?;
    let (center, major_axis) = read_ellipse_axes(reader)?;
    let extrusion = reader.read_3bd()?;
    let axis_ratio = reader.read_bd()?;
    let start_angle = reader.read_bd()?;
    let end_angle = reader.read_bd()?;
    let layer_handle = layer_or_zero(reader, &header)?;
    Ok(EllipseEntity {
        handle: header.handle,
        layer_handle,
        center,
        major_axis,
        extrusion,
        axis_ratio,
        start_angle,
        end_angle,
    })
}

/// Reads an ELLIPSE record in the R2007 layout.
pub fn decode_ellipse_r2007(reader: &mut BitReader<'_>) -> (r: Result<EllipseEntity, DwgError>)
    requires
        old(reader).wf(),
    ensures
        final(reader).keeps(old(reader)),
{
    ellipse_with_layout(reader, HeaderLayout::R2007, 0)
}

/// Reads an ELLIPSE record in the R2010 layout.
pub fn decode_ellipse_r2010(reader: &mut BitReader<'_>, object_data_end_bit: u32) -> (r: Result<EllipseEntity, DwgError>)
    requires
        old(reader).wf(),
    ensures
        final(reader).keeps(old(reader)),
{
    ellipse_with_layout(reader, HeaderLayout::R2010, object_data_end_bit)
}

/// Reads an ELLIPSE record in the R2013 layout, which is the R2010 one.
pub fn decode_ellipse_r2013(reader: &mut BitReader<'_>, object_data_end_bit: u32) -> (r: Result<EllipseEntity, DwgError>)
    requires
        old(reader).wf(),
    ensures
        final(reader).keeps(old(reader)),
{
    ellipse_with_layout(reader, HeaderLayout::R2010, object_data_end_bit)
}

fn mtext_with_layout(reader: &mut BitReader<'_>, layout: HeaderLayout, end_bit: u32) -> (r: Result<MTextEntity, DwgError>)
    requires
        old(reader).wf(),
    ensures
        final(reader).keeps(old(reader)),
{
    let header = parse_common_entity_header_layout(reader, layout, end_bit)?;
    let insertion = reader.read_3bd()?;
    read_mtext_rest(reader, &header, insertion, true, true)
}

/// Reads an MTEXT record in the R2007 layout.
pub fn decode_mtext_r2007(reader: &mut BitReader<'_>) -> (r: Result<MTextEntity, DwgError>)
    requires
        old(reader).wf(),
    ensures
        final(reader).keeps(old(reader)),
{
    mtext_with_layout(reader, HeaderLayout::R2007, 0)
}

/// Reads an MTEXT record in the R2010 layout.
pub fn decode_mtext_r2010(reader: &mut BitReader<'_>, object_data_end_bit: u32) -> (r: Result<MTextEntity, DwgError>)
    requires
        old(reader).wf(),
    ensures
        final(reader).keeps(old(reader)),
{
    mtext_with_layout(reader, HeaderLayout::R2010, object_data_end_bit)
}

/// Reads an MTEXT record in the R2013 layout, which is the R2010 one.
pub fn decode_mtext_r2013(reader: &mut BitReader<'_>, object_data_end_bit: u32) -> (r: Result<MTextEntity, DwgError>)
    requires
        old(reader).wf(),
    ensures
        final(reader).keeps(old(reader)),
{
    mtext_with_layout(reader, HeaderLayout::R2010, object_data_end_bit)
}

/// Reads a LEADER record in the R2007 layout.
pub fn decode_leader_r2007(reader: &mut BitReader<'_>) -> (r: Result<LeaderEntity, DwgError>)
    requires
        old(reader).wf(),
    ensures
        final(reader).keeps(old(reader)),
{
    let header = parse_common_entity_header_layout(reader, HeaderLayout::R2007, 0)?;
    leader_after_header(reader, &header, true)
}

/// Reads a LEADER record in the R2010 layout.
pub fn decode_leader_r2010(reader: &mut BitReader<'_>, object_data_end_bit: u32) -> (r: Result<LeaderEntity, DwgError>)
    requires
        old(reader).wf(),
    ensures
        final(reader).keeps(old(reader)),
{
    let header = parse_common_entity_header_layout(reader, HeaderLayout::R2010, object_data_end_bit)?;
    leader_after_header(reader, &header, true)
}

/// Reads a LEADER record in the R2013 layout, which is the R2010 one.
pub fn decode_leader_r2013(reader: &mut BitReader<'_>, object_data_end_bit: u32) -> (r: Result<LeaderEntity, DwgError>)
    requires
        old(reader).wf(),
    ensures
        final(reader).keeps(old(reader)),
{
    let header = parse_common_entity_header_layout(reader, HeaderLayout::R2010, object_data_end_bit)?;
    leader_after_header(reader, &header, true)
}

/// Reads an ATTRIB record in the R2007 layout.
pub fn decode_attrib_r2007(reader: &mut BitReader<'_>) -> (r: Result<AttribEntity, DwgError>)
    requires
        old(reader).wf(),
    ensures
        final(reader).keeps(old(reader)),
{
    let header = parse_common_entity_header_layout(reader, HeaderLayout::R2007, 0)?;
    attrib_after_header(reader, &header, false, true)
}

/// Reads an ATTRIB record in the R2010 layout.
pub fn decode_attrib_r2010(reader: &mut BitReader<'_>, object_data_end_bit: u32) -> (r: Result<AttribEntity, DwgError>)
    requires
        old(reader).wf(),
    ensures
        final(reader).keeps(old(reader)),
{
    let header = parse_common_entity_header_layout(reader, HeaderLayout::R2010, object_data_end_bit)?;
    attrib_after_header(reader, &header, false, true)
}

/// Reads an ATTRIB record in the R2013 layout, which is the R2010 one.
pub fn decode_attrib_r2013(reader: &mut BitReader<'_>, object_data_end_bit: u32) -> (r: Result<AttribEntity, DwgError>)
    requires
        old(reader).wf(),
    ensures
        final(reader).keeps(old(reader)),
{
    let header = parse_common_entity_header_layout(reader, HeaderLayout::R2010, object_data_end_bit)?;
    attrib_after_header(reader, &header, false, true)
}

/// Reads an ATTDEF record in the R2007 layout.
pub fn decode_attdef_r2007(reader: &mut BitReader<'_>) -> (r: Result<AttribEntity, DwgError>)
    requires
        old(reader).wf(),
    ensures
        final(reader).keeps(old(reader)),
{
    let header = parse_common_entity_header_layout(reader, HeaderLayout::R2007, 0)?;
    attrib_after_header(reader, &header, true, true)
}

/// Reads an ATTDEF record in the R2010 layout.
pub fn decode_attdef_r2010(reader: &mut BitReader<'_>, object_data_end_bit: u32) -> (r: Result<AttribEntity, DwgError>)
    requires
        old(reader).wf(),
    ensures
        final(reader).keeps(old(reader)),
{
    let header = parse_common_entity_header_layout(reader, HeaderLayout::R2010, object_data_end_bit)?;
    attrib_after_header(reader, &header, true, true)
}

/// Reads an ATTDEF record in the R2013 layout, which is the R2010 one.
pub fn decode_attdef_r2013(reader: &mut BitReader<'_>, object_data_end_bit: u32) -> (r: Result<AttribEntity, DwgError>)
    requires
        old(reader).wf(),
    ensures
        final(reader).keeps(old(reader)),
{
    let header = parse_common_entity_header_layout(reader, HeaderLayout::R2010, object_data_end_bit)?;
    attrib_after_header(reader, &header, true, true)
}

/// A LINE record (R2000 layout) at `p`.
pub open spec fn spec_line(d: Seq<u8>, p: int) -> Option<LineEntity> {
    match spec_common_header(d, p) {
        None => None,
        Some((h, q)) => match spec_line_body(d, q) {
            None => None,
            Some((st, en, q1)) => match spec_bt(d, q1) {
                None => None,
                Some((_, q2)) => match spec_be(d, q2) {
                    None => None,
                    Some(_) => Some(LineEntity { handle: h.handle, start: st, end: en }),
                },
            },
        },
    }
}

/// A CIRCLE record (R2000 layout) at `p`.
pub open spec fn spec_circle(d: Seq<u8>, p: int) -> Option<CircleEntity> {
    match spec_common_header(d, p) {
        None => None,
        Some((h, q)) => match spec_round_body(d, q) {
            None => None,
            Some((c, r, _)) => match spec_layer(d, h) {
                None => None,
                Some(l) => Some(CircleEntity { handle: h.handle, layer_handle: l, center: c, radius: r }),
            },
        },
    }
}

/// An ARC record (R2000 layout) at `p`.
pub open spec fn spec_arc(d: Seq<u8>, p: int) -> Option<ArcEntity> {
    match spec_common_header(d, p) {
        None => None,
        Some((h, q)) => match spec_round_body(d, q) {
            None => None,
            Some((c, r, q1)) => match spec_bd(d, q1) {
                None => None,
                Some((a0, q2)) => match spec_bd(d, q2) {
                    None => None,
                    Some((a1, _)) => Some(
                        ArcEntity { handle: h.handle, center: c, radius: r, angle_start: a0, angle_end: a1 },
                    ),
                },
            },
        },
    }
}

/// A POINT record (R2000 layout) at `p`.
pub open spec fn spec_point(d: Seq<u8>, p: int) -> Option<PointEntity> {
    match spec_common_header(d, p) {
        None => None,
        Some((h, q)) => match spec_3bd(d, q) {
            None => None,
            Some((loc, q1)) => match spec_bt(d, q1) {
                None => None,
                Some((_, q2)) => match spec_be(d, q2) {
                    None => None,
                    Some((_, q3)) => match spec_bd(d, q3) {
                        None => None,
                        Some((ang, _)) => match spec_layer(d, h) {
                            None => None,
                            Some(l) => Some(
                                PointEntity { handle: h.handle, layer_handle: l, location: loc, x_axis_angle: ang },
                            ),
                        },
                    },
                },
            },
        },
    }
}

/// The ELLIPSE body after the preamble: center, major axis, extrusion,
/// axis ratio, start and end angles.
pub open spec fn spec_ellipse_body(d: Seq<u8>, q: int) -> Option<
    ((u64, u64, u64), (u64, u64, u64), (u64, u64, u64), u64, u64, u64),
> {
    match spec_3bd(d, q) {
        None => None,
        Some((c, q1)) => match spec_3bd(d, q1) {
            None => None,
            Some((m, q2)) => match spec_3bd(d, q2) {
                None => None,
                Some((x, q3)) => match spec_bd(d, q3) {
                    None => None,
                    Some((ratio, q4)) => match spec_bd(d, q4) {
                        None => None,
                        Some((a0, q5)) => match spec_bd(d, q5) {
                            None => None,
                            Some((a1, _)) => Some((c, m, x, ratio, a0, a1)),
                        },
                    },
                },
            },
        },
    }
}

/// An ELLIPSE record (R2000 layout) at `p`.
pub open spec fn spec_ellipse(d: Seq<u8>, p: int) -> Option<EllipseEntity> {
    match spec_common_header(d, p) {
        None => None,
        Some((h, q)) => match spec_ellipse_body(d, q) {
            None => None,
            Some((c, m, x, ratio, a0, a1)) => match spec_layer(d, h) {
                None => None,
                Some(l) => Some(
                    EllipseEntity {
                        handle: h.handle,
                        layer_handle: l,
                        center: c,
                        major_axis: m,
                        extrusion: x,
                        axis_ratio: ratio,
                        start_angle: a0,
                        end_angle: a1,
                    },
                ),
            },
        },
    }
}

fn read_ellipse_body(reader: &mut BitReader<'_>) -> (r: Result<
    ((u64, u64, u64), (u64, u64, u64), (u64, u64, u64), u64, u64, u64),
    DwgError,
>)
    requires
        old(reader).wf(),
    ensures
        final(reader).keeps(old(reader)),
        r matches Ok(v) ==> spec_ellipse_body(old(reader).bytes(), old(reader).pos()) == Some(v),
        r.is_err() ==> spec_ellipse_body(old(reader).bytes(), old(reader).pos()).is_none(),
{
    let center = reader.read_3bd()?;
    let major_axis = reader.read_3bd()?;
    let extrusion = reader.read_3bd()?;
    let axis_ratio = reader.read_bd()?;
    let start_angle = reader.read_bd()?;
    let end_angle = reader.read_bd()?;
    Ok((center, major_axis, extrusion, axis_ratio, start_angle, end_angle))
}

} // verus!

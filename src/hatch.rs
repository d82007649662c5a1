//! HATCH boundaries as stored: edges and polylines with their double
//! encodings. Tessellating arcs and bulges into points is floating-point
//! work left to callers.
use vstd::prelude::*;
use crate::bit_reader::{BitReader, Endian};
use crate::common::{
    parse_common_entity_handles, parse_common_entity_header, parse_common_entity_header_layout,
    CommonEntityHeader, HeaderLayout,
};
use crate::entities::{preamble, MAX_ENTITY_ITEMS};
use crate::error::{DwgError, ErrorKind};

verus! {

/// One edge of an edge-defined boundary.
#[derive(Debug)]
pub enum HatchEdge {
    Line { start: (u64, u64), end: (u64, u64) },
    Arc { center: (u64, u64), radius: u64, start_angle: u64, end_angle: u64, ccw: bool },
    Elliptic {
        center: (u64, u64),
        major_endpoint: (u64, u64),
        ratio: u64,
        start_angle: u64,
        end_angle: u64,
        ccw: bool,
    },
}

/// One boundary path of a HATCH.
#[derive(Debug)]
pub enum HatchBoundary {
    /// A path made of edges; such a path is always closed.
    Edges(Vec<HatchEdge>),
    /// A polyline path, with one bulge per vertex where bulges are present.
    Polyline { closed: bool, vertices: Vec<(u64, u64)>, bulges: Vec<u64> },
}

/// A HATCH.
#[derive(Debug)]
pub struct HatchEntity {
    pub handle: u64,
    pub layer_handle: u64,
    pub name: String,
    pub solid_fill: bool,
    pub associative: bool,
    pub elevation: u64,
    pub extrusion: (u64, u64, u64),
    pub paths: Vec<HatchBoundary>,
}

fn read_point2rd(reader: &mut BitReader<'_>) -> (r: Result<(u64, u64), DwgError>)
    requires
        old(reader).wf(),
    ensures
        final(reader).keeps(old(reader)),
{
    let x = reader.read_rd(Endian::Little)?;
    let y = reader.read_rd(Endian::Little)?;
    Ok((x, y))
}

/// A count that may not exceed `MAX_ENTITY_ITEMS`.
fn bounded_count(raw: u32) -> (r: Result<u32, DwgError>)
    ensures
        r.is_ok() == (raw <= MAX_ENTITY_ITEMS),
        r matches Ok(n) ==> n == raw,
        r.is_err() ==> r->Err_0.kind == ErrorKind::Format,
{
    if raw > MAX_ENTITY_ITEMS {
        return Err(DwgError::new(ErrorKind::Format, "item count too large"));
    }
    Ok(raw)
}

/// The gradient block (R2004 and later): flags, angle, shift, tint, the
/// colors, and the gradient name.
fn skip_gradient_payload(reader: &mut BitReader<'_>) -> (r: Result<(), DwgError>)
    requires
        old(reader).wf(),
    ensures
        final(reader).keeps(old(reader)),
{
    let _is_gradient = reader.read_bl()?;
    let _reserved = reader.read_bl()?;
    let _angle = reader.read_bd()?;
    let _shift = reader.read_bd()?;
    let _single_color = reader.read_bl()?;
    let _tint = reader.read_bd()?;
    let num_colors = bounded_count(reader.read_bl()?)?;
    let mut i: u32 = 0;
    while i < num_colors
        invariant
            reader.keeps(old(reader)),
            0 <= i <= num_colors,
        decreases num_colors - i,
    {
        let _unknown_double = reader.read_bd()?;
        let _unknown_short = reader.read_bs()?;
        let _rgb = reader.read_bl()?;
        let _color_byte = reader.read_rc()?;
        i = i + 1;
    }
    let _name = reader.read_tv_bytes()?;
    Ok(())
}

/// One edge: type 1 line, 2 circular arc, 3 elliptic arc; a spline edge
/// (4) is not implemented and any other type is a format failure.
fn read_edge(reader: &mut BitReader<'_>) -> (r: Result<HatchEdge, DwgError>)
    requires
        old(reader).wf(),
    ensures
        final(reader).keeps(old(reader)),
{
    let segment_type = reader.read_rc()?;
    if segment_type == 1 {
        let start = read_point2rd(reader)?;
        let end = read_point2rd(reader)?;
        Ok(HatchEdge::Line { start, end })
    } else if segment_type == 2 {
        let center = read_point2rd(reader)?;
        let radius = reader.read_bd()?;
        let start_angle = reader.read_bd()?;
        let end_angle = reader.read_bd()?;
        let ccw = reader.read_b()? != 0;
        Ok(HatchEdge::Arc { center, radius, start_angle, end_angle, ccw })
    } else if segment_type == 3 {
        let center = read_point2rd(reader)?;
        let major_endpoint = read_point2rd(reader)?;
        let ratio = reader.read_bd()?;
        let start_angle = reader.read_bd()?;
        let end_angle = reader.read_bd()?;
        let ccw = reader.read_b()? != 0;
        Ok(HatchEdge::Elliptic { center, major_endpoint, ratio, start_angle, end_angle, ccw })
    } else if segment_type == 4 {
        Err(DwgError::not_implemented("spline edges of a hatch are not supported"))
    } else {
        Err(DwgError::new(ErrorKind::Format, "unknown hatch edge type"))
    }
}

/// One boundary path: flag 0x02 marks a polyline path, otherwise edges.
/// Returns the path and whether its flag 0x04 (pixel size) is set.
fn read_boundary(reader: &mut BitReader<'_>) -> (r: Result<(HatchBoundary, bool), DwgError>)
    requires
        old(reader).wf(),
    ensures
        final(reader).keeps(old(reader)),
        r matches Ok((HatchBoundary::Polyline { closed, vertices, bulges }, _)) ==> bulges@.len() == 0
            || bulges@.len() == vertices@.len(),
{
    let path_flag = reader.read_bl()?;
    let pixel = path_flag & 0x04 != 0;
    if path_flag & 0x02 == 0 {
        let num_segments = bounded_count(reader.read_bl()?)?;
        let mut edges: Vec<HatchEdge> = Vec::new();
        let mut i: u32 = 0;
        while i < num_segments
            invariant
                reader.keeps(old(reader)),
                0 <= i <= num_segments,
            decreases num_segments - i,
        {
            edges.push(read_edge(reader)?);
            i = i + 1;
        }
        let _num_boundary_handles = reader.read_bl()?;
        return Ok((HatchBoundary::Edges(edges), pixel));
    }
    let bulges_present = reader.read_b()? != 0;
    let closed = reader.read_b()? != 0;
    let num_vertices = bounded_count(reader.read_bl()?)?;
    let mut vertices: Vec<(u64, u64)> = Vec::new();
    let mut bulges: Vec<u64> = Vec::new();
    let mut i: u32 = 0;
    while i < num_vertices
        invariant
            reader.keeps(old(reader)),
            0 <= i <= num_vertices,
            vertices@.len() == i,
            bulges_present ==> bulges@.len() == i,
            !bulges_present ==> bulges@.len() == 0,
        decreases num_vertices - i,
    {
        vertices.push(read_point2rd(reader)?);
        if bulges_present {
            bulges.push(reader.read_bd()?);
        }
        i = i + 1;
    }
    let _num_boundary_handles = reader.read_bl()?;
    Ok((HatchBoundary::Polyline { closed, vertices, bulges }, pixel))
}

/// The pattern definition after the paths: style, pattern type, and for a
/// pattern fill its angle, scale, double flag and lines with dashes; then
/// the pixel size and seed points where a path asks for them.
fn skip_hatch_definition_payload(reader: &mut BitReader<'_>, solid_fill: bool, uses_pixel_size: bool) -> (r: Result<
    (),
    DwgError,
>)
    requires
        old(reader).wf(),
    ensures
        final(reader).keeps(old(reader)),
{
    let _style = reader.read_bs()?;
    let _pattern_type = reader.read_bs()?;
    if !solid_fill {
        let _angle = reader.read_bd()?;
        let _scale = reader.read_bd()?;
        let _double = reader.read_b()?;
        let num_lines = reader.read_bs()?;
        let mut i: u16 = 0;
        while i < num_lines
            invariant
                reader.keeps(old(reader)),
                0 <= i <= num_lines,
            decreases num_lines - i,
        {
            let _line_angle = reader.read_bd()?;
            let _origin_x = reader.read_bd()?;
            let _origin_y = reader.read_bd()?;
            let _offset_x = reader.read_bd()?;
            let _offset_y = reader.read_bd()?;
            let num_dashes = reader.read_bs()?;
            let mut k: u16 = 0;
            while k < num_dashes
                invariant
                    reader.keeps(old(reader)),
                    0 <= k <= num_dashes,
                decreases num_dashes - k,
            {
                let _dash = reader.read_bd()?;
                k = k + 1;
            }
            i = i + 1;
        }
    }
    if uses_pixel_size {
        let _pixel_size = reader.read_bd()?;
        let num_seeds = bounded_count(reader.read_bl()?)?;
        let mut i: u32 = 0;
        while i < num_seeds
            invariant
                reader.keeps(old(reader)),
                0 <= i <= num_seeds,
            decreases num_seeds - i,
        {
            let _seed = read_point2rd(reader)?;
            i = i + 1;
        }
    }
    Ok(())
}

/// Reads a HATCH record: the gradient block where `has_gradient_payload`
/// (R2004 and later), elevation, extrusion, name, solid-fill and
/// associative flags, the boundary paths, the pattern definition (read
/// best-effort), and the layer from the handle stream.
pub fn decode_hatch_body(reader: &mut BitReader<'_>, has_gradient_payload: bool) -> (r: Result<HatchEntity, DwgError>)
    requires
        old(reader).wf(),
    ensures
        final(reader).keeps(old(reader)),
        r matches Ok(e) ==> preamble(old(reader).bytes(), old(reader).pos(), e.handle) && e.paths@.len()
            <= MAX_ENTITY_ITEMS,
{
    let header = parse_common_entity_header(reader)?;
    hatch_after_header(reader, &header, has_gradient_payload, false)
}

fn hatch_after_header(reader: &mut BitReader<'_>, header: &CommonEntityHeader, has_gradient_payload: bool, tolerant: bool) -> (r:
    Result<HatchEntity, DwgError>)
    requires
        old(reader).wf(),
    ensures
        final(reader).keeps(old(reader)),
        r matches Ok(e) ==> e.handle == header.handle && e.paths@.len() <= MAX_ENTITY_ITEMS,
{
    if has_gradient_payload {
        skip_gradient_payload(reader)?;
    }
    let elevation = reader.read_bd()?;
    let extrusion = reader.read_3bd()?;
    let name = reader.read_tv()?;
    let solid_fill = reader.read_b()? != 0;
    let associative = reader.read_b()? != 0;
    let num_paths = bounded_count(reader.read_bl()?)?;
    let mut paths: Vec<HatchBoundary> = Vec::new();
    let mut uses_pixel_size = false;
    let mut i: u32 = 0;
    while i < num_paths
        invariant
            reader.keeps(old(reader)),
            0 <= i <= num_paths,
            paths@.len() == i,
        decreases num_paths - i,
    {
        let (path, pixel) = read_boundary(reader)?;
        uses_pixel_size = uses_pixel_size || pixel;
        paths.push(path);
        i = i + 1;
    }
    let _definition = skip_hatch_definition_payload(reader, solid_fill, uses_pixel_size);
    reader.set_bit_pos(header.obj_size);
    let layer_handle = match parse_common_entity_handles(reader, header) {
        Ok(handles) => handles.layer,
        Err(e) => {
            if tolerant && (e.kind == ErrorKind::Format || e.kind == ErrorKind::Decode || e.kind == ErrorKind::Io) {
                0
            } else {
                return Err(e);
            }
        },
    };
    Ok(HatchEntity {
        handle: header.handle,
        layer_handle,
        name,
        solid_fill,
        associative,
        elevation,
        extrusion,
        paths,
    })
}

/// Reads a HATCH record in the R2000 layout.
pub fn decode_hatch(reader: &mut BitReader<'_>) -> (r: Result<HatchEntity, DwgError>)
    requires
        old(reader).wf(),
    ensures
        final(reader).keeps(old(reader)),
        r matches Ok(e) ==> preamble(old(reader).bytes(), old(reader).pos(), e.handle),
{
    decode_hatch_body(reader, false)
}

/// Reads a HATCH record in the R2004 layout, with its gradient block.
pub fn decode_hatch_r2004(reader: &mut BitReader<'_>) -> (r: Result<HatchEntity, DwgError>)
    requires
        old(reader).wf(),
    ensures
        final(reader).keeps(old(reader)),
        r matches Ok(e) ==> preamble(old(reader).bytes(), old(reader).pos(), e.handle),
{
    decode_hatch_body(reader, true)
}

/// Reads a HATCH record in the R2007 layout, with its gradient block.
pub fn decode_hatch_r2007(reader: &mut BitReader<'_>) -> (r: Result<HatchEntity, DwgError>)
    requires
        old(reader).wf(),
    ensures
        final(reader).keeps(old(reader)),
{
    let header = parse_common_entity_header_layout(reader, HeaderLayout::R2007, 0)?;
    hatch_after_header(reader, &header, true, true)
}

/// Reads a HATCH record in the R2010 layout, with its gradient block.
pub fn decode_hatch_r2010(reader: &mut BitReader<'_>, object_data_end_bit: u32) -> (r: Result<HatchEntity, DwgError>)
    requires
        old(reader).wf(),
    ensures
        final(reader).keeps(old(reader)),
{
    let header = parse_common_entity_header_layout(reader, HeaderLayout::R2010, object_data_end_bit)?;
    hatch_after_header(reader, &header, true, true)
}

/// Reads a HATCH record in the R2013 layout, which is the R2010 one, with its gradient block.
pub fn decode_hatch_r2013(reader: &mut BitReader<'_>, object_data_end_bit: u32) -> (r: Result<HatchEntity, DwgError>)
    requires
        old(reader).wf(),
    ensures
        final(reader).keeps(old(reader)),
{
    let header = parse_common_entity_header_layout(reader, HeaderLayout::R2010, object_data_end_bit)?;
    hatch_after_header(reader, &header, true, true)
}

} // verus!

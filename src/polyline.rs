use vstd::prelude::*;
use crate::bit_reader::BitReader;
use crate::common::{parse_common_entity_header, spec_common_header};
use crate::error::DwgError;

verus! {

/// The flag bits of a POLYLINE_2D record.
#[derive(Debug, Clone, Copy, PartialEq, Eq, Structural)]
pub struct PolylineFlagsInfo {
    pub closed: bool,
    pub curve_fit: bool,
    pub spline_fit: bool,
    pub is_3d_polyline: bool,
    pub is_3d_mesh: bool,
    pub is_closed_mesh: bool,
    pub is_polyface_mesh: bool,
    pub continuous_linetype: bool,
}

impl PolylineFlagsInfo {
    /// Splits the flags: bit 0x01 closed, 0x02 curve-fit, 0x04 spline-fit,
    /// 0x08 3D polyline, 0x10 3D mesh, 0x20 closed mesh, 0x40 polyface mesh,
    /// 0x80 continuous linetype.
    pub fn from_flags(flags: u16) -> (r: PolylineFlagsInfo)
        ensures
            r.closed == (flags & 0x01 != 0),
            r.curve_fit == (flags & 0x02 != 0),
            r.spline_fit == (flags & 0x04 != 0),
            r.is_3d_polyline == (flags & 0x08 != 0),
            r.is_3d_mesh == (flags & 0x10 != 0),
            r.is_closed_mesh == (flags & 0x20 != 0),
            r.is_polyface_mesh == (flags & 0x40 != 0),
            r.continuous_linetype == (flags & 0x80 != 0),
    {
        PolylineFlagsInfo {
            closed: flags & 0x01 != 0,
            curve_fit: flags & 0x02 != 0,
            spline_fit: flags & 0x04 != 0,
            is_3d_polyline: flags & 0x08 != 0,
            is_3d_mesh: flags & 0x10 != 0,
            is_closed_mesh: flags & 0x20 != 0,
            is_polyface_mesh: flags & 0x40 != 0,
            continuous_linetype: flags & 0x80 != 0,
        }
    }
}

/// The curve type of a POLYLINE_2D record.
#[derive(Debug, Clone, Copy, PartialEq, Eq, Structural)]
pub enum PolylineCurveType {
    NoCurve,
    QuadraticBSpline,
    CubicBSpline,
    Bezier,
    Unknown(u16),
}

pub open spec fn curve_type_of(code: u16) -> PolylineCurveType {
    if code == 0 {
        PolylineCurveType::NoCurve
    } else if code == 5 {
        PolylineCurveType::QuadraticBSpline
    } else if code == 6 {
        PolylineCurveType::CubicBSpline
    } else if code == 8 {
        PolylineCurveType::Bezier
    } else {
        PolylineCurveType::Unknown(code)
    }
}

impl PolylineCurveType {
    pub fn from_code(code: u16) -> (r: PolylineCurveType)
        ensures
            r == curve_type_of(code),
    {
        match code {
            0 => PolylineCurveType::NoCurve,
            5 => PolylineCurveType::QuadraticBSpline,
            6 => PolylineCurveType::CubicBSpline,
            8 => PolylineCurveType::Bezier,
            other => PolylineCurveType::Unknown(other),
        }
    }

    pub fn label(&self) -> (r: &'static str)
        ensures
            r@ == (match *self {
                PolylineCurveType::NoCurve => "None"@,
                PolylineCurveType::QuadraticBSpline => "QuadraticBSpline"@,
                PolylineCurveType::CubicBSpline => "CubicBSpline"@,
                PolylineCurveType::Bezier => "Bezier"@,
                PolylineCurveType::Unknown(_) => "Unknown"@,
            }),
    {
        match self {
            PolylineCurveType::NoCurve => "None",
            PolylineCurveType::QuadraticBSpline => "QuadraticBSpline",
            PolylineCurveType::CubicBSpline => "CubicBSpline",
            PolylineCurveType::Bezier => "Bezier",
            PolylineCurveType::Unknown(_) => "Unknown",
        }
    }
}

/// The end marker of a vertex sequence.
#[derive(Debug, Clone, Copy, PartialEq, Eq, Structural)]
pub struct SeqendEntity {
    pub handle: u64,
}

/// Reads a SEQEND record: its common preamble only.
pub fn decode_seqend(reader: &mut BitReader<'_>) -> (r: Result<SeqendEntity, DwgError>)
    requires
        old(reader).wf(),
    ensures
        final(reader).keeps(old(reader)),
        match r {
            Ok(e) => spec_common_header(old(reader).bytes(), old(reader).pos()) matches Some((h, _))
                && e.handle == h.handle,
            Err(_) => spec_common_header(old(reader).bytes(), old(reader).pos()).is_none(),
        },
{
    let header = parse_common_entity_header(reader)?;
    Ok(SeqendEntity { handle: header.handle })
}


/// Type code of a 2D vertex record.
pub const VERTEX_2D_TYPE: u16 = 0x0A;

/// Type code of the record that ends a vertex sequence.
pub const SEQEND_TYPE: u16 = 0x06;

/// The first position at or after `k` that is not a 2D vertex.
pub open spec fn vertex_run_end(types: Seq<u16>, k: int) -> int
    decreases types.len() - k,
{
    if 0 <= k < types.len() && types[k] == VERTEX_2D_TYPE {
        vertex_run_end(types, k + 1)
    } else {
        k
    }
}

/// The last position before `n` holding a 2D vertex with handle `h`, or -1.
pub open spec fn last_vertex(types: Seq<u16>, handles: Seq<u64>, h: u64, n: int) -> int
    decreases n,
{
    if n <= 0 {
        -1
    } else if types[n - 1] == VERTEX_2D_TYPE && handles[n - 1] == h {
        n - 1
    } else {
        last_vertex(types, handles, h, n - 1)
    }
}

/// For each owned handle in order, the position of the 2D vertex holding it
/// (the last one where several do); handles without a vertex are skipped.
pub open spec fn owned_positions(owned: Seq<u64>, types: Seq<u16>, handles: Seq<u64>) -> Seq<int>
    decreases owned.len(),
{
    if owned.len() == 0 {
        Seq::empty()
    } else {
        let prev = owned_positions(owned.drop_last(), types, handles);
        let q = last_vertex(types, handles, owned.last(), types.len() as int);
        if q >= 0 {
            prev.push(q)
        } else {
            prev
        }
    }
}

/// Which objects are the vertices of the polyline at position `start` of a
/// list of objects in file order (`types` and `handles` parallel), and where
/// the walk goes on. With owned vertex handles, the vertices are the 2D
/// vertex records holding those handles, in the polyline's order, and no
/// following record is consumed. Without them, the vertices are the 2D
/// vertex records that directly follow, and a SEQEND after them is
/// consumed too.
pub fn polyline_vertex_plan(owned_handles: &Vec<u64>, types: &Vec<u16>, handles: &Vec<u64>, start: usize) -> (r: (
    Vec<usize>,
    usize,
))
    requires
        types@.len() == handles@.len(),
        start < types@.len(),
    ensures
        owned_handles@.len() > 0 ==> r.1 == start + 1 && r.0@.map_values(|q: usize| q as int) == owned_positions(
            owned_handles@,
            types@,
            handles@,
        ),
        owned_handles@.len() == 0 ==> {
            let end = vertex_run_end(types@, start + 1);
            &&& r.0@.len() == end - start - 1
            &&& forall|i: int| 0 <= i < r.0@.len() ==> #[trigger] r.0@[i] == start + 1 + i
            &&& r.1 == if end < types@.len() && types@[end] == SEQEND_TYPE { end + 1 } else { end }
        },
{
    let len = types.len();
    let mut positions: Vec<usize> = Vec::new();
    if owned_handles.len() > 0 {
        let mut k: usize = 0;
        while k < owned_handles.len()
            invariant
                0 <= k <= owned_handles@.len(),
                types@.len() == handles@.len(),
                len == types@.len(),
                positions@.map_values(|q: usize| q as int) == owned_positions(
                    owned_handles@.subrange(0, k as int),
                    types@,
                    handles@,
                ),
            decreases owned_handles@.len() - k,
        {
            let h = owned_handles[k];
            let mut found: Option<usize> = None;
            let mut j: usize = 0;
            while j < len
                invariant
                    0 <= j <= types@.len(),
                    len == types@.len(),
                    types@.len() == handles@.len(),
                    match found {
                        Some(q) => q as int == last_vertex(types@, handles@, h, j as int),
                        None => last_vertex(types@, handles@, h, j as int) == -1,
                    },
                decreases types@.len() - j,
            {
                if types[j] == VERTEX_2D_TYPE && handles[j] == h {
                    found = Some(j);
                }
                j = j + 1;
            }
            proof {
                assert(owned_handles@.subrange(0, k + 1).drop_last() =~= owned_handles@.subrange(0, k as int));
                assert(owned_handles@.subrange(0, k + 1).last() == h);
            }
            let ghost before = positions@;
            if let Some(q) = found {
                positions.push(q);
                assert(positions@.map_values(|q: usize| q as int) =~= before.map_values(|q: usize| q as int).push(
                    q as int,
                ));
            }
            k = k + 1;
        }
        assert(owned_handles@.subrange(0, owned_handles@.len() as int) =~= owned_handles@);
        return (positions, start + 1);
    }
    let mut j = start + 1;
    while j < len && types[j] == VERTEX_2D_TYPE
        invariant
            start + 1 <= j <= types@.len(),
            len == types@.len(),
            vertex_run_end(types@, start + 1) == vertex_run_end(types@, j as int),
            positions@.len() == j - start - 1,
            forall|i: int| 0 <= i < positions@.len() ==> #[trigger] positions@[i] == start + 1 + i,
        decreases types@.len() - j,
    {
        positions.push(j);
        j = j + 1;
    }
    if j < len && types[j] == SEQEND_TYPE {
        j = j + 1;
    }
    (positions, j)
}

} // verus!

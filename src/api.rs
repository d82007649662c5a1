use vstd::prelude::*;
use crate::decoder::Decoder;
use crate::error::{DwgError, ErrorKind, ParseConfig};
use crate::object_header_r2000;
use crate::object_header_r2010;
use crate::object_record::{ObjectRecord, OwnedObjectRecord};
use crate::objects::ObjectRef;
use crate::version::DwgVersion;
use crate::bit_reader::{fits, BitReader};
use crate::entities::{
    decode_arc, decode_circle, decode_insert, decode_line, decode_lwpolyline, decode_polyline_2d, decode_vertex_2d,
    ArcEntity, CircleEntity, InsertEntity, LineEntity, LwPolylineEntity, Polyline2dEntity, Vertex2dEntity,
};

verus! {

/// One object of the index with its record's size and type code.
#[derive(Debug, Clone, Copy, PartialEq, Eq, Structural)]
pub struct ObjectHeaderRow {
    pub handle: u64,
    pub offset: u32,
    pub data_size: u32,
    pub type_code: u16,
}

/// Whether `limit` allows one more row after `n`.
pub open spec fn below_limit(n: int, limit: Option<usize>) -> bool {
    match limit {
        None => true,
        Some(l) => n < l,
    }
}

/// A decoder over `bytes` for a supported dialect, with default limits.
fn supported_decoder<'a>(bytes: &'a [u8]) -> (r: Result<Decoder<'a>, DwgError>)
    ensures
        r matches Ok(d) ==> !(d.dialect() is Unknown) && d.data() == bytes@ && d.settings().max_section_bytes
            == crate::error::DEFAULT_MAX_SECTION_BYTES,
        r.is_ok() ==> bytes@.len() >= 6,
{
    let decoder = Decoder::new(bytes, ParseConfig::default())?;
    decoder.ensure_supported()?;
    Ok(decoder)
}

/// The size and type code in the record's header, read the way its dialect
/// lays it out.
fn header_of(version: &DwgVersion, rec: &OwnedObjectRecord) -> (r: Result<(u32, u16), DwgError>)
    requires
        rec.body_bit_pos < 8,
    ensures
        r matches Ok((size, _)) ==> size == rec.size,
{
    let view = ObjectRecord {
        offset: rec.offset,
        size: rec.size,
        body_start: rec.body_start,
        body_bit_pos: rec.body_bit_pos,
        body: rec.body.as_slice(),
    };
    match version {
        DwgVersion::R2010 | DwgVersion::R2013 => {
            let h = object_header_r2010::parse_from_record(&view)?;
            Ok((h.data_size, h.type_code))
        },
        _ => {
            let h = object_header_r2000::parse_from_record(&view)?;
            Ok((h.data_size, h.type_code))
        },
    }
}

/// Whether `code` is one of `codes`.
pub fn contains_code(codes: &Vec<u16>, code: u16) -> (r: bool)
    ensures
        r == codes@.contains(code),
{
    let mut i: usize = 0;
    while i < codes.len()
        invariant
            0 <= i <= codes@.len(),
            forall|j: int| 0 <= j < i ==> codes@[j] != code,
        decreases codes@.len() - i,
    {
        if codes[i] == code {
            return true;
        }
        i = i + 1;
    }
    false
}

/// The `(handle, offset)` pairs of the object index, at most `limit` of them.
pub fn list_object_map_entries(bytes: &[u8], limit: Option<usize>) -> (r: Result<Vec<(u64, u32)>, DwgError>)
    ensures
        r matches Ok(v) ==> (limit matches Some(l) ==> v@.len() <= l),
{
    let decoder = supported_decoder(bytes)?;
    let index = decoder.build_object_index()?;
    let mut entries: Vec<(u64, u32)> = Vec::new();
    let mut i: usize = 0;
    while i < index.objects.len() && below_limit_exec(entries.len(), limit)
        invariant
            0 <= i <= index.objects@.len(),
            limit matches Some(l) ==> entries@.len() <= l,
        decreases index.objects@.len() - i,
    {
        let o = index.objects[i];
        entries.push((o.handle.0, o.offset));
        i = i + 1;
    }
    Ok(entries)
}

fn below_limit_exec(n: usize, limit: Option<usize>) -> (r: bool)
    ensures
        r == below_limit(n as int, limit),
{
    match limit {
        None => true,
        Some(l) => n < l,
    }
}

/// Object headers whose type code is in `filter` (every header when `filter`
/// is `None`), in index order, at most `limit` of them.
fn collect_headers(bytes: &[u8], filter: Option<&Vec<u16>>, limit: Option<usize>) -> (r: Result<
    Vec<ObjectHeaderRow>,
    DwgError,
>)
    ensures
        r matches Ok(v) ==> (limit matches Some(l) ==> v@.len() <= l),
        r matches Ok(v) ==> (filter matches Some(codes) ==> forall|i: int|
            0 <= i < v@.len() ==> codes@.contains(#[trigger] v@[i].type_code)),
{
    let decoder = supported_decoder(bytes)?;
    let index = decoder.build_object_index()?;
    let mut rows: Vec<ObjectHeaderRow> = Vec::new();
    let mut i: usize = 0;
    while i < index.objects.len() && below_limit_exec(rows.len(), limit)
        invariant
            0 <= i <= index.objects@.len(),
            limit matches Some(l) ==> rows@.len() <= l,
            filter matches Some(codes) ==> forall|k: int|
                0 <= k < rows@.len() ==> codes@.contains(#[trigger] rows@[k].type_code),
        decreases index.objects@.len() - i,
    {
        let o = index.objects[i];
        let rec = decoder.parse_object_record(o.offset)?;
        let (data_size, type_code) = header_of(decoder.version(), &rec)?;
        let keep = match filter {
            None => true,
            Some(codes) => contains_code(codes, type_code),
        };
        if keep {
            rows.push(ObjectHeaderRow { handle: o.handle.0, offset: o.offset, data_size, type_code });
        }
        i = i + 1;
    }
    Ok(rows)
}

/// Every object's header, at most `limit` of them.
pub fn list_object_headers(bytes: &[u8], limit: Option<usize>) -> (r: Result<Vec<ObjectHeaderRow>, DwgError>)
    ensures
        r matches Ok(v) ==> (limit matches Some(l) ==> v@.len() <= l),
{
    collect_headers(bytes, None, limit)
}

/// The headers of objects whose type code is one of `type_codes`. An empty
/// list gives an empty result without reading the file.
pub fn list_object_headers_by_type(bytes: &[u8], type_codes: &Vec<u16>, limit: Option<usize>) -> (r: Result<
    Vec<ObjectHeaderRow>,
    DwgError,
>)
    ensures
        type_codes@.len() == 0 ==> (r matches Ok(v) && v@.len() == 0),
        r matches Ok(v) ==> (limit matches Some(l) ==> v@.len() <= l),
        r matches Ok(v) ==> forall|i: int| 0 <= i < v@.len() ==> type_codes@.contains(#[trigger] v@[i].type_code),
{
    if type_codes.len() == 0 {
        return Ok(Vec::new());
    }
    collect_headers(bytes, Some(type_codes), limit)
}

/// The raw payloads of objects whose type code is one of `type_codes`,
/// with their headers. An empty list gives an empty result without reading
/// the file.
pub fn read_object_records_by_type(bytes: &[u8], type_codes: &Vec<u16>, limit: Option<usize>) -> (r: Result<
    Vec<(ObjectHeaderRow, Vec<u8>)>,
    DwgError,
>)
    ensures
        type_codes@.len() == 0 ==> (r matches Ok(v) && v@.len() == 0),
        r matches Ok(v) ==> (limit matches Some(l) ==> v@.len() <= l),
        r matches Ok(v) ==> forall|i: int| 0 <= i < v@.len() ==> type_codes@.contains(#[trigger] v@[i].0.type_code),
{
    if type_codes.len() == 0 {
        return Ok(Vec::new());
    }
    let decoder = supported_decoder(bytes)?;
    let index = decoder.build_object_index()?;
    let mut rows: Vec<(ObjectHeaderRow, Vec<u8>)> = Vec::new();
    let mut i: usize = 0;
    while i < index.objects.len() && below_limit_exec(rows.len(), limit)
        invariant
            0 <= i <= index.objects@.len(),
            type_codes@.len() > 0,
            limit matches Some(l) ==> rows@.len() <= l,
            forall|k: int| 0 <= k < rows@.len() ==> type_codes@.contains(#[trigger] rows@[k].0.type_code),
        decreases index.objects@.len() - i,
    {
        let o = index.objects[i];
        let rec = decoder.parse_object_record(o.offset)?;
        let (data_size, type_code) = header_of(decoder.version(), &rec)?;
        if contains_code(type_codes, type_code) {
            let row = ObjectHeaderRow { handle: o.handle.0, offset: o.offset, data_size, type_code };
            rows.push((row, rec.body));
        }
        i = i + 1;
    }
    Ok(rows)
}

/// The section directory as `(name, offset, size)`: the section's name where
/// the container names it, else the label of its record number.
pub fn list_section_locators(bytes: &[u8]) -> (r: Result<Vec<(String, u32, u32)>, DwgError>)
    ensures
        bytes@.len() < 6 ==> r.is_err(),
{
    let decoder = supported_decoder(bytes)?;
    let directory = decoder.section_directory()?;
    let mut out: Vec<(String, u32, u32)> = Vec::new();
    let mut i: usize = 0;
    while i < directory.records.len()
        invariant
            0 <= i <= directory.records@.len(),
            out@.len() == i,
        decreases directory.records@.len() - i,
    {
        let rec = directory.records[i];
        let name = if i < directory.names.len() {
            directory.names[i].clone()
        } else {
            rec.kind().label()
        };
        out.push((name, rec.offset, rec.size));
        i = i + 1;
    }
    Ok(out)
}

/// The decoded bytes of the `index`-th section.
pub fn read_section_bytes(bytes: &[u8], index: usize) -> (r: Result<Vec<u8>, DwgError>)
    ensures
        r matches Ok(v) ==> v@.len() <= crate::error::DEFAULT_MAX_SECTION_BYTES,
{
    let decoder = supported_decoder(bytes)?;
    let directory = decoder.section_directory()?;
    let section = decoder.load_section_by_index(&directory, index)?;
    Ok(section.data)
}

/// Whether per-record failures are skipped for a dialect: R2000, R2010 and
/// R2013 decode best-effort.
pub open spec fn best_effort(v: DwgVersion) -> bool {
    v is R2000 || v is R2010 || v is R2013
}

fn is_best_effort(v: &DwgVersion) -> (r: bool)
    ensures
        r == best_effort(*v),
{
    matches!(v, DwgVersion::R2000 | DwgVersion::R2010 | DwgVersion::R2013)
}

/// The records of objects whose type code is `type_code`, in index order,
/// at most `limit` of them. Entities are decoded from the R2000 layout, so
/// only R2000 and R2004 drawings are accepted.
pub fn records_of_type(bytes: &[u8], type_code: u16, limit: Option<usize>) -> (r: Result<
    (Vec<OwnedObjectRecord>, bool),
    DwgError,
>)
    ensures
        r matches Ok((v, _)) ==> (limit matches Some(l) ==> v@.len() <= l) && forall|i: int|
            0 <= i < v@.len() ==> (#[trigger] v@[i]).body_bit_pos < 8,
{
    let decoder = supported_decoder(bytes)?;
    let version = decoder.version();
    if !matches!(version, DwgVersion::R2000 | DwgVersion::R2004) {
        return Err(DwgError::not_implemented("entity bodies are decoded for R2000 and R2004 only"));
    }
    let skip_failures = is_best_effort(version);
    let index = decoder.build_object_index()?;
    let mut out: Vec<OwnedObjectRecord> = Vec::new();
    let mut i: usize = 0;
    while i < index.objects.len() && below_limit_exec(out.len(), limit)
        invariant
            0 <= i <= index.objects@.len(),
            limit matches Some(l) ==> out@.len() <= l,
            forall|k: int| 0 <= k < out@.len() ==> (#[trigger] out@[k]).body_bit_pos < 8,
        decreases index.objects@.len() - i,
    {
        let o = index.objects[i];
        match decoder.parse_object_record(o.offset) {
            Ok(rec) => match header_of(version, &rec) {
                Ok((_, code)) => {
                    if code == type_code {
                        out.push(rec);
                    }
                },
                Err(e) => {
                    if !skip_failures {
                        return Err(e);
                    }
                },
            },
            Err(e) => {
                if !skip_failures {
                    return Err(e);
                }
            },
        }
        i = i + 1;
    }
    Ok((out, skip_failures))
}

/// A bit cursor on a record's payload, just past its bit-short type code.
fn entity_reader<'a>(rec: &'a OwnedObjectRecord) -> (r: Result<BitReader<'a>, DwgError>)
    requires
        rec.body_bit_pos < 8,
    ensures
        r matches Ok(reader) ==> reader.wf(),
{
    if !fits(rec.body.as_slice()) {
        return Err(DwgError::new(ErrorKind::Format, "record too large for a bit cursor"));
    }
    let mut reader = BitReader::new(rec.body.as_slice());
    reader.set_pos(0, rec.body_bit_pos);
    let _type_code = reader.read_bs()?;
    Ok(reader)
}

/// Every LINE (type 0x13) of the drawing.
pub fn decode_line_entities(bytes: &[u8], limit: Option<usize>) -> (r: Result<Vec<LineEntity>, DwgError>)
    ensures
        r matches Ok(v) ==> (limit matches Some(l) ==> v@.len() <= l),
{
    let (records, skip) = records_of_type(bytes, 0x13, limit)?;
    let mut out: Vec<LineEntity> = Vec::new();
    let mut i: usize = 0;
    while i < records.len()
        invariant
            0 <= i <= records@.len(),
            out@.len() <= i,
            limit matches Some(l) ==> records@.len() <= l,
            forall|k: int| 0 <= k < records@.len() ==> (#[trigger] records@[k]).body_bit_pos < 8,
        decreases records@.len() - i,
    {
        let decoded = match entity_reader(&records[i]) {
            Ok(mut reader) => decode_line(&mut reader),
            Err(e) => Err(e),
        };
        match decoded {
            Ok(e) => out.push(e),
            Err(e) => {
                if !skip {
                    return Err(e);
                }
            },
        }
        i = i + 1;
    }
    Ok(out)
}

/// Every INSERT (type 0x07) of the drawing.
pub fn decode_insert_entities(bytes: &[u8], limit: Option<usize>) -> (r: Result<Vec<InsertEntity>, DwgError>)
    ensures
        r matches Ok(v) ==> (limit matches Some(l) ==> v@.len() <= l),
{
    let (records, skip) = records_of_type(bytes, 0x07, limit)?;
    let mut out: Vec<InsertEntity> = Vec::new();
    let mut i: usize = 0;
    while i < records.len()
        invariant
            0 <= i <= records@.len(),
            out@.len() <= i,
            limit matches Some(l) ==> records@.len() <= l,
            forall|k: int| 0 <= k < records@.len() ==> (#[trigger] records@[k]).body_bit_pos < 8,
        decreases records@.len() - i,
    {
        let decoded = match entity_reader(&records[i]) {
            Ok(mut reader) => decode_insert(&mut reader),
            Err(e) => Err(e),
        };
        match decoded {
            Ok(e) => out.push(e),
            Err(e) => {
                if !skip {
                    return Err(e);
                }
            },
        }
        i = i + 1;
    }
    Ok(out)
}

/// Every VERTEX_2D (type 0x0A) of the drawing.
pub fn decode_vertex_2d_entities(bytes: &[u8], limit: Option<usize>) -> (r: Result<Vec<Vertex2dEntity>, DwgError>)
    ensures
        r matches Ok(v) ==> (limit matches Some(l) ==> v@.len() <= l),
{
    let (records, skip) = records_of_type(bytes, 0x0A, limit)?;
    let mut out: Vec<Vertex2dEntity> = Vec::new();
    let mut i: usize = 0;
    while i < records.len()
        invariant
            0 <= i <= records@.len(),
            out@.len() <= i,
            limit matches Some(l) ==> records@.len() <= l,
            forall|k: int| 0 <= k < records@.len() ==> (#[trigger] records@[k]).body_bit_pos < 8,
        decreases records@.len() - i,
    {
        let decoded = match entity_reader(&records[i]) {
            Ok(mut reader) => decode_vertex_2d(&mut reader),
            Err(e) => Err(e),
        };
        match decoded {
            Ok(e) => out.push(e),
            Err(e) => {
                if !skip {
                    return Err(e);
                }
            },
        }
        i = i + 1;
    }
    Ok(out)
}

/// Every POLYLINE_2D (type 0x0F) of the drawing.
pub fn decode_polyline_2d_entities(bytes: &[u8], limit: Option<usize>) -> (r: Result<Vec<Polyline2dEntity>, DwgError>)
    ensures
        r matches Ok(v) ==> (limit matches Some(l) ==> v@.len() <= l),
{
    let (records, skip) = records_of_type(bytes, 0x0F, limit)?;
    let mut out: Vec<Polyline2dEntity> = Vec::new();
    let mut i: usize = 0;
    while i < records.len()
        invariant
            0 <= i <= records@.len(),
            out@.len() <= i,
            limit matches Some(l) ==> records@.len() <= l,
            forall|k: int| 0 <= k < records@.len() ==> (#[trigger] records@[k]).body_bit_pos < 8,
        decreases records@.len() - i,
    {
        let decoded = match entity_reader(&records[i]) {
            Ok(mut reader) => decode_polyline_2d(&mut reader),
            Err(e) => Err(e),
        };
        match decoded {
            Ok(e) => out.push(e),
            Err(e) => {
                if !skip {
                    return Err(e);
                }
            },
        }
        i = i + 1;
    }
    Ok(out)
}

/// Every CIRCLE (type 0x12) of the drawing.
pub fn decode_circle_entities(bytes: &[u8], limit: Option<usize>) -> (r: Result<Vec<CircleEntity>, DwgError>)
    ensures
        r matches Ok(v) ==> (limit matches Some(l) ==> v@.len() <= l),
{
    let (records, skip) = records_of_type(bytes, 0x12, limit)?;
    let mut out: Vec<CircleEntity> = Vec::new();
    let mut i: usize = 0;
    while i < records.len()
        invariant
            0 <= i <= records@.len(),
            out@.len() <= i,
            limit matches Some(l) ==> records@.len() <= l,
            forall|k: int| 0 <= k < records@.len() ==> (#[trigger] records@[k]).body_bit_pos < 8,
        decreases records@.len() - i,
    {
        let decoded = match entity_reader(&records[i]) {
            Ok(mut reader) => decode_circle(&mut reader),
            Err(e) => Err(e),
        };
        match decoded {
            Ok(e) => out.push(e),
            Err(e) => {
                if !skip {
                    return Err(e);
                }
            },
        }
        i = i + 1;
    }
    Ok(out)
}

/// Every ARC (type 0x11) of the drawing.
pub fn decode_arc_entities(bytes: &[u8], limit: Option<usize>) -> (r: Result<Vec<ArcEntity>, DwgError>)
    ensures
        r matches Ok(v) ==> (limit matches Some(l) ==> v@.len() <= l),
{
    let (records, skip) = records_of_type(bytes, 0x11, limit)?;
    let mut out: Vec<ArcEntity> = Vec::new();
    let mut i: usize = 0;
    while i < records.len()
        invariant
            0 <= i <= records@.len(),
            out@.len() <= i,
            limit matches Some(l) ==> records@.len() <= l,
            forall|k: int| 0 <= k < records@.len() ==> (#[trigger] records@[k]).body_bit_pos < 8,
        decreases records@.len() - i,
    {
        let decoded = match entity_reader(&records[i]) {
            Ok(mut reader) => decode_arc(&mut reader),
            Err(e) => Err(e),
        };
        match decoded {
            Ok(e) => out.push(e),
            Err(e) => {
                if !skip {
                    return Err(e);
                }
            },
        }
        i = i + 1;
    }
    Ok(out)
}

/// Every LWPOLYLINE (type 0x4D) of the drawing.
pub fn decode_lwpolyline_entities(bytes: &[u8], limit: Option<usize>) -> (r: Result<Vec<LwPolylineEntity>, DwgError>)
    ensures
        r matches Ok(v) ==> (limit matches Some(l) ==> v@.len() <= l),
{
    let (records, skip) = records_of_type(bytes, 0x4D, limit)?;
    let mut out: Vec<LwPolylineEntity> = Vec::new();
    let mut i: usize = 0;
    while i < records.len()
        invariant
            0 <= i <= records@.len(),
            out@.len() <= i,
            limit matches Some(l) ==> records@.len() <= l,
            forall|k: int| 0 <= k < records@.len() ==> (#[trigger] records@[k]).body_bit_pos < 8,
        decreases records@.len() - i,
    {
        let decoded = match entity_reader(&records[i]) {
            Ok(mut reader) => decode_lwpolyline(&mut reader),
            Err(e) => Err(e),
        };
        match decoded {
            Ok(e) => out.push(e),
            Err(e) => {
                if !skip {
                    return Err(e);
                }
            },
        }
        i = i + 1;
    }
    Ok(out)
}

} // verus!

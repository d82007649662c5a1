use vstd::prelude::*;
use crate::bit_reader::{fits, reader_fits, spec_ot, spec_umc, BitReader};
use crate::error::{DwgError, ErrorKind};
use crate::object_record::{parse_object_record, record_ok, ObjectRecord};
use crate::objects::ObjectRef;

verus! {

/// The header prefix of an object record (R2010 and R2013): where the record
/// lies, the size of its handle stream in bits, and its type code.
#[derive(Debug, Clone, Copy, PartialEq, Eq, Structural)]
pub struct ObjectHeaderR2010 {
    pub offset: u32,
    pub data_size: u32,
    pub body_start: usize,
    pub body_bit_pos: u8,
    pub handle_stream_size_bits: u32,
    pub type_code: u16,
}

impl ObjectHeaderR2010 {
    pub fn body_bit_pos(&self) -> (r: u8)
        ensures
            r == self.body_bit_pos,
    {
        self.body_bit_pos
    }
}

/// Whether the header of `rec` can be read: an unsigned modular char (the
/// handle-stream size), then a non-zero object type.
pub open spec fn header_ok(rec: ObjectRecord) -> bool {
    &&& reader_fits(rec.body@.len() as int)
    &&& spec_umc(rec.body@, rec.body_bit_pos as int) matches Some((_, p))
    &&& spec_ot(rec.body@, p) matches Some((code, _)) && code != 0
}

/// Reads the handle-stream size and type code of a record.
pub fn parse_from_record(record: &ObjectRecord<'_>) -> (r: Result<ObjectHeaderR2010, DwgError>)
    requires
        record.body_bit_pos < 8,
    ensures
        r.is_ok() == header_ok(*record),
        reader_fits(record.body@.len() as int) && (spec_umc(record.body@, record.body_bit_pos as int) matches Some(
            (_, p),
        ) && spec_ot(record.body@, p) matches Some((code, _)) && code == 0) ==> r.is_err() && r->Err_0.kind
            == ErrorKind::Format,
        r matches Ok(h) ==> {
            &&& h.offset == record.offset
            &&& h.data_size == record.size
            &&& h.body_start == record.body_start
            &&& h.body_bit_pos == record.body_bit_pos
            &&& spec_umc(record.body@, record.body_bit_pos as int) matches Some((bits, p))
            &&& h.handle_stream_size_bits == bits
            &&& spec_ot(record.body@, p) matches Some((code, _)) && h.type_code == code
        },
{
    if !fits(record.body) {
        return Err(DwgError::new(ErrorKind::Format, "record too large for a bit cursor"));
    }
    let mut reader = BitReader::new(record.body);
    reader.set_pos(0, record.body_bit_pos);
    let handle_stream_size_bits = reader.read_umc()?;
    let type_code = reader.read_ot_r2010()?;
    if type_code == 0 {
        return Err(DwgError::new(ErrorKind::Format, "object type code is zero"));
    }
    Ok(ObjectHeaderR2010 {
        offset: record.offset,
        data_size: record.size,
        body_start: record.body_start,
        body_bit_pos: record.body_bit_pos,
        handle_stream_size_bits,
        type_code,
    })
}

/// Reads the record at `offset` and its header.
pub fn parse_at(bytes: &[u8], offset: u32) -> (r: Result<ObjectHeaderR2010, DwgError>)
    ensures
        r.is_ok() ==> record_ok(bytes@, offset as int),
        r matches Ok(h) ==> h.offset == offset && h.body_start + h.data_size + 2 <= bytes@.len(),
        !record_ok(bytes@, offset as int) ==> r.is_err(),
{
    let record = parse_object_record(bytes, offset)?;
    parse_from_record(&record)
}

/// The header of the record that `object` designates.
pub fn parse_for_object(bytes: &[u8], object: ObjectRef) -> (r: Result<ObjectHeaderR2010, DwgError>)
    ensures
        r.is_ok() ==> record_ok(bytes@, object.offset as int),
        r matches Ok(h) ==> h.offset == object.offset && h.body_start + h.data_size + 2 <= bytes@.len(),
        !record_ok(bytes@, object.offset as int) ==> r.is_err(),
{
    parse_at(bytes, object.offset)
}

} // verus!

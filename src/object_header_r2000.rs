use vstd::prelude::*;
use crate::bit_reader::{fits, reader_fits, spec_bs, BitReader};
use crate::error::{DwgError, ErrorKind};
use crate::object_record::{parse_object_record, record_ok, ObjectRecord};
use crate::objects::ObjectRef;

verus! {

/// The header prefix of an object record (R2000 and R2004): where the record
/// lies and its type code.
#[derive(Debug, Clone, Copy, PartialEq, Eq, Structural)]
pub struct ObjectHeaderR2000 {
    pub offset: u32,
    pub data_size: u32,
    pub body_start: usize,
    pub body_bit_pos: u8,
    pub type_code: u16,
}

impl ObjectHeaderR2000 {
    /// Bytes from the record's start through its CRC.
    pub fn total_size(&self) -> (r: u32)
        requires
            self.offset <= self.body_start,
            self.body_start - self.offset + self.data_size + 2 <= u32::MAX,
        ensures
            r == self.body_start - self.offset + self.data_size + 2,
    {
        let header_bytes = (self.body_start - self.offset as usize) as u32;
        header_bytes + self.data_size + 2
    }

    pub fn record_range(&self) -> (r: (usize, usize))
        requires
            self.body_start + self.data_size + 2 <= usize::MAX,
        ensures
            r == (self.offset as usize, (self.body_start + self.data_size + 2) as usize),
    {
        (self.offset as usize, self.body_start + self.data_size as usize + 2)
    }

    pub fn data_range(&self) -> (r: (usize, usize))
        requires
            self.body_start + self.data_size <= usize::MAX,
        ensures
            r == (self.body_start, (self.body_start + self.data_size) as usize),
    {
        (self.body_start, self.body_start + self.data_size as usize)
    }

    pub fn body_bit_pos(&self) -> (r: u8)
        ensures
            r == self.body_bit_pos,
    {
        self.body_bit_pos
    }
}

/// Whether the header of `rec` can be read: a non-zero bit-short type code at
/// the payload's first bit.
pub open spec fn header_ok(rec: ObjectRecord) -> bool {
    &&& reader_fits(rec.body@.len() as int)
    &&& spec_bs(rec.body@, rec.body_bit_pos as int) matches Some((code, _)) && code != 0
}

/// Reads the type code of a record.
pub fn parse_from_record(record: &ObjectRecord<'_>) -> (r: Result<ObjectHeaderR2000, DwgError>)
    requires
        record.body_bit_pos < 8,
    ensures
        r.is_ok() == header_ok(*record),
        reader_fits(record.body@.len() as int) && (spec_bs(record.body@, record.body_bit_pos as int) matches Some(
            (code, _),
        ) && code == 0) ==> r.is_err() && r->Err_0.kind == ErrorKind::Format,
        r matches Ok(h) ==> {
            &&& h.offset == record.offset
            &&& h.data_size == record.size
            &&& h.body_start == record.body_start
            &&& h.body_bit_pos == record.body_bit_pos
            &&& spec_bs(record.body@, record.body_bit_pos as int) matches Some((code, _)) && h.type_code
                == code
        },
{
    if !fits(record.body) {
        return Err(DwgError::new(ErrorKind::Format, "record too large for a bit cursor"));
    }
    let mut reader = BitReader::new(record.body);
    reader.set_pos(0, record.body_bit_pos);
    let type_code = reader.read_bs()?;
    if type_code == 0 {
        return Err(DwgError::new(ErrorKind::Format, "object type code is zero"));
    }
    Ok(ObjectHeaderR2000 {
        offset: record.offset,
        data_size: record.size,
        body_start: record.body_start,
        body_bit_pos: record.body_bit_pos,
        type_code,
    })
}

/// Reads the record at `offset` and its header.
pub fn parse_at(bytes: &[u8], offset: u32) -> (r: Result<ObjectHeaderR2000, DwgError>)
    ensures
        r.is_ok() ==> record_ok(bytes@, offset as int),
        r matches Ok(h) ==> h.offset == offset && h.body_start + h.data_size + 2 <= bytes@.len(),
        !record_ok(bytes@, offset as int) ==> r.is_err(),
{
    let record = parse_object_record(bytes, offset)?;
    parse_from_record(&record)
}

/// The header of the record that `object` designates.
pub fn parse_for_object(bytes: &[u8], object: ObjectRef) -> (r: Result<ObjectHeaderR2000, DwgError>)
    ensures
        r.is_ok() ==> record_ok(bytes@, object.offset as int),
        r matches Ok(h) ==> h.offset == object.offset && h.body_start + h.data_size + 2 <= bytes@.len(),
        !record_ok(bytes@, object.offset as int) ==> r.is_err(),
{
    parse_at(bytes, object.offset)
}

} // verus!

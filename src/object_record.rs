use vstd::prelude::*;
use crate::bit_reader::{fits, reader_fits, spec_ms, BitReader};
use crate::error::{DwgError, ErrorKind};

verus! {

/// One size-prefixed object record: where it starts, its payload size in
/// bytes, and where (byte and bit) its payload begins.
#[derive(Debug, Clone, Copy)]
pub struct ObjectRecord<'a> {
    pub offset: u32,
    pub size: u32,
    pub body_start: usize,
    pub body_bit_pos: u8,
    pub body: &'a [u8],
}

/// Whether the record at `offset` in `d` can be read: a modular-short size,
/// not zero, whose payload and two-byte CRC lie inside `d`.
pub open spec fn record_ok(d: Seq<u8>, offset: int) -> bool {
    &&& offset < d.len()
    &&& reader_fits(d.len() as int)
    &&& spec_ms(d, offset * 8) matches Some((size, end)) && size != 0 && end / 8 + size + 2 <= d.len()
}

impl<'a> ObjectRecord<'a> {
    /// The record's invariants: its payload lies inside the file, after its
    /// size field, and is followed by a two-byte CRC.
    pub open spec fn wf_in(&self, d: Seq<u8>) -> bool {
        &&& self.offset + 2 <= self.body_start
        &&& self.body_start + self.size + 2 <= d.len()
        &&& self.body_bit_pos < 8
        &&& self.body@ == d.subrange(self.body_start as int, self.body_start + self.size)
    }

    pub fn body_range(&self) -> (r: (usize, usize))
        requires
            self.body_start + self.size <= usize::MAX,
        ensures
            r == (self.body_start, (self.body_start + self.size) as usize),
    {
        (self.body_start, self.body_start + self.size as usize)
    }

    pub fn record_range(&self) -> (r: (usize, usize))
        requires
            self.body_start + self.size + 2 <= usize::MAX,
        ensures
            r == (self.offset as usize, (self.body_start + self.size + 2) as usize),
    {
        (self.offset as usize, self.body_start + self.size as usize + 2)
    }

    /// A bit cursor on the payload, at the payload's first bit.
    pub fn bit_reader(&self) -> (r: BitReader<'a>)
        requires
            reader_fits(self.body@.len() as int),
            self.body_bit_pos < 8,
        ensures
            r.wf(),
            r.bytes() == self.body@,
            r.pos() == self.body_bit_pos,
    {
        let mut reader = BitReader::new(self.body);
        reader.set_pos(0, self.body_bit_pos);
        reader
    }
}

/// An object record whose payload was copied out of a decoded section.
#[derive(Debug, Clone)]
pub struct OwnedObjectRecord {
    pub offset: u32,
    pub size: u32,
    pub body_start: usize,
    pub body_bit_pos: u8,
    pub body: Vec<u8>,
}

/// Reads the record at byte `offset` of `bytes` and copies its payload.
pub fn parse_object_record_owned(bytes: &[u8], offset: u32) -> (r: Result<OwnedObjectRecord, DwgError>)
    ensures
        r.is_ok() == record_ok(bytes@, offset as int),
        r matches Ok(rec) ==> {
            &&& rec.offset == offset
            &&& rec.offset + rec.size + 2 <= bytes@.len()
            &&& rec.body@ == bytes@.subrange(rec.body_start as int, rec.body_start + rec.size)
            &&& rec.body_bit_pos < 8
        },
{
    let rec = parse_object_record(bytes, offset)?;
    Ok(OwnedObjectRecord {
        offset: rec.offset,
        size: rec.size,
        body_start: rec.body_start,
        body_bit_pos: rec.body_bit_pos,
        body: vstd::slice::slice_to_vec(rec.body),
    })
}

/// Reads the record at byte `offset` of `bytes`.
pub fn parse_object_record<'a>(bytes: &'a [u8], offset: u32) -> (r: Result<ObjectRecord<'a>, DwgError>)
    ensures
        r.is_ok() == record_ok(bytes@, offset as int),
        r matches Ok(rec) ==> {
            &&& rec.offset == offset
            &&& rec.wf_in(bytes@)
            &&& rec.offset + rec.size + 2 <= bytes@.len()
            &&& spec_ms(bytes@, offset * 8) == Some((rec.size, rec.body_start * 8 + rec.body_bit_pos))
        },
{
    let off = offset as usize;
    if off >= bytes.len() {
        return Err(DwgError::new(ErrorKind::Format, "object record offset past the data").with_offset(
            offset as u64,
        ));
    }
    if !fits(bytes) {
        return Err(DwgError::new(ErrorKind::Format, "input too large for a bit cursor"));
    }
    let mut reader = BitReader::new(bytes);
    reader.set_pos(off, 0);
    let size = reader.read_ms()?;
    if size == 0 {
        return Err(DwgError::new(ErrorKind::Format, "object record size is zero").with_offset(
            offset as u64,
        ));
    }
    let (body_start, body_bit_pos) = reader.get_pos();
    proof {
        vstd::arithmetic::div_mod::lemma_fundamental_div_mod_converse(
            reader.pos(),
            8,
            body_start as int,
            body_bit_pos as int,
        );
    }
    if body_start > bytes.len() || size as usize > bytes.len() - body_start || bytes.len()
        - body_start - (size as usize) < 2 {
        return Err(DwgError::new(ErrorKind::Format, "object record past the data").with_offset(
            offset as u64,
        ));
    }
    let end = body_start + size as usize;
    let body = &bytes[body_start..end];
    Ok(ObjectRecord { offset, size, body_start, body_bit_pos, body })
}

} // verus!

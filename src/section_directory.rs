use vstd::prelude::*;
use crate::byte_reader::{le16, le32_at, ByteReader};
use crate::error::{DwgError, ErrorKind, ParseConfig};

verus! {

/// Offset of the R2000 section-locator directory.
pub const DIRECTORY_OFFSET: usize = 0x15;

/// Most records a section-locator directory may declare.
pub const MAX_SECTION_RECORDS: u32 = 64;

/// The sixteen bytes that close the section-locator directory.
pub open spec fn directory_sentinel() -> Seq<u8> {
    seq![0x95u8, 0xA0, 0x4E, 0x28, 0x99, 0x82, 0x1A, 0xE5, 0x5E, 0x41, 0xE0, 0x5F, 0x9D, 0x3A, 0x4D, 0x00]
}

fn sentinel_matches(b: &[u8]) -> (r: bool)
    requires
        b@.len() == 16,
    ensures
        r == (b@ == directory_sentinel()),
{
    let expected: [u8; 16] = [
        0x95, 0xA0, 0x4E, 0x28, 0x99, 0x82, 0x1A, 0xE5, 0x5E, 0x41, 0xE0, 0x5F, 0x9D, 0x3A, 0x4D, 0x00,
    ];
    assert(expected@ == directory_sentinel());
    let mut i: usize = 0;
    while i < 16
        invariant
            0 <= i <= 16,
            b@.len() == 16,
            expected@ == directory_sentinel(),
            forall|j: int| 0 <= j < i ==> b@[j] == expected@[j],
        decreases 16 - i,
    {
        if b[i] != expected[i] {
            return false;
        }
        i = i + 1;
    }
    assert(b@ =~= directory_sentinel());
    true
}

/// What an R2000 directory record number designates.
#[derive(Debug, Clone, Copy, PartialEq, Eq, Structural)]
pub enum SectionKind {
    HeaderVariables,
    Classes,
    ObjectMap,
    Unknown3,
    Measurement,
    Unknown(u8),
}

pub open spec fn kind_of_record_no(n: u8) -> SectionKind {
    if n == 0 {
        SectionKind::HeaderVariables
    } else if n == 1 {
        SectionKind::Classes
    } else if n == 2 {
        SectionKind::ObjectMap
    } else if n == 3 {
        SectionKind::Unknown3
    } else if n == 4 {
        SectionKind::Measurement
    } else {
        SectionKind::Unknown(n)
    }
}

impl SectionKind {
    pub fn from_record_no(record_no: u8) -> (r: SectionKind)
        ensures
            r == kind_of_record_no(record_no),
    {
        match record_no {
            0 => SectionKind::HeaderVariables,
            1 => SectionKind::Classes,
            2 => SectionKind::ObjectMap,
            3 => SectionKind::Unknown3,
            4 => SectionKind::Measurement,
            other => SectionKind::Unknown(other),
        }
    }

    /// The kind's name; an unknown record number is shown as `Unknown`.
    pub fn label(&self) -> (r: String)
        ensures
            r@ == (match *self {
                SectionKind::HeaderVariables => "HeaderVariables"@,
                SectionKind::Classes => "Classes"@,
                SectionKind::ObjectMap => "ObjectMap"@,
                SectionKind::Unknown3 => "Unknown3"@,
                SectionKind::Measurement => "Measurement"@,
                SectionKind::Unknown(_) => "Unknown"@,
            }),
    {
        match self {
            SectionKind::HeaderVariables => "HeaderVariables".to_string(),
            SectionKind::Classes => "Classes".to_string(),
            SectionKind::ObjectMap => "ObjectMap".to_string(),
            SectionKind::Unknown3 => "Unknown3".to_string(),
            SectionKind::Measurement => "Measurement".to_string(),
            SectionKind::Unknown(_) => "Unknown".to_string(),
        }
    }
}

/// One entry of a section directory: record number, byte offset and size.
#[derive(Debug, Clone, Copy, PartialEq, Eq, Structural)]
pub struct SectionLocatorRecord {
    pub record_no: u8,
    pub offset: u32,
    pub size: u32,
}

impl SectionLocatorRecord {
    pub fn kind(&self) -> (r: SectionKind)
        ensures
            r == kind_of_record_no(self.record_no),
    {
        SectionKind::from_record_no(self.record_no)
    }
}

/// The section-locator directory of an R2000 file.
#[derive(Debug, Clone)]
pub struct SectionDirectory {
    pub record_count: u32,
    pub records: Vec<SectionLocatorRecord>,
    pub crc: u16,
    pub sentinel_ok: bool,
    /// Section names, parallel to `records`, where the container names its
    /// sections; empty for R2000.
    pub names: Vec<String>,
}

/// The record count stored at the directory offset.
pub open spec fn declared_count(d: Seq<u8>) -> int {
    le32_at(d, 0x15)
}

/// Byte length of a directory of `n` records, sentinel included.
pub open spec fn directory_len(n: int) -> int {
    0x19 + 9 * n + 2 + 16
}

/// The `i`-th record of the directory in `d`.
pub open spec fn record_at(d: Seq<u8>, i: int) -> SectionLocatorRecord {
    SectionLocatorRecord {
        record_no: d[0x19 + 9 * i],
        offset: le32_at(d, 0x1A + 9 * i) as u32,
        size: le32_at(d, 0x1E + 9 * i) as u32,
    }
}

/// Parses the directory with the default configuration.
pub fn parse(bytes: &[u8]) -> (r: Result<SectionDirectory, DwgError>)
    ensures
        r.is_ok() == (bytes@.len() >= 0x19 && declared_count(bytes@) <= 64 && bytes@.len()
            >= directory_len(declared_count(bytes@))),
        bytes@.len() < 0x19 ==> r.is_err() && r->Err_0.kind == ErrorKind::Format,
        bytes@.len() >= 0x19 && declared_count(bytes@) > 64 ==> r.is_err() && r->Err_0.kind == ErrorKind::Format,
        bytes@.len() >= 0x19 && declared_count(bytes@) <= 64 && bytes@.len() < directory_len(
            declared_count(bytes@),
        ) ==> r.is_err() && r->Err_0.kind == ErrorKind::Io,
{
    parse_with_config(bytes, &ParseConfig::default())
}

/// Parses the section-locator directory. In strict mode a wrong sentinel is
/// a format failure; otherwise it is only recorded.
pub fn parse_with_config(bytes: &[u8], config: &ParseConfig) -> (r: Result<SectionDirectory, DwgError>)
    ensures
        bytes@.len() < 0x19 ==> r.is_err() && r->Err_0.kind == ErrorKind::Format,
        bytes@.len() >= 0x19 && declared_count(bytes@) > 64 ==> r.is_err() && r->Err_0.kind
            == ErrorKind::Format,
        bytes@.len() >= 0x19 && declared_count(bytes@) <= 64 && bytes@.len() < directory_len(
            declared_count(bytes@),
        ) ==> r.is_err() && r->Err_0.kind == ErrorKind::Io,
        bytes@.len() >= 0x19 && declared_count(bytes@) <= 64 && bytes@.len() >= directory_len(
            declared_count(bytes@),
        ) ==> {
            let n = declared_count(bytes@);
            let sentinel_ok = bytes@.subrange(n * 9 + 0x1B, n * 9 + 0x2B) == directory_sentinel();
            &&& r.is_ok() == (!config.strict || sentinel_ok)
            &&& r.is_err() ==> r->Err_0.kind == ErrorKind::Format
            &&& r matches Ok(dir) ==> {
                &&& dir.record_count == n
                &&& dir.records@.len() == n
                &&& forall|i: int| 0 <= i < n ==> dir.records@[i] == record_at(bytes@, i)
                &&& dir.crc == le16(bytes@[n * 9 + 0x19], bytes@[n * 9 + 0x1A])
                &&& dir.sentinel_ok == sentinel_ok
                &&& dir.names@.len() == 0
            }
        },
{
    if bytes.len() < 0x19 {
        return Err(DwgError::new(ErrorKind::Format, "file too small for a section directory"));
    }
    let mut reader = ByteReader::new(bytes);
    reader.seek(DIRECTORY_OFFSET)?;
    let record_count = reader.read_u32_le()?;
    if record_count > MAX_SECTION_RECORDS {
        return Err(DwgError::new(ErrorKind::Format, "section directory record count above 64"));
    }
    let mut records: Vec<SectionLocatorRecord> = Vec::new();
    let mut i: u32 = 0;
    while i < record_count
        invariant
            reader.wf(),
            reader.bytes() == bytes@,
            record_count == declared_count(bytes@),
            record_count <= 64,
            0 <= i <= record_count,
            reader.position() == 0x19 + 9 * i,
            records@.len() == i,
            forall|j: int| 0 <= j < i ==> records@[j] == record_at(bytes@, j),
        decreases record_count - i,
    {
        let record_no = reader.read_u8()?;
        let offset = reader.read_u32_le()?;
        let size = reader.read_u32_le()?;
        records.push(SectionLocatorRecord { record_no, offset, size });
        i = i + 1;
    }
    let crc = reader.read_u16_le()?;
    let sentinel = reader.read_bytes(16)?;
    let sentinel_ok = sentinel_matches(sentinel);
    if config.strict && !sentinel_ok {
        return Err(DwgError::new(ErrorKind::Format, "section directory sentinel mismatch").with_offset(
            reader.tell(),
        ));
    }
    Ok(SectionDirectory { record_count, records, crc, sentinel_ok, names: Vec::new() })
}

} // verus!

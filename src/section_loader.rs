use vstd::prelude::*;
use crate::error::{DwgError, ErrorKind, ParseConfig};
use crate::section_directory::{SectionDirectory, SectionLocatorRecord};

verus! {

/// A section's directory record and the bytes it designates.
#[derive(Debug, Clone, Copy)]
pub struct SectionSlice<'a> {
    pub record: SectionLocatorRecord,
    pub data: &'a [u8],
}

/// A section decoded out of its pages: its directory record and its bytes.
#[derive(Debug, Clone)]
pub struct SectionData {
    pub record: SectionLocatorRecord,
    pub data: Vec<u8>,
}

/// Whether `record` designates bytes inside a file of `len` bytes, within the
/// size ceiling.
pub open spec fn section_fits(len: int, record: SectionLocatorRecord, max: u64) -> bool {
    &&& record.size <= max
    &&& record.offset + record.size <= len
}

/// The bytes of one section: a bounds-checked slice of the file.
pub fn load_section<'a>(bytes: &'a [u8], record: SectionLocatorRecord, config: &ParseConfig) -> (r:
    Result<SectionSlice<'a>, DwgError>)
    ensures
        r.is_ok() == section_fits(bytes@.len() as int, record, config.max_section_bytes),
        r.is_err() ==> r->Err_0.kind == ErrorKind::Format,
        r matches Ok(s) ==> s.record == record && s.data@ == bytes@.subrange(
            record.offset as int,
            record.offset + record.size,
        ),
{
    if record.size as u64 > config.max_section_bytes {
        return Err(DwgError::new(ErrorKind::Format, "section size above the limit"));
    }
    let offset = record.offset as usize;
    let size = record.size as usize;
    if offset > bytes.len() || size > bytes.len() - offset {
        return Err(DwgError::new(ErrorKind::Format, "section past the end of the file"));
    }
    let data = &bytes[offset..offset + size];
    Ok(SectionSlice { record, data })
}

/// The bytes of the `index`-th section of the directory.
pub fn load_section_by_index<'a>(
    bytes: &'a [u8],
    directory: &SectionDirectory,
    index: usize,
    config: &ParseConfig,
) -> (r: Result<SectionSlice<'a>, DwgError>)
    ensures
        index >= directory.records@.len() ==> r.is_err() && r->Err_0.kind == ErrorKind::Format,
        index < directory.records@.len() ==> {
            let rec = directory.records@[index as int];
            &&& r.is_ok() == section_fits(bytes@.len() as int, rec, config.max_section_bytes)
            &&& r matches Ok(s) ==> s.record == rec && s.data@ == bytes@.subrange(
                rec.offset as int,
                rec.offset + rec.size,
            )
        },
{
    if index >= directory.records.len() {
        return Err(DwgError::new(ErrorKind::Format, "section index out of range"));
    }
    load_section(bytes, directory.records[index], config)
}

/// The bytes of every section of the directory, in directory order.
pub fn load_all_sections<'a>(bytes: &'a [u8], directory: &SectionDirectory, config: &ParseConfig) -> (r:
    Result<Vec<SectionSlice<'a>>, DwgError>)
    ensures
        r.is_ok() == (forall|i: int|
            0 <= i < directory.records@.len() ==> section_fits(
                bytes@.len() as int,
                #[trigger] directory.records@[i],
                config.max_section_bytes,
            )),
        r matches Ok(v) ==> v@.len() == directory.records@.len() && forall|i: int|
            0 <= i < v@.len() ==> (#[trigger] v@[i]).record == directory.records@[i] && v@[i].data@
                == bytes@.subrange(
                directory.records@[i].offset as int,
                directory.records@[i].offset + directory.records@[i].size,
            ),
{
    let mut sections: Vec<SectionSlice<'a>> = Vec::new();
    let mut i: usize = 0;
    while i < directory.records.len()
        invariant
            0 <= i <= directory.records@.len(),
            sections@.len() == i,
            forall|j: int|
                0 <= j < i ==> section_fits(
                    bytes@.len() as int,
                    #[trigger] directory.records@[j],
                    config.max_section_bytes,
                ),
            forall|j: int|
                0 <= j < i ==> (#[trigger] sections@[j]).record == directory.records@[j]
                    && sections@[j].data@ == bytes@.subrange(
                    directory.records@[j].offset as int,
                    directory.records@[j].offset + directory.records@[j].size,
                ),
        decreases directory.records@.len() - i,
    {
        let s = load_section(bytes, directory.records[i], config)?;
        sections.push(s);
        i = i + 1;
    }
    Ok(sections)
}

} // verus!

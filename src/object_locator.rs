use vstd::prelude::*;
use crate::error::{DwgError, ErrorKind, ParseConfig};
use crate::object_map::{object_map_of, parse_object_map};
use crate::r2004::{filter_reachable, idx_map, reachable};
use crate::objects::{ObjectIndex, ObjectRef};
use crate::section_directory::{parse_with_config, SectionDirectory, SectionKind, SectionLocatorRecord};
use crate::section_loader::{load_section, section_fits};

verus! {

/// Position of the first object-map record of a directory, or -1.
pub open spec fn first_object_map(records: Seq<SectionLocatorRecord>) -> int
    decreases records.len(),
{
    if records.len() == 0 {
        -1
    } else if first_object_map(records.drop_last()) >= 0 {
        first_object_map(records.drop_last())
    } else if records.last().record_no == 2 {
        records.len() - 1
    } else {
        -1
    }
}

/// The first record of the directory that designates the object map.
fn find_object_map_record(directory: &SectionDirectory) -> (r: Option<SectionLocatorRecord>)
    ensures
        first_object_map(directory.records@) < 0 ==> r.is_none(),
        first_object_map(directory.records@) >= 0 ==> r == Some(
            directory.records@[first_object_map(directory.records@)],
        ),
{
    let mut i: usize = 0;
    while i < directory.records.len()
        invariant
            0 <= i <= directory.records@.len(),
            first_object_map(directory.records@.subrange(0, i as int)) < 0,
        decreases directory.records@.len() - i,
    {
        assert(directory.records@.subrange(0, i + 1).drop_last() =~= directory.records@.subrange(0, i as int));
        if directory.records[i].kind() == SectionKind::ObjectMap {
            proof {
                lemma_first_object_map_prefix(directory.records@, i + 1);
            }
            return Some(directory.records[i]);
        }
        i = i + 1;
    }
    assert(directory.records@.subrange(0, i as int) =~= directory.records@);
    None
}

proof fn lemma_first_object_map_prefix(records: Seq<SectionLocatorRecord>, n: int)
    requires
        0 < n <= records.len(),
        first_object_map(records.subrange(0, n)) >= 0,
    ensures
        first_object_map(records) == first_object_map(records.subrange(0, n)),
    decreases records.len() - n,
{
    if n < records.len() {
        assert(records.subrange(0, n + 1).drop_last() =~= records.subrange(0, n));
        lemma_first_object_map_prefix(records, n + 1);
    } else {
        assert(records.subrange(0, n) =~= records);
    }
}

/// The object index of an R2000 file whose directory is already parsed: the
/// object map section, decoded, with each entry kept only where a record can
/// be read at its offset in the file.
pub fn build_object_index_from_directory(bytes: &[u8], directory: &SectionDirectory, config: &ParseConfig) -> (r:
    Result<ObjectIndex, DwgError>)
    ensures
        first_object_map(directory.records@) < 0 ==> r.is_err() && r->Err_0.kind == ErrorKind::Format,
        first_object_map(directory.records@) >= 0 ==> {
            let rec = directory.records@[first_object_map(directory.records@)];
            let data = bytes@.subrange(rec.offset as int, rec.offset + rec.size);
            &&& !section_fits(bytes@.len() as int, rec, config.max_section_bytes) ==> r.is_err()
            &&& section_fits(bytes@.len() as int, rec, config.max_section_bytes) ==> match r {
                Ok(idx) => object_map_of(data, config.max_objects as int) matches Ok(all) && idx.objects@ == reachable(
                    all,
                    bytes@,
                ),
                Err(e) => object_map_of(data, config.max_objects as int) == Err::<
                    Seq<ObjectRef>,
                    ErrorKind,
                >(e.kind),
            }
        },
{
    let record = match find_object_map_record(directory) {
        Some(rec) => rec,
        None => {
            return Err(DwgError::new(ErrorKind::Format, "object map section not in the directory"));
        },
    };
    let section = load_section(bytes, record, config)?;
    let map = parse_object_map(section.data, config.max_objects)?;
    let kept = filter_reachable(&map.objects, bytes);
    Ok(ObjectIndex::from_objects(kept))
}

/// The object index of an R2000 file.
pub fn build_object_index(bytes: &[u8], config: &ParseConfig) -> (r: Result<ObjectIndex, DwgError>)
    ensures
        r.is_ok() ==> bytes@.len() >= 0x19,
        r matches Ok(idx) ==> exists|map_data: Seq<u8>|
            object_map_of(map_data, config.max_objects as int) is Ok && idx.objects@ == #[trigger] reachable(
                idx_map(map_data, config.max_objects as int),
                bytes@,
            ),
{
    let directory = parse_with_config(bytes, config)?;
    let r = build_object_index_from_directory(bytes, &directory, config);
    proof {
        if let Ok(idx) = &r {
            let rec = directory.records@[first_object_map(directory.records@)];
            let data = bytes@.subrange(rec.offset as int, rec.offset + rec.size);
            assert(idx.objects@ == reachable(idx_map(data, config.max_objects as int), bytes@));
        }
    }
    r
}

} // verus!

use vstd::prelude::*;
use crate::error::{DwgError, ErrorKind, ParseConfig};
use crate::object_locator;
use crate::object_record::{parse_object_record_owned, OwnedObjectRecord};
use crate::objects::ObjectIndex;
use crate::r2004;
use crate::r2007;
use crate::section_directory::{parse_with_config, SectionDirectory};
use crate::section_loader::{load_section_by_index as load_r2000_section, SectionData};
use crate::version::{detect_version, version_of_tag, DwgVersion};

verus! {

/// A decoder over the bytes of one drawing, bound to its dialect.
#[derive(Debug, Clone)]
pub struct Decoder<'a> {
    bytes: &'a [u8],
    version: DwgVersion,
    config: ParseConfig,
}

impl<'a> Decoder<'a> {
    pub closed spec fn data(&self) -> Seq<u8> {
        self.bytes@
    }

    pub closed spec fn dialect(&self) -> DwgVersion {
        self.version
    }

    pub closed spec fn settings(&self) -> ParseConfig {
        self.config
    }

    /// Binds a decoder to `bytes`; fewer than six bytes is a format failure.
    pub fn new(bytes: &'a [u8], config: ParseConfig) -> (r: Result<Decoder<'a>, DwgError>)
        ensures
            r.is_ok() == (bytes@.len() >= 6),
            r matches Ok(d) ==> d.data() == bytes@ && d.settings() == config && (d.dialect() is Unknown
                == version_of_tag(bytes@.subrange(0, 6)) is Unknown) && (!(d.dialect() is Unknown)
                ==> d.dialect() == version_of_tag(bytes@.subrange(0, 6))),
    {
        let version = detect_version(bytes)?;
        Ok(Decoder { bytes, version, config })
    }

    pub fn version(&self) -> (r: &DwgVersion)
        ensures
            *r == self.dialect(),
    {
        &self.version
    }

    fn unsupported(&self) -> (e: DwgError)
        ensures
            e.kind == ErrorKind::Unsupported,
    {
        DwgError::new(ErrorKind::Unsupported, "unsupported DWG version")
    }

    /// Fails with an unsupported-version error for an unknown dialect.
    pub fn ensure_supported(&self) -> (r: Result<(), DwgError>)
        ensures
            r.is_ok() == !(self.dialect() is Unknown),
            r.is_err() ==> r->Err_0.kind == ErrorKind::Unsupported,
    {
        if self.version.is_supported() {
            Ok(())
        } else {
            Err(self.unsupported())
        }
    }

    /// The section directory, read the way the dialect lays it out.
    pub fn section_directory(&self) -> (r: Result<SectionDirectory, DwgError>)
        ensures
            self.dialect() is Unknown ==> r.is_err() && r->Err_0.kind == ErrorKind::Unsupported,
            r matches Ok(d) ==> d.records@.len() == d.record_count,
    {
        match self.version {
            DwgVersion::R2000 => parse_with_config(self.bytes, &self.config),
            DwgVersion::R2007 => r2007::parse_section_directory(self.bytes, &self.config),
            DwgVersion::Unknown(_) => Err(self.unsupported()),
            _ => r2004::parse_section_directory(self.bytes, &self.config),
        }
    }

    /// The bytes of the `index`-th section of `directory`.
    pub fn load_section_by_index(&self, directory: &SectionDirectory, index: usize) -> (r: Result<
        SectionData,
        DwgError,
    >)
        ensures
            self.dialect() is Unknown ==> r.is_err() && r->Err_0.kind == ErrorKind::Unsupported,
            r matches Ok(s) ==> s.data@.len() <= self.settings().max_section_bytes,
    {
        match self.version {
            DwgVersion::R2000 => {
                let s = load_r2000_section(self.bytes, directory, index, &self.config)?;
                Ok(SectionData { record: s.record, data: vstd::slice::slice_to_vec(s.data) })
            },
            DwgVersion::R2007 => r2007::load_section_by_index(self.bytes, directory, index, &self.config),
            DwgVersion::Unknown(_) => Err(self.unsupported()),
            _ => r2004::load_section_by_index(self.bytes, directory, index, &self.config),
        }
    }

    /// The object index of the drawing.
    pub fn build_object_index(&self) -> (r: Result<ObjectIndex, DwgError>)
        ensures
            self.dialect() is Unknown ==> r.is_err() && r->Err_0.kind == ErrorKind::Unsupported,
    {
        match self.version {
            DwgVersion::R2000 => object_locator::build_object_index(self.bytes, &self.config),
            DwgVersion::R2007 => r2007::build_object_index(self.bytes, &self.config),
            DwgVersion::Unknown(_) => Err(self.unsupported()),
            _ => r2004::build_object_index(self.bytes, &self.config),
        }
    }

    /// The object record at `offset`: in the file for R2000, in the decoded
    /// objects section otherwise.
    pub fn parse_object_record(&self, offset: u32) -> (r: Result<OwnedObjectRecord, DwgError>)
        ensures
            self.dialect() is Unknown ==> r.is_err() && r->Err_0.kind == ErrorKind::Unsupported,
            r matches Ok(rec) ==> rec.offset == offset && rec.body_bit_pos < 8,
    {
        match self.version {
            DwgVersion::R2000 => parse_object_record_owned(self.bytes, offset),
            DwgVersion::R2007 => r2007::parse_object_record(self.bytes, offset, &self.config),
            DwgVersion::Unknown(_) => Err(self.unsupported()),
            _ => r2004::parse_object_record(self.bytes, offset, &self.config),
        }
    }

    /// Dynamic type codes (500 and up) and their class names; none for
    /// R2000.
    pub fn dynamic_type_map(&self) -> (r: Result<Vec<(u16, String)>, DwgError>)
        ensures
            self.dialect() is Unknown ==> r.is_err() && r->Err_0.kind == ErrorKind::Unsupported,
            self.dialect() is R2000 ==> (r matches Ok(v) && v@.len() == 0),
            r matches Ok(v) ==> forall|i: int| 0 <= i < v@.len() ==> (#[trigger] v@[i]).0 >= 500,
    {
        match self.version {
            DwgVersion::R2000 => Ok(Vec::new()),
            DwgVersion::R2007 => r2007::load_dynamic_type_map(self.bytes, &self.config),
            DwgVersion::Unknown(_) => Err(self.unsupported()),
            _ => r2004::load_dynamic_type_map(self.bytes, &self.config),
        }
    }
}

} // verus!

use vstd::prelude::*;
use crate::bit_reader::{lossy_text, text_of_bytes};
use crate::error::{DwgError, ErrorKind};

verus! {

/// The dialect of a drawing, from the six-byte tag at the start of the file.
#[derive(Debug, Clone, PartialEq, Eq)]
pub enum DwgVersion {
    R2000,
    R2004,
    R2007,
    R2010,
    R2013,
    Unknown(String),
}

/// The tag of each supported dialect.
pub open spec fn tag_of(v: DwgVersion) -> Seq<char> {
    match v {
        DwgVersion::R2000 => "AC1015"@,
        DwgVersion::R2004 => "AC1018"@,
        DwgVersion::R2007 => "AC1021"@,
        DwgVersion::R2010 => "AC1024"@,
        DwgVersion::R2013 => "AC1027"@,
        DwgVersion::Unknown(s) => s@,
    }
}

/// The ASCII bytes of a tag.
pub open spec fn ascii_of(t: Seq<char>) -> Seq<u8> {
    t.map_values(|c: char| c as u8)
}

/// The dialect that six tag bytes name: `AC10` followed by `15`, `18`, `21`,
/// `24` or `27`.
pub open spec fn version_of_tag(t: Seq<u8>) -> DwgVersion {
    if t.len() == 6 && t[0] == 0x41 && t[1] == 0x43 && t[2] == 0x31 && t[3] == 0x30 {
        if t[4] == 0x31 && t[5] == 0x35 {
            DwgVersion::R2000
        } else if t[4] == 0x31 && t[5] == 0x38 {
            DwgVersion::R2004
        } else if t[4] == 0x32 && t[5] == 0x31 {
            DwgVersion::R2007
        } else if t[4] == 0x32 && t[5] == 0x34 {
            DwgVersion::R2010
        } else if t[4] == 0x32 && t[5] == 0x37 {
            DwgVersion::R2013
        } else {
            DwgVersion::Unknown(arbitrary())
        }
    } else {
        DwgVersion::Unknown(arbitrary())
    }
}

impl DwgVersion {
    pub fn as_str(&self) -> (r: &str)
        ensures
            r@ == tag_of(*self),
    {
        match self {
            DwgVersion::R2000 => "AC1015",
            DwgVersion::R2004 => "AC1018",
            DwgVersion::R2007 => "AC1021",
            DwgVersion::R2010 => "AC1024",
            DwgVersion::R2013 => "AC1027",
            DwgVersion::Unknown(value) => value.as_str(),
        }
    }

    pub fn is_supported(&self) -> (r: bool)
        ensures
            r == !(*self is Unknown),
    {
        !matches!(self, DwgVersion::Unknown(_))
    }
}

/// The dialect named by the first six bytes; a shorter input is a format
/// failure.
pub fn detect_version(bytes: &[u8]) -> (r: Result<DwgVersion, DwgError>)
    ensures
        r.is_err() == (bytes@.len() < 6),
        r.is_err() ==> r->Err_0.kind == ErrorKind::Format,
        r matches Ok(v) ==> (v is Unknown) == (version_of_tag(bytes@.subrange(0, 6)) is Unknown),
        r matches Ok(v) ==> !(v is Unknown) ==> v == version_of_tag(bytes@.subrange(0, 6)),
        r matches Ok(DwgVersion::Unknown(s)) ==> s@ == lossy_text(bytes@.subrange(0, 6)),
        r matches Ok(v) ==> (v is Unknown && forall|j: int| 0 <= j < 6 ==> #[trigger] bytes@[j] < 0x80)
            ==> ascii_of(tag_of(v)) == bytes@.subrange(0, 6),
{
    if bytes.len() < 6 {
        return Err(DwgError::new(ErrorKind::Format, "file too small to contain a version tag"));
    }
    if bytes[0] == 0x41 && bytes[1] == 0x43 && bytes[2] == 0x31 && bytes[3] == 0x30 {
        let (a, b) = (bytes[4], bytes[5]);
        if a == 0x31 && b == 0x35 {
            return Ok(DwgVersion::R2000);
        } else if a == 0x31 && b == 0x38 {
            return Ok(DwgVersion::R2004);
        } else if a == 0x32 && b == 0x31 {
            return Ok(DwgVersion::R2007);
        } else if a == 0x32 && b == 0x34 {
            return Ok(DwgVersion::R2010);
        } else if a == 0x32 && b == 0x37 {
            return Ok(DwgVersion::R2013);
        }
    }
    let tag = &bytes[0..6];
    Ok(DwgVersion::Unknown(text_of_bytes(tag)))
}

} // verus!

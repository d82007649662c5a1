use vstd::prelude::*;

verus! {

/// Category of a decoding failure.
#[derive(Debug, Clone, Copy, PartialEq, Eq, Structural)]
pub enum ErrorKind {
    Io,
    Format,
    Decode,
    Resolve,
    Unsupported,
    NotImplemented,
}

impl ErrorKind {
    /// Lower-case label of the category.
    pub fn label(&self) -> (r: &'static str)
        ensures
            r@ == kind_label(*self),
    {
        match self {
            ErrorKind::Io => "io",
            ErrorKind::Format => "format",
            ErrorKind::Decode => "decode",
            ErrorKind::Resolve => "resolve",
            ErrorKind::Unsupported => "unsupported",
            ErrorKind::NotImplemented => "not_implemented",
        }
    }
}

pub open spec fn kind_label(k: ErrorKind) -> Seq<char> {
    match k {
        ErrorKind::Io => "io"@,
        ErrorKind::Format => "format"@,
        ErrorKind::Decode => "decode"@,
        ErrorKind::Resolve => "resolve"@,
        ErrorKind::Unsupported => "unsupported"@,
        ErrorKind::NotImplemented => "not_implemented"@,
    }
}

/// A failure: its category, a message, and the byte offset where a codec
/// noticed it, when there is one.
#[derive(Debug, Clone)]
pub struct DwgError {
    pub kind: ErrorKind,
    pub message: String,
    pub offset: Option<u64>,
}

impl DwgError {
    pub fn new(kind: ErrorKind, message: &str) -> (r: DwgError)
        ensures
            r.kind == kind,
            r.message@ == message@,
            r.offset.is_none(),
    {
        DwgError { kind, message: message.to_string(), offset: None }
    }

    pub fn with_offset(self, offset: u64) -> (r: DwgError)
        ensures
            r.kind == self.kind,
            r.message == self.message,
            r.offset == Some(offset),
    {
        DwgError { kind: self.kind, message: self.message, offset: Some(offset) }
    }

    pub fn not_implemented(message: &str) -> (r: DwgError)
        ensures
            r.kind == ErrorKind::NotImplemented,
            r.message@ == message@,
            r.offset.is_none(),
    {
        DwgError::new(ErrorKind::NotImplemented, message)
    }
}

/// Limits applied while decoding one file.
#[derive(Debug, Clone, Copy)]
pub struct ParseConfig {
    pub strict: bool,
    pub max_recursion: u32,
    pub max_objects: u32,
    pub max_section_bytes: u64,
}

pub const DEFAULT_MAX_OBJECTS: u32 = 1000000;

pub const DEFAULT_MAX_SECTION_BYTES: u64 = 268435456;

impl Default for ParseConfig {
    fn default() -> (r: ParseConfig)
        ensures
            !r.strict,
            r.max_recursion == 64,
            r.max_objects == DEFAULT_MAX_OBJECTS,
            r.max_section_bytes == DEFAULT_MAX_SECTION_BYTES,
    {
        ParseConfig {
            strict: false,
            max_recursion: 64,
            max_objects: DEFAULT_MAX_OBJECTS,
            max_section_bytes: DEFAULT_MAX_SECTION_BYTES,
        }
    }
}

} // verus!

use vstd::prelude::*;
use crate::bit_reader::{max_byte_pos, BitReader};
use crate::byte_reader::ByteReader;
use crate::section_directory::SectionLocatorRecord;
use crate::section_loader::SectionSlice;

verus! {

/// A read-only view of one loaded section.
#[derive(Debug, Clone, Copy)]
pub struct StreamView<'a> {
    section: SectionSlice<'a>,
}

impl<'a> StreamView<'a> {
    pub closed spec fn slice(&self) -> SectionSlice<'a> {
        self.section
    }

    pub fn new(section: SectionSlice<'a>) -> (r: StreamView<'a>)
        ensures
            r.slice() == section,
    {
        StreamView { section }
    }

    pub fn record(&self) -> (r: SectionLocatorRecord)
        ensures
            r == self.slice().record,
    {
        self.section.record
    }

    pub fn offset(&self) -> (r: u32)
        ensures
            r == self.slice().record.offset,
    {
        self.section.record.offset
    }

    pub fn size(&self) -> (r: u32)
        ensures
            r == self.slice().record.size,
    {
        self.section.record.size
    }

    pub fn as_bytes(&self) -> (r: &'a [u8])
        ensures
            r@ == self.slice().data@,
    {
        self.section.data
    }

    pub fn byte_reader(&self) -> (r: ByteReader<'a>)
        ensures
            r.wf(),
            r.bytes() == self.slice().data@,
            r.position() == 0,
    {
        ByteReader::new(self.section.data)
    }

    pub fn bit_reader(&self) -> (r: BitReader<'a>)
        requires
            self.slice().data@.len() <= max_byte_pos(),
            self.slice().data@.len() < usize::MAX,
        ensures
            r.wf(),
            r.bytes() == self.slice().data@,
            r.pos() == 0,
    {
        BitReader::new(self.section.data)
    }
}

} // verus!

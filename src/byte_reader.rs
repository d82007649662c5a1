use vstd::prelude::*;
use crate::error::{DwgError, ErrorKind};

verus! {

/// Little-endian value of two bytes.
pub open spec fn le16(b0: u8, b1: u8) -> int {
    b0 as int + b1 as int * 0x100
}

/// Little-endian value of four bytes.
pub open spec fn le32(b0: u8, b1: u8, b2: u8, b3: u8) -> int {
    le16(b0, b1) + le16(b2, b3) * 0x10000
}

/// Little-endian value of the four bytes of `s` starting at `i`.
pub open spec fn le32_at(s: Seq<u8>, i: int) -> int {
    le32(s[i], s[i + 1], s[i + 2], s[i + 3])
}

/// Little-endian value of the eight bytes of `s` starting at `i`.
pub open spec fn le64_at(s: Seq<u8>, i: int) -> int {
    le32_at(s, i) + le32_at(s, i + 4) * 0x1_0000_0000
}

/// A byte cursor over a borrowed slice.
#[derive(Debug, Clone)]
pub struct ByteReader<'a> {
    data: &'a [u8],
    pos: usize,
}

impl<'a> ByteReader<'a> {
    pub closed spec fn bytes(&self) -> Seq<u8> {
        self.data@
    }

    pub closed spec fn position(&self) -> int {
        self.pos as int
    }

    /// The cursor never stands past the end of its data.
    pub open spec fn wf(&self) -> bool {
        0 <= self.position() <= self.bytes().len()
    }

    pub fn new(data: &'a [u8]) -> (r: ByteReader<'a>)
        ensures
            r.wf(),
            r.bytes() == data@,
            r.position() == 0,
    {
        ByteReader { data, pos: 0 }
    }

    pub fn len(&self) -> (r: usize)
        ensures
            r == self.bytes().len(),
    {
        self.data.len()
    }

    pub fn is_empty(&self) -> (r: bool)
        ensures
            r == (self.bytes().len() == 0),
    {
        self.data.len() == 0
    }

    pub fn remaining(&self) -> (r: usize)
        ensures
            r == (if self.position() <= self.bytes().len() {
                self.bytes().len() - self.position()
            } else {
                0
            }),
    {
        if self.pos <= self.data.len() {
            self.data.len() - self.pos
        } else {
            0
        }
    }

    pub fn tell(&self) -> (r: u64)
        ensures
            r == self.position(),
    {
        self.pos as u64
    }

    pub fn seek(&mut self, pos: usize) -> (r: Result<(), DwgError>)
        ensures
            final(self).bytes() == old(self).bytes(),
            r.is_ok() == (pos <= old(self).bytes().len()),
            r.is_ok() ==> final(self).position() == pos,
            r.is_err() ==> *final(self) == *old(self) && r->Err_0.kind == ErrorKind::Io,
    {
        if pos > self.data.len() {
            return Err(DwgError::new(ErrorKind::Io, "seek out of range"));
        }
        self.pos = pos;
        Ok(())
    }

    /// Moves forward by `n` bytes; a target past the end is refused.
    pub fn skip(&mut self, n: usize) -> (r: Result<(), DwgError>)
        ensures
            final(self).bytes() == old(self).bytes(),
            r.is_ok() == (old(self).position() + n <= old(self).bytes().len()),
            r.is_ok() ==> final(self).position() == old(self).position() + n,
            r.is_err() ==> *final(self) == *old(self) && r->Err_0.kind == ErrorKind::Io,
    {
        let len = self.data.len();
        if n > len || self.pos > len - n {
            return Err(DwgError::new(ErrorKind::Io, "seek out of range"));
        }
        self.seek(self.pos + n)
    }

    fn require(&self, n: usize) -> (r: Result<(), DwgError>)
        ensures
            r.is_ok() == (self.position() + n <= self.bytes().len()),
            r.is_err() ==> r->Err_0.kind == ErrorKind::Io,
    {
        if self.pos <= self.data.len() && n <= self.data.len() - self.pos {
            Ok(())
        } else {
            Err(DwgError::new(ErrorKind::Io, "unexpected end of data").with_offset(self.pos as u64))
        }
    }

    pub fn read_u8(&mut self) -> (r: Result<u8, DwgError>)
        ensures
            final(self).bytes() == old(self).bytes(),
            r.is_ok() == (old(self).position() < old(self).bytes().len()),
            r.is_ok() ==> r->Ok_0 == old(self).bytes()[old(self).position()]
                && final(self).position() == old(self).position() + 1,
            r.is_err() ==> *final(self) == *old(self) && r->Err_0.kind == ErrorKind::Io,
    {
        self.require(1)?;
        let value = self.data[self.pos];
        self.pos = self.pos + 1;
        Ok(value)
    }

    pub fn read_i8(&mut self) -> (r: Result<i8, DwgError>)
        ensures
            final(self).bytes() == old(self).bytes(),
            r.is_ok() == (old(self).position() < old(self).bytes().len()),
            r.is_ok() ==> r->Ok_0 == old(self).bytes()[old(self).position()] as i8
                && final(self).position() == old(self).position() + 1,
            r.is_err() ==> *final(self) == *old(self) && r->Err_0.kind == ErrorKind::Io,
    {
        let b = self.read_u8()?;
        Ok(b as i8)
    }

    /// Takes the next `n` bytes.
    pub fn read_bytes(&mut self, n: usize) -> (r: Result<&'a [u8], DwgError>)
        ensures
            final(self).bytes() == old(self).bytes(),
            r.is_ok() == (old(self).position() + n <= old(self).bytes().len()),
            r.is_ok() ==> r->Ok_0@ == old(self).bytes().subrange(
                old(self).position(),
                old(self).position() + n,
            ) && final(self).position() == old(self).position() + n,
            r.is_err() ==> *final(self) == *old(self) && r->Err_0.kind == ErrorKind::Io && r->Err_0.offset == Some(
                old(self).position() as u64,
            ),
    {
        if self.pos > self.data.len() || n > self.data.len() - self.pos {
            return Err(DwgError::new(ErrorKind::Io, "unexpected end of data").with_offset(self.pos as u64));
        }
        let start = self.pos;
        let end = self.pos + n;
        self.pos = end;
        Ok(&self.data[start..end])
    }

    /// The next `n` bytes, without moving.
    pub fn peek_bytes(&self, n: usize) -> (r: Result<&'a [u8], DwgError>)
        ensures
            r.is_ok() == (self.position() + n <= self.bytes().len()),
            r.is_ok() ==> r->Ok_0@ == self.bytes().subrange(self.position(), self.position() + n),
            r.is_err() ==> r->Err_0.kind == ErrorKind::Io,
    {
        if self.pos > self.data.len() || n > self.data.len() - self.pos {
            return Err(DwgError::new(ErrorKind::Io, "unexpected end of data").with_offset(self.pos as u64));
        }
        let start = self.pos;
        let end = self.pos + n;
        Ok(&self.data[start..end])
    }

    pub fn read_u16_le(&mut self) -> (r: Result<u16, DwgError>)
        ensures
            final(self).bytes() == old(self).bytes(),
            r.is_ok() == (old(self).position() + 2 <= old(self).bytes().len()),
            r.is_ok() ==> r->Ok_0 == le16(
                old(self).bytes()[old(self).position()],
                old(self).bytes()[old(self).position() + 1],
            ) && final(self).position() == old(self).position() + 2,
            r.is_err() ==> *final(self) == *old(self) && r->Err_0.kind == ErrorKind::Io,
    {
        let b = self.read_bytes(2)?;
        Ok(b[0] as u16 + b[1] as u16 * 0x100)
    }

    pub fn read_u32_le(&mut self) -> (r: Result<u32, DwgError>)
        ensures
            final(self).bytes() == old(self).bytes(),
            r.is_ok() == (old(self).position() + 4 <= old(self).bytes().len()),
            r.is_ok() ==> r->Ok_0 == le32_at(old(self).bytes(), old(self).position())
                && final(self).position() == old(self).position() + 4,
            r.is_err() ==> *final(self) == *old(self) && r->Err_0.kind == ErrorKind::Io,
    {
        let b = self.read_bytes(4)?;
        Ok(b[0] as u32 + b[1] as u32 * 0x100 + b[2] as u32 * 0x10000 + b[3] as u32 * 0x1000000)
    }

    /// A little-endian 32-bit two's-complement value.
    pub fn read_i32_le(&mut self) -> (r: Result<i32, DwgError>)
        ensures
            final(self).bytes() == old(self).bytes(),
            r.is_ok() == (old(self).position() + 4 <= old(self).bytes().len()),
            r.is_ok() ==> r->Ok_0 == (le32_at(old(self).bytes(), old(self).position()) as u32) as i32
                && final(self).position() == old(self).position() + 4,
            r.is_err() ==> *final(self) == *old(self) && r->Err_0.kind == ErrorKind::Io,
    {
        let v = self.read_u32_le()?;
        Ok(v as i32)
    }

    pub fn read_u64_le(&mut self) -> (r: Result<u64, DwgError>)
        ensures
            final(self).bytes() == old(self).bytes(),
            r.is_ok() == (old(self).position() + 8 <= old(self).bytes().len()),
            r.is_ok() ==> r->Ok_0 == le64_at(old(self).bytes(), old(self).position())
                && final(self).position() == old(self).position() + 8,
            r.is_err() ==> *final(self) == *old(self) && r->Err_0.kind == ErrorKind::Io,
    {
        let b = self.read_bytes(8)?;
        let lo = b[0] as u64 + b[1] as u64 * 0x100 + b[2] as u64 * 0x10000 + b[3] as u64 * 0x1000000;
        let hi = b[4] as u64 + b[5] as u64 * 0x100 + b[6] as u64 * 0x10000 + b[7] as u64 * 0x1000000;
        Ok(lo + hi * 0x1_0000_0000)
    }
}

} // verus!

use vstd::prelude::*;
use crate::bit_reader::{fits, text_of_bytes, BitReader, Endian};
use crate::byte_reader::{le32_at, le64_at, ByteReader};
use crate::error::{DwgError, ErrorKind, ParseConfig};
use crate::object_map::{object_map_of, parse_object_map};
use crate::object_record::{parse_object_record_owned, record_ok, OwnedObjectRecord};
use crate::objects::{ObjectIndex, ObjectRef};
use crate::section_directory::{SectionDirectory, SectionLocatorRecord};
use crate::section_loader::SectionData;

verus! {

/// Length of the obfuscated R2004 file header.
pub const HEADER_SIZE: usize = 0x6c;

/// The generator state after `k` steps of `seed <- seed * 0x343fd + 0x269ec3`
/// (modulo 2^32), from seed 1.
pub open spec fn lcg_seed(k: nat) -> int
    decreases k,
{
    if k == 0 {
        1
    } else {
        (lcg_seed((k - 1) as nat) * 0x343fd + 0x269ec3) % 0x1_0000_0000
    }
}

/// Byte `i` of the header mask: the high byte of the low half of the seed
/// after step `i + 1`.
pub open spec fn mask_byte(i: int) -> u8 {
    ((lcg_seed((i + 1) as nat) / 0x10000) % 0x100) as u8
}

/// The 0x6c-byte mask XORed over the R2004 file header.
pub fn magic_sequence() -> (r: Vec<u8>)
    ensures
        r@.len() == HEADER_SIZE,
        forall|i: int| 0 <= i < HEADER_SIZE ==> #[trigger] r@[i] == mask_byte(i),
{
    let mut seq: Vec<u8> = Vec::new();
    let mut seed: u64 = 1;
    let mut i: usize = 0;
    while i < HEADER_SIZE
        invariant
            0 <= i <= HEADER_SIZE,
            seq@.len() == i,
            seed == lcg_seed(i as nat),
            seed < 0x1_0000_0000,
            forall|j: int| 0 <= j < i ==> #[trigger] seq@[j] == mask_byte(j),
        decreases HEADER_SIZE - i,
    {
        seed = (seed * 0x343fd + 0x269ec3) % 0x1_0000_0000;
        seq.push(((seed / 0x10000) % 0x100) as u8);
        i = i + 1;
    }
    seq
}

/// Bound on run lengths and back-reference offsets in a compressed stream.
pub const MAX_RUN: u64 = 0xFFFF_FFFF;

fn next_byte(src: &[u8], pos: &mut usize) -> (r: Result<u8, DwgError>)
    ensures
        r.is_ok() == (*old(pos) < src@.len()),
        r matches Ok(b) ==> b == src@[*old(pos) as int] && *final(pos) == *old(pos) + 1,
        r.is_err() ==> *final(pos) == *old(pos) && r->Err_0.kind == ErrorKind::Decode,
{
    if *pos >= src.len() {
        return Err(DwgError::new(ErrorKind::Decode, "compressed stream ends early"));
    }
    let b = src[*pos];
    *pos = *pos + 1;
    Ok(b)
}

/// A literal length: 0x01..=0x0F gives that plus 3; a byte with a high
/// nibble is instead the next opcode (length 0); 0x00 starts an extension
/// where each further 0x00 adds 0xFF.
fn read_literal_length(src: &[u8], pos: &mut usize) -> (r: Result<(u64, u8), DwgError>)
    ensures
        *old(pos) < src@.len() && 0x01 <= src@[*old(pos) as int] <= 0x0F ==> r == Ok::<(u64, u8), DwgError>(
            ((src@[*old(pos) as int] + 3) as u64, 0u8),
        ) && *final(pos) == *old(pos) + 1,
        *old(pos) <= *final(pos) <= src@.len() || r.is_err(),
        r matches Ok((len, _)) ==> len <= MAX_RUN && *final(pos) > *old(pos),
{
    let mut opcode: u8 = 0;
    let mut length: u64 = 0;
    let byte = next_byte(src, pos)?;
    if byte >= 0x01 && byte <= 0x0F {
        length = byte as u64 + 3;
    } else if byte >= 0x10 {
        opcode = byte;
    } else {
        length = 0x0F;
        let mut b = next_byte(src, pos)?;
        while b == 0x00
            invariant
                length <= MAX_RUN,
                *old(pos) < *pos <= src@.len(),
                src@[*old(pos) as int] == 0x00,
            decreases src@.len() - *pos,
        {
            if length > MAX_RUN - 0xFF {
                return Err(DwgError::new(ErrorKind::Decode, "literal run too long"));
            }
            length = length + 0xFF;
            b = next_byte(src, pos)?;
        }
        if length > MAX_RUN - 0x102 {
            return Err(DwgError::new(ErrorKind::Decode, "literal run too long"));
        }
        length = length + b as u64 + 3;
    }
    Ok((length, opcode))
}

/// A long run length: bytes summed, where each leading 0x00 adds 0xFF.
fn read_long_compression_offset(src: &[u8], pos: &mut usize) -> (r: Result<u64, DwgError>)
    ensures
        *old(pos) <= *final(pos) <= src@.len() || r.is_err(),
        r matches Ok(v) ==> v <= MAX_RUN,
{
    let mut value: u64 = 0;
    let mut byte = next_byte(src, pos)?;
    if byte == 0x00 {
        value = 0xFF;
        byte = next_byte(src, pos)?;
        while byte == 0x00
            invariant
                value <= MAX_RUN,
                *old(pos) < *pos <= src@.len(),
            decreases src@.len() - *pos,
        {
            if value > MAX_RUN - 0xFF {
                return Err(DwgError::new(ErrorKind::Decode, "compressed run too long"));
            }
            value = value + 0xFF;
            byte = next_byte(src, pos)?;
        }
    }
    if value > MAX_RUN - 0xFF {
        return Err(DwgError::new(ErrorKind::Decode, "compressed run too long"));
    }
    Ok(value + byte as u64)
}

/// Two bytes giving a back-reference offset (14 bits) and, in the low two
/// bits of the first, a literal count.
fn read_two_byte_offset(src: &[u8], pos: &mut usize) -> (r: Result<(u64, u64), DwgError>)
    ensures
        *old(pos) <= *final(pos) <= src@.len() || r.is_err(),
        r matches Ok((off, count)) ==> off < 0x4000 && count < 4,
{
    let b1 = next_byte(src, pos)?;
    let b2 = next_byte(src, pos)?;
    let value = (b1 / 4) as u64 + (b2 as u64) * 0x40;
    let literal_count = (b1 % 4) as u64;
    Ok((value, literal_count))
}

/// Copies `length` bytes of the compressed stream to the output at
/// `dst_idx`; output positions past the buffer are dropped.
fn copy_literal(dst: &mut Vec<u8>, dst_idx: u64, src: &[u8], pos: &mut usize, length: u64) -> (r: Result<
    u64,
    DwgError,
>)
    ensures
        final(dst)@.len() == old(dst)@.len(),
        r.is_ok() ==> *final(pos) <= src@.len(),
        r.is_ok() ==> *final(pos) == *old(pos) + length,
        *old(pos) + length <= src@.len() ==> r.is_ok(),
        forall|i: int| 0 <= i < dst_idx && i < old(dst)@.len() ==> #[trigger] final(dst)@[i] == old(dst)@[i],
        forall|i: int|
            dst_idx + length <= i < old(dst)@.len() ==> #[trigger] final(dst)@[i] == old(dst)@[i],
        r.is_ok() ==> forall|k: int|
            0 <= k < length && dst_idx + k < old(dst)@.len() ==> #[trigger] final(dst)@[dst_idx + k] == src@[*old(pos)
                + k],
        r matches Ok(v) ==> v == if dst_idx + length > u64::MAX { u64::MAX as int } else { dst_idx + length },
        r.is_err() ==> r->Err_0.kind == ErrorKind::Decode,
{
    if *pos > src.len() || length > (src.len() - *pos) as u64 {
        return Err(DwgError::new(ErrorKind::Decode, "literal run past the compressed data"));
    }
    let mut k: u64 = 0;
    while k < length
        invariant
            0 <= k <= length,
            *old(pos) + length <= src@.len(),
            src@.len() <= usize::MAX,
            dst@.len() == old(dst)@.len(),
            *pos == *old(pos),
            forall|i: int| 0 <= i < dst_idx && i < old(dst)@.len() ==> #[trigger] dst@[i] == old(dst)@[i],
            forall|i: int| dst_idx + k <= i < old(dst)@.len() ==> #[trigger] dst@[i] == old(dst)@[i],
            forall|j: int| 0 <= j < k && dst_idx + j < old(dst)@.len() ==> #[trigger] dst@[dst_idx + j] == src@[*old(pos) + j],
        decreases length - k,
    {
        let out = dst_idx.saturating_add(k);
        if out < dst.len() as u64 {
            dst.set(out as usize, src[*pos + k as usize]);
        }
        k = k + 1;
    }
    *pos = *pos + length as usize;
    Ok(dst_idx.saturating_add(length))
}

/// Repeats `length` output bytes from `offset` bytes back; an offset beyond
/// what was produced advances without copying.
fn copy_decompressed(dst: &mut Vec<u8>, dst_idx: u64, offset: u64, length: u64) -> (r: u64)
    ensures
        final(dst)@.len() == old(dst)@.len(),
        r == if dst_idx + length > u64::MAX { u64::MAX as int } else { dst_idx + length },
        forall|i: int| 0 <= i < dst_idx && i < old(dst)@.len() ==> #[trigger] final(dst)@[i] == old(dst)@[i],
        forall|i: int|
            dst_idx + length <= i < old(dst)@.len() ==> #[trigger] final(dst)@[i] == old(dst)@[i],
        offset > dst_idx || offset == 0 ==> final(dst)@ == old(dst)@,
        0 < offset <= dst_idx ==> forall|k: int|
            0 <= k < length && dst_idx + k < old(dst)@.len() ==> #[trigger] final(dst)@[dst_idx + k]
                == final(dst)@[dst_idx + k - offset],
{
    if offset > dst_idx || offset == 0 {
        return dst_idx.saturating_add(length);
    }
    let mut k: u64 = 0;
    while k < length
        invariant
            0 <= k <= length,
            0 < offset <= dst_idx,
            dst@.len() == old(dst)@.len(),
            forall|i: int| 0 <= i < dst_idx && i < old(dst)@.len() ==> #[trigger] dst@[i] == old(dst)@[i],
            forall|i: int| dst_idx + k <= i < old(dst)@.len() ==> #[trigger] dst@[i] == old(dst)@[i],
            forall|j: int|
                0 <= j < k && dst_idx + j < old(dst)@.len() ==> #[trigger] dst@[dst_idx + j] == dst@[dst_idx + j - offset],
        decreases length - k,
    {
        let out = dst_idx.saturating_add(k);
        if out < dst.len() as u64 {
            let from = out - offset;
            let b = dst[from as usize];
            dst.set(out as usize, b);
        }
        k = k + 1;
    }
    dst_idx.saturating_add(length)
}

/// One back-reference instruction for `opcode1`: its length, its offset,
/// and the literal length and opcode that follow it.
fn read_instruction(src: &[u8], pos: &mut usize, opcode1: u8) -> (r: Result<(u64, u64, u64, u8), DwgError>)
    requires
        opcode1 >= 0x10,
        opcode1 != 0x11,
    ensures
        *old(pos) <= *final(pos) <= src@.len() || r.is_err(),
        r matches Ok((len, off, lit, _)) ==> len <= MAX_RUN + 0x21 && off < 0x8000 && lit <= MAX_RUN,
{
    let comp_bytes: u64;
    let mut offset: u64;
    if opcode1 >= 0x40 {
        comp_bytes = ((opcode1 / 16) as u64) - 1;
        let opcode2 = next_byte(src, pos)? as u64;
        offset = opcode2 * 4 + ((opcode1 % 16) / 4) as u64;
        if opcode1 % 4 != 0 {
            return Ok((comp_bytes, offset, (opcode1 % 4) as u64, 0));
        }
        let (literal_len, next_opcode) = read_literal_length(src, pos)?;
        return Ok((comp_bytes, offset, literal_len, next_opcode));
    }
    if opcode1 == 0x10 {
        comp_bytes = read_long_compression_offset(src, pos)? + 9;
    } else if opcode1 < 0x20 {
        comp_bytes = (opcode1 % 16) as u64 + 2;
    } else if opcode1 == 0x20 {
        comp_bytes = read_long_compression_offset(src, pos)? + 0x21;
    } else {
        comp_bytes = (opcode1 - 0x1E) as u64;
    }
    let (off, literal_count) = read_two_byte_offset(src, pos)?;
    offset = off;
    if opcode1 < 0x20 {
        offset = offset + 0x3FFF;
    }
    if literal_count == 0 {
        let (literal_len, next_opcode) = read_literal_length(src, pos)?;
        Ok((comp_bytes, offset, literal_len, next_opcode))
    } else {
        Ok((comp_bytes, offset, literal_count, 0))
    }
}

/// Whether `src` is one literal run (a length byte 0x01..=0x0F, for that
/// many plus 3 bytes) followed by the end opcode 0x11.
pub open spec fn literal_then_end(src: Seq<u8>) -> bool {
    src.len() >= 2 && 0x01 <= src[0] <= 0x0F && src.len() >= src[0] + 5 && src[src[0] + 4] == 0x11
}

/// Decompresses an R18 (R2004) stream into exactly `dst_size` bytes: literal
/// runs and back-references, until the data ends or opcode 0x11.
pub fn decompress_r18(src: &[u8], dst_size: usize) -> (r: Result<Vec<u8>, DwgError>)
    ensures
        r matches Ok(v) ==> v@.len() == dst_size,
        src@.len() == 0 ==> r.is_err(),
        r matches Ok(v) ==> (src@.len() > 0 && 0x01 <= src@[0] <= 0x0F ==> forall|k: int|
            0 <= k < src@[0] + 3 && k < dst_size ==> #[trigger] v@[k] == src@[1 + k]),
        literal_then_end(src@) ==> (r matches Ok(v) && forall|k: int|
            0 <= k < dst_size ==> #[trigger] v@[k] == if k < src@[0] + 3 {
                src@[1 + k]
            } else {
                0u8
            }),
{
    let mut dst: Vec<u8> = Vec::new();
    let mut n: usize = 0;
    while n < dst_size
        invariant
            0 <= n <= dst_size,
            dst@.len() == n,
            forall|i: int| 0 <= i < n ==> #[trigger] dst@[i] == 0,
        decreases dst_size - n,
    {
        dst.push(0);
        n = n + 1;
    }
    let mut pos: usize = 0;
    let (literal_len, first_opcode) = read_literal_length(src, &mut pos)?;
    let mut opcode1 = first_opcode;
    let mut dst_idx: u64 = copy_literal(&mut dst, 0, src, &mut pos, literal_len)?;
    let ghost first_run: int = if src@.len() > 0 && 0x01 <= src@[0] <= 0x0F { src@[0] + 3 } else { 0 };
    assert forall|k: int| 0 <= k < first_run && k < dst_size implies #[trigger] dst@[k] == src@[1 + k] by {
        assert(dst@[0 + k] == src@[1 + k]);
    }
    assert(literal_then_end(src@) ==> dst_idx == first_run && pos == first_run + 1);
    while pos < src.len()
        invariant_except_break
            literal_then_end(src@) ==> pos == first_run + 1 && opcode1 == 0,
        invariant
            first_run == (if src@.len() > 0 && 0x01 <= src@[0] <= 0x0F { src@[0] + 3 } else { 0 }),
            dst@.len() == dst_size,
            pos <= src@.len(),
            first_run <= dst_idx,
            forall|k: int| 0 <= k < first_run && k < dst_size ==> #[trigger] dst@[k] == src@[1 + k],
            literal_then_end(src@) ==> forall|k: int| first_run <= k < dst_size ==> #[trigger] dst@[k] == 0,
        ensures
            first_run == (if src@.len() > 0 && 0x01 <= src@[0] <= 0x0F { src@[0] + 3 } else { 0 }),
            dst@.len() == dst_size,
            forall|k: int| 0 <= k < first_run && k < dst_size ==> #[trigger] dst@[k] == src@[1 + k],
            literal_then_end(src@) ==> forall|k: int| first_run <= k < dst_size ==> #[trigger] dst@[k] == 0,
        decreases src@.len() - pos,
    {
        let start = pos;
        if opcode1 == 0x00 {
            opcode1 = next_byte(src, &mut pos)?;
        }
        if opcode1 == 0x11 {
            break;
        }
        if opcode1 < 0x10 {
            return Err(DwgError::new(ErrorKind::Format, "invalid R18 compression opcode"));
        }
        let (comp_bytes, comp_offset, next_literal, next_opcode) = read_instruction(src, &mut pos, opcode1)?;
        dst_idx = copy_decompressed(&mut dst, dst_idx, comp_offset + 1, comp_bytes);
        dst_idx = copy_literal(&mut dst, dst_idx, src, &mut pos, next_literal)?;
        opcode1 = next_opcode;
        if pos == start {
            return Err(DwgError::new(ErrorKind::Decode, "R18 stream makes no progress"));
        }
    }
    Ok(dst)
}

/// Offset of the obfuscated R2004 file header.
pub const HEADER_OFFSET: usize = 0x80;

/// Signature of the page-map system section.
pub const SECTION_PAGE_MAP_MAGIC: u32 = 0x41630E3B;

/// Signature of the section-map system section.
pub const SECTION_MAP_MAGIC: u32 = 0x4163003B;

/// Signature of a data page header.
pub const DATA_SECTION_MAGIC: u32 = 0x4163043B;

/// What the de-obfuscated R2004 file header locates.
#[derive(Debug, Clone, Copy, PartialEq, Eq, Structural)]
pub struct HeaderData {
    pub section_page_map_id: u32,
    pub section_page_map_address: u64,
    pub section_map_id: u32,
    pub section_page_array_size: u32,
    pub gap_array_size: u32,
}

/// The de-obfuscated header bytes of a file.
pub open spec fn plain_header(d: Seq<u8>) -> Seq<u8> {
    Seq::new(HEADER_SIZE as nat, |i: int| d[HEADER_OFFSET + i] ^ mask_byte(i))
}

/// Reads the file header at 0x80: XORs its 0x6c bytes with the mask, then
/// reads the page-map and section-map locations at 0x50.
pub fn read_header_data(bytes: &[u8]) -> (r: Result<HeaderData, DwgError>)
    ensures
        r.is_ok() == (bytes@.len() >= HEADER_OFFSET + HEADER_SIZE),
        r.is_err() ==> r->Err_0.kind == ErrorKind::Format,
        r matches Ok(h) ==> {
            let p = plain_header(bytes@);
            &&& h.section_page_map_id == le32_at(p, 0x50)
            &&& h.section_page_map_address == le64_at(p, 0x54)
            &&& h.section_map_id == le32_at(p, 0x5C)
            &&& h.section_page_array_size == le32_at(p, 0x60)
            &&& h.gap_array_size == le32_at(p, 0x64)
        },
{
    if bytes.len() < HEADER_OFFSET + HEADER_SIZE {
        return Err(DwgError::new(ErrorKind::Format, "file too small for the R2004 header"));
    }
    let magic = magic_sequence();
    let mut plain: Vec<u8> = Vec::new();
    let mut i: usize = 0;
    while i < HEADER_SIZE
        invariant
            0 <= i <= HEADER_SIZE,
            bytes@.len() >= HEADER_OFFSET + HEADER_SIZE,
            magic@.len() == HEADER_SIZE,
            forall|j: int| 0 <= j < HEADER_SIZE ==> #[trigger] magic@[j] == mask_byte(j),
            plain@.len() == i,
            forall|j: int| 0 <= j < i ==> #[trigger] plain@[j] == plain_header(bytes@)[j],
        decreases HEADER_SIZE - i,
    {
        plain.push(bytes[HEADER_OFFSET + i] ^ magic[i]);
        i = i + 1;
    }
    assert(plain@ =~= plain_header(bytes@));
    let mut reader = ByteReader::new(plain.as_slice());
    let _ = reader.seek(0x50);
    let section_page_map_id = reader.read_u32_le()?;
    let section_page_map_address = reader.read_u64_le()?;
    let section_map_id = reader.read_u32_le()?;
    let section_page_array_size = reader.read_u32_le()?;
    let gap_array_size = reader.read_u32_le()?;
    Ok(HeaderData {
        section_page_map_id,
        section_page_map_address,
        section_map_id,
        section_page_array_size,
        gap_array_size,
    })
}

/// Reads a system section at `address`: a 0x14-byte header (signature,
/// decompressed size, compressed size, compression type, checksum), then the
/// compressed payload. Only compression type 2 is supported.
pub fn read_system_section(bytes: &[u8], address: u64, expected_signature: u32) -> (r: Result<
    Vec<u8>,
    DwgError,
>)
    ensures
        address + 0x14 > bytes@.len() ==> r.is_err() && r->Err_0.kind == ErrorKind::Format,
        address + 0x14 <= bytes@.len() && le32_at(bytes@, address as int) != expected_signature
            ==> r.is_err() && r->Err_0.kind == ErrorKind::Format,
        r matches Ok(v) ==> {
            &&& le32_at(bytes@, address as int) == expected_signature
            &&& (le32_at(bytes@, address + 8) == 0 ==> v@.len() == 0)
            &&& (le32_at(bytes@, address + 8) != 0 ==> v@.len() == le32_at(bytes@, address + 4))
        },
{
    if address > bytes.len() as u64 || bytes.len() as u64 - address < 0x14 {
        return Err(DwgError::new(ErrorKind::Format, "system section header out of range"));
    }
    let offset = address as usize;
    let mut reader = ByteReader::new(bytes);
    let _ = reader.seek(offset);
    let signature = reader.read_u32_le()?;
    let decompressed_size = reader.read_u32_le()?;
    let compressed_size = reader.read_u32_le()?;
    let compressed_type = reader.read_u32_le()?;
    let _checksum = reader.read_u32_le()?;
    if signature != expected_signature {
        return Err(DwgError::new(ErrorKind::Format, "unexpected system section signature"));
    }
    let data_offset = offset + 0x14;
    if compressed_size as usize > bytes.len() - data_offset {
        return Err(DwgError::new(ErrorKind::Format, "system section data out of range"));
    }
    if compressed_size == 0 {
        return Ok(Vec::new());
    }
    let data = &bytes[data_offset..data_offset + compressed_size as usize];
    if compressed_type == 2 {
        decompress_r18(data, decompressed_size as usize)
    } else {
        Err(DwgError::not_implemented("unsupported R2004 system section compression"))
    }
}

/// One page of the page map: its id, its size, and its address in the file.
#[derive(Debug, Clone, Copy, PartialEq, Eq, Structural)]
pub struct PageMapEntry {
    pub id: i32,
    pub size: u32,
    pub address: u64,
}

/// Reads the page map: `(id, size)` pairs whose addresses accumulate from
/// 0x100; a negative id marks a gap followed by 16 skipped bytes.
pub fn read_page_map(bytes: &[u8], header: &HeaderData) -> (r: Result<Vec<PageMapEntry>, DwgError>)
    ensures
        r matches Ok(v) ==> {
            &&& (v@.len() > 0 ==> v@[0].address == 0x100)
            &&& forall|i: int|
                0 <= i < v@.len() - 1 ==> #[trigger] v@[i + 1].address == v@[i].address + v@[i].size
        },
{
    if header.section_page_map_address > u64::MAX - 0x100 {
        return Err(DwgError::new(ErrorKind::Format, "page map address overflow"));
    }
    let data = read_system_section(bytes, header.section_page_map_address + 0x100, SECTION_PAGE_MAP_MAGIC)?;
    let mut reader = ByteReader::new(data.as_slice());
    let mut page_address: u64 = 0x100;
    let mut entries: Vec<PageMapEntry> = Vec::new();
    while reader.remaining() >= 8
        invariant
            reader.wf(),
            reader.bytes() == data@,
            entries@.len() == 0 ==> page_address == 0x100,
            entries@.len() > 0 ==> page_address == entries@.last().address + entries@.last().size,
            entries@.len() > 0 ==> entries@[0].address == 0x100,
            forall|i: int|
                0 <= i < entries@.len() - 1 ==> #[trigger] entries@[i + 1].address == entries@[i].address
                    + entries@[i].size,
        decreases data@.len() - reader.position(),
    {
        let id = reader.read_i32_le()?;
        let size = reader.read_u32_le()?;
        if page_address > u64::MAX - size as u64 {
            return Err(DwgError::new(ErrorKind::Format, "page map address overflow"));
        }
        let entry = PageMapEntry { id, size, address: page_address };
        page_address = page_address + size as u64;
        if id < 0 {
            if reader.remaining() < 16 {
                return Err(DwgError::new(ErrorKind::Format, "page map gap entry truncated"));
            }
            reader.skip(16)?;
        }
        entries.push(entry);
    }
    Ok(entries)
}

/// One page of a section: its page id, data size and offset in the section.
#[derive(Debug, Clone, Copy, PartialEq, Eq, Structural)]
pub struct SectionPageInfo {
    pub page_id: u32,
    pub data_size: u32,
    pub start_offset: u64,
}

/// One section of the section map.
#[derive(Debug, Clone)]
pub struct SectionEntry {
    pub size: u64,
    pub page_count: u32,
    pub max_decompressed_size: u32,
    pub compressed: u32,
    pub section_id: u32,
    pub encrypted: u32,
    /// The name's bytes up to the first NUL.
    pub name: Vec<u8>,
    pub pages: Vec<SectionPageInfo>,
}

/// The bytes of `b` up to its first NUL.
pub open spec fn until_nul(b: Seq<u8>) -> Seq<u8>
    decreases b.len(),
{
    if b.len() == 0 {
        b
    } else if b[0] == 0 {
        Seq::empty()
    } else {
        seq![b[0]] + until_nul(b.drop_first())
    }
}

/// The bytes of a NUL-padded name up to its first NUL.
pub fn read_cstring(bytes: &[u8]) -> (r: Vec<u8>)
    ensures
        r@ == until_nul(bytes@),
{
    let mut k: usize = 0;
    while k < bytes.len() && bytes[k] != 0
        invariant
            0 <= k <= bytes@.len(),
            forall|j: int| 0 <= j < k ==> bytes@[j] != 0,
        decreases bytes@.len() - k,
    {
        k = k + 1;
    }
    let mut out: Vec<u8> = Vec::new();
    let mut j: usize = 0;
    while j < k
        invariant
            0 <= j <= k <= bytes@.len(),
            out@ == bytes@.subrange(0, j as int),
        decreases k - j,
    {
        out.push(bytes[j]);
        assert(out@ =~= bytes@.subrange(0, j + 1));
        j = j + 1;
    }
    proof {
        lemma_until_nul(bytes@, k as int);
    }
    out
}

proof fn lemma_until_nul(b: Seq<u8>, k: int)
    requires
        0 <= k <= b.len(),
        forall|j: int| 0 <= j < k ==> b[j] != 0,
        k < b.len() ==> b[k] == 0,
    ensures
        until_nul(b) == b.subrange(0, k),
    decreases b.len(),
{
    if b.len() == 0 {
        assert(b.subrange(0, k) =~= b);
    } else if k == 0 {
        assert(b.subrange(0, 0) =~= Seq::<u8>::empty());
    } else {
        lemma_until_nul(b.drop_first(), k - 1);
        assert(seq![b[0]] + b.drop_first().subrange(0, k - 1) =~= b.subrange(0, k));
    }
}

/// Reads the section map from the page whose id the header names.
pub fn read_section_map(bytes: &[u8], header: &HeaderData, page_map: &Vec<PageMapEntry>) -> (r: Result<
    Vec<SectionEntry>,
    DwgError,
>)
    ensures
        r matches Ok(v) ==> forall|i: int| 0 <= i < v@.len() ==> (#[trigger] v@[i]).pages@.len()
            == v@[i].page_count,
{
    let mut found: Option<PageMapEntry> = None;
    let mut i: usize = 0;
    while i < page_map.len()
        invariant
            0 <= i <= page_map@.len(),
        decreases page_map@.len() - i,
    {
        if page_map[i].id as i64 == header.section_map_id as i32 as i64 {
            found = Some(page_map[i]);
            break;
        }
        i = i + 1;
    }
    let entry = match found {
        Some(e) => e,
        None => {
            return Err(DwgError::new(ErrorKind::Format, "section map page not in the page map"));
        },
    };
    let data = read_system_section(bytes, entry.address, SECTION_MAP_MAGIC)?;
    let mut reader = ByteReader::new(data.as_slice());
    if reader.remaining() < 20 {
        return Err(DwgError::new(ErrorKind::Format, "section map header truncated"));
    }
    let entry_count = reader.read_u32_le()?;
    reader.skip(16)?;
    let mut sections: Vec<SectionEntry> = Vec::new();
    let mut n: u32 = 0;
    while n < entry_count
        invariant
            reader.wf(),
            reader.bytes() == data@,
            0 <= n <= entry_count,
            forall|i: int| 0 <= i < sections@.len() ==> (#[trigger] sections@[i]).pages@.len()
                == sections@[i].page_count,
        decreases entry_count - n,
    {
        if reader.remaining() < 88 {
            return Err(DwgError::new(ErrorKind::Format, "section entry truncated"));
        }
        let size = reader.read_u64_le()?;
        let page_count = reader.read_u32_le()?;
        let max_decompressed_size = reader.read_u32_le()?;
        let _unknown = reader.read_u32_le()?;
        let compressed = reader.read_u32_le()?;
        let section_id = reader.read_u32_le()?;
        let encrypted = reader.read_u32_le()?;
        let name_bytes = reader.read_bytes(64)?;
        let name = read_cstring(name_bytes);
        let mut pages: Vec<SectionPageInfo> = Vec::new();
        let mut k: u32 = 0;
        while k < page_count
            invariant
                reader.wf(),
                reader.bytes() == data@,
                0 <= k <= page_count,
                pages@.len() == k,
            decreases page_count - k,
        {
            if reader.remaining() < 16 {
                return Err(DwgError::new(ErrorKind::Format, "section page info truncated"));
            }
            let page_id = reader.read_u32_le()?;
            let data_size = reader.read_u32_le()?;
            let start_offset = reader.read_u64_le()?;
            pages.push(SectionPageInfo { page_id, data_size, start_offset });
            k = k + 1;
        }
        sections.push(SectionEntry {
            size,
            page_count,
            max_decompressed_size,
            compressed,
            section_id,
            encrypted,
            name,
            pages,
        });
        n = n + 1;
    }
    Ok(sections)
}

/// XORs each little-endian word of a 32-byte page header with
/// `0x4164536B ^ (page address & 0xFFFFFFFF)`.
pub fn decrypt_data_section_header(bytes: &[u8], offset: u64) -> (r: Result<Vec<u8>, DwgError>)
    ensures
        r.is_ok() == (bytes@.len() >= 32),
        r matches Ok(v) ==> v@.len() == 32 && forall|w: int|
            0 <= w < 8 ==> #[trigger] le32_at(v@, 4 * w) == (le32_at(bytes@, 4 * w) as u32 ^ (0x4164_536B_u32
                ^ (offset % 0x1_0000_0000) as u32)),
{
    if bytes.len() < 32 {
        return Err(DwgError::new(ErrorKind::Format, "data section header truncated"));
    }
    let mask: u32 = 0x4164_536B_u32 ^ (offset % 0x1_0000_0000) as u32;
    let mut out: Vec<u8> = Vec::new();
    let mut w: usize = 0;
    while w < 8
        invariant
            0 <= w <= 8,
            bytes@.len() >= 32,
            mask == 0x4164_536B_u32 ^ (offset % 0x1_0000_0000) as u32,
            out@.len() == 4 * w,
            forall|k: int| 0 <= k < w ==> #[trigger] le32_at(out@, 4 * k) == (le32_at(bytes@, 4 * k) as u32 ^ mask),
        decreases 8 - w,
    {
        let b = 4 * w;
        let value = bytes[b] as u32 + bytes[b + 1] as u32 * 0x100 + bytes[b + 2] as u32 * 0x10000
            + bytes[b + 3] as u32 * 0x1000000;
        let x = value ^ mask;
        let ghost before = out@;
        out.push((x % 0x100) as u8);
        out.push(((x / 0x100) % 0x100) as u8);
        out.push(((x / 0x10000) % 0x100) as u8);
        out.push((x / 0x1000000) as u8);
        assert(le32_at(out@, 4 * w as int) == x);
        assert forall|k: int| 0 <= k < w implies #[trigger] le32_at(out@, 4 * k) == (le32_at(bytes@, 4 * k) as u32 ^ mask) by {
            assert(le32_at(before, 4 * k) == (le32_at(bytes@, 4 * k) as u32 ^ mask));
            assert(out@[4 * k] == before[4 * k]);
            assert(out@[4 * k + 1] == before[4 * k + 1]);
            assert(out@[4 * k + 2] == before[4 * k + 2]);
            assert(out@[4 * k + 3] == before[4 * k + 3]);
        }
        w = w + 1;
    }
    Ok(out)
}

/// The fields of a de-obfuscated 32-byte data page header.
#[derive(Debug, Clone, Copy, PartialEq, Eq, Structural)]
pub struct DataSectionHeader {
    pub signature: u32,
    pub data_type: u32,
    pub compressed_size: u32,
    pub decompressed_size: u32,
    pub start_offset: u32,
    pub page_header_checksum: u32,
    pub data_checksum: u32,
    pub unknown: u32,
}

/// Splits a de-obfuscated page header into its eight little-endian words.
pub fn parse_data_section_header(bytes: &[u8]) -> (r: Result<DataSectionHeader, DwgError>)
    ensures
        r.is_ok() == (bytes@.len() >= 32),
        r matches Ok(h) ==> h.signature == le32_at(bytes@, 0) && h.data_type == le32_at(bytes@, 4)
            && h.compressed_size == le32_at(bytes@, 8) && h.decompressed_size == le32_at(bytes@, 12)
            && h.start_offset == le32_at(bytes@, 16),
{
    let mut reader = ByteReader::new(bytes);
    Ok(DataSectionHeader {
        signature: reader.read_u32_le()?,
        data_type: reader.read_u32_le()?,
        compressed_size: reader.read_u32_le()?,
        decompressed_size: reader.read_u32_le()?,
        start_offset: reader.read_u32_le()?,
        page_header_checksum: reader.read_u32_le()?,
        data_checksum: reader.read_u32_le()?,
        unknown: reader.read_u32_le()?,
    })
}

/// `AcDb:Header`.
pub open spec fn header_name() -> Seq<u8> {
    seq![0x41u8, 0x63, 0x44, 0x62, 0x3A, 0x48, 0x65, 0x61, 0x64, 0x65, 0x72]
}

/// `AcDb:Classes`.
pub open spec fn classes_name() -> Seq<u8> {
    seq![0x41u8, 0x63, 0x44, 0x62, 0x3A, 0x43, 0x6C, 0x61, 0x73, 0x73, 0x65, 0x73]
}

/// `AcDb:Handles`.
pub open spec fn handles_name() -> Seq<u8> {
    seq![0x41u8, 0x63, 0x44, 0x62, 0x3A, 0x48, 0x61, 0x6E, 0x64, 0x6C, 0x65, 0x73]
}

/// `AcDb:Template`.
pub open spec fn template_name() -> Seq<u8> {
    seq![0x41u8, 0x63, 0x44, 0x62, 0x3A, 0x54, 0x65, 0x6D, 0x70, 0x6C, 0x61, 0x74, 0x65]
}

/// `AcDb:AcDbObjects`.
pub open spec fn objects_name() -> Seq<u8> {
    seq![0x41u8, 0x63, 0x44, 0x62, 0x3A, 0x41, 0x63, 0x44, 0x62, 0x4F, 0x62, 0x6A, 0x65, 0x63, 0x74, 0x73]
}

pub fn header_name_bytes() -> (r: [u8; 11])
    ensures
        r@ == header_name(),
{
    let r: [u8; 11] = [0x41, 0x63, 0x44, 0x62, 0x3A, 0x48, 0x65, 0x61, 0x64, 0x65, 0x72];
    assert(r@ =~= header_name());
    r
}

pub fn classes_name_bytes() -> (r: [u8; 12])
    ensures
        r@ == classes_name(),
{
    let r: [u8; 12] = [0x41, 0x63, 0x44, 0x62, 0x3A, 0x43, 0x6C, 0x61, 0x73, 0x73, 0x65, 0x73];
    assert(r@ =~= classes_name());
    r
}

pub fn handles_name_bytes() -> (r: [u8; 12])
    ensures
        r@ == handles_name(),
{
    let r: [u8; 12] = [0x41, 0x63, 0x44, 0x62, 0x3A, 0x48, 0x61, 0x6E, 0x64, 0x6C, 0x65, 0x73];
    assert(r@ =~= handles_name());
    r
}

pub fn template_name_bytes() -> (r: [u8; 13])
    ensures
        r@ == template_name(),
{
    let r: [u8; 13] = [0x41, 0x63, 0x44, 0x62, 0x3A, 0x54, 0x65, 0x6D, 0x70, 0x6C, 0x61, 0x74, 0x65];
    assert(r@ =~= template_name());
    r
}

pub fn objects_name_bytes() -> (r: [u8; 16])
    ensures
        r@ == objects_name(),
{
    let r: [u8; 16] = [
        0x41, 0x63, 0x44, 0x62, 0x3A, 0x41, 0x63, 0x44, 0x62, 0x4F, 0x62, 0x6A, 0x65, 0x63, 0x74, 0x73,
    ];
    assert(r@ =~= objects_name());
    r
}

/// Whether two byte strings are equal.
pub fn bytes_eq(a: &[u8], b: &[u8]) -> (r: bool)
    ensures
        r == (a@ == b@),
{
    if a.len() != b.len() {
        return false;
    }
    let mut i: usize = 0;
    while i < a.len()
        invariant
            0 <= i <= a@.len(),
            a@.len() == b@.len(),
            forall|j: int| 0 <= j < i ==> a@[j] == b@[j],
        decreases a@.len() - i,
    {
        if a[i] != b[i] {
            return false;
        }
        i = i + 1;
    }
    assert(a@ =~= b@);
    true
}

/// The R2000 record number that a named section stands for.
pub open spec fn record_no_of_name(name: Seq<u8>) -> u8 {
    if name == header_name() {
        0
    } else if name == classes_name() {
        1
    } else if name == handles_name() {
        2
    } else if name == template_name() {
        4
    } else {
        255
    }
}

pub fn record_no_for_name(name: &[u8]) -> (r: u8)
    ensures
        r == record_no_of_name(name@),
{
    if bytes_eq(name, &header_name_bytes()) {
        0
    } else if bytes_eq(name, &classes_name_bytes()) {
        1
    } else if bytes_eq(name, &handles_name_bytes()) {
        2
    } else if bytes_eq(name, &template_name_bytes()) {
        4
    } else {
        255
    }
}

/// The usable page (positive id) with id `id`, if the page map has one.
fn find_page(page_map: &Vec<PageMapEntry>, id: u32) -> (r: Option<PageMapEntry>)
    ensures
        r matches Some(e) ==> e.id > 0 && e.id == id && page_map@.contains(e),
        r.is_none() ==> forall|i: int| 0 <= i < page_map@.len() ==> !((#[trigger] page_map@[i]).id > 0
            && page_map@[i].id == id),
{
    let mut i: usize = 0;
    while i < page_map.len()
        invariant
            0 <= i <= page_map@.len(),
            forall|j: int| 0 <= j < i ==> !((#[trigger] page_map@[j]).id > 0 && page_map@[j].id == id),
        decreases page_map@.len() - i,
    {
        let e = page_map[i];
        if e.id > 0 && e.id as u32 == id {
            return Some(e);
        }
        i = i + 1;
    }
    None
}

/// The size a section's pages decode to: the page capacity times the page
/// count, cut to the section's declared size.
pub open spec fn section_len(section: SectionEntry) -> int {
    let total = section.max_decompressed_size * section.page_count;
    if section.size < total { section.size as int } else { total }
}

/// Reassembles a section from its pages. Page `i` is written at
/// `i * max_decompressed_size`; compressed pages (flag 2) are decompressed
/// first; the result is cut to the section's declared size.
pub fn load_section_data(
    bytes: &[u8],
    section: &SectionEntry,
    page_map: &Vec<PageMapEntry>,
    config: &ParseConfig,
) -> (r: Result<Vec<u8>, DwgError>)
    ensures
        section.encrypted == 1 ==> r.is_err() && r->Err_0.kind == ErrorKind::NotImplemented,
        section.encrypted != 1 && section.max_decompressed_size * section.page_count
            > config.max_section_bytes ==> r.is_err() && r->Err_0.kind == ErrorKind::Format,
        r matches Ok(v) ==> v@.len() == section_len(*section),
{
    if section.encrypted == 1 {
        return Err(DwgError::not_implemented("encrypted R2004 sections are not supported"));
    }
    let page_size = section.max_decompressed_size as u64;
    proof {
        let a = section.max_decompressed_size as int;
        let b = section.page_count as int;
        assert(a * b <= 0xFFFF_FFFF * 0xFFFF_FFFF) by (nonlinear_arith)
            requires
                0 <= a <= 0xFFFF_FFFF,
                0 <= b <= 0xFFFF_FFFF,
        ;
    }
    let total = page_size * section.page_count as u64;
    if total > config.max_section_bytes {
        return Err(DwgError::new(ErrorKind::Format, "section size above the limit"));
    }
    if total > usize::MAX as u64 {
        return Err(DwgError::new(ErrorKind::Format, "section size above the address space"));
    }
    let wanted = if section.size < total { section.size } else { total };
    let mut output: Vec<u8> = Vec::new();
    let mut n: u64 = 0;
    while n < wanted
        invariant
            0 <= n <= wanted,
            output@.len() == n,
        decreases wanted - n,
    {
        output.push(0);
        n = n + 1;
    }
    if wanted == 0 {
        return Ok(output);
    }
    let mut idx: usize = 0;
    while idx < section.pages.len()
        invariant
            wanted > 0,
            wanted <= usize::MAX,
            section.encrypted != 1,
            total == section.max_decompressed_size * section.page_count,
            total <= config.max_section_bytes,
            output@.len() == wanted,
            0 <= idx <= section.pages@.len(),
        decreases section.pages@.len() - idx,
    {
        let page = section.pages[idx];
        let entry = match find_page(page_map, page.page_id) {
            Some(e) => e,
            None => {
                return Err(DwgError::new(ErrorKind::Format, "section page not in the page map"));
            },
        };
        if entry.address > bytes.len() as u64 || bytes.len() as u64 - entry.address < 32 {
            return Err(DwgError::new(ErrorKind::Format, "data page header out of range"));
        }
        let page_offset = entry.address as usize;
        let header_bytes = decrypt_data_section_header(&bytes[page_offset..page_offset + 32], entry.address)?;
        let header = parse_data_section_header(header_bytes.as_slice())?;
        if header.signature != DATA_SECTION_MAGIC {
            return Err(DwgError::new(ErrorKind::Format, "invalid data page signature"));
        }
        let data_offset = page_offset + 32;
        if header.compressed_size as usize > bytes.len() - data_offset {
            return Err(DwgError::new(ErrorKind::Format, "data page out of range"));
        }
        let data = &bytes[data_offset..data_offset + header.compressed_size as usize];
        let decompressed = if section.compressed == 2 {
            decompress_r18(data, section.max_decompressed_size as usize)?
        } else {
            vstd::slice::slice_to_vec(data)
        };
        if page_size != 0 && idx as u64 <= (wanted - 1) / page_size {
            proof {
                let w = (wanted - 1) as int;
                let ps = page_size as int;
                let q = w / ps;
                vstd::arithmetic::div_mod::lemma_fundamental_div_mod(w, ps);
                assert(idx * ps <= w) by (nonlinear_arith)
                    requires
                        0 <= idx <= q,
                        w == ps * q + w % ps,
                        0 <= w % ps,
                        ps > 0,
                ;
            }
            let start = idx as u64 * page_size;
            let mut k: usize = 0;
            while k < decompressed.len() && (k as u64) < wanted - start
                invariant
                    output@.len() == wanted,
                    start < wanted,
                    0 <= k <= decompressed@.len(),
                decreases decompressed@.len() - k,
            {
                output.set((start + k as u64) as usize, decompressed[k]);
                k = k + 1;
            }
        }
        idx = idx + 1;
    }
    Ok(output)
}

/// The page map and section map of a file.
#[derive(Debug, Clone)]
pub struct ContainerMetadata {
    pub page_map: Vec<PageMapEntry>,
    pub sections: Vec<SectionEntry>,
}

/// Reads the header, the page map and the section map.
pub fn parse_container_metadata(bytes: &[u8]) -> (r: Result<ContainerMetadata, DwgError>)
    ensures
        r.is_ok() ==> bytes@.len() >= HEADER_OFFSET + HEADER_SIZE,
{
    let header = read_header_data(bytes)?;
    let page_map = read_page_map(bytes, &header)?;
    let sections = read_section_map(bytes, &header, &page_map)?;
    Ok(ContainerMetadata { page_map, sections })
}

/// The address of a section's first page, or 0.
fn first_page_address(section: &SectionEntry, page_map: &Vec<PageMapEntry>) -> (r: u32) {
    if section.pages.len() == 0 {
        return 0;
    }
    match find_page(page_map, section.pages[0].page_id) {
        Some(e) => (e.address % 0x1_0000_0000) as u32,
        None => 0,
    }
}

/// The directory record standing for a named section: the record number its
/// name gives, the address of its first page, and its size (at most
/// `u32::MAX`).
fn record_for_section(section: &SectionEntry, page_map: &Vec<PageMapEntry>) -> (r: SectionLocatorRecord)
    ensures
        r.record_no == record_no_of_name(section.name@),
        r.size == if section.size > u32::MAX { u32::MAX as int } else { section.size as int },
{
    let size = if section.size > 0xFFFF_FFFF { 0xFFFF_FFFFu32 } else { section.size as u32 };
    SectionLocatorRecord {
        record_no: record_no_for_name(section.name.as_slice()),
        offset: first_page_address(section, page_map),
        size,
    }
}

/// The directory of an R2004-family file: one record per named section.
pub fn parse_section_directory(bytes: &[u8], config: &ParseConfig) -> (r: Result<SectionDirectory, DwgError>)
    ensures
        bytes@.len() < HEADER_OFFSET + HEADER_SIZE ==> r.is_err(),
        r matches Ok(d) ==> d.records@.len() == d.record_count && d.names@.len() == d.records@.len(),
{
    let metadata = parse_container_metadata(bytes)?;
    let mut records: Vec<SectionLocatorRecord> = Vec::new();
    let mut names: Vec<String> = Vec::new();
    let mut i: usize = 0;
    while i < metadata.sections.len()
        invariant
            0 <= i <= metadata.sections@.len(),
            records@.len() == i,
            names@.len() == i,
        decreases metadata.sections@.len() - i,
    {
        let section = &metadata.sections[i];
        records.push(record_for_section(section, &metadata.page_map));
        names.push(text_of_bytes(section.name.as_slice()));
        i = i + 1;
    }
    if records.len() > 0xFFFF_FFFF {
        return Err(DwgError::new(ErrorKind::Format, "too many sections"));
    }
    Ok(SectionDirectory {
        record_count: records.len() as u32,
        records,
        crc: 0,
        sentinel_ok: true,
        names,
    })
}

/// The decoded bytes of the `index`-th section.
pub fn load_section_by_index(bytes: &[u8], directory: &SectionDirectory, index: usize, config: &ParseConfig) -> (r:
    Result<SectionData, DwgError>)
    ensures
        r matches Ok(s) ==> s.data@.len() <= config.max_section_bytes,
{
    let metadata = parse_container_metadata(bytes)?;
    if index >= metadata.sections.len() {
        return Err(DwgError::new(ErrorKind::Format, "section index out of range"));
    }
    let section = &metadata.sections[index];
    let data = load_section_data(bytes, section, &metadata.page_map, config)?;
    let record = if index < directory.records.len() {
        directory.records[index]
    } else {
        record_for_section(section, &metadata.page_map)
    };
    Ok(SectionData { record, data })
}

/// The decoded bytes of the first section named `name`.
pub fn load_named_section_data(bytes: &[u8], config: &ParseConfig, name: &[u8]) -> (r: Result<
    Vec<u8>,
    DwgError,
>)
    ensures
        r matches Ok(v) ==> v@.len() <= config.max_section_bytes,
        r.is_ok() ==> bytes@.len() >= HEADER_OFFSET + HEADER_SIZE,
{
    let metadata = parse_container_metadata(bytes)?;
    let mut i: usize = 0;
    while i < metadata.sections.len()
        invariant
            0 <= i <= metadata.sections@.len(),
            bytes@.len() >= HEADER_OFFSET + HEADER_SIZE,
        decreases metadata.sections@.len() - i,
    {
        if bytes_eq(metadata.sections[i].name.as_slice(), name) {
            return load_section_data(bytes, &metadata.sections[i], &metadata.page_map, config);
        }
        i = i + 1;
    }
    Err(DwgError::new(ErrorKind::Format, "section not found"))
}

/// The objects of `objects` whose record can be read from `data`, in order.
pub open spec fn reachable(objects: Seq<ObjectRef>, data: Seq<u8>) -> Seq<ObjectRef> {
    objects.filter(|o: ObjectRef| record_ok(data, o.offset as int))
}

/// Keeps the objects whose record can be read from `objects_data`, in order.
pub fn filter_reachable(objects: &Vec<ObjectRef>, objects_data: &[u8]) -> (r: Vec<ObjectRef>)
    ensures
        r@ == reachable(objects@, objects_data@),
{
    let mut kept: Vec<ObjectRef> = Vec::new();
    let mut i: usize = 0;
    while i < objects.len()
        invariant
            0 <= i <= objects@.len(),
            kept@ == reachable(objects@.subrange(0, i as int), objects_data@),
        decreases objects@.len() - i,
    {
        let o = objects[i];
        proof {
            assert(objects@.subrange(0, i + 1) =~= objects@.subrange(0, i as int).push(o));
            objects@.subrange(0, i as int).lemma_filter_push(
                o,
                |o: ObjectRef| record_ok(objects_data@, o.offset as int),
            );
        }
        if parse_object_record_owned(objects_data, o.offset).is_ok() {
            kept.push(o);
        }
        i = i + 1;
    }
    assert(objects@.subrange(0, objects@.len() as int) =~= objects@);
    kept
}

/// The objects that a decoded object map lists (empty where it fails).
pub open spec fn idx_map(handles: Seq<u8>, max: int) -> Seq<ObjectRef> {
    match object_map_of(handles, max) {
        Ok(all) => all,
        Err(_) => Seq::empty(),
    }
}

/// The object index from the decoded handles and objects sections: the
/// object map, with each entry kept only where a record can be read at its
/// offset in the objects section, in map order.
pub fn index_from_sections(handles: &[u8], objects: &[u8], max_objects: u32) -> (r: Result<ObjectIndex, DwgError>)
    ensures
        match r {
            Ok(idx) => object_map_of(handles@, max_objects as int) matches Ok(all) && idx.objects@ == reachable(
                all,
                objects@,
            ),
            Err(e) => object_map_of(handles@, max_objects as int) == Err::<Seq<ObjectRef>, ErrorKind>(e.kind),
        },
{
    let index = parse_object_map(handles, max_objects)?;
    let kept = filter_reachable(&index.objects, objects);
    Ok(ObjectIndex::from_objects(kept))
}

/// The object index of an R2004-family file: the `AcDb:Handles` map, with
/// each entry kept only where a record can be read at its offset in
/// `AcDb:AcDbObjects`.
pub fn build_object_index(bytes: &[u8], config: &ParseConfig) -> (r: Result<ObjectIndex, DwgError>)
    ensures
        r.is_ok() ==> bytes@.len() >= HEADER_OFFSET + HEADER_SIZE,
        r matches Ok(idx) ==> exists|handles: Seq<u8>, objects: Seq<u8>|
            object_map_of(handles, config.max_objects as int) is Ok && idx.objects@ == #[trigger] reachable(
                idx_map(handles, config.max_objects as int),
                objects,
            ),
{
    let handles_data = load_named_section_data(bytes, config, &handles_name_bytes())?;
    let objects_data = load_named_section_data(bytes, config, &objects_name_bytes())?;
    let r = index_from_sections(handles_data.as_slice(), objects_data.as_slice(), config.max_objects);
    proof {
        if let Ok(idx) = &r {
            assert(idx.objects@ == reachable(idx_map(handles_data@, config.max_objects as int), objects_data@));
        }
    }
    r
}

/// The record at `offset` of the decoded `AcDb:AcDbObjects` section.
pub fn parse_object_record(bytes: &[u8], offset: u32, config: &ParseConfig) -> (r: Result<
    OwnedObjectRecord,
    DwgError,
>)
    ensures
        r matches Ok(rec) ==> rec.offset == offset && rec.body_bit_pos < 8,
{
    let data = load_named_section_data(bytes, config, &objects_name_bytes())?;
    parse_object_record_owned(data.as_slice(), offset)
}

/// One class of the `AcDb:Classes` section.
#[derive(Debug, Clone)]
pub struct ClassEntry {
    pub class_number: u16,
    /// The DXF name's bytes.
    pub dxf_name: Vec<u8>,
    pub item_class_id: u16,
}

/// The sentinel before the classes.
pub open spec fn classes_sentinel_before() -> Seq<u8> {
    seq![0x8Du8, 0xA1, 0xC4, 0xB8, 0xC4, 0xA9, 0xF8, 0xC5, 0xC0, 0xDC, 0xF4, 0x5F, 0xE7, 0xCF, 0xB6, 0x8A]
}

/// The sentinel after the classes.
pub open spec fn classes_sentinel_after() -> Seq<u8> {
    seq![0x72u8, 0x5E, 0x3B, 0x47, 0x3B, 0x56, 0x07, 0x3A, 0x3F, 0x23, 0x0B, 0xA0, 0x18, 0x30, 0x49, 0x75]
}

pub fn classes_sentinel_before_bytes() -> (r: [u8; 16])
    ensures
        r@ == classes_sentinel_before(),
{
    let r: [u8; 16] = [
        0x8D, 0xA1, 0xC4, 0xB8, 0xC4, 0xA9, 0xF8, 0xC5, 0xC0, 0xDC, 0xF4, 0x5F, 0xE7, 0xCF, 0xB6, 0x8A,
    ];
    assert(r@ =~= classes_sentinel_before());
    r
}

pub fn classes_sentinel_after_bytes() -> (r: [u8; 16])
    ensures
        r@ == classes_sentinel_after(),
{
    let r: [u8; 16] = [
        0x72, 0x5E, 0x3B, 0x47, 0x3B, 0x56, 0x07, 0x3A, 0x3F, 0x23, 0x0B, 0xA0, 0x18, 0x30, 0x49, 0x75,
    ];
    assert(r@ =~= classes_sentinel_after());
    r
}

/// One class record (R2000/R2004 layout).
fn read_class_record(reader: &mut BitReader<'_>) -> (r: Result<ClassEntry, DwgError>)
    requires
        old(reader).wf(),
    ensures
        final(reader).keeps(old(reader)),
        r matches Ok(e) ==> forall|j: int| 0 <= j < e.dxf_name@.len() ==> #[trigger] e.dxf_name@[j] < 0x80,
{
    let class_number = reader.read_bs()?;
    let _proxy_flags = reader.read_bs()?;
    let _app_name = reader.read_tv_bytes()?;
    let _cpp_name = reader.read_tv_bytes()?;
    let dxf_name = reader.read_tv_bytes()?;
    let _zombie = reader.read_b()?;
    let item_class_id = reader.read_bs()?;
    let _instances = reader.read_bl()?;
    let _dwg_version = reader.read_bs()?;
    let _maint_version = reader.read_bs()?;
    let _unknown0 = reader.read_bl()?;
    let _unknown1 = reader.read_bl()?;
    Ok(ClassEntry { class_number, dxf_name, item_class_id })
}

/// Parses the `AcDb:Classes` section (R2000/R2004 layout): a sentinel, a
/// size, the highest class number, then class records until that number or
/// the declared size, a CRC and a closing sentinel.
pub fn parse_classes_section(data: &[u8]) -> (r: Result<Vec<ClassEntry>, DwgError>)
    ensures
        r.is_ok() ==> data@.len() >= 16 && data@.subrange(0, 16) == classes_sentinel_before(),
        data@.len() >= 16 && data@.subrange(0, 16) != classes_sentinel_before() ==> r.is_err()
            && r->Err_0.kind == ErrorKind::Format,
        r matches Ok(v) ==> forall|i: int, j: int|
            0 <= i < v@.len() && 0 <= j < v@[i].dxf_name@.len() ==> #[trigger] v@[i].dxf_name@[j] < 0x80,
{
    if !crate::bit_reader::fits(data) {
        return Err(DwgError::new(ErrorKind::Format, "classes section too large"));
    }
    let mut reader = BitReader::new(data);
    let before = reader.read_rcs(16)?;
    proof {
        assert forall|i: int| 0 <= i < 16 implies before@[i] == data@[i] by {
            assert(crate::bit_reader::rc_at(data@, 8 * i) == data@[i]) by {
                vstd::arithmetic::div_mod::lemma_fundamental_div_mod_converse(8 * i, 8, i, 0);
            }
        }
        assert(data@.subrange(0, 16) =~= before@);
    }
    if !bytes_eq(before.as_slice(), &classes_sentinel_before_bytes()) {
        return Err(DwgError::new(ErrorKind::Format, "classes sentinel (before) mismatch"));
    }
    let size = reader.read_rl(Endian::Little)?;
    let max_class_number = reader.read_bs()?;
    let _zero0 = reader.read_rc()?;
    let _zero1 = reader.read_rc()?;
    let _flag = reader.read_b()?;
    let mut classes: Vec<ClassEntry> = Vec::new();
    let ghost d = data@;
    loop
        invariant
            reader.wf(),
            reader.bytes() == d,
            d == data@,
            data@.len() >= 16 && data@.subrange(0, 16) == classes_sentinel_before(),
            forall|i: int, j: int|
                0 <= i < classes@.len() && 0 <= j < classes@[i].dxf_name@.len() ==> #[trigger] classes@[i].dxf_name@[j]
                    < 0x80,
        decreases d.len() * 8 + 8 - reader.pos(),
    {
        let (byte_pos, _) = reader.get_pos();
        if byte_pos > size as usize {
            break;
        }
        let start = reader.tell_bits();
        let entry = read_class_record(&mut reader)?;
        let (end_byte, _) = reader.get_pos();
        if reader.tell_bits() <= start || end_byte > data.len() {
            return Err(DwgError::new(ErrorKind::Format, "class record makes no progress"));
        }
        let class_number = entry.class_number;
        classes.push(entry);
        if class_number == max_class_number {
            break;
        }
    }
    let _crc = reader.read_crc()?;
    let after = reader.read_rcs(16)?;
    if !bytes_eq(after.as_slice(), &classes_sentinel_after_bytes()) {
        return Err(DwgError::new(ErrorKind::Format, "classes sentinel (after) mismatch"));
    }
    Ok(classes)
}

/// The ASCII upper-case form of a byte.
pub open spec fn upper(b: u8) -> u8 {
    if 0x61 <= b <= 0x7A { (b - 0x20) as u8 } else { b }
}

/// The ASCII upper-case form of a byte string.
pub fn to_ascii_upper(b: &Vec<u8>) -> (r: Vec<u8>)
    ensures
        r@ == b@.map_values(|c: u8| upper(c)),
{
    let mut out: Vec<u8> = Vec::new();
    let mut i: usize = 0;
    while i < b.len()
        invariant
            0 <= i <= b@.len(),
            out@ == b@.subrange(0, i as int).map_values(|c: u8| upper(c)),
        decreases b@.len() - i,
    {
        let c = b[i];
        out.push(if c >= 0x61 && c <= 0x7A { c - 0x20 } else { c });
        assert(out@ =~= b@.subrange(0, i + 1).map_values(|c: u8| upper(c)));
        i = i + 1;
    }
    assert(b@.subrange(0, b@.len() as int) =~= b@);
    out
}

/// Type codes from 500 on, paired with the upper-cased DXF names of the
/// classes in order.
pub fn dynamic_types_of(classes: &Vec<ClassEntry>) -> (r: Vec<(u16, String)>)
    ensures
        r@.len() == if classes@.len() <= 0xFFFF - 500 + 1 { classes@.len() as int } else { 0xFFFF - 500 + 1 },
        forall|i: int| 0 <= i < r@.len() ==> (#[trigger] r@[i]).0 == 500 + i,
        forall|i: int|
            0 <= i < r@.len() && (forall|j: int| 0 <= j < classes@[i].dxf_name@.len() ==> classes@[i].dxf_name@[j] < 0x80)
                ==> (#[trigger] r@[i]).1@ == classes@[i].dxf_name@.map_values(|c: u8| upper(c) as char),
{
    let mut map: Vec<(u16, String)> = Vec::new();
    let mut i: usize = 0;
    while i < classes.len() && i <= 0xFFFF - 500
        invariant
            0 <= i <= classes@.len(),
            map@.len() == i,
            i <= 0xFFFF - 500 + 1,
            forall|j: int| 0 <= j < map@.len() ==> (#[trigger] map@[j]).0 == 500 + j,
            forall|k: int|
                0 <= k < map@.len() && (forall|j: int| 0 <= j < classes@[k].dxf_name@.len() ==> classes@[k].dxf_name@[j] < 0x80)
                    ==> (#[trigger] map@[k]).1@ == classes@[k].dxf_name@.map_values(|c: u8| upper(c) as char),
        decreases classes@.len() - i,
    {
        let upper_name = to_ascii_upper(&classes[i].dxf_name);
        let name = text_of_bytes(upper_name.as_slice());
        proof {
            if forall|j: int| 0 <= j < classes@[i as int].dxf_name@.len() ==> classes@[i as int].dxf_name@[j] < 0x80 {
                assert forall|j: int| 0 <= j < upper_name@.len() implies #[trigger] upper_name@[j] < 0x80 by {
                    assert(classes@[i as int].dxf_name@[j] < 0x80);
                }
                assert(name@ =~= classes@[i as int].dxf_name@.map_values(|c: u8| upper(c) as char));
            }
        }
        map.push(((500 + i) as u16, name));
        i = i + 1;
    }
    map
}

/// The dynamic type codes of an R2004-family file.
pub fn load_dynamic_type_map(bytes: &[u8], config: &ParseConfig) -> (r: Result<Vec<(u16, String)>, DwgError>)
    ensures
        r matches Ok(v) ==> forall|i: int| 0 <= i < v@.len() ==> (#[trigger] v@[i]).0 == 500 + i,
        r matches Ok(v) ==> forall|i: int, j: int|
            0 <= i < v@.len() && 0 <= j < v@[i].1@.len() ==> !('a' <= #[trigger] v@[i].1@[j] <= 'z'),
{
    let data = load_named_section_data(bytes, config, &classes_name_bytes())?;
    let classes = parse_classes_section(data.as_slice())?;
    Ok(dynamic_types_of(&classes))
}

} // verus!

use vstd::prelude::*;
use crate::byte_reader::ByteReader;
use crate::error::{DwgError, ErrorKind};
use crate::objects::{Handle, ObjectIndex, ObjectRef};

verus! {

/// Number of bytes of the modular char at `i`: up to and including the first
/// byte with its top bit clear, at most four.
pub open spec fn mc_len(d: Seq<u8>, i: int) -> int {
    if d[i] < 0x80 {
        1
    } else if d[i + 1] < 0x80 {
        2
    } else if d[i + 2] < 0x80 {
        3
    } else {
        4
    }
}

/// The 7-bit group of byte `i + k`, weighted by its place.
pub open spec fn mc_group(d: Seq<u8>, i: int, k: int) -> int {
    (d[i + k] % 0x80) as int * pow128(k)
}

pub open spec fn pow128(k: int) -> int {
    if k == 0 {
        1
    } else if k == 1 {
        0x80
    } else if k == 2 {
        0x4000
    } else {
        0x20_0000
    }
}

/// Magnitude of the modular char at `i`: the full groups before its last
/// byte, plus the last byte's low six bits (all seven when four bytes all
/// carry the continuation bit).
#[verifier::opaque]
pub open spec fn mc_magnitude(d: Seq<u8>, i: int) -> int {
    let n = mc_len(d, i);
    let last = d[i + n - 1];
    let full = (if n >= 2 { mc_group(d, i, 0) } else { 0 }) + (if n >= 3 {
        mc_group(d, i, 1)
    } else {
        0
    }) + (if n >= 4 { mc_group(d, i, 2) } else { 0 });
    if last < 0x80 {
        full + (last % 0x40) as int * pow128(n - 1)
    } else {
        full + mc_group(d, i, 3)
    }
}

/// Signed value of the modular char at `i`: negative where its last byte
/// has its top bit clear and its 0x40 bit set.
#[verifier::opaque]
pub open spec fn mc_value(d: Seq<u8>, i: int) -> int {
    let last = d[i + mc_len(d, i) - 1];
    if last < 0x80 && last >= 0x40 {
        -mc_magnitude(d, i)
    } else {
        mc_magnitude(d, i)
    }
}

/// The modular char at byte `i` and the byte after it, where all its bytes
/// are present.
pub open spec fn spec_modular_char(d: Seq<u8>, i: int) -> Option<(int, int)> {
    if 0 <= i && i + mc_len(d, i) <= d.len() {
        Some((mc_value(d, i), i + mc_len(d, i)))
    } else {
        None
    }
}

pub proof fn lemma_mc_bounds(d: Seq<u8>, i: int)
    ensures
        -0x1000_0000 < mc_value(d, i) < 0x1000_0000,
        1 <= mc_len(d, i) <= 4,
{
    if d[i] < 0x80 {
        lemma_mc_1(d, i);
    } else if d[i + 1] < 0x80 {
        lemma_mc_2(d, i);
    } else if d[i + 2] < 0x80 {
        lemma_mc_3(d, i);
    } else {
        lemma_mc_4(d, i);
    }
}

/// Sign applied to the magnitude `mag` by a final byte `last`.
pub open spec fn signed(last: u8, mag: int) -> int {
    if last < 0x80 && last >= 0x40 {
        -mag
    } else {
        mag
    }
}

proof fn lemma_mc_1(d: Seq<u8>, i: int)
    requires
        d[i] < 0x80,
    ensures
        mc_len(d, i) == 1,
        mc_value(d, i) == signed(d[i], (d[i] % 0x40) as int),
{
    reveal(mc_magnitude);
    reveal(mc_value);
}

proof fn lemma_mc_2(d: Seq<u8>, i: int)
    requires
        d[i] >= 0x80,
        d[i + 1] < 0x80,
    ensures
        mc_len(d, i) == 2,
        mc_value(d, i) == signed(d[i + 1], (d[i] % 0x80) as int + (d[i + 1] % 0x40) as int * 0x80),
{
    reveal(mc_magnitude);
    reveal(mc_value);
}

proof fn lemma_mc_3(d: Seq<u8>, i: int)
    requires
        d[i] >= 0x80,
        d[i + 1] >= 0x80,
        d[i + 2] < 0x80,
    ensures
        mc_len(d, i) == 3,
        mc_value(d, i) == signed(
            d[i + 2],
            (d[i] % 0x80) as int + (d[i + 1] % 0x80) as int * 0x80 + (d[i + 2] % 0x40) as int * 0x4000,
        ),
{
    reveal(mc_magnitude);
    reveal(mc_value);
}

proof fn lemma_mc_4(d: Seq<u8>, i: int)
    requires
        d[i] >= 0x80,
        d[i + 1] >= 0x80,
        d[i + 2] >= 0x80,
    ensures
        mc_len(d, i) == 4,
        mc_value(d, i) == signed(
            d[i + 3],
            (d[i] % 0x80) as int + (d[i + 1] % 0x80) as int * 0x80 + (d[i + 2] % 0x80) as int * 0x4000
                + (if d[i + 3] < 0x80 { d[i + 3] % 0x40 } else { d[i + 3] % 0x80 }) as int * 0x20_0000,
        ),
{
    reveal(mc_magnitude);
    reveal(mc_value);
}

/// Reads one signed modular char from a byte cursor.
fn read_modular_char(reader: &mut ByteReader<'_>) -> (r: Result<i64, DwgError>)
    requires
        old(reader).wf(),
    ensures
        final(reader).bytes() == old(reader).bytes(),
        final(reader).wf(),
        match r {
            Ok(v) => spec_modular_char(old(reader).bytes(), old(reader).position()) == Some(
                (v as int, final(reader).position()),
            ),
            Err(e) => spec_modular_char(old(reader).bytes(), old(reader).position()).is_none()
                && e.kind == ErrorKind::Io,
        },
{
    let ghost d = reader.bytes();
    let ghost i = reader.position();
    let b0 = reader.read_u8()?;
    if b0 < 0x80 {
        proof {
            lemma_mc_1(d, i);
        }
        let mag = (b0 % 0x40) as i64;
        return Ok(if b0 >= 0x40 { -mag } else { mag });
    }
    let b1 = reader.read_u8()?;
    if b1 < 0x80 {
        proof {
            lemma_mc_2(d, i);
        }
        let mag = (b0 % 0x80) as i64 + (b1 % 0x40) as i64 * 0x80;
        return Ok(if b1 >= 0x40 { -mag } else { mag });
    }
    let b2 = reader.read_u8()?;
    if b2 < 0x80 {
        proof {
            lemma_mc_3(d, i);
        }
        let mag = (b0 % 0x80) as i64 + (b1 % 0x80) as i64 * 0x80 + (b2 % 0x40) as i64 * 0x4000;
        return Ok(if b2 >= 0x40 { -mag } else { mag });
    }
    proof {
        lemma_mc_4(d, i);
    }
    let b3 = reader.read_u8()?;
    let full = (b0 % 0x80) as i64 + (b1 % 0x80) as i64 * 0x80 + (b2 % 0x80) as i64 * 0x4000;
    if b3 < 0x80 {
        let mag = full + (b3 % 0x40) as i64 * 0x20_0000;
        Ok(if b3 >= 0x40 { -mag } else { mag })
    } else {
        Ok(full + (b3 % 0x80) as i64 * 0x20_0000)
    }
}

/// Reads a big-endian 16-bit value from a byte cursor.
fn read_u16_be(reader: &mut ByteReader<'_>) -> (r: Result<u16, DwgError>)
    requires
        old(reader).wf(),
    ensures
        final(reader).bytes() == old(reader).bytes(),
        final(reader).wf(),
        r.is_ok() == (old(reader).position() + 2 <= old(reader).bytes().len()),
        r.is_ok() ==> r->Ok_0 == old(reader).bytes()[old(reader).position()] as int * 0x100
            + old(reader).bytes()[old(reader).position() + 1] as int && final(reader).position()
            == old(reader).position() + 2,
        r.is_err() ==> r->Err_0.kind == ErrorKind::Io,
{
    let hi = reader.read_u8()? as u16;
    let lo = reader.read_u8()? as u16;
    Ok(hi * 0x100 + lo)
}

/// The object-map walk from byte `pos`. Outside a block (`inside` false) it
/// reads a big-endian block size: fewer than two bytes left or a size of 2
/// ends the map; a size below 2 or past the data is a format failure. Inside
/// a block ending at `stop` it reads pairs of modular chars, adds them to the
/// running handle `h` and offset `o`, and appends each object; then it skips
/// the two-byte CRC. A negative total, an offset above `u32::MAX`, or more
/// than `max` objects is a format failure; a pair cut short by the end of the
/// data is an I/O failure.
pub open spec fn map_walk(
    d: Seq<u8>,
    pos: int,
    stop: int,
    inside: bool,
    h: int,
    o: int,
    acc: Seq<ObjectRef>,
    max: int,
) -> Result<Seq<ObjectRef>, ErrorKind>
    decreases d.len() - pos, (if inside { 1int } else { 0int }),
{
    if pos < 0 {
        Err(ErrorKind::Io)
    } else if inside {
        if pos >= stop {
            if d.len() - pos < 2 {
                Ok(acc)
            } else {
                map_walk(d, pos + 2, 0, false, 0, 0, acc, max)
            }
        } else {
            match spec_modular_char(d, pos) {
                None => Err(ErrorKind::Io),
                Some((dh, p1)) => match spec_modular_char(d, p1) {
                    None => Err(ErrorKind::Io),
                    Some((dof, p2)) => {
                        let h2 = h + dh;
                        let o2 = o + dof;
                        if h2 < 0 || o2 < 0 || o2 > u32::MAX || acc.len() + 1 > max {
                            Err(ErrorKind::Format)
                        } else {
                            map_walk(
                                d,
                                p2,
                                stop,
                                true,
                                h2,
                                o2,
                                acc.push(ObjectRef { handle: Handle(h2 as u64), offset: o2 as u32 }),
                                max,
                            )
                        }
                    },
                },
            }
        }
    } else {
        if d.len() - pos < 2 {
            Ok(acc)
        } else {
            let size = d[pos] as int * 0x100 + d[pos + 1] as int;
            if size == 2 {
                Ok(acc)
            } else if size < 2 || d.len() - (pos + 2) < size - 2 {
                Err(ErrorKind::Format)
            } else {
                map_walk(d, pos + 2, pos + size, true, 0, 0, acc, max)
            }
        }
    }
}

/// The objects that the object map in `d` lists, in order.
pub open spec fn object_map_of(d: Seq<u8>, max: int) -> Result<Seq<ObjectRef>, ErrorKind> {
    map_walk(d, 0, 0, false, 0, 0, Seq::empty(), max)
}

/// Decodes the delta-coded object map: blocks of `(handle, offset)` pairs.
pub fn parse_object_map(bytes: &[u8], max_objects: u32) -> (r: Result<ObjectIndex, DwgError>)
    ensures
        match r {
            Ok(idx) => object_map_of(bytes@, max_objects as int) == Ok::<Seq<ObjectRef>, ErrorKind>(
                idx.objects@,
            ),
            Err(e) => object_map_of(bytes@, max_objects as int) == Err::<Seq<ObjectRef>, ErrorKind>(
                e.kind,
            ),
        },
{
    let ghost d = bytes@;
    let ghost max = max_objects as int;
    let mut reader = ByteReader::new(bytes);
    let mut objects: Vec<ObjectRef> = Vec::new();
    loop
        invariant
            reader.wf(),
            reader.bytes() == d,
            d == bytes@,
            max == max_objects as int,
            objects@.len() <= max,
            object_map_of(d, max) == map_walk(d, reader.position(), 0, false, 0, 0, objects@, max),
        decreases d.len() - reader.position(),
    {
        let ghost pos = reader.position();
        if reader.remaining() < 2 {
            assert(map_walk(d, pos, 0, false, 0, 0, objects@, max) == Ok::<Seq<ObjectRef>, ErrorKind>(objects@));
            return Ok(ObjectIndex::from_objects(objects));
        }
        let size = read_u16_be(&mut reader)?;
        if size == 2 {
            assert(map_walk(d, pos, 0, false, 0, 0, objects@, max) == Ok::<Seq<ObjectRef>, ErrorKind>(objects@));
            return Ok(ObjectIndex::from_objects(objects));
        }
        if size < 2 {
            assert(map_walk(d, pos, 0, false, 0, 0, objects@, max) == Err::<Seq<ObjectRef>, ErrorKind>(ErrorKind::Format));
            return Err(DwgError::new(ErrorKind::Format, "object map block size below 2"));
        }
        if reader.remaining() < (size - 2) as usize {
            assert(map_walk(d, pos, 0, false, 0, 0, objects@, max) == Err::<Seq<ObjectRef>, ErrorKind>(ErrorKind::Format));
            return Err(DwgError::new(ErrorKind::Format, "object map block past the data").with_offset(
                reader.tell(),
            ));
        }
        let start = reader.tell();
        let ghost stop = start + size - 2;
        assert(map_walk(d, pos, 0, false, 0, 0, objects@, max) == map_walk(d, start as int, stop, true, 0, 0, objects@, max));
        let mut last_handle: i64 = 0;
        let mut last_offset: i64 = 0;
        while reader.tell() - start < (size - 2) as u64
            invariant
                reader.wf(),
                reader.bytes() == d,
                d == bytes@,
                max == max_objects as int,
                start <= reader.position(),
                stop == start + size - 2,
                size >= 2,
                objects@.len() <= max,
                0 <= last_handle <= objects@.len() * 0x1000_0000,
                0 <= last_offset <= u32::MAX,
                object_map_of(d, max) == map_walk(
                    d,
                    reader.position(),
                    stop,
                    true,
                    last_handle as int,
                    last_offset as int,
                    objects@,
                    max,
                ),
            decreases d.len() - reader.position(),
        {
            proof {
                lemma_mc_bounds(d, reader.position());
                lemma_mc_bounds(d, reader.position() + mc_len(d, reader.position()));
            }
            let ghost pos0 = reader.position();
            let ghost walk = map_walk(d, pos0, stop, true, last_handle as int, last_offset as int, objects@, max);
            let delta_handle = match read_modular_char(&mut reader) {
                Ok(v) => v,
                Err(e) => {
                    assert(walk == Err::<Seq<ObjectRef>, ErrorKind>(ErrorKind::Io));
                    return Err(e);
                },
            };
            let ghost pos1 = reader.position();
            let delta_offset = match read_modular_char(&mut reader) {
                Ok(v) => v,
                Err(e) => {
                    assert(walk == Err::<Seq<ObjectRef>, ErrorKind>(ErrorKind::Io));
                    return Err(e);
                },
            };
            let ghost pos2 = reader.position();
            assert(spec_modular_char(d, pos0) == Some((delta_handle as int, pos1)));
            assert(spec_modular_char(d, pos1) == Some((delta_offset as int, pos2)));
            proof {
                assert(objects@.len() * 0x1000_0000 <= 0xFFFF_FFFF * 0x1000_0000) by (nonlinear_arith)
                    requires
                        objects@.len() <= 0xFFFF_FFFF,
                ;
            }
            let h2 = last_handle + delta_handle;
            let o2 = last_offset + delta_offset;
            if h2 < 0 || o2 < 0 {
                assert(walk == Err::<Seq<ObjectRef>, ErrorKind>(ErrorKind::Format));
                return Err(DwgError::new(ErrorKind::Format, "object map holds a negative handle or offset").with_offset(
                    reader.tell(),
                ));
            }
            if o2 > 0xFFFF_FFFF {
                assert(walk == Err::<Seq<ObjectRef>, ErrorKind>(ErrorKind::Format));
                return Err(DwgError::new(ErrorKind::Format, "object map offset above 32 bits").with_offset(
                    reader.tell(),
                ));
            }
            if objects.len() >= max_objects as usize {
                assert(walk == Err::<Seq<ObjectRef>, ErrorKind>(ErrorKind::Format));
                return Err(DwgError::new(ErrorKind::Format, "object count above the limit"));
            }
            let ghost before = objects@;
            objects.push(ObjectRef { handle: Handle(h2 as u64), offset: o2 as u32 });
            last_handle = h2;
            last_offset = o2;
            assert(walk == map_walk(d, pos2, stop, true, h2 as int, o2 as int, objects@, max));
        }
        let ghost end_pos = reader.position();
        assert(object_map_of(d, max) == map_walk(d, end_pos, stop, true, last_handle as int, last_offset as int, objects@, max));
        if reader.remaining() < 2 {
            assert(map_walk(d, end_pos, stop, true, last_handle as int, last_offset as int, objects@, max) == Ok::<Seq<ObjectRef>, ErrorKind>(objects@));
            return Ok(ObjectIndex::from_objects(objects));
        }
        let _crc = read_u16_be(&mut reader)?;
        assert(map_walk(d, end_pos, stop, true, last_handle as int, last_offset as int, objects@, max) == map_walk(d, end_pos + 2, 0, false, 0, 0, objects@, max));
    }
}

} // verus!

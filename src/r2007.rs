use vstd::prelude::*;
use crate::bit_reader::{fits, text_of_bytes, BitReader, Endian};
use crate::byte_reader::{le64_at, ByteReader};
use crate::error::{DwgError, ErrorKind, ParseConfig};
use crate::object_map::object_map_of;
use crate::object_record::{parse_object_record_owned, OwnedObjectRecord};
use crate::objects::{ObjectIndex, ObjectRef};
use crate::r2004::{
    bytes_eq, classes_name_bytes, classes_sentinel_after_bytes, classes_sentinel_before_bytes,
    dynamic_types_of, handles_name_bytes, idx_map, index_from_sections, reachable, objects_name_bytes, record_no_for_name,
    ClassEntry,
};
use crate::section_directory::{SectionDirectory, SectionLocatorRecord};
use crate::section_loader::SectionData;

verus! {

/// Output byte `j` of a method-4 Reed-Solomon layout of `block_count` blocks
/// of `k` data bytes: block `j / k`, data byte `j % k`, stored column-wise.
pub open spec fn rs_decoded(src: Seq<u8>, k: int, block_count: int) -> Seq<u8> {
    Seq::new((k * block_count) as nat, |j: int| src[block_count * (j % k) + j / k])
}

/// The column-wise layout that method 4 reads: byte `i` holds block
/// `i % block_count`, data byte `i / block_count`.
pub open spec fn rs_interleaved(data: Seq<u8>, k: int, block_count: int) -> Seq<u8> {
    Seq::new((k * block_count) as nat, |i: int| data[(i % block_count) * k + i / block_count])
}

/// De-interleaves `block_count` Reed-Solomon blocks of `k` data bytes.
/// Method 4 reads the column-wise layout, method 1 a flat prefix; parity is
/// not checked.
pub fn decode_reed_solomon(src: &[u8], k: usize, block_count: usize, method: u8) -> (r: Result<
    Vec<u8>,
    DwgError,
>)
    ensures
        k * block_count > usize::MAX ==> r.is_err(),
        k * block_count == 0 ==> (r matches Ok(v) && v@.len() == 0),
        0 < k * block_count <= usize::MAX && src@.len() < k * block_count ==> r.is_err()
            && r->Err_0.kind == ErrorKind::Decode,
        0 < k * block_count <= src@.len() ==> {
            &&& method == 4 ==> (r matches Ok(v) && v@ == rs_decoded(src@, k as int, block_count as int))
            &&& method == 1 ==> (r matches Ok(v) && v@ == src@.subrange(0, k * block_count))
            &&& method != 4 && method != 1 ==> r.is_err() && r->Err_0.kind == ErrorKind::NotImplemented
        },
{
    let src_len = src.len();
    if k != 0 && block_count > usize::MAX / k {
        proof {
            assert(k * block_count > usize::MAX) by (nonlinear_arith)
                requires
                    k > 0,
                    block_count > usize::MAX / k,
            ;
        }
        return Err(DwgError::new(ErrorKind::Decode, "Reed-Solomon output size overflow"));
    }
    proof {
        if k != 0 {
            assert(k * block_count <= usize::MAX) by (nonlinear_arith)
                requires
                    k > 0,
                    block_count <= usize::MAX / k,
            ;
        }
    }
    let output_size = k * block_count;
    if output_size == 0 {
        return Ok(Vec::new());
    }
    if src_len < output_size {
        return Err(DwgError::new(ErrorKind::Decode, "Reed-Solomon input shorter than its layout"));
    }
    if method == 1 {
        return Ok(vstd::slice::slice_to_vec(&src[0..output_size]));
    }
    if method != 4 {
        return Err(DwgError::not_implemented("unsupported Reed-Solomon method"));
    }
    proof {
        if k == 0 {
            assert(k * block_count == 0) by (nonlinear_arith)
                requires
                    k == 0,
            ;
        }
    }
    let ghost want = rs_decoded(src@, k as int, block_count as int);
    let mut out: Vec<u8> = Vec::new();
    let mut bc: usize = 0;
    while bc < block_count
        invariant
            0 <= bc <= block_count,
            k > 0,
            output_size == k * block_count,
            output_size <= src@.len(),
            want == rs_decoded(src@, k as int, block_count as int),
            out@.len() == bc * k,
            forall|j: int| 0 <= j < out@.len() ==> #[trigger] out@[j] == want[j],
        decreases block_count - bc,
    {
        let mut idx: usize = 0;
        while idx < k
            invariant
                0 <= bc < block_count,
                0 <= idx <= k,
                k > 0,
                output_size == k * block_count,
                output_size <= src@.len(),
                want == rs_decoded(src@, k as int, block_count as int),
                out@.len() == bc * k + idx,
                forall|j: int| 0 <= j < out@.len() ==> #[trigger] out@[j] == want[j],
            decreases k - idx,
        {
            proof {
                let j = bc * k + idx;
                vstd::arithmetic::div_mod::lemma_fundamental_div_mod_converse(j, k as int, bc as int, idx as int);
                assert(block_count * idx + bc < k * block_count) by (nonlinear_arith)
                    requires
                        0 <= idx < k,
                        0 <= bc < block_count,
                ;
                assert(j < k * block_count) by (nonlinear_arith)
                    requires
                        j == bc * k + idx,
                        0 <= idx < k,
                        0 <= bc < block_count,
                ;
            }
            out.push(src[block_count * idx + bc]);
            idx = idx + 1;
        }
        proof {
            assert((bc + 1) * k == bc * k + k) by (nonlinear_arith);
        }
        bc = bc + 1;
    }
    proof {
        assert(bc * k == k * bc) by (nonlinear_arith);
        assert(out@.len() == want.len());
        assert(out@ =~= want);
    }
    Ok(out)
}

/// Method-4 de-interleaving undoes the column-wise layout: for uncorrupted
/// blocks, reading back what was laid out gives the data unchanged.
pub proof fn lemma_rs_layout_round_trip(data: Seq<u8>, k: int, block_count: int)
    requires
        k > 0,
        block_count > 0,
        data.len() == k * block_count,
    ensures
        rs_decoded(rs_interleaved(data, k, block_count), k, block_count) == data,
{
    let laid = rs_interleaved(data, k, block_count);
    let back = rs_decoded(laid, k, block_count);
    assert forall|j: int| 0 <= j < data.len() implies #[trigger] back[j] == data[j] by {
        let b = j / k;
        let x = j % k;
        vstd::arithmetic::div_mod::lemma_fundamental_div_mod(j, k);
        assert(0 <= b < block_count) by (nonlinear_arith)
            requires
                j == k * b + x,
                0 <= x < k,
                0 <= j < k * block_count,
                k > 0,
        ;
        let i = block_count * x + b;
        assert(0 <= i < k * block_count) by (nonlinear_arith)
            requires
                i == block_count * x + b,
                0 <= x < k,
                0 <= b < block_count,
        ;
        vstd::arithmetic::div_mod::lemma_fundamental_div_mod_converse(i, block_count, x, b);
        assert(laid[i] == data[b * k + x]);
        assert(b * k + x == j) by (nonlinear_arith)
            requires
                j == k * b + x,
        ;
    }
    assert(back =~= data);
}

/// `value` rounded up to a multiple of `align`.
pub fn align_up(value: u64, align: u64) -> (r: Result<u64, DwgError>)
    ensures
        align == 0 ==> r.is_err(),
        align > 0 && value + align - 1 > u64::MAX ==> r.is_err(),
        align > 0 && value + align - 1 <= u64::MAX ==> (r matches Ok(v) && v == (value + align - 1) / (
        align as int) * align),
{
    if align == 0 {
        return Err(DwgError::new(ErrorKind::Format, "alignment must be non-zero"));
    }
    if value > u64::MAX - (align - 1) {
        return Err(DwgError::new(ErrorKind::Format, "alignment overflow"));
    }
    let adjusted = value + (align - 1);
    let q = adjusted / align;
    proof {
        vstd::arithmetic::div_mod::lemma_fundamental_div_mod(adjusted as int, align as int);
        assert(q * align <= adjusted) by (nonlinear_arith)
            requires
                adjusted == align * q + adjusted % align,
                0 <= adjusted % align,
        ;
    }
    Ok(q * align)
}

/// `value / divisor` rounded up; 0 for 0.
pub fn div_ceil(value: u64, divisor: u64) -> (r: u64)
    requires
        divisor > 0,
    ensures
        value == 0 ==> r == 0,
        value > 0 ==> r == (value - 1) / (divisor as int) + 1,
{
    if value == 0 {
        return 0;
    }
    (value - 1) / divisor + 1
}

fn read_byte(src: &[u8], idx: &mut usize) -> (r: Result<u8, DwgError>)
    ensures
        r.is_ok() == (*old(idx) < src@.len()),
        r matches Ok(b) ==> b == src@[*old(idx) as int] && *final(idx) == *old(idx) + 1,
        r.is_err() ==> *final(idx) == *old(idx) && r->Err_0.kind == ErrorKind::Decode,
{
    if *idx >= src.len() {
        return Err(DwgError::new(ErrorKind::Decode, "compressed stream read past its end"));
    }
    let b = src[*idx];
    *idx = *idx + 1;
    Ok(b)
}

/// Bound on one literal or back-reference run.
pub const MAX_RUN: usize = 0xFFFF_FFF;

/// The literal length for `opcode`: `opcode + 8`, where 0x17 is extended by
/// the next byte and, when that byte is 0xFF, by little-endian 16-bit words
/// until one is not 0xFFFF.
fn read_literal_length(src: &[u8], src_idx: usize, opcode: usize) -> (r: Result<(usize, usize), DwgError>)
    requires
        opcode < 0x100,
    ensures
        r.is_err() ==> r->Err_0.kind == ErrorKind::Decode,
        r matches Ok((len, idx)) ==> src_idx <= idx <= src@.len() || (idx == src_idx),
        r matches Ok((len, idx)) ==> len >= 8 && len <= MAX_RUN && idx >= src_idx,
{
    let mut idx = src_idx;
    let mut length = opcode + 8;
    if length == 0x17 {
        let mut n = read_byte(src, &mut idx)? as usize;
        length = length + n;
        if n == 0xFF {
            loop
                invariant
                    src_idx < idx <= src@.len(),
                    length <= MAX_RUN,
                    length >= 8,
                decreases src@.len() - idx,
            {
                let lo = read_byte(src, &mut idx)? as usize;
                let hi = read_byte(src, &mut idx)? as usize;
                n = lo + hi * 0x100;
                if length > MAX_RUN - n {
                    return Err(DwgError::new(ErrorKind::Decode, "literal run too long"));
                }
                length = length + n;
                if n != 0xFFFF {
                    break;
                }
            }
        }
    }
    Ok((length, idx))
}

/// Whether `b` equals `a` except possibly at positions `lo..hi`.
pub open spec fn same_outside(a: Seq<u8>, b: Seq<u8>, lo: int, hi: int) -> bool {
    a.len() == b.len() && forall|i: int| 0 <= i < a.len() && !(lo <= i < hi) ==> #[trigger] b[i] == a[i]
}

/// Changes confined to a window stay confined to any window around it.
pub broadcast proof fn lemma_same_outside_trans(a: Seq<u8>, b: Seq<u8>, c: Seq<u8>, lo: int, hi: int, lo2: int, hi2: int)
    requires
        #[trigger] same_outside(a, b, lo, hi),
        #[trigger] same_outside(b, c, lo2, hi2),
        lo <= lo2,
        hi2 <= hi,
    ensures
        same_outside(a, c, lo, hi),
{
}

/// Writes `src[at]` at `*out` and moves `*out` on.
fn copy_1b(src: &[u8], at: usize, dst: &mut Vec<u8>, out: &mut usize) -> (r: Result<(), DwgError>)
    ensures
        final(dst)@.len() == old(dst)@.len(),
        r.is_ok() == (at < src@.len() && *old(out) < old(dst)@.len()),
        r.is_ok() ==> *final(out) == *old(out) + 1 && final(dst)@ == old(dst)@.update(
            *old(out) as int,
            src@[at as int],
        ),
        same_outside(old(dst)@, final(dst)@, *old(out) as int, *old(out) + 1),
        r.is_err() ==> r->Err_0.kind == ErrorKind::Decode,
{
    if at >= src.len() || *out >= dst.len() {
        return Err(DwgError::new(ErrorKind::Decode, "literal copy out of range"));
    }
    dst.set(*out, src[at]);
    *out = *out + 1;
    Ok(())
}

/// Copies `length` bytes from `src[at..]` to `dst[*out..]` in order.
fn copy_bytes_direct(src: &[u8], at: usize, length: usize, dst: &mut Vec<u8>, out: &mut usize) -> (r: Result<
    (),
    DwgError,
>)
    ensures
        final(dst)@.len() == old(dst)@.len(),
        r.is_ok() == (at + length <= src@.len() && *old(out) + length <= old(dst)@.len()),
        r.is_ok() ==> *final(out) == *old(out) + length,
        r.is_ok() ==> forall|k: int| 0 <= k < length ==> #[trigger] final(dst)@[*old(out) + k] == src@[at + k],
        same_outside(old(dst)@, final(dst)@, *old(out) as int, *old(out) + length),
        r.is_err() ==> r->Err_0.kind == ErrorKind::Decode,
{
    if at > src.len() || length > src.len() - at || *out > dst.len() || length > dst.len() - *out {
        return Err(DwgError::new(ErrorKind::Decode, "literal copy out of range"));
    }
    let mut k: usize = 0;
    while k < length
        invariant
            0 <= k <= length,
            src@.len() <= usize::MAX,
            dst@.len() <= usize::MAX,
            at + length <= src@.len(),
            *old(out) + length <= dst@.len(),
            dst@.len() == old(dst)@.len(),
            *out == *old(out),
            same_outside(old(dst)@, dst@, *old(out) as int, *old(out) + length),
            forall|j: int| 0 <= j < k ==> #[trigger] dst@[*old(out) + j] == src@[at + j],
        decreases length - k,
    {
        dst.set(*out + k, src[at + k]);
        k = k + 1;
    }
    *out = *out + length;
    Ok(())
}

/// Two bytes, the later one first.
fn copy_2b(src: &[u8], at: usize, dst: &mut Vec<u8>, out: &mut usize) -> (r: Result<(), DwgError>)
    ensures
        r.is_ok() ==> at + 2 <= src@.len() && *old(out) + 2 <= old(dst)@.len(),
        r.is_ok() ==> final(dst)@[*old(out) as int] == src@[at + 1] && final(dst)@[*old(out) + 1] == src@[at as int],
        final(dst)@.len() == old(dst)@.len(),
        at + 2 <= src@.len() && *old(out) + 2 <= old(dst)@.len() ==> r.is_ok(),
        same_outside(old(dst)@, final(dst)@, *old(out) as int, *old(out) + 2),
        r.is_ok() ==> *final(out) == *old(out) + 2,
        r.is_err() ==> r->Err_0.kind == ErrorKind::Decode,
{
    if src.len() < 2 || at > src.len() - 2 {
        return Err(DwgError::new(ErrorKind::Decode, "literal copy out of range"));
    }
    copy_1b(src, at + 1, dst, out)?;
    copy_1b(src, at, dst, out)
}

/// Three bytes in reverse order.
fn copy_3b(src: &[u8], at: usize, dst: &mut Vec<u8>, out: &mut usize) -> (r: Result<(), DwgError>)
    ensures
        r.is_ok() ==> at + 3 <= src@.len() && *old(out) + 3 <= old(dst)@.len(),
        r.is_ok() ==> final(dst)@[*old(out) as int] == src@[at + 2] && final(dst)@[*old(out) + 1] == src@[at + 1]
            && final(dst)@[*old(out) + 2] == src@[at as int],
        final(dst)@.len() == old(dst)@.len(),
        at + 3 <= src@.len() && *old(out) + 3 <= old(dst)@.len() ==> r.is_ok(),
        same_outside(old(dst)@, final(dst)@, *old(out) as int, *old(out) + 3),
        r.is_ok() ==> *final(out) == *old(out) + 3,
        r.is_err() ==> r->Err_0.kind == ErrorKind::Decode,
{
    if src.len() < 3 || at > src.len() - 3 {
        return Err(DwgError::new(ErrorKind::Decode, "literal copy out of range"));
    }
    copy_1b(src, at + 2, dst, out)?;
    copy_1b(src, at + 1, dst, out)?;
    copy_1b(src, at, dst, out)
}

fn copy_4b(src: &[u8], at: usize, dst: &mut Vec<u8>, out: &mut usize) -> (r: Result<(), DwgError>)
    ensures
        r.is_ok() ==> forall|k: int| 0 <= k < 4 ==> #[trigger] final(dst)@[*old(out) + k] == src@[at + k],
        final(dst)@.len() == old(dst)@.len(),
        r.is_ok() == (at + 4 <= src@.len() && *old(out) + 4 <= old(dst)@.len()),
        same_outside(old(dst)@, final(dst)@, *old(out) as int, *old(out) + 4),
        r.is_ok() ==> *final(out) == *old(out) + 4,
        r.is_err() ==> r->Err_0.kind == ErrorKind::Decode,
{
    copy_bytes_direct(src, at, 4, dst, out)
}

fn copy_8b(src: &[u8], at: usize, dst: &mut Vec<u8>, out: &mut usize) -> (r: Result<(), DwgError>)
    ensures
        r.is_ok() ==> forall|k: int| 0 <= k < 8 ==> #[trigger] final(dst)@[*old(out) + k] == src@[at + k],
        final(dst)@.len() == old(dst)@.len(),
        r.is_ok() == (at + 8 <= src@.len() && *old(out) + 8 <= old(dst)@.len()),
        same_outside(old(dst)@, final(dst)@, *old(out) as int, *old(out) + 8),
        r.is_ok() ==> *final(out) == *old(out) + 8,
        r.is_err() ==> r->Err_0.kind == ErrorKind::Decode,
{
    copy_bytes_direct(src, at, 8, dst, out)
}

/// Sixteen bytes: the second eight first.
fn copy_16b(src: &[u8], at: usize, dst: &mut Vec<u8>, out: &mut usize) -> (r: Result<(), DwgError>)
    ensures
        r.is_ok() ==> at + 16 <= src@.len() && *old(out) + 16 <= old(dst)@.len(),
        r.is_ok() ==> forall|k: int| 0 <= k < 8 ==> #[trigger] final(dst)@[*old(out) + k] == src@[at + 8 + k],
        r.is_ok() ==> forall|k: int| 8 <= k < 16 ==> #[trigger] final(dst)@[*old(out) + k] == src@[at + k - 8],
        final(dst)@.len() == old(dst)@.len(),
        at + 16 <= src@.len() && *old(out) + 16 <= old(dst)@.len() ==> r.is_ok(),
        same_outside(old(dst)@, final(dst)@, *old(out) as int, *old(out) + 16),
        r.is_ok() ==> *final(out) == *old(out) + 16,
        r.is_err() ==> r->Err_0.kind == ErrorKind::Decode,
{
    if src.len() < 16 || at > src.len() - 16 {
        return Err(DwgError::new(ErrorKind::Decode, "literal copy out of range"));
    }
    let ghost o0 = *out as int;
    copy_8b(src, at + 8, dst, out)?;
    let ghost o1 = *out as int;
    let res = copy_8b(src, at, dst, out);
    proof {
        if res.is_ok() {
            assert forall|k: int| 8 <= k < 16 implies #[trigger] dst@[o0 + k] == src@[at + k - 8] by {
                assert(o0 + k == o1 + (k - 8));
                assert(dst@[o1 + (k - 8)] == src@[at + (k - 8)]);
            }
        }
    }
    res
}

/// For a literal run of `m` bytes (below 32), the source position of output
/// byte `k`: the run is moved in fixed pieces of 1, 2, 3, 4, 8 or 16 bytes,
/// the 2- and 3-byte pieces reversed and a 16-byte piece as its upper eight
/// bytes, then its lower eight.
pub open spec fn remainder_src(m: int, k: int) -> int {
    if m == 0 {
        0
    } else if m == 1 {
        if k < 1 {
            k
        } else {
            0
        }
    } else if m == 2 {
        if k < 2 {
            1 - k
        } else {
            0
        }
    } else if m == 3 {
        if k < 3 {
            2 - k
        } else {
            0
        }
    } else if m == 4 {
        if k < 4 {
            k
        } else {
            0
        }
    } else if m == 5 {
        if k < 1 {
            4 + k
        } else if k < 5 {
            k - 1
        } else {
            0
        }
    } else if m == 6 {
        if k < 1 {
            5 + k
        } else if k < 5 {
            1 + (k - 1)
        } else if k < 6 {
            k - 5
        } else {
            0
        }
    } else if m == 7 {
        if k < 2 {
            6 - k
        } else if k < 6 {
            1 + (k - 2)
        } else if k < 7 {
            k - 6
        } else {
            0
        }
    } else if m == 8 {
        if k < 4 {
            k
        } else if k < 8 {
            4 + (k - 4)
        } else {
            0
        }
    } else if m == 9 {
        if k < 1 {
            8 + k
        } else if k < 9 {
            k - 1
        } else {
            0
        }
    } else if m == 10 {
        if k < 1 {
            9 + k
        } else if k < 9 {
            1 + (k - 1)
        } else if k < 10 {
            k - 9
        } else {
            0
        }
    } else if m == 11 {
        if k < 2 {
            10 - k
        } else if k < 10 {
            1 + (k - 2)
        } else if k < 11 {
            k - 10
        } else {
            0
        }
    } else if m == 12 {
        if k < 4 {
            8 + k
        } else if k < 12 {
            k - 4
        } else {
            0
        }
    } else if m == 13 {
        if k < 1 {
            12 + k
        } else if k < 5 {
            8 + (k - 1)
        } else if k < 13 {
            k - 5
        } else {
            0
        }
    } else if m == 14 {
        if k < 1 {
            13 + k
        } else if k < 5 {
            9 + (k - 1)
        } else if k < 13 {
            1 + (k - 5)
        } else if k < 14 {
            k - 13
        } else {
            0
        }
    } else if m == 15 {
        if k < 2 {
            14 - k
        } else if k < 6 {
            9 + (k - 2)
        } else if k < 14 {
            1 + (k - 6)
        } else if k < 15 {
            k - 14
        } else {
            0
        }
    } else if m == 16 {
        if k < 8 {
            8 + k
        } else if k < 16 {
            k - 8
        } else {
            0
        }
    } else if m == 17 {
        if k < 8 {
            9 + k
        } else if k < 9 {
            8 + (k - 8)
        } else if k < 17 {
            k - 9
        } else {
            0
        }
    } else if m == 18 {
        if k < 1 {
            17 + k
        } else if k < 9 {
            9 + (k - 1)
        } else if k < 17 {
            1 + (k - 9)
        } else if k < 18 {
            k - 17
        } else {
            0
        }
    } else if m == 19 {
        if k < 3 {
            18 - k
        } else if k < 11 {
            8 + (k - 3)
        } else if k < 19 {
            k - 11
        } else {
            0
        }
    } else if m == 20 {
        if k < 4 {
            16 + k
        } else if k < 12 {
            8 + (k - 4)
        } else if k < 20 {
            k - 12
        } else {
            0
        }
    } else if m == 21 {
        if k < 1 {
            20 + k
        } else if k < 5 {
            16 + (k - 1)
        } else if k < 13 {
            8 + (k - 5)
        } else if k < 21 {
            k - 13
        } else {
            0
        }
    } else if m == 22 {
        if k < 2 {
            21 - k
        } else if k < 6 {
            16 + (k - 2)
        } else if k < 14 {
            8 + (k - 6)
        } else if k < 22 {
            k - 14
        } else {
            0
        }
    } else if m == 23 {
        if k < 3 {
            22 - k
        } else if k < 7 {
            16 + (k - 3)
        } else if k < 15 {
            8 + (k - 7)
        } else if k < 23 {
            k - 15
        } else {
            0
        }
    } else if m == 24 {
        if k < 8 {
            16 + k
        } else if k < 16 {
            8 + (k - 8)
        } else if k < 24 {
            k - 16
        } else {
            0
        }
    } else if m == 25 {
        if k < 8 {
            17 + k
        } else if k < 9 {
            16 + (k - 8)
        } else if k < 17 {
            8 + (k - 9)
        } else if k < 25 {
            k - 17
        } else {
            0
        }
    } else if m == 26 {
        if k < 1 {
            25 + k
        } else if k < 9 {
            17 + (k - 1)
        } else if k < 10 {
            16 + (k - 9)
        } else if k < 18 {
            8 + (k - 10)
        } else if k < 26 {
            k - 18
        } else {
            0
        }
    } else if m == 27 {
        if k < 2 {
            26 - k
        } else if k < 10 {
            17 + (k - 2)
        } else if k < 11 {
            16 + (k - 10)
        } else if k < 19 {
            8 + (k - 11)
        } else if k < 27 {
            k - 19
        } else {
            0
        }
    } else if m == 28 {
        if k < 4 {
            24 + k
        } else if k < 12 {
            16 + (k - 4)
        } else if k < 20 {
            8 + (k - 12)
        } else if k < 28 {
            k - 20
        } else {
            0
        }
    } else if m == 29 {
        if k < 1 {
            28 + k
        } else if k < 5 {
            24 + (k - 1)
        } else if k < 13 {
            16 + (k - 5)
        } else if k < 21 {
            8 + (k - 13)
        } else if k < 29 {
            k - 21
        } else {
            0
        }
    } else if m == 30 {
        if k < 2 {
            29 - k
        } else if k < 6 {
            24 + (k - 2)
        } else if k < 14 {
            16 + (k - 6)
        } else if k < 22 {
            8 + (k - 14)
        } else if k < 30 {
            k - 22
        } else {
            0
        }
    } else if m == 31 {
        if k < 1 {
            30 + k
        } else if k < 5 {
            26 + (k - 1)
        } else if k < 13 {
            18 + (k - 5)
        } else if k < 21 {
            10 + (k - 13)
        } else if k < 29 {
            2 + (k - 21)
        } else if k < 31 {
            1 - (k - 29)
        } else {
            0
        }
    } else {
        0
    }
}

/// For output byte `r` of a 32-byte block, its source position: the block's
/// four 8-byte quarters come out in the order 3, 2, 1, 0.
pub open spec fn block_src(r: int) -> int {
    if r < 8 {
        24 + r
    } else if r < 16 {
        8 + r
    } else if r < 24 {
        r - 8
    } else {
        r - 24
    }
}

/// The source position of output byte `k` of a literal run of `len` bytes:
/// whole 32-byte blocks first, then the remainder.
pub open spec fn literal_src(len: int, k: int) -> int {
    let full = len / 32 * 32;
    if k < full {
        k / 32 * 32 + block_src(k % 32)
    } else {
        full + remainder_src(len - full, k - full)
    }
}

/// How a literal run lands in the output.
pub open spec fn literal_layout(run: Seq<u8>) -> Seq<u8> {
    Seq::new(run.len(), |k: int| run[literal_src(run.len() as int, k)])
}

/// Copies the last `m` bytes (1 to 15) of a literal run in its fixed pieces.
#[verifier::rlimit(100)]
fn copy_remainder_short(src: &[u8], at: usize, m: usize, dst: &mut Vec<u8>, out: &mut usize) -> (r: Result<(), DwgError>)
    requires
        1 <= m < 16,
        at <= src@.len() + MAX_RUN,
        src@.len() <= usize::MAX - MAX_RUN - 64,
    ensures
        r.is_ok() ==> at + m <= src@.len() && *old(out) + m <= old(dst)@.len(),
        r.is_err() ==> r->Err_0.kind == ErrorKind::Decode,
        final(dst)@.len() == old(dst)@.len(),
        at + m <= src@.len() && *old(out) + m <= old(dst)@.len() ==> r.is_ok(),
        same_outside(old(dst)@, final(dst)@, *old(out) as int, *old(out) + m),
        r.is_ok() ==> forall|k: int|
            0 <= k < m ==> #[trigger] final(dst)@[*old(out) + k] == src@[at + remainder_src(m as int, k)],
{
    broadcast use lemma_same_outside_trans;
    let ghost o0 = *out as int;
    if m == 1 {
        let ghost c0 = *out as int;
        copy_1b(src, at, dst, out)?;
        proof {
            assert forall|k: int| 0 <= k < 1 implies #[trigger] dst@[o0 + k] == src@[at + remainder_src(1, k)] by {
                if k < 1 {
                    assert(o0 + k == c0 + (k - 0));
                    assert(dst@[c0 + (k - 0)] == src@[at + remainder_src(1, k)]);
                }
            }
        }
    } else if m == 2 {
        let ghost c0 = *out as int;
        copy_2b(src, at, dst, out)?;
        proof {
            assert forall|k: int| 0 <= k < 2 implies #[trigger] dst@[o0 + k] == src@[at + remainder_src(2, k)] by {
                if k < 1 {
                    assert(o0 + k == c0 + (k - 0));
                    assert(dst@[c0 + (k - 0)] == src@[at + remainder_src(2, k)]);
                } else if k < 2 {
                    assert(o0 + k == c0 + (k - 0));
                    assert(dst@[c0 + (k - 0)] == src@[at + remainder_src(2, k)]);
                }
            }
        }
    } else if m == 3 {
        let ghost c0 = *out as int;
        copy_3b(src, at, dst, out)?;
        proof {
            assert forall|k: int| 0 <= k < 3 implies #[trigger] dst@[o0 + k] == src@[at + remainder_src(3, k)] by {
                if k < 1 {
                    assert(o0 + k == c0 + (k - 0));
                    assert(dst@[c0 + (k - 0)] == src@[at + remainder_src(3, k)]);
                } else if k < 2 {
                    assert(o0 + k == c0 + (k - 0));
                    assert(dst@[c0 + (k - 0)] == src@[at + remainder_src(3, k)]);
                } else if k < 3 {
                    assert(o0 + k == c0 + (k - 0));
                    assert(dst@[c0 + (k - 0)] == src@[at + remainder_src(3, k)]);
                }
            }
        }
    } else if m == 4 {
        let ghost c0 = *out as int;
        copy_4b(src, at, dst, out)?;
        proof {
            assert forall|k: int| 0 <= k < 4 implies #[trigger] dst@[o0 + k] == src@[at + remainder_src(4, k)] by {
                if k < 4 {
                    assert(o0 + k == c0 + (k - 0));
                    assert(dst@[c0 + (k - 0)] == src@[at + remainder_src(4, k)]);
                }
            }
        }
    } else if m == 5 {
        let ghost c0 = *out as int;
        copy_1b(src, at + 4, dst, out)?;
        let ghost c1 = *out as int;
        copy_4b(src, at, dst, out)?;
        proof {
            assert forall|k: int| 0 <= k < 5 implies #[trigger] dst@[o0 + k] == src@[at + remainder_src(5, k)] by {
                if k < 1 {
                    assert(o0 + k == c0 + (k - 0));
                    assert(dst@[c0 + (k - 0)] == src@[at + remainder_src(5, k)]);
                } else if k < 5 {
                    assert(o0 + k == c1 + (k - 1));
                    assert(dst@[c1 + (k - 1)] == src@[at + remainder_src(5, k)]);
                }
            }
        }
    } else if m == 6 {
        let ghost c0 = *out as int;
        copy_1b(src, at + 5, dst, out)?;
        let ghost c1 = *out as int;
        copy_4b(src, at + 1, dst, out)?;
        let ghost c2 = *out as int;
        copy_1b(src, at, dst, out)?;
        proof {
            assert forall|k: int| 0 <= k < 6 implies #[trigger] dst@[o0 + k] == src@[at + remainder_src(6, k)] by {
                if k < 1 {
                    assert(o0 + k == c0 + (k - 0));
                    assert(dst@[c0 + (k - 0)] == src@[at + remainder_src(6, k)]);
                } else if k < 5 {
                    assert(o0 + k == c1 + (k - 1));
                    assert(dst@[c1 + (k - 1)] == src@[at + remainder_src(6, k)]);
                } else if k < 6 {
                    assert(o0 + k == c2 + (k - 5));
                    assert(dst@[c2 + (k - 5)] == src@[at + remainder_src(6, k)]);
                }
            }
        }
    } else if m == 7 {
        let ghost c0 = *out as int;
        copy_2b(src, at + 5, dst, out)?;
        let ghost c1 = *out as int;
        copy_4b(src, at + 1, dst, out)?;
        let ghost c2 = *out as int;
        copy_1b(src, at, dst, out)?;
        proof {
            assert forall|k: int| 0 <= k < 7 implies #[trigger] dst@[o0 + k] == src@[at + remainder_src(7, k)] by {
                if k < 1 {
                    assert(o0 + k == c0 + (k - 0));
                    assert(dst@[c0 + (k - 0)] == src@[at + remainder_src(7, k)]);
                } else if k < 2 {
                    assert(o0 + k == c0 + (k - 0));
                    assert(dst@[c0 + (k - 0)] == src@[at + remainder_src(7, k)]);
                } else if k < 6 {
                    assert(o0 + k == c1 + (k - 2));
                    assert(dst@[c1 + (k - 2)] == src@[at + remainder_src(7, k)]);
                } else if k < 7 {
                    assert(o0 + k == c2 + (k - 6));
                    assert(dst@[c2 + (k - 6)] == src@[at + remainder_src(7, k)]);
                }
            }
        }
    } else if m == 8 {
        let ghost c0 = *out as int;
        copy_4b(src, at, dst, out)?;
        let ghost c1 = *out as int;
        copy_4b(src, at + 4, dst, out)?;
        proof {
            assert forall|k: int| 0 <= k < 8 implies #[trigger] dst@[o0 + k] == src@[at + remainder_src(8, k)] by {
                if k < 4 {
                    assert(o0 + k == c0 + (k - 0));
                    assert(dst@[c0 + (k - 0)] == src@[at + remainder_src(8, k)]);
                } else if k < 8 {
                    assert(o0 + k == c1 + (k - 4));
                    assert(dst@[c1 + (k - 4)] == src@[at + remainder_src(8, k)]);
                }
            }
        }
    } else if m == 9 {
        let ghost c0 = *out as int;
        copy_1b(src, at + 8, dst, out)?;
        let ghost c1 = *out as int;
        copy_8b(src, at, dst, out)?;
        proof {
            assert forall|k: int| 0 <= k < 9 implies #[trigger] dst@[o0 + k] == src@[at + remainder_src(9, k)] by {
                if k < 1 {
                    assert(o0 + k == c0 + (k - 0));
                    assert(dst@[c0 + (k - 0)] == src@[at + remainder_src(9, k)]);
                } else if k < 9 {
                    assert(o0 + k == c1 + (k - 1));
                    assert(dst@[c1 + (k - 1)] == src@[at + remainder_src(9, k)]);
                }
            }
        }
    } else if m == 10 {
        let ghost c0 = *out as int;
        copy_1b(src, at + 9, dst, out)?;
        let ghost c1 = *out as int;
        copy_8b(src, at + 1, dst, out)?;
        let ghost c2 = *out as int;
        copy_1b(src, at, dst, out)?;
        proof {
            assert forall|k: int| 0 <= k < 10 implies #[trigger] dst@[o0 + k] == src@[at + remainder_src(10, k)] by {
                if k < 1 {
                    assert(o0 + k == c0 + (k - 0));
                    assert(dst@[c0 + (k - 0)] == src@[at + remainder_src(10, k)]);
                } else if k < 9 {
                    assert(o0 + k == c1 + (k - 1));
                    assert(dst@[c1 + (k - 1)] == src@[at + remainder_src(10, k)]);
                } else if k < 10 {
                    assert(o0 + k == c2 + (k - 9));
                    assert(dst@[c2 + (k - 9)] == src@[at + remainder_src(10, k)]);
                }
            }
        }
    } else if m == 11 {
        let ghost c0 = *out as int;
        copy_2b(src, at + 9, dst, out)?;
        let ghost c1 = *out as int;
        copy_8b(src, at + 1, dst, out)?;
        let ghost c2 = *out as int;
        copy_1b(src, at, dst, out)?;
        proof {
            assert forall|k: int| 0 <= k < 11 implies #[trigger] dst@[o0 + k] == src@[at + remainder_src(11, k)] by {
                if k < 1 {
                    assert(o0 + k == c0 + (k - 0));
                    assert(dst@[c0 + (k - 0)] == src@[at + remainder_src(11, k)]);
                } else if k < 2 {
                    assert(o0 + k == c0 + (k - 0));
                    assert(dst@[c0 + (k - 0)] == src@[at + remainder_src(11, k)]);
                } else if k < 10 {
                    assert(o0 + k == c1 + (k - 2));
                    assert(dst@[c1 + (k - 2)] == src@[at + remainder_src(11, k)]);
                } else if k < 11 {
                    assert(o0 + k == c2 + (k - 10));
                    assert(dst@[c2 + (k - 10)] == src@[at + remainder_src(11, k)]);
                }
            }
        }
    } else if m == 12 {
        let ghost c0 = *out as int;
        copy_4b(src, at + 8, dst, out)?;
        let ghost c1 = *out as int;
        copy_8b(src, at, dst, out)?;
        proof {
            assert forall|k: int| 0 <= k < 12 implies #[trigger] dst@[o0 + k] == src@[at + remainder_src(12, k)] by {
                if k < 4 {
                    assert(o0 + k == c0 + (k - 0));
                    assert(dst@[c0 + (k - 0)] == src@[at + remainder_src(12, k)]);
                } else if k < 12 {
                    assert(o0 + k == c1 + (k - 4));
                    assert(dst@[c1 + (k - 4)] == src@[at + remainder_src(12, k)]);
                }
            }
        }
    } else if m == 13 {
        let ghost c0 = *out as int;
        copy_1b(src, at + 12, dst, out)?;
        let ghost c1 = *out as int;
        copy_4b(src, at + 8, dst, out)?;
        let ghost c2 = *out as int;
        copy_8b(src, at, dst, out)?;
        proof {
            assert forall|k: int| 0 <= k < 13 implies #[trigger] dst@[o0 + k] == src@[at + remainder_src(13, k)] by {
                if k < 1 {
                    assert(o0 + k == c0 + (k - 0));
                    assert(dst@[c0 + (k - 0)] == src@[at + remainder_src(13, k)]);
                } else if k < 5 {
                    assert(o0 + k == c1 + (k - 1));
                    assert(dst@[c1 + (k - 1)] == src@[at + remainder_src(13, k)]);
                } else if k < 13 {
                    assert(o0 + k == c2 + (k - 5));
                    assert(dst@[c2 + (k - 5)] == src@[at + remainder_src(13, k)]);
                }
            }
        }
    } else if m == 14 {
        let ghost c0 = *out as int;
        copy_1b(src, at + 13, dst, out)?;
        let ghost c1 = *out as int;
        copy_4b(src, at + 9, dst, out)?;
        let ghost c2 = *out as int;
        copy_8b(src, at + 1, dst, out)?;
        let ghost c3 = *out as int;
        copy_1b(src, at, dst, out)?;
        proof {
            assert forall|k: int| 0 <= k < 14 implies #[trigger] dst@[o0 + k] == src@[at + remainder_src(14, k)] by {
                if k < 1 {
                    assert(o0 + k == c0 + (k - 0));
                    assert(dst@[c0 + (k - 0)] == src@[at + remainder_src(14, k)]);
                } else if k < 5 {
                    assert(o0 + k == c1 + (k - 1));
                    assert(dst@[c1 + (k - 1)] == src@[at + remainder_src(14, k)]);
                } else if k < 13 {
                    assert(o0 + k == c2 + (k - 5));
                    assert(dst@[c2 + (k - 5)] == src@[at + remainder_src(14, k)]);
                } else if k < 14 {
                    assert(o0 + k == c3 + (k - 13));
                    assert(dst@[c3 + (k - 13)] == src@[at + remainder_src(14, k)]);
                }
            }
        }
    } else if m == 15 {
        let ghost c0 = *out as int;
        copy_2b(src, at + 13, dst, out)?;
        let ghost c1 = *out as int;
        copy_4b(src, at + 9, dst, out)?;
        let ghost c2 = *out as int;
        copy_8b(src, at + 1, dst, out)?;
        let ghost c3 = *out as int;
        copy_1b(src, at, dst, out)?;
        proof {
            assert forall|k: int| 0 <= k < 15 implies #[trigger] dst@[o0 + k] == src@[at + remainder_src(15, k)] by {
                if k < 1 {
                    assert(o0 + k == c0 + (k - 0));
                    assert(dst@[c0 + (k - 0)] == src@[at + remainder_src(15, k)]);
                } else if k < 2 {
                    assert(o0 + k == c0 + (k - 0));
                    assert(dst@[c0 + (k - 0)] == src@[at + remainder_src(15, k)]);
                } else if k < 6 {
                    assert(o0 + k == c1 + (k - 2));
                    assert(dst@[c1 + (k - 2)] == src@[at + remainder_src(15, k)]);
                } else if k < 14 {
                    assert(o0 + k == c2 + (k - 6));
                    assert(dst@[c2 + (k - 6)] == src@[at + remainder_src(15, k)]);
                } else if k < 15 {
                    assert(o0 + k == c3 + (k - 14));
                    assert(dst@[c3 + (k - 14)] == src@[at + remainder_src(15, k)]);
                }
            }
        }
    }
    Ok(())
}

/// Copies the last `m` bytes (16 to 23) of a literal run in its fixed pieces.
#[verifier::rlimit(100)]
fn copy_remainder_mid(src: &[u8], at: usize, m: usize, dst: &mut Vec<u8>, out: &mut usize) -> (r: Result<(), DwgError>)
    requires
        16 <= m < 24,
        at <= src@.len() + MAX_RUN,
        src@.len() <= usize::MAX - MAX_RUN - 64,
    ensures
        r.is_ok() ==> at + m <= src@.len() && *old(out) + m <= old(dst)@.len(),
        r.is_err() ==> r->Err_0.kind == ErrorKind::Decode,
        final(dst)@.len() == old(dst)@.len(),
        at + m <= src@.len() && *old(out) + m <= old(dst)@.len() ==> r.is_ok(),
        same_outside(old(dst)@, final(dst)@, *old(out) as int, *old(out) + m),
        r.is_ok() ==> forall|k: int|
            0 <= k < m ==> #[trigger] final(dst)@[*old(out) + k] == src@[at + remainder_src(m as int, k)],
{
    broadcast use lemma_same_outside_trans;
    let ghost o0 = *out as int;
    if m == 16 {
        let ghost c0 = *out as int;
        copy_16b(src, at, dst, out)?;
        proof {
            assert forall|k: int| 0 <= k < 16 implies #[trigger] dst@[o0 + k] == src@[at + remainder_src(16, k)] by {
                if k < 8 {
                    assert(o0 + k == c0 + (k - 0));
                    assert(dst@[c0 + (k - 0)] == src@[at + remainder_src(16, k)]);
                } else if k < 16 {
                    assert(o0 + k == c0 + (k - 0));
                    assert(dst@[c0 + (k - 0)] == src@[at + remainder_src(16, k)]);
                }
            }
        }
    } else if m == 17 {
        let ghost c0 = *out as int;
        copy_8b(src, at + 9, dst, out)?;
        let ghost c1 = *out as int;
        copy_1b(src, at + 8, dst, out)?;
        let ghost c2 = *out as int;
        copy_8b(src, at, dst, out)?;
        proof {
            assert forall|k: int| 0 <= k < 17 implies #[trigger] dst@[o0 + k] == src@[at + remainder_src(17, k)] by {
                if k < 8 {
                    assert(o0 + k == c0 + (k - 0));
                    assert(dst@[c0 + (k - 0)] == src@[at + remainder_src(17, k)]);
                } else if k < 9 {
                    assert(o0 + k == c1 + (k - 8));
                    assert(dst@[c1 + (k - 8)] == src@[at + remainder_src(17, k)]);
                } else if k < 17 {
                    assert(o0 + k == c2 + (k - 9));
                    assert(dst@[c2 + (k - 9)] == src@[at + remainder_src(17, k)]);
                }
            }
        }
    } else if m == 18 {
        let ghost c0 = *out as int;
        copy_1b(src, at + 17, dst, out)?;
        let ghost c1 = *out as int;
        copy_16b(src, at + 1, dst, out)?;
        let ghost c2 = *out as int;
        copy_1b(src, at, dst, out)?;
        proof {
            assert forall|k: int| 0 <= k < 18 implies #[trigger] dst@[o0 + k] == src@[at + remainder_src(18, k)] by {
                if k < 1 {
                    assert(o0 + k == c0 + (k - 0));
                    assert(dst@[c0 + (k - 0)] == src@[at + remainder_src(18, k)]);
                } else if k < 9 {
                    assert(o0 + k == c1 + (k - 1));
                    assert(dst@[c1 + (k - 1)] == src@[at + remainder_src(18, k)]);
                } else if k < 17 {
                    assert(o0 + k == c1 + (k - 1));
                    assert(dst@[c1 + (k - 1)] == src@[at + remainder_src(18, k)]);
                } else if k < 18 {
                    assert(o0 + k == c2 + (k - 17));
                    assert(dst@[c2 + (k - 17)] == src@[at + remainder_src(18, k)]);
                }
            }
        }
    } else if m == 19 {
        let ghost c0 = *out as int;
        copy_3b(src, at + 16, dst, out)?;
        let ghost c1 = *out as int;
        copy_16b(src, at, dst, out)?;
        proof {
            assert forall|k: int| 0 <= k < 19 implies #[trigger] dst@[o0 + k] == src@[at + remainder_src(19, k)] by {
                if k < 1 {
                    assert(o0 + k == c0 + (k - 0));
                    assert(dst@[c0 + (k - 0)] == src@[at + remainder_src(19, k)]);
                } else if k < 2 {
                    assert(o0 + k == c0 + (k - 0));
                    assert(dst@[c0 + (k - 0)] == src@[at + remainder_src(19, k)]);
                } else if k < 3 {
                    assert(o0 + k == c0 + (k - 0));
                    assert(dst@[c0 + (k - 0)] == src@[at + remainder_src(19, k)]);
                } else if k < 11 {
                    assert(o0 + k == c1 + (k - 3));
                    assert(dst@[c1 + (k - 3)] == src@[at + remainder_src(19, k)]);
                } else if k < 19 {
                    assert(o0 + k == c1 + (k - 3));
                    assert(dst@[c1 + (k - 3)] == src@[at + remainder_src(19, k)]);
                }
            }
        }
    } else if m == 20 {
        let ghost c0 = *out as int;
        copy_4b(src, at + 16, dst, out)?;
        let ghost c1 = *out as int;
        copy_16b(src, at, dst, out)?;
        proof {
            assert forall|k: int| 0 <= k < 20 implies #[trigger] dst@[o0 + k] == src@[at + remainder_src(20, k)] by {
                if k < 4 {
                    assert(o0 + k == c0 + (k - 0));
                    assert(dst@[c0 + (k - 0)] == src@[at + remainder_src(20, k)]);
                } else if k < 12 {
                    assert(o0 + k == c1 + (k - 4));
                    assert(dst@[c1 + (k - 4)] == src@[at + remainder_src(20, k)]);
                } else if k < 20 {
                    assert(o0 + k == c1 + (k - 4));
                    assert(dst@[c1 + (k - 4)] == src@[at + remainder_src(20, k)]);
                }
            }
        }
    } else if m == 21 {
        let ghost c0 = *out as int;
        copy_1b(src, at + 20, dst, out)?;
        let ghost c1 = *out as int;
        copy_4b(src, at + 16, dst, out)?;
        let ghost c2 = *out as int;
        copy_16b(src, at, dst, out)?;
        proof {
            assert forall|k: int| 0 <= k < 21 implies #[trigger] dst@[o0 + k] == src@[at + remainder_src(21, k)] by {
                if k < 1 {
                    assert(o0 + k == c0 + (k - 0));
                    assert(dst@[c0 + (k - 0)] == src@[at + remainder_src(21, k)]);
                } else if k < 5 {
                    assert(o0 + k == c1 + (k - 1));
                    assert(dst@[c1 + (k - 1)] == src@[at + remainder_src(21, k)]);
                } else if k < 13 {
                    assert(o0 + k == c2 + (k - 5));
                    assert(dst@[c2 + (k - 5)] == src@[at + remainder_src(21, k)]);
                } else if k < 21 {
                    assert(o0 + k == c2 + (k - 5));
                    assert(dst@[c2 + (k - 5)] == src@[at + remainder_src(21, k)]);
                }
            }
        }
    } else if m == 22 {
        let ghost c0 = *out as int;
        copy_2b(src, at + 20, dst, out)?;
        let ghost c1 = *out as int;
        copy_4b(src, at + 16, dst, out)?;
        let ghost c2 = *out as int;
        copy_16b(src, at, dst, out)?;
        proof {
            assert forall|k: int| 0 <= k < 22 implies #[trigger] dst@[o0 + k] == src@[at + remainder_src(22, k)] by {
                if k < 1 {
                    assert(o0 + k == c0 + (k - 0));
                    assert(dst@[c0 + (k - 0)] == src@[at + remainder_src(22, k)]);
                } else if k < 2 {
                    assert(o0 + k == c0 + (k - 0));
                    assert(dst@[c0 + (k - 0)] == src@[at + remainder_src(22, k)]);
                } else if k < 6 {
                    assert(o0 + k == c1 + (k - 2));
                    assert(dst@[c1 + (k - 2)] == src@[at + remainder_src(22, k)]);
                } else if k < 14 {
                    assert(o0 + k == c2 + (k - 6));
                    assert(dst@[c2 + (k - 6)] == src@[at + remainder_src(22, k)]);
                } else if k < 22 {
                    assert(o0 + k == c2 + (k - 6));
                    assert(dst@[c2 + (k - 6)] == src@[at + remainder_src(22, k)]);
                }
            }
        }
    } else if m == 23 {
        let ghost c0 = *out as int;
        copy_3b(src, at + 20, dst, out)?;
        let ghost c1 = *out as int;
        copy_4b(src, at + 16, dst, out)?;
        let ghost c2 = *out as int;
        copy_16b(src, at, dst, out)?;
        proof {
            assert forall|k: int| 0 <= k < 23 implies #[trigger] dst@[o0 + k] == src@[at + remainder_src(23, k)] by {
                if k < 1 {
                    assert(o0 + k == c0 + (k - 0));
                    assert(dst@[c0 + (k - 0)] == src@[at + remainder_src(23, k)]);
                } else if k < 2 {
                    assert(o0 + k == c0 + (k - 0));
                    assert(dst@[c0 + (k - 0)] == src@[at + remainder_src(23, k)]);
                } else if k < 3 {
                    assert(o0 + k == c0 + (k - 0));
                    assert(dst@[c0 + (k - 0)] == src@[at + remainder_src(23, k)]);
                } else if k < 7 {
                    assert(o0 + k == c1 + (k - 3));
                    assert(dst@[c1 + (k - 3)] == src@[at + remainder_src(23, k)]);
                } else if k < 15 {
                    assert(o0 + k == c2 + (k - 7));
                    assert(dst@[c2 + (k - 7)] == src@[at + remainder_src(23, k)]);
                } else if k < 23 {
                    assert(o0 + k == c2 + (k - 7));
                    assert(dst@[c2 + (k - 7)] == src@[at + remainder_src(23, k)]);
                }
            }
        }
    }
    Ok(())
}

/// Copies the last `m` bytes (24 to 31) of a literal run in its fixed pieces.
#[verifier::rlimit(100)]
fn copy_remainder_long(src: &[u8], at: usize, m: usize, dst: &mut Vec<u8>, out: &mut usize) -> (r: Result<(), DwgError>)
    requires
        24 <= m < 32,
        at <= src@.len() + MAX_RUN,
        src@.len() <= usize::MAX - MAX_RUN - 64,
    ensures
        r.is_ok() ==> at + m <= src@.len() && *old(out) + m <= old(dst)@.len(),
        r.is_err() ==> r->Err_0.kind == ErrorKind::Decode,
        final(dst)@.len() == old(dst)@.len(),
        at + m <= src@.len() && *old(out) + m <= old(dst)@.len() ==> r.is_ok(),
        same_outside(old(dst)@, final(dst)@, *old(out) as int, *old(out) + m),
        r.is_ok() ==> forall|k: int|
            0 <= k < m ==> #[trigger] final(dst)@[*old(out) + k] == src@[at + remainder_src(m as int, k)],
{
    broadcast use lemma_same_outside_trans;
    let ghost o0 = *out as int;
    if m == 24 {
        let ghost c0 = *out as int;
        copy_8b(src, at + 16, dst, out)?;
        let ghost c1 = *out as int;
        copy_16b(src, at, dst, out)?;
        proof {
            assert forall|k: int| 0 <= k < 24 implies #[trigger] dst@[o0 + k] == src@[at + remainder_src(24, k)] by {
                if k < 8 {
                    assert(o0 + k == c0 + (k - 0));
                    assert(dst@[c0 + (k - 0)] == src@[at + remainder_src(24, k)]);
                } else if k < 16 {
                    assert(o0 + k == c1 + (k - 8));
                    assert(dst@[c1 + (k - 8)] == src@[at + remainder_src(24, k)]);
                } else if k < 24 {
                    assert(o0 + k == c1 + (k - 8));
                    assert(dst@[c1 + (k - 8)] == src@[at + remainder_src(24, k)]);
                }
            }
        }
    } else if m == 25 {
        let ghost c0 = *out as int;
        copy_8b(src, at + 17, dst, out)?;
        let ghost c1 = *out as int;
        copy_1b(src, at + 16, dst, out)?;
        let ghost c2 = *out as int;
        copy_16b(src, at, dst, out)?;
        proof {
            assert forall|k: int| 0 <= k < 25 implies #[trigger] dst@[o0 + k] == src@[at + remainder_src(25, k)] by {
                if k < 8 {
                    assert(o0 + k == c0 + (k - 0));
                    assert(dst@[c0 + (k - 0)] == src@[at + remainder_src(25, k)]);
                } else if k < 9 {
                    assert(o0 + k == c1 + (k - 8));
                    assert(dst@[c1 + (k - 8)] == src@[at + remainder_src(25, k)]);
                } else if k < 17 {
                    assert(o0 + k == c2 + (k - 9));
                    assert(dst@[c2 + (k - 9)] == src@[at + remainder_src(25, k)]);
                } else if k < 25 {
                    assert(o0 + k == c2 + (k - 9));
                    assert(dst@[c2 + (k - 9)] == src@[at + remainder_src(25, k)]);
                }
            }
        }
    } else if m == 26 {
        let ghost c0 = *out as int;
        copy_1b(src, at + 25, dst, out)?;
        let ghost c1 = *out as int;
        copy_8b(src, at + 17, dst, out)?;
        let ghost c2 = *out as int;
        copy_1b(src, at + 16, dst, out)?;
        let ghost c3 = *out as int;
        copy_16b(src, at, dst, out)?;
        proof {
            assert forall|k: int| 0 <= k < 26 implies #[trigger] dst@[o0 + k] == src@[at + remainder_src(26, k)] by {
                if k < 1 {
                    assert(o0 + k == c0 + (k - 0));
                    assert(dst@[c0 + (k - 0)] == src@[at + remainder_src(26, k)]);
                } else if k < 9 {
                    assert(o0 + k == c1 + (k - 1));
                    assert(dst@[c1 + (k - 1)] == src@[at + remainder_src(26, k)]);
                } else if k < 10 {
                    assert(o0 + k == c2 + (k - 9));
                    assert(dst@[c2 + (k - 9)] == src@[at + remainder_src(26, k)]);
                } else if k < 18 {
                    assert(o0 + k == c3 + (k - 10));
                    assert(dst@[c3 + (k - 10)] == src@[at + remainder_src(26, k)]);
                } else if k < 26 {
                    assert(o0 + k == c3 + (k - 10));
                    assert(dst@[c3 + (k - 10)] == src@[at + remainder_src(26, k)]);
                }
            }
        }
    } else if m == 27 {
        let ghost c0 = *out as int;
        copy_2b(src, at + 25, dst, out)?;
        let ghost c1 = *out as int;
        copy_8b(src, at + 17, dst, out)?;
        let ghost c2 = *out as int;
        copy_1b(src, at + 16, dst, out)?;
        let ghost c3 = *out as int;
        copy_16b(src, at, dst, out)?;
        proof {
            assert forall|k: int| 0 <= k < 27 implies #[trigger] dst@[o0 + k] == src@[at + remainder_src(27, k)] by {
                if k < 1 {
                    assert(o0 + k == c0 + (k - 0));
                    assert(dst@[c0 + (k - 0)] == src@[at + remainder_src(27, k)]);
                } else if k < 2 {
                    assert(o0 + k == c0 + (k - 0));
                    assert(dst@[c0 + (k - 0)] == src@[at + remainder_src(27, k)]);
                } else if k < 10 {
                    assert(o0 + k == c1 + (k - 2));
                    assert(dst@[c1 + (k - 2)] == src@[at + remainder_src(27, k)]);
                } else if k < 11 {
                    assert(o0 + k == c2 + (k - 10));
                    assert(dst@[c2 + (k - 10)] == src@[at + remainder_src(27, k)]);
                } else if k < 19 {
                    assert(o0 + k == c3 + (k - 11));
                    assert(dst@[c3 + (k - 11)] == src@[at + remainder_src(27, k)]);
                } else if k < 27 {
                    assert(o0 + k == c3 + (k - 11));
                    assert(dst@[c3 + (k - 11)] == src@[at + remainder_src(27, k)]);
                }
            }
        }
    } else if m == 28 {
        let ghost c0 = *out as int;
        copy_4b(src, at + 24, dst, out)?;
        let ghost c1 = *out as int;
        copy_8b(src, at + 16, dst, out)?;
        let ghost c2 = *out as int;
        copy_16b(src, at, dst, out)?;
        proof {
            assert forall|k: int| 0 <= k < 28 implies #[trigger] dst@[o0 + k] == src@[at + remainder_src(28, k)] by {
                if k < 4 {
                    assert(o0 + k == c0 + (k - 0));
                    assert(dst@[c0 + (k - 0)] == src@[at + remainder_src(28, k)]);
                } else if k < 12 {
                    assert(o0 + k == c1 + (k - 4));
                    assert(dst@[c1 + (k - 4)] == src@[at + remainder_src(28, k)]);
                } else if k < 20 {
                    assert(o0 + k == c2 + (k - 12));
                    assert(dst@[c2 + (k - 12)] == src@[at + remainder_src(28, k)]);
                } else if k < 28 {
                    assert(o0 + k == c2 + (k - 12));
                    assert(dst@[c2 + (k - 12)] == src@[at + remainder_src(28, k)]);
                }
            }
        }
    } else if m == 29 {
        let ghost c0 = *out as int;
        copy_1b(src, at + 28, dst, out)?;
        let ghost c1 = *out as int;
        copy_4b(src, at + 24, dst, out)?;
        let ghost c2 = *out as int;
        copy_8b(src, at + 16, dst, out)?;
        let ghost c3 = *out as int;
        copy_16b(src, at, dst, out)?;
        proof {
            assert forall|k: int| 0 <= k < 29 implies #[trigger] dst@[o0 + k] == src@[at + remainder_src(29, k)] by {
                if k < 1 {
                    assert(o0 + k == c0 + (k - 0));
                    assert(dst@[c0 + (k - 0)] == src@[at + remainder_src(29, k)]);
                } else if k < 5 {
                    assert(o0 + k == c1 + (k - 1));
                    assert(dst@[c1 + (k - 1)] == src@[at + remainder_src(29, k)]);
                } else if k < 13 {
                    assert(o0 + k == c2 + (k - 5));
                    assert(dst@[c2 + (k - 5)] == src@[at + remainder_src(29, k)]);
                } else if k < 21 {
                    assert(o0 + k == c3 + (k - 13));
                    assert(dst@[c3 + (k - 13)] == src@[at + remainder_src(29, k)]);
                } else if k < 29 {
                    assert(o0 + k == c3 + (k - 13));
                    assert(dst@[c3 + (k - 13)] == src@[at + remainder_src(29, k)]);
                }
            }
        }
    } else if m == 30 {
        let ghost c0 = *out as int;
        copy_2b(src, at + 28, dst, out)?;
        let ghost c1 = *out as int;
        copy_4b(src, at + 24, dst, out)?;
        let ghost c2 = *out as int;
        copy_8b(src, at + 16, dst, out)?;
        let ghost c3 = *out as int;
        copy_16b(src, at, dst, out)?;
        proof {
            assert forall|k: int| 0 <= k < 30 implies #[trigger] dst@[o0 + k] == src@[at + remainder_src(30, k)] by {
                if k < 1 {
                    assert(o0 + k == c0 + (k - 0));
                    assert(dst@[c0 + (k - 0)] == src@[at + remainder_src(30, k)]);
                } else if k < 2 {
                    assert(o0 + k == c0 + (k - 0));
                    assert(dst@[c0 + (k - 0)] == src@[at + remainder_src(30, k)]);
                } else if k < 6 {
                    assert(o0 + k == c1 + (k - 2));
                    assert(dst@[c1 + (k - 2)] == src@[at + remainder_src(30, k)]);
                } else if k < 14 {
                    assert(o0 + k == c2 + (k - 6));
                    assert(dst@[c2 + (k - 6)] == src@[at + remainder_src(30, k)]);
                } else if k < 22 {
                    assert(o0 + k == c3 + (k - 14));
                    assert(dst@[c3 + (k - 14)] == src@[at + remainder_src(30, k)]);
                } else if k < 30 {
                    assert(o0 + k == c3 + (k - 14));
                    assert(dst@[c3 + (k - 14)] == src@[at + remainder_src(30, k)]);
                }
            }
        }
    } else if m == 31 {
        let ghost c0 = *out as int;
        copy_1b(src, at + 30, dst, out)?;
        let ghost c1 = *out as int;
        copy_4b(src, at + 26, dst, out)?;
        let ghost c2 = *out as int;
        copy_8b(src, at + 18, dst, out)?;
        let ghost c3 = *out as int;
        copy_16b(src, at + 2, dst, out)?;
        let ghost c4 = *out as int;
        copy_2b(src, at, dst, out)?;
        proof {
            assert forall|k: int| 0 <= k < 31 implies #[trigger] dst@[o0 + k] == src@[at + remainder_src(31, k)] by {
                if k < 1 {
                    assert(o0 + k == c0 + (k - 0));
                    assert(dst@[c0 + (k - 0)] == src@[at + remainder_src(31, k)]);
                } else if k < 5 {
                    assert(o0 + k == c1 + (k - 1));
                    assert(dst@[c1 + (k - 1)] == src@[at + remainder_src(31, k)]);
                } else if k < 13 {
                    assert(o0 + k == c2 + (k - 5));
                    assert(dst@[c2 + (k - 5)] == src@[at + remainder_src(31, k)]);
                } else if k < 21 {
                    assert(o0 + k == c3 + (k - 13));
                    assert(dst@[c3 + (k - 13)] == src@[at + remainder_src(31, k)]);
                } else if k < 29 {
                    assert(o0 + k == c3 + (k - 13));
                    assert(dst@[c3 + (k - 13)] == src@[at + remainder_src(31, k)]);
                } else if k < 30 {
                    assert(o0 + k == c4 + (k - 29));
                    assert(dst@[c4 + (k - 29)] == src@[at + remainder_src(31, k)]);
                } else if k < 31 {
                    assert(o0 + k == c4 + (k - 29));
                    assert(dst@[c4 + (k - 29)] == src@[at + remainder_src(31, k)]);
                }
            }
        }
    }
    Ok(())
}

/// Copies the last `m` bytes (below 32) of a literal run in its fixed pieces.
fn copy_remainder(src: &[u8], at: usize, m: usize, dst: &mut Vec<u8>, out: &mut usize) -> (r: Result<(), DwgError>)
    requires
        m < 32,
        at <= src@.len() + MAX_RUN,
        src@.len() <= usize::MAX - MAX_RUN - 64,
    ensures
        r.is_ok() && m > 0 ==> at + m <= src@.len() && *old(out) + m <= old(dst)@.len(),
        r.is_err() ==> r->Err_0.kind == ErrorKind::Decode,
        final(dst)@.len() == old(dst)@.len(),
        at + m <= src@.len() && *old(out) + m <= old(dst)@.len() ==> r.is_ok(),
        same_outside(old(dst)@, final(dst)@, *old(out) as int, *old(out) + m),
        r.is_ok() ==> forall|k: int|
            0 <= k < m ==> #[trigger] final(dst)@[*old(out) + k] == src@[at + remainder_src(m as int, k)],
{
    if m == 0 {
        Ok(())
    } else if m < 16 {
        copy_remainder_short(src, at, m, dst, out)
    } else if m < 24 {
        copy_remainder_mid(src, at, m, dst, out)
    } else {
        copy_remainder_long(src, at, m, dst, out)
    }
}

/// Copies a literal run of `length` bytes: blocks of 32 (second half first),
/// then the remainder in a fixed order of 1-, 2-, 3-, 4-, 8- and 16-byte
/// moves per remaining length.
fn copy_compressed_chunk(src: &[u8], src_idx: usize, length: usize, dst: &mut Vec<u8>, dst_idx: usize) -> (r:
    Result<(), DwgError>)
    requires
        src_idx <= src@.len(),
        length <= MAX_RUN,
    ensures
        r.is_err() ==> r->Err_0.kind == ErrorKind::Decode,
        final(dst)@.len() == old(dst)@.len(),
        src_idx + length <= src@.len() && dst_idx + length <= old(dst)@.len() && src@.len() <= usize::MAX
            - MAX_RUN - 64 ==> r.is_ok(),
        same_outside(old(dst)@, final(dst)@, dst_idx as int, dst_idx + length),
        r.is_ok() ==> final(dst)@.subrange(dst_idx as int, dst_idx + length) == literal_layout(
            src@.subrange(src_idx as int, src_idx + length),
        ),
{
    if src.len() > usize::MAX - MAX_RUN - 64 {
        return Err(DwgError::new(ErrorKind::Decode, "compressed stream too large"));
    }
    if dst_idx > dst.len() {
        return Err(DwgError::new(ErrorKind::Decode, "literal run past the output"));
    }
    broadcast use lemma_same_outside_trans;
    let mut out = dst_idx;
    let mut at = src_idx;
    let mut left = length;
    while left >= 32
        invariant
            dst@.len() == old(dst)@.len(),
            src@.len() <= usize::MAX - MAX_RUN - 64,
            left <= MAX_RUN,
            at + left <= src@.len() + MAX_RUN,
            out - dst_idx == at - src_idx,
            out + left == dst_idx + length,
            src_idx <= at,
            at + left == src_idx + length,
            same_outside(old(dst)@, dst@, dst_idx as int, dst_idx + length),
            (at - src_idx) % 32 == 0,
            at > src_idx ==> at <= src@.len() && out <= dst@.len(),
            dst_idx <= dst@.len(),
            forall|k: int|
                0 <= k < at - src_idx ==> #[trigger] dst@[dst_idx + k] == src@[src_idx + k / 32 * 32 + block_src(k % 32)],
        decreases left,
    {
        let ghost done = at - src_idx;
        let ghost c0 = out as int;
        copy_16b(src, at + 16, dst, &mut out)?;
        let ghost c1 = out as int;
        copy_16b(src, at, dst, &mut out)?;
        proof {
            vstd::arithmetic::div_mod::lemma_fundamental_div_mod(done, 32);
            assert forall|k: int| 0 <= k < done + 32 implies #[trigger] dst@[dst_idx + k] == src@[src_idx + k / 32 * 32
                + block_src(k % 32)] by {
                if k >= done {
                    let r = k - done;
                    vstd::arithmetic::div_mod::lemma_fundamental_div_mod_converse(k, 32, done / 32, r);
                    assert(k / 32 * 32 == done);
                    assert(k % 32 == r);
                    if r < 8 {
                        assert(dst_idx + k == c0 + r);
                        assert(dst@[c0 + r] == src@[at + 24 + r]);
                    } else if r < 16 {
                        assert(dst_idx + k == c0 + r);
                        assert(dst@[c0 + r] == src@[at + 8 + r]);
                    } else if r < 24 {
                        assert(dst_idx + k == c1 + (r - 16));
                        assert(dst@[c1 + (r - 16)] == src@[at + r - 8]);
                    } else {
                        assert(dst_idx + k == c1 + (r - 16));
                        assert(dst@[c1 + (r - 16)] == src@[at + r - 24]);
                    }
                }
            }
            assert((done + 32) % 32 == 0);
        }
        at = at + 32;
        left = left - 32;
    }
    let ghost before_tail = dst@;
    let ghost done = at - src_idx;
    copy_remainder(src, at, left, dst, &mut out)?;
    proof {
        assert(src_idx + length <= src@.len());
        assert(dst_idx + length <= dst@.len());
        let run = src@.subrange(src_idx as int, src_idx + length);
        assert(length / 32 * 32 == done) by {
            vstd::arithmetic::div_mod::lemma_fundamental_div_mod_converse(length as int, 32, done / 32, left as int);
        }
        assert forall|k: int| 0 <= k < length implies #[trigger] dst@.subrange(dst_idx as int, dst_idx + length)[k]
            == literal_layout(run)[k] by {
            if k < done {
                assert(dst@[dst_idx + k] == before_tail[dst_idx + k]);
            } else {
                assert(dst@[dst_idx + done + (k - done)] == src@[at + remainder_src(left as int, k - done)]);
            }
        }
        assert(dst@.subrange(dst_idx as int, dst_idx + length) =~= literal_layout(run));
    }
    Ok(())
}

/// One back-reference instruction for `opcode`: the next opcode, the offset,
/// the length, and where the stream continues.
fn read_instructions(src: &[u8], src_idx: usize, opcode: usize) -> (r: Result<(usize, usize, usize, usize), DwgError>)
    requires
        opcode < 0x100,
    ensures
        r.is_err() ==> r->Err_0.kind == ErrorKind::Decode,
        r matches Ok((op, off, len, idx)) ==> op < 0x100 && idx > src_idx && idx <= src@.len() && off <= 0x10000
            && len <= 0x20000,
{
    let mut idx = src_idx;
    let hi = opcode / 16;
    if hi == 0 {
        let length0 = (opcode % 16) + 0x13;
        let offset0 = read_byte(src, &mut idx)? as usize;
        let op = read_byte(src, &mut idx)? as usize;
        let length = ((op / 8) % 32 / 16) * 16 + length0;
        let offset = ((op % 0x80) / 8) * 0x100 + 1 + offset0;
        Ok((op, offset, length, idx))
    } else if hi == 1 {
        let length = (opcode % 16) + 3;
        let offset0 = read_byte(src, &mut idx)? as usize;
        let op = read_byte(src, &mut idx)? as usize;
        let offset = (op / 8) * 0x100 + 1 + offset0;
        Ok((op, offset, length, idx))
    } else if hi == 2 {
        let lo = read_byte(src, &mut idx)? as usize;
        let hi_byte = read_byte(src, &mut idx)? as usize;
        let mut offset = hi_byte * 0x100 + lo;
        let mut length = opcode % 8;
        let op;
        if opcode % 16 < 8 {
            op = read_byte(src, &mut idx)? as usize;
            length = (op / 8) * 8 + length;
        } else {
            offset = offset + 1;
            let ext = read_byte(src, &mut idx)? as usize;
            length = ext * 8 + length;
            op = read_byte(src, &mut idx)? as usize;
            length = (op / 8) * 0x800 + length + 0x100;
        }
        Ok((op, offset, length, idx))
    } else {
        let length = hi;
        let offset0 = opcode % 16;
        let op = read_byte(src, &mut idx)? as usize;
        let offset = (op / 8) * 16 + offset0 + 1;
        Ok((op, offset, length, idx))
    }
}

/// Repeats `length` bytes from `offset` bytes back in the output, byte by
/// byte (so runs may overlap). A reference before the start or a write past
/// the end is a decode failure.
fn copy_from_output(dst: &mut Vec<u8>, dst_idx: usize, offset: usize, length: usize) -> (r: Result<usize, DwgError>)
    ensures
        final(dst)@.len() == old(dst)@.len(),
        r.is_ok() == (offset <= dst_idx && dst_idx + length <= old(dst)@.len()),
        r matches Ok(end) ==> end == dst_idx + length,
        r.is_err() ==> r->Err_0.kind == ErrorKind::Decode,
        forall|i: int| 0 <= i < dst_idx ==> #[trigger] final(dst)@[i] == old(dst)@[i],
        same_outside(old(dst)@, final(dst)@, dst_idx as int, dst_idx + length),
        r.is_ok() ==> forall|k: int| 0 <= k < length ==> #[trigger] final(dst)@[dst_idx + k] == final(dst)@[dst_idx + k
            - offset],
{
    if offset > dst_idx {
        return Err(DwgError::new(ErrorKind::Decode, "back-reference before the output start"));
    }
    if dst_idx > dst.len() || length > dst.len() - dst_idx {
        return Err(DwgError::new(ErrorKind::Decode, "back-reference past the output end"));
    }
    let from = dst_idx - offset;
    let mut i: usize = 0;
    while i < length
        invariant
            0 <= i <= length,
            dst@.len() <= usize::MAX,
            dst_idx + length <= dst@.len(),
            from + offset == dst_idx,
            dst@.len() == old(dst)@.len(),
            forall|j: int| 0 <= j < dst_idx ==> #[trigger] dst@[j] == old(dst)@[j],
            same_outside(old(dst)@, dst@, dst_idx as int, dst_idx + length),
            forall|k: int| 0 <= k < i ==> #[trigger] dst@[dst_idx + k] == dst@[dst_idx + k - offset],
        decreases length - i,
    {
        let b = dst[from + i];
        dst.set(dst_idx + i, b);
        i = i + 1;
    }
    Ok(dst_idx + length)
}

/// Back-references after a literal run, until one leaves a literal length in
/// its low three bits: the next opcode, that length, and the new positions.
fn copy_decompressed_chunks(src: &[u8], src_idx: usize, dst: &mut Vec<u8>, dst_idx: usize) -> (r: Result<
    (usize, usize, usize, usize),
    DwgError,
>)
    ensures
        r.is_err() ==> r->Err_0.kind == ErrorKind::Decode,
        final(dst)@.len() == old(dst)@.len(),
        r matches Ok((op, len, idx, out)) ==> op < 0x100 && idx > src_idx && idx <= src@.len() && len < 8,
{
    let mut idx = src_idx;
    let first = read_byte(src, &mut idx)? as usize;
    let (mut opcode, mut offset, mut length, next_idx) = read_instructions(src, idx, first)?;
    idx = next_idx;
    let mut out = dst_idx;
    loop
        invariant
            dst@.len() == old(dst)@.len(),
            opcode < 0x100,
            src_idx < idx <= src@.len(),
        ensures
            dst@.len() == old(dst)@.len(),
            opcode < 0x100,
            src_idx < idx <= src@.len(),
            length < 8,
        decreases src@.len() - idx,
    {
        out = copy_from_output(dst, out, offset, length)?;
        length = opcode % 8;
        if length != 0 || idx >= src.len() {
            break;
        }
        let mut op = read_byte(src, &mut idx)? as usize;
        if op / 16 == 0 {
            opcode = op;
            break;
        }
        if op / 16 == 15 {
            op = op % 16;
        }
        let (next_op, next_offset, next_length, after) = read_instructions(src, idx, op)?;
        opcode = next_op;
        offset = next_offset;
        length = next_length;
        idx = after;
    }
    Ok((opcode, length, idx, out))
}

/// Decompresses an R21 (R2007) stream into exactly `dst_size` bytes.
pub fn decompress_r21(src: &[u8], dst_size: usize) -> (r: Result<Vec<u8>, DwgError>)
    ensures
        r matches Ok(v) ==> v@.len() == dst_size,
        dst_size == 0 ==> (r matches Ok(v) && v@.len() == 0),
        dst_size > 0 && src@.len() == 0 ==> r.is_err() && r->Err_0.kind == ErrorKind::Decode,
        r.is_err() ==> r->Err_0.kind == ErrorKind::Decode,
{
    if dst_size == 0 {
        return Ok(Vec::new());
    }
    if src.len() == 0 {
        return Err(DwgError::new(ErrorKind::Decode, "compressed stream is empty"));
    }
    let mut dst: Vec<u8> = Vec::new();
    let mut n: usize = 0;
    while n < dst_size
        invariant
            0 <= n <= dst_size,
            dst@.len() == n,
        decreases dst_size - n,
    {
        dst.push(0);
        n = n + 1;
    }
    let mut src_idx: usize = 0;
    let mut dst_idx: usize = 0;
    let mut length: usize = 0;
    let mut opcode = read_byte(src, &mut src_idx)? as usize;
    if opcode / 16 == 2 {
        src_idx = src_idx + 2;
        if src_idx >= src.len() {
            return Err(DwgError::new(ErrorKind::Decode, "opcode bootstrap past the input"));
        }
        length = (src[src_idx] % 8) as usize;
        src_idx = src_idx + 1;
    }
    while src_idx < src.len()
        invariant
            dst@.len() == dst_size,
            dst_size > 0,
            opcode < 0x100,
            length <= MAX_RUN,
            src_idx <= src@.len(),
        decreases src@.len() - src_idx,
    {
        if length == 0 {
            let (l, i) = read_literal_length(src, src_idx, opcode)?;
            length = l;
            src_idx = i;
        }
        if dst_idx > dst_size || length > dst_size - dst_idx {
            break;
        }
        copy_compressed_chunk(src, src_idx, length, &mut dst, dst_idx)?;
        dst_idx = dst_idx + length;
        if length >= src.len() - src_idx {
            break;
        }
        src_idx = src_idx + length;
        let (next_opcode, next_length, next_src, next_dst) = copy_decompressed_chunks(src, src_idx, &mut dst, dst_idx)?;
        opcode = next_opcode;
        length = next_length;
        src_idx = next_src;
        dst_idx = next_dst;
    }
    Ok(dst)
}

/// Where the page addresses of an R2007 file start.
pub const STREAM_BASE_OFFSET: u64 = 0x480;

/// The fields of the R2007 second header that locate the maps.
#[derive(Debug, Clone, Copy, PartialEq, Eq, Structural)]
pub struct HeaderData {
    pub pages_map_offset: u64,
    pub pages_map_size_compressed: u64,
    pub pages_map_size_uncompressed: u64,
    pub pages_map_correction_factor: u64,
    pub sections_map_id: u64,
    pub sections_map_size_compressed: u64,
    pub sections_map_size_uncompressed: u64,
    pub sections_map_correction_factor: u64,
    pub sections_amount: u64,
}

/// Reads the second header: 0x3D8 Reed-Solomon coded bytes at 0x80
/// (k = 239, three blocks), whose payload is a raw or compressed body of
/// 34 little-endian words.
pub fn read_header_data(bytes: &[u8]) -> (r: Result<HeaderData, DwgError>)
    ensures
        bytes@.len() < 0x80 + 0x3D8 ==> r.is_err(),
{
    if bytes.len() < 0x80 + 0x3D8 {
        return Err(DwgError::new(ErrorKind::Format, "file too small for the R2007 header"));
    }
    let decoded = decode_reed_solomon(&bytes[0x80..0x80 + 0x3D8], 239, 3, 4)?;
    let mut head = ByteReader::new(decoded.as_slice());
    let _crc = head.read_u64_le()?;
    let _key = head.read_u64_le()?;
    let _data_crc = head.read_u64_le()?;
    let compressed_size = head.read_i32_le()?;
    let _length2 = head.read_i32_le()?;
    let body: Vec<u8>;
    if compressed_size < 0 {
        let size = if compressed_size == i32::MIN { 0x8000_0000usize } else { (-compressed_size) as usize };
        if size > decoded.len() - 0x20 {
            return Err(DwgError::new(ErrorKind::Format, "second header body out of range"));
        }
        body = vstd::slice::slice_to_vec(&decoded.as_slice()[0x20..0x20 + size]);
    } else if compressed_size > 0 {
        let size = compressed_size as usize;
        if size > decoded.len() - 0x20 {
            return Err(DwgError::new(ErrorKind::Format, "compressed second header out of range"));
        }
        body = decompress_r21(&decoded.as_slice()[0x20..0x20 + size], 0x110)?;
    } else {
        return Err(DwgError::new(ErrorKind::Format, "second header size is zero"));
    }
    if body.len() < 0x110 {
        return Err(DwgError::new(ErrorKind::Format, "second header body truncated"));
    }
    let mut reader = ByteReader::new(body.as_slice());
    let mut fields: Vec<u64> = Vec::new();
    let mut i: usize = 0;
    while i < 34
        invariant
            0 <= i <= 34,
            fields@.len() == i,
            reader.wf(),
            reader.bytes() == body@,
        decreases 34 - i,
    {
        fields.push(reader.read_u64_le()?);
        i = i + 1;
    }
    Ok(HeaderData {
        pages_map_offset: fields[7],
        pages_map_size_compressed: fields[10],
        pages_map_size_uncompressed: fields[11],
        pages_map_correction_factor: fields[3],
        sections_map_id: fields[24],
        sections_map_size_compressed: fields[22],
        sections_map_size_uncompressed: fields[25],
        sections_map_correction_factor: fields[27],
        sections_amount: fields[20],
    })
}

/// Reads a system page: Reed-Solomon blocks (k = 239) covering the padded
/// compressed size times the correction factor, aligned to 0x20 bytes; then
/// the payload, decompressed where it is smaller than its declared size.
pub fn read_system_page(
    bytes: &[u8],
    address: u64,
    size_compressed: u64,
    size_uncompressed: u64,
    correction_factor: u64,
) -> (r: Result<Vec<u8>, DwgError>)
    ensures
        r matches Ok(v) ==> v@.len() == size_uncompressed,
{
    let padded = align_up(size_compressed, 8)?;
    if correction_factor != 0 && padded > u64::MAX / correction_factor {
        return Err(DwgError::new(ErrorKind::Format, "system page size overflow"));
    }
    proof {
        if correction_factor != 0 {
            assert(padded * correction_factor <= u64::MAX) by (nonlinear_arith)
                requires
                    correction_factor > 0,
                    padded <= u64::MAX / correction_factor,
            ;
        }
    }
    let pre_encoded = padded * correction_factor;
    let block_count = div_ceil(pre_encoded, 239);
    if block_count > u64::MAX / 255 {
        return Err(DwgError::new(ErrorKind::Format, "system page size overflow"));
    }
    let page_size = align_up(block_count * 255, 0x20)?;
    if address > bytes.len() as u64 || page_size > bytes.len() as u64 - address {
        return Err(DwgError::new(ErrorKind::Format, "system page out of range"));
    }
    let start = address as usize;
    let page = &bytes[start..start + page_size as usize];
    if block_count > usize::MAX as u64 {
        return Err(DwgError::new(ErrorKind::Format, "system page size overflow"));
    }
    let decoded = decode_reed_solomon(page, 239, block_count as usize, 4)?;
    if size_compressed < size_uncompressed {
        if size_compressed > decoded.len() as u64 || size_uncompressed > usize::MAX as u64 {
            return Err(DwgError::new(ErrorKind::Format, "compressed system page out of range"));
        }
        decompress_r21(&decoded.as_slice()[0..size_compressed as usize], size_uncompressed as usize)
    } else {
        if size_uncompressed > decoded.len() as u64 {
            return Err(DwgError::new(ErrorKind::Format, "system page data out of range"));
        }
        Ok(vstd::slice::slice_to_vec(&decoded.as_slice()[0..size_uncompressed as usize]))
    }
}

/// One page of the page map.
#[derive(Debug, Clone, Copy, PartialEq, Eq, Structural)]
pub struct PageMapEntry {
    pub id: i64,
    pub size: u64,
    pub address: u64,
}

/// Reads the page map: `(size, id)` pairs whose addresses accumulate from
/// 0x480, ended by `(0, 0)`; a size not above zero is a format failure.
pub fn read_page_map(bytes: &[u8], header: &HeaderData) -> (r: Result<Vec<PageMapEntry>, DwgError>)
    ensures
        r matches Ok(v) ==> {
            &&& v@.len() > 0
            &&& v@[0].address == STREAM_BASE_OFFSET
            &&& forall|i: int|
                0 <= i < v@.len() - 1 ==> #[trigger] v@[i + 1].address == v@[i].address + v@[i].size
            &&& forall|i: int| 0 <= i < v@.len() ==> (#[trigger] v@[i]).size > 0 && v@[i].size <= i64::MAX
        },
{
    if header.pages_map_offset > u64::MAX - STREAM_BASE_OFFSET {
        return Err(DwgError::new(ErrorKind::Format, "page map address overflow"));
    }
    let data = read_system_page(
        bytes,
        STREAM_BASE_OFFSET + header.pages_map_offset,
        header.pages_map_size_compressed,
        header.pages_map_size_uncompressed,
        header.pages_map_correction_factor,
    )?;
    let mut reader = ByteReader::new(data.as_slice());
    let mut entries: Vec<PageMapEntry> = Vec::new();
    let mut address: u64 = STREAM_BASE_OFFSET;
    while reader.remaining() >= 16
        invariant
            reader.wf(),
            reader.bytes() == data@,
            entries@.len() == 0 ==> address == STREAM_BASE_OFFSET,
            entries@.len() > 0 ==> address == entries@.last().address + entries@.last().size,
            entries@.len() > 0 ==> entries@[0].address == STREAM_BASE_OFFSET,
            forall|i: int|
                0 <= i < entries@.len() - 1 ==> #[trigger] entries@[i + 1].address == entries@[i].address
                    + entries@[i].size,
            forall|i: int| 0 <= i < entries@.len() ==> (#[trigger] entries@[i]).size > 0 && entries@[i].size
                <= i64::MAX,
        decreases data@.len() - reader.position(),
    {
        let size = reader.read_u64_le()? as i64;
        let id = reader.read_u64_le()? as i64;
        if size == 0 && id == 0 {
            break;
        }
        if size <= 0 {
            return Err(DwgError::new(ErrorKind::Format, "page map entry size not positive"));
        }
        if address > u64::MAX - size as u64 {
            return Err(DwgError::new(ErrorKind::Format, "page map address overflow"));
        }
        entries.push(PageMapEntry { id, size: size as u64, address });
        address = address + size as u64;
    }
    if entries.len() == 0 {
        return Err(DwgError::new(ErrorKind::Format, "page map has no entries"));
    }
    Ok(entries)
}

/// One page of a section.
#[derive(Debug, Clone, Copy, PartialEq, Eq, Structural)]
pub struct SectionPageInfo {
    pub offset: u64,
    pub id: u64,
    pub size_uncompressed: u64,
    pub size_compressed: u64,
}

/// One section of the section map.
#[derive(Debug, Clone)]
pub struct SectionEntry {
    pub size: u64,
    pub encoded: u64,
    /// The name's UTF-16 units, trailing NULs removed.
    pub name: Vec<u16>,
    pub pages: Vec<SectionPageInfo>,
}

/// The UTF-16LE units of `bytes` with trailing NUL units removed; an odd
/// length is a format failure.
pub fn decode_utf16_units(bytes: &[u8]) -> (r: Result<Vec<u16>, DwgError>)
    ensures
        r.is_ok() == (bytes@.len() % 2 == 0),
        r matches Ok(v) ==> v@.len() <= bytes@.len() / 2 && (v@.len() > 0 ==> v@.last() != 0),
{
    if bytes.len() % 2 != 0 {
        return Err(DwgError::new(ErrorKind::Format, "UTF-16 name of odd length"));
    }
    let mut units: Vec<u16> = Vec::new();
    let mut i: usize = 0;
    while i + 1 < bytes.len()
        invariant
            bytes@.len() % 2 == 0,
            i % 2 == 0,
            i <= bytes@.len(),
            units@.len() == i / 2,
        decreases bytes@.len() - i,
    {
        units.push(bytes[i] as u16 + bytes[i + 1] as u16 * 0x100);
        i = i + 2;
    }
    while units.len() > 0 && units[units.len() - 1] == 0
        invariant
            units@.len() <= bytes@.len() / 2,
        decreases units@.len(),
    {
        units.pop();
    }
    Ok(units)
}

/// The bytes of an all-ASCII UTF-16 name.
pub fn ascii_units(units: &Vec<u16>) -> (r: Option<Vec<u8>>)
    ensures
        r.is_some() == (forall|i: int| 0 <= i < units@.len() ==> #[trigger] units@[i] < 0x80),
        r matches Some(b) ==> b@.len() == units@.len() && forall|i: int|
            0 <= i < b@.len() ==> #[trigger] b@[i] == units@[i] && b@[i] < 0x80,
{
    let mut out: Vec<u8> = Vec::new();
    let mut i: usize = 0;
    while i < units.len()
        invariant
            0 <= i <= units@.len(),
            out@.len() == i,
            forall|j: int| 0 <= j < i ==> #[trigger] out@[j] == units@[j] && out@[j] < 0x80,
            forall|j: int| 0 <= j < i ==> #[trigger] units@[j] < 0x80,
        decreases units@.len() - i,
    {
        if units[i] >= 0x80 {
            return None;
        }
        out.push(units[i] as u8);
        i = i + 1;
    }
    Some(out)
}

/// `AcDb:Headers`, the R2007 spelling of the header section's name.
pub open spec fn headers_name() -> Seq<u8> {
    seq![0x41u8, 0x63, 0x44, 0x62, 0x3A, 0x48, 0x65, 0x61, 0x64, 0x65, 0x72, 0x73]
}

/// The R2000 record number of a named R2007 section: `AcDb:Headers` is the
/// header section, other ASCII names as for R2004, anything else 255.
pub fn record_no_for_units(units: &Vec<u16>) -> (r: u8)
    ensures
        (exists|i: int| 0 <= i < units@.len() && #[trigger] units@[i] >= 0x80) ==> r == 255,
        (forall|i: int| 0 <= i < units@.len() ==> #[trigger] units@[i] < 0x80) && units@.map_values(|u: u16| u as u8)
            != headers_name() ==> r == crate::r2004::record_no_of_name(units@.map_values(|u: u16| u as u8)),
{
    match ascii_units(units) {
        Some(b) => {
            let headers: [u8; 12] = [0x41, 0x63, 0x44, 0x62, 0x3A, 0x48, 0x65, 0x61, 0x64, 0x65, 0x72, 0x73];
            assert(headers@ =~= headers_name());
            assert(b@ =~= units@.map_values(|u: u16| u as u8));
            if bytes_eq(b.as_slice(), &headers) {
                0
            } else {
                record_no_for_name(b.as_slice())
            }
        },
        None => 255,
    }
}

/// Whether an R2007 section name spells the ASCII `name`.
fn units_named(units: &Vec<u16>, name: &[u8]) -> (r: bool) {
    match ascii_units(units) {
        Some(b) => bytes_eq(b.as_slice(), name),
        None => false,
    }
}

/// Reads the section map from the page that the header names.
pub fn read_section_map(bytes: &[u8], header: &HeaderData, page_map: &Vec<PageMapEntry>) -> (r: Result<
    Vec<SectionEntry>,
    DwgError,
>)
    ensures
        r matches Ok(v) ==> v@.len() > 0 && (header.sections_amount > 0 ==> v@.len() <= header.sections_amount - 1)
            && forall|i: int| 0 <= i < v@.len() ==> ((#[trigger] v@[i]).name@.len() > 0 ==> v@[i].name@.last() != 0),
{
    let mut found: Option<PageMapEntry> = None;
    let mut i: usize = 0;
    while i < page_map.len()
        invariant
            0 <= i <= page_map@.len(),
        decreases page_map@.len() - i,
    {
        if page_map[i].id == header.sections_map_id as i64 {
            found = Some(page_map[i]);
            break;
        }
        i = i + 1;
    }
    let entry = match found {
        Some(e) => e,
        None => {
            return Err(DwgError::new(ErrorKind::Format, "section map page not in the page map"));
        },
    };
    let data = read_system_page(
        bytes,
        entry.address,
        header.sections_map_size_compressed,
        header.sections_map_size_uncompressed,
        header.sections_map_correction_factor,
    )?;
    let max_sections: u64 = if header.sections_amount > 0 { header.sections_amount - 1 } else { u64::MAX };
    let mut reader = ByteReader::new(data.as_slice());
    let mut sections: Vec<SectionEntry> = Vec::new();
    while reader.remaining() >= 64 && (sections.len() as u64) < max_sections
        invariant
            reader.wf(),
            reader.bytes() == data@,
            sections@.len() <= max_sections,
            max_sections == (if header.sections_amount > 0 { header.sections_amount - 1 } else { u64::MAX as int }),
            forall|i: int| 0 <= i < sections@.len() ==> ((#[trigger] sections@[i]).name@.len() > 0
                ==> sections@[i].name@.last() != 0),
        decreases data@.len() - reader.position(),
    {
        let ghost entry_start = reader.position();
        let size = reader.read_u64_le()?;
        let _max_size = reader.read_u64_le()?;
        let encrypted = reader.read_u64_le()?;
        let _hash_code = reader.read_u64_le()?;
        let name_length = reader.read_u64_le()?;
        let _unknown = reader.read_u64_le()?;
        let encoded = reader.read_u64_le()?;
        let page_count = reader.read_u64_le()?;
        if size == 0 && page_count == 0 && name_length == 0 {
            break;
        }
        if encrypted == 1 {
            return Err(DwgError::not_implemented("encrypted R2007 sections are not supported"));
        }
        if name_length > reader.remaining() as u64 {
            return Err(DwgError::new(ErrorKind::Format, "section name past the section map"));
        }
        let name_bytes = reader.read_bytes(name_length as usize)?;
        let name = decode_utf16_units(name_bytes)?;
        let mut pages: Vec<SectionPageInfo> = Vec::new();
        let mut k: u64 = 0;
        while k < page_count
            invariant
                reader.wf(),
                reader.bytes() == data@,
                reader.position() > entry_start,
                0 <= k <= page_count,
            decreases page_count - k,
        {
            if reader.remaining() < 56 {
                return Err(DwgError::new(ErrorKind::Format, "section page info truncated"));
            }
            let offset = reader.read_u64_le()?;
            let _page_size = reader.read_u64_le()?;
            let id = reader.read_u64_le()?;
            let size_uncompressed = reader.read_u64_le()?;
            let size_compressed = reader.read_u64_le()?;
            let _checksum = reader.read_u64_le()?;
            let _crc = reader.read_u64_le()?;
            pages.push(SectionPageInfo { offset, id, size_uncompressed, size_compressed });
            k = k + 1;
        }
        sections.push(SectionEntry { size, encoded, name, pages });
    }
    if sections.len() == 0 {
        return Err(DwgError::new(ErrorKind::Format, "section map has no entries"));
    }
    Ok(sections)
}

/// Reads one data page: at least its page-map size, and at least enough
/// 251-byte blocks for its compressed size; Reed-Solomon decoded for
/// encodings 1 and 4, then decompressed where smaller than declared.
pub fn read_data_page(
    bytes: &[u8],
    page_entry: &PageMapEntry,
    encoded: u64,
    size_compressed: u64,
    size_uncompressed: u64,
) -> (r: Result<Vec<u8>, DwgError>)
    ensures
        r matches Ok(v) ==> v@.len() == size_uncompressed,
        encoded != 0 && encoded != 1 && encoded != 4 ==> r.is_err(),
{
    let block_count = div_ceil(size_compressed, 251);
    if block_count > u64::MAX / 251 {
        return Err(DwgError::new(ErrorKind::Format, "data page size overflow"));
    }
    let min_page = 251 * block_count;
    let read_size = if page_entry.size > min_page { page_entry.size } else { min_page };
    if page_entry.address > bytes.len() as u64 || read_size > bytes.len() as u64 - page_entry.address {
        return Err(DwgError::new(ErrorKind::Format, "data page out of the file"));
    }
    let start = page_entry.address as usize;
    let page = &bytes[start..start + read_size as usize];
    if block_count > usize::MAX as u64 {
        return Err(DwgError::new(ErrorKind::Format, "data page size overflow"));
    }
    let decoded = if encoded == 0 {
        vstd::slice::slice_to_vec(page)
    } else if encoded == 1 || encoded == 4 {
        decode_reed_solomon(page, 251, block_count as usize, encoded as u8)?
    } else {
        return Err(DwgError::not_implemented("unsupported R2007 data page encoding"));
    };
    if size_compressed < size_uncompressed {
        if size_compressed > decoded.len() as u64 || size_uncompressed > usize::MAX as u64 {
            return Err(DwgError::new(ErrorKind::Format, "compressed data page past its buffer"));
        }
        decompress_r21(&decoded.as_slice()[0..size_compressed as usize], size_uncompressed as usize)
    } else {
        if size_uncompressed > decoded.len() as u64 {
            return Err(DwgError::new(ErrorKind::Format, "data page past its buffer"));
        }
        Ok(vstd::slice::slice_to_vec(&decoded.as_slice()[0..size_uncompressed as usize]))
    }
}

fn find_page(page_map: &Vec<PageMapEntry>, id: u64) -> (r: Option<PageMapEntry>)
    ensures
        r matches Some(e) ==> e.id == id as i64,
{
    let mut i: usize = 0;
    while i < page_map.len()
        invariant
            0 <= i <= page_map@.len(),
        decreases page_map@.len() - i,
    {
        if page_map[i].id == id as i64 {
            return Some(page_map[i]);
        }
        i = i + 1;
    }
    None
}

/// Reassembles a section: each page written at its offset, clipped to the
/// section's size; a size above the ceiling is a format failure.
pub fn load_section_data(
    bytes: &[u8],
    section: &SectionEntry,
    page_map: &Vec<PageMapEntry>,
    config: &ParseConfig,
) -> (r: Result<Vec<u8>, DwgError>)
    ensures
        section.size > config.max_section_bytes ==> r.is_err() && r->Err_0.kind == ErrorKind::Format,
        r matches Ok(v) ==> v@.len() == section.size,
{
    if section.size > config.max_section_bytes {
        return Err(DwgError::new(ErrorKind::Format, "section size above the limit"));
    }
    if section.size > usize::MAX as u64 {
        return Err(DwgError::new(ErrorKind::Format, "section size above the address space"));
    }
    let total = section.size;
    let mut output: Vec<u8> = Vec::new();
    let mut n: u64 = 0;
    while n < total
        invariant
            0 <= n <= total,
            output@.len() == n,
        decreases total - n,
    {
        output.push(0);
        n = n + 1;
    }
    let mut idx: usize = 0;
    while idx < section.pages.len()
        invariant
            output@.len() == total,
            total <= usize::MAX,
            section.size <= config.max_section_bytes,
            0 <= idx <= section.pages@.len(),
        decreases section.pages@.len() - idx,
    {
        let page = section.pages[idx];
        let entry = match find_page(page_map, page.id) {
            Some(e) => e,
            None => {
                return Err(DwgError::new(ErrorKind::Format, "section page not in the page map"));
            },
        };
        let data = read_data_page(bytes, &entry, section.encoded, page.size_compressed, page.size_uncompressed)?;
        if page.offset < total {
            let start = page.offset;
            let mut k: usize = 0;
            while k < data.len() && (k as u64) < total - start
                invariant
                    output@.len() == total,
                    total <= usize::MAX,
                    start < total,
                    0 <= k <= data@.len(),
                decreases data@.len() - k,
            {
                output.set((start + k as u64) as usize, data[k]);
                k = k + 1;
            }
        }
        idx = idx + 1;
    }
    Ok(output)
}

/// The page map and section map of an R2007 file.
#[derive(Debug, Clone)]
pub struct ContainerMetadata {
    pub page_map: Vec<PageMapEntry>,
    pub sections: Vec<SectionEntry>,
}

pub fn parse_container_metadata(bytes: &[u8]) -> (r: Result<ContainerMetadata, DwgError>)
    ensures
        r matches Ok(m) ==> m.sections@.len() > 0 && m.page_map@.len() > 0,
{
    let header = read_header_data(bytes)?;
    let page_map = read_page_map(bytes, &header)?;
    let sections = read_section_map(bytes, &header, &page_map)?;
    Ok(ContainerMetadata { page_map, sections })
}

/// Relies on `String::from_utf16_lossy`: ASCII units are the characters with
/// those codes.
#[verifier::external_body]
fn text_of_units(units: &[u16]) -> (r: String)
    ensures
        (forall|j: int| 0 <= j < units@.len() ==> #[trigger] units@[j] < 0x80) ==> r@ == units@.map_values(
            |u: u16| u as char,
        ),
{
    String::from_utf16_lossy(units)
}

fn record_for_section(section: &SectionEntry, page_map: &Vec<PageMapEntry>) -> (r: SectionLocatorRecord)
    ensures
        r.size == if section.size > u32::MAX { u32::MAX as int } else { section.size as int },
{
    let offset = if section.pages.len() > 0 {
        match find_page(page_map, section.pages[0].id) {
            Some(e) => if e.address > 0xFFFF_FFFF { 0xFFFF_FFFFu32 } else { e.address as u32 },
            None => 0,
        }
    } else {
        0
    };
    SectionLocatorRecord {
        record_no: record_no_for_units(&section.name),
        offset,
        size: if section.size > 0xFFFF_FFFF { 0xFFFF_FFFFu32 } else { section.size as u32 },
    }
}

/// The directory of an R2007 file: one record per section of the map.
pub fn parse_section_directory(bytes: &[u8], config: &ParseConfig) -> (r: Result<SectionDirectory, DwgError>)
    ensures
        r matches Ok(d) ==> d.records@.len() == d.record_count && d.names@.len() == d.records@.len()
            && d.records@.len() > 0,
{
    let metadata = parse_container_metadata(bytes)?;
    let mut records: Vec<SectionLocatorRecord> = Vec::new();
    let mut names: Vec<String> = Vec::new();
    let mut i: usize = 0;
    while i < metadata.sections.len()
        invariant
            0 <= i <= metadata.sections@.len(),
            records@.len() == i,
            names@.len() == i,
        decreases metadata.sections@.len() - i,
    {
        records.push(record_for_section(&metadata.sections[i], &metadata.page_map));
        names.push(text_of_units(metadata.sections[i].name.as_slice()));
        i = i + 1;
    }
    if records.len() > 0xFFFF_FFFF {
        return Err(DwgError::new(ErrorKind::Format, "too many sections"));
    }
    Ok(SectionDirectory { record_count: records.len() as u32, records, crc: 0, sentinel_ok: true, names })
}

/// The decoded bytes of the `index`-th section.
pub fn load_section_by_index(bytes: &[u8], directory: &SectionDirectory, index: usize, config: &ParseConfig) -> (r:
    Result<SectionData, DwgError>)
    ensures
        r matches Ok(s) ==> s.data@.len() <= config.max_section_bytes,
{
    let metadata = parse_container_metadata(bytes)?;
    if index >= metadata.sections.len() {
        return Err(DwgError::new(ErrorKind::Format, "section index out of range"));
    }
    let section = &metadata.sections[index];
    let data = load_section_data(bytes, section, &metadata.page_map, config)?;
    let record = if index < directory.records.len() {
        directory.records[index]
    } else {
        record_for_section(section, &metadata.page_map)
    };
    Ok(SectionData { record, data })
}

/// The decoded bytes of the first section named `name`.
pub fn load_named_section_data(bytes: &[u8], config: &ParseConfig, name: &[u8]) -> (r: Result<
    Vec<u8>,
    DwgError,
>)
    ensures
        r matches Ok(v) ==> v@.len() <= config.max_section_bytes,
{
    let metadata = parse_container_metadata(bytes)?;
    let mut i: usize = 0;
    while i < metadata.sections.len()
        invariant
            0 <= i <= metadata.sections@.len(),
        decreases metadata.sections@.len() - i,
    {
        if units_named(&metadata.sections[i].name, name) {
            return load_section_data(bytes, &metadata.sections[i], &metadata.page_map, config);
        }
        i = i + 1;
    }
    Err(DwgError::new(ErrorKind::Format, "section not found"))
}

/// The object index of an R2007 file: the `AcDb:Handles` map, with each
/// entry kept only where a record can be read at its offset in
/// `AcDb:AcDbObjects`.
pub fn build_object_index(bytes: &[u8], config: &ParseConfig) -> (r: Result<ObjectIndex, DwgError>)
    ensures
        r matches Ok(idx) ==> forall|i: int|
            0 <= i < idx.objects@.len() ==> (#[trigger] idx.objects@[i]).offset <= u32::MAX,
        r matches Ok(idx) ==> exists|handles: Seq<u8>, objects: Seq<u8>|
            object_map_of(handles, config.max_objects as int) is Ok && idx.objects@ == #[trigger] reachable(
                idx_map(handles, config.max_objects as int),
                objects,
            ),
{
    let handles_data = load_named_section_data(bytes, config, &handles_name_bytes())?;
    let objects_data = load_named_section_data(bytes, config, &objects_name_bytes())?;
    let r = index_from_sections(handles_data.as_slice(), objects_data.as_slice(), config.max_objects);
    proof {
        if let Ok(idx) = &r {
            assert(idx.objects@ == reachable(idx_map(handles_data@, config.max_objects as int), objects_data@));
        }
    }
    r
}

/// The record at `offset` of the decoded `AcDb:AcDbObjects` section.
pub fn parse_object_record(bytes: &[u8], offset: u32, config: &ParseConfig) -> (r: Result<
    OwnedObjectRecord,
    DwgError,
>)
    ensures
        r matches Ok(rec) ==> rec.offset == offset && rec.body_bit_pos < 8,
{
    let data = load_named_section_data(bytes, config, &objects_name_bytes())?;
    parse_object_record_owned(data.as_slice(), offset)
}

/// A UTF-16 text: a bit-short length, then that many raw shorts.
pub fn read_tu(reader: &mut BitReader<'_>) -> (r: Result<Vec<u16>, DwgError>)
    requires
        old(reader).wf(),
    ensures
        final(reader).keeps(old(reader)),
        r matches Ok(v) ==> crate::bit_reader::spec_bs(old(reader).bytes(), old(reader).pos()) matches Some(
            (n, _),
        ) && v@.len() == n,
{
    let n = reader.read_bs()?;
    let mut units: Vec<u16> = Vec::new();
    let mut i: u16 = 0;
    while i < n
        invariant
            reader.keeps(old(reader)),
            units@.len() == i,
            0 <= i <= n,
        decreases n - i,
    {
        units.push(reader.read_rs(Endian::Little)?);
        i = i + 1;
    }
    Ok(units)
}

fn read_class_record(reader: &mut BitReader<'_>) -> (r: Result<u16, DwgError>)
    requires
        old(reader).wf(),
    ensures
        final(reader).keeps(old(reader)),
{
    let class_number = reader.read_bs()?;
    let _proxy_flags = reader.read_bs()?;
    let _zombie = reader.read_b()?;
    let _item_class_id = reader.read_bs()?;
    let _instances = reader.read_bl()?;
    let _dwg_version = reader.read_bl()?;
    let _maint_version = reader.read_bl()?;
    let _unknown0 = reader.read_bl()?;
    let _unknown1 = reader.read_bl()?;
    Ok(class_number)
}

/// Parses the `AcDb:Classes` section (R2007 layout): the class records hold
/// no names; where the string stream is present, three UTF-16 texts per
/// class follow the table, the last being the DXF name.
pub fn parse_classes_section(data: &[u8]) -> (r: Result<Vec<ClassEntry>, DwgError>)
    ensures
        r.is_ok() ==> data@.len() >= 16 && data@.subrange(0, 16) == crate::r2004::classes_sentinel_before(),
{
    if !fits(data) {
        return Err(DwgError::new(ErrorKind::Format, "classes section too large"));
    }
    let mut reader = BitReader::new(data);
    let before = reader.read_rcs(16)?;
    if !bytes_eq(before.as_slice(), &classes_sentinel_before_bytes()) {
        return Err(DwgError::new(ErrorKind::Format, "classes sentinel (before) mismatch"));
    }
    proof {
        assert forall|i: int| 0 <= i < 16 implies before@[i] == data@[i] by {
            assert(crate::bit_reader::rc_at(data@, 8 * i) == data@[i]) by {
                vstd::arithmetic::div_mod::lemma_fundamental_div_mod_converse(8 * i, 8, i, 0);
            }
        }
        assert(data@.subrange(0, 16) =~= before@);
    }
    let size = reader.read_rl(Endian::Little)?;
    let end_bit = reader.read_rl(Endian::Little)?;
    let max_class_number = reader.read_bs()?;
    let _zero0 = reader.read_rc()?;
    let _zero1 = reader.read_rc()?;
    let _flag = reader.read_b()?;
    let (saved_byte, saved_bit) = reader.get_pos();
    let string_stream_present = if end_bit > 0 && end_bit <= u32::MAX - 160 {
        reader.set_bit_pos(160 + end_bit - 1);
        let flag = reader.read_b()?;
        reader.set_pos(saved_byte, saved_bit);
        flag != 0
    } else {
        false
    };
    let mut classes: Vec<ClassEntry> = Vec::new();
    let ghost d = data@;
    loop
        invariant
            reader.wf(),
            reader.bytes() == d,
            d == data@,
            data@.len() >= 16 && data@.subrange(0, 16) == crate::r2004::classes_sentinel_before(),
        decreases d.len() * 8 + 8 - reader.pos(),
    {
        let (byte_pos, _) = reader.get_pos();
        if byte_pos > size as usize {
            break;
        }
        let start = reader.tell_bits();
        let class_number = read_class_record(&mut reader)?;
        let (end_byte, _) = reader.get_pos();
        if reader.tell_bits() <= start || end_byte > data.len() {
            return Err(DwgError::new(ErrorKind::Format, "class record makes no progress"));
        }
        classes.push(ClassEntry { class_number, dxf_name: Vec::new(), item_class_id: 0 });
        if class_number == max_class_number {
            break;
        }
    }
    if string_stream_present {
        let mut i: usize = 0;
        while i < classes.len()
            invariant
                reader.wf(),
                reader.bytes() == d,
                d == data@,
                data@.len() >= 16 && data@.subrange(0, 16) == crate::r2004::classes_sentinel_before(),
                0 <= i <= classes@.len(),
            decreases classes@.len() - i,
        {
            let _app_name = read_tu(&mut reader)?;
            let _cpp_name = read_tu(&mut reader)?;
            let dxf = read_tu(&mut reader)?;
            let name = match ascii_units(&dxf) {
                Some(b) => b,
                None => Vec::new(),
            };
            let mut entry = classes[i].clone();
            entry.dxf_name = name;
            classes.set(i, entry);
            i = i + 1;
        }
        if end_bit <= u32::MAX - 160 {
            reader.set_bit_pos(160 + end_bit);
        }
    }
    let _crc = reader.read_crc()?;
    let after = reader.read_rcs(16)?;
    if !bytes_eq(after.as_slice(), &classes_sentinel_after_bytes()) {
        return Err(DwgError::new(ErrorKind::Format, "classes sentinel (after) mismatch"));
    }
    Ok(classes)
}

/// The dynamic type codes of an R2007 file; classes without a DXF name are
/// left out.
pub fn load_dynamic_type_map(bytes: &[u8], config: &ParseConfig) -> (r: Result<Vec<(u16, String)>, DwgError>)
    ensures
        r matches Ok(v) ==> forall|i: int| 0 <= i < v@.len() ==> (#[trigger] v@[i]).0 >= 500,
{
    let data = load_named_section_data(bytes, config, &classes_name_bytes())?;
    let classes = parse_classes_section(data.as_slice())?;
    let all = dynamic_types_of(&classes);
    let mut named: Vec<(u16, String)> = Vec::new();
    let mut i: usize = 0;
    while i < all.len() && i < classes.len()
        invariant
            0 <= i <= all@.len(),
            all@.len() <= classes@.len(),
            forall|j: int| 0 <= j < all@.len() ==> (#[trigger] all@[j]).0 == 500 + j,
            forall|j: int| 0 <= j < named@.len() ==> (#[trigger] named@[j]).0 >= 500,
        decreases all@.len() - i,
    {
        if classes[i].dxf_name.len() > 0 {
            let code = all[i].0;
            let name = all[i].1.clone();
            named.push((code, name));
        }
        i = i + 1;
    }
    Ok(named)
}

} // verus!

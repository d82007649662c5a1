use vstd::prelude::*;
use vstd::arithmetic::power2::pow2;
use crate::error::{DwgError, ErrorKind};

verus! {

/// Largest byte position a bit cursor may hold, so that every bit position
/// fits in a `u64`.
pub open spec fn max_byte_pos() -> int {
    0x0FFF_FFFF_FFFF_FFFF
}

/// Byte order of the raw multi-byte primitives.
#[derive(Debug, Clone, Copy, PartialEq, Eq, Structural)]
pub enum Endian {
    Little,
    Big,
}

/// A raw handle reference: a 4-bit code, a 4-bit byte count and the value.
#[derive(Debug, Clone, Copy, PartialEq, Eq, Structural)]
pub struct HandleRef {
    pub code: u8,
    pub counter: u8,
    pub value: u64,
}

/// The bit at bit position `p`, counting from the most significant bit of
/// each byte.
pub open spec fn bit_at(d: Seq<u8>, p: int) -> u8 {
    (d[p / 8] >> ((7 - p % 8) as u8)) & 1u8
}

/// The eight bits starting at bit position `p`.
pub open spec fn rc_at(d: Seq<u8>, p: int) -> u8 {
    let b = p / 8;
    let k = p % 8;
    if k == 0 {
        d[b]
    } else {
        let hi = (d[b] as u16) << (k as u16);
        let lo = (d[b + 1] as u16) >> ((8 - k) as u16);
        ((hi | lo) & 0xFFu16) as u8
    }
}

/// The `n` bits starting at `p`, most significant first, as a number.
pub open spec fn bits_value(d: Seq<u8>, p: int, n: nat) -> nat
    decreases n,
{
    if n == 0 {
        0
    } else {
        bits_value(d, p, (n - 1) as nat) * 2 + bit_at(d, p + n - 1) as nat
    }
}

/// One bit.
pub open spec fn spec_b(d: Seq<u8>, p: int) -> Option<(u8, int)> {
    if 0 <= p < d.len() * 8 {
        Some((bit_at(d, p), p + 1))
    } else {
        None
    }
}

/// `n` bits, most significant first.
pub open spec fn spec_bits(d: Seq<u8>, p: int, n: nat) -> Option<(u64, int)> {
    if 0 <= p && (n == 0 || p + n <= d.len() * 8) && n <= 64 {
        Some((bits_value(d, p, n) as u64, p + n))
    } else {
        None
    }
}

/// A short bit field (at most eight bits) as a byte.
pub open spec fn spec_small(d: Seq<u8>, p: int, n: nat) -> Option<(u8, int)> {
    if 0 <= p && (n == 0 || p + n <= d.len() * 8) {
        Some((bits_value(d, p, n) as u8, p + n))
    } else {
        None
    }
}

/// A raw char.
pub open spec fn spec_rc(d: Seq<u8>, p: int) -> Option<(u8, int)> {
    if 0 <= p && p + 8 <= d.len() * 8 {
        Some((rc_at(d, p), p + 8))
    } else {
        None
    }
}

/// Two bytes joined in the given order.
pub open spec fn join16(first: u8, second: u8, e: Endian) -> u16 {
    match e {
        Endian::Little => (first as int + second as int * 0x100) as u16,
        Endian::Big => (first as int * 0x100 + second as int) as u16,
    }
}

/// Two shorts joined in the given order.
pub open spec fn join32(first: u16, second: u16, e: Endian) -> u32 {
    match e {
        Endian::Little => (first as int + second as int * 0x10000) as u32,
        Endian::Big => (first as int * 0x10000 + second as int) as u32,
    }
}

/// The raw short at `p`.
pub open spec fn rs_at(d: Seq<u8>, p: int, e: Endian) -> u16 {
    join16(rc_at(d, p), rc_at(d, p + 8), e)
}

/// A raw short: two raw chars.
pub open spec fn spec_rs(d: Seq<u8>, p: int, e: Endian) -> Option<(u16, int)> {
    if 0 <= p && p + 16 <= d.len() * 8 {
        Some((rs_at(d, p, e), p + 16))
    } else {
        None
    }
}

/// A raw long: two raw shorts.
pub open spec fn spec_rl(d: Seq<u8>, p: int, e: Endian) -> Option<(u32, int)> {
    if 0 <= p && p + 32 <= d.len() * 8 {
        Some((join32(rs_at(d, p, e), rs_at(d, p + 16, e), e), p + 32))
    } else {
        None
    }
}

/// `count` raw chars.
pub open spec fn rcs_value(d: Seq<u8>, p: int, count: nat) -> Seq<u8> {
    Seq::new(count, |i: int| rc_at(d, p + 8 * i))
}

/// Whether `count` raw chars can be read at `p`.
pub open spec fn rcs_ok(d: Seq<u8>, p: int, count: nat) -> bool {
    0 <= p && (count == 0 || p + 8 * count <= d.len() * 8)
}

/// The raw long at `p`.
pub open spec fn rl_at(d: Seq<u8>, p: int, e: Endian) -> u32 {
    join32(rs_at(d, p, e), rs_at(d, p + 16, e), e)
}

/// The eight raw chars at `p` as the encoding of a double.
pub open spec fn rd_at(d: Seq<u8>, p: int, e: Endian) -> u64 {
    match e {
        Endian::Little => (rl_at(d, p, e) as int + rl_at(d, p + 32, e) as int * 0x1_0000_0000) as u64,
        Endian::Big => (rl_at(d, p, e) as int * 0x1_0000_0000 + rl_at(d, p + 32, e) as int) as u64,
    }
}

/// A raw double, as its IEEE-754 binary64 encoding.
pub open spec fn spec_rd(d: Seq<u8>, p: int, e: Endian) -> Option<(u64, int)> {
    if 0 <= p && p + 64 <= d.len() * 8 {
        Some((rd_at(d, p, e), p + 64))
    } else {
        None
    }
}

/// The encoding of the double 1.0.
pub const ONE_BITS: u64 = 0x3FF0_0000_0000_0000;

/// A bit-short: a 2-bit selector, then a raw short, a raw char, 0 or 256.
pub open spec fn spec_bs(d: Seq<u8>, p: int) -> Option<(u16, int)> {
    match spec_small(d, p, 2) {
        None => None,
        Some((sel, q)) => if sel == 0 {
            spec_rs(d, q, Endian::Little)
        } else if sel == 1 {
            match spec_rc(d, q) {
                None => None,
                Some((v, q2)) => Some((v as u16, q2)),
            }
        } else if sel == 2 {
            Some((0u16, q))
        } else {
            Some((256u16, q))
        },
    }
}

/// A bit-long: a 2-bit selector, then a raw long, a raw char, or 0.
pub open spec fn spec_bl(d: Seq<u8>, p: int) -> Option<(u32, int)> {
    match spec_small(d, p, 2) {
        None => None,
        Some((sel, q)) => if sel == 0 {
            spec_rl(d, q, Endian::Little)
        } else if sel == 1 {
            match spec_rc(d, q) {
                None => None,
                Some((v, q2)) => Some((v as u32, q2)),
            }
        } else {
            Some((0u32, q))
        },
    }
}

/// A bit-double: a 2-bit selector, then a raw double, 1.0 or 0.0.
pub open spec fn spec_bd(d: Seq<u8>, p: int) -> Option<(u64, int)> {
    match spec_small(d, p, 2) {
        None => None,
        Some((sel, q)) => if sel == 0 {
            spec_rd(d, q, Endian::Little)
        } else if sel == 1 {
            Some((ONE_BITS, q))
        } else {
            Some((0u64, q))
        },
    }
}

/// Three bit-doubles.
pub open spec fn spec_3bd(d: Seq<u8>, p: int) -> Option<((u64, u64, u64), int)> {
    match spec_bd(d, p) {
        None => None,
        Some((x, p1)) => match spec_bd(d, p1) {
            None => None,
            Some((y, p2)) => match spec_bd(d, p2) {
                None => None,
                Some((z, p3)) => Some(((x, y, z), p3)),
            },
        },
    }
}

/// Four raw chars at `q` replacing the low four bytes of `default`.
pub open spec fn dd_low4(d: Seq<u8>, q: int, default: u64) -> Option<(u64, int)> {
    if 0 <= q && q + 32 <= d.len() * 8 {
        Some(((default as int - default as int % 0x1_0000_0000 + rl_at(d, q, Endian::Little) as int) as u64, q
            + 32))
    } else {
        None
    }
}

/// Six raw chars at `q` replacing the low six bytes of `default`: the first
/// two become bytes 4 and 5, the last four bytes 0 to 3.
pub open spec fn dd_low6(d: Seq<u8>, q: int, default: u64) -> Option<(u64, int)> {
    if 0 <= q && q + 48 <= d.len() * 8 {
        Some(
            (
                (default as int - default as int % 0x1_0000_0000_0000 + rs_at(d, q, Endian::Little) as int
                    * 0x1_0000_0000 + rl_at(d, q + 16, Endian::Little) as int) as u64,
                q + 48,
            ),
        )
    } else {
        None
    }
}

/// A default double: a 2-bit selector, then nothing (the default itself),
/// four bytes replacing the low four of the default's encoding, six bytes
/// replacing its low six, or a whole raw double.
pub open spec fn spec_dd(d: Seq<u8>, p: int, default: u64) -> Option<(u64, int)> {
    match spec_small(d, p, 2) {
        None => None,
        Some((sel, q)) => if sel == 0 {
            Some((default, q))
        } else if sel == 1 {
            dd_low4(d, q, default)
        } else if sel == 2 {
            dd_low6(d, q, default)
        } else {
            spec_rd(d, q, Endian::Little)
        },
    }
}

/// A bit-thickness: one set bit for 0.0, else a bit-double.
pub open spec fn spec_bt(d: Seq<u8>, p: int) -> Option<(u64, int)> {
    match spec_b(d, p) {
        None => None,
        Some((b, q)) => if b == 1 {
            Some((0u64, q))
        } else {
            spec_bd(d, q)
        },
    }
}

/// A bit-extrusion: one set bit for (0, 0, 1), else three bit-doubles.
pub open spec fn spec_be(d: Seq<u8>, p: int) -> Option<((u64, u64, u64), int)> {
    match spec_b(d, p) {
        None => None,
        Some((b, q)) => if b == 1 {
            Some(((0u64, 0u64, ONE_BITS), q))
        } else {
            spec_3bd(d, q)
        },
    }
}

/// `n` raw chars at `p` read as a big-endian number.
pub open spec fn be_rcs(d: Seq<u8>, p: int, n: nat) -> nat
    decreases n,
{
    if n == 0 {
        0
    } else {
        be_rcs(d, p, (n - 1) as nat) * 256 + rc_at(d, p + 8 * (n - 1)) as nat
    }
}

/// A bit-longlong: a 3-bit byte count, then that many raw chars, big-endian.
pub open spec fn spec_bll(d: Seq<u8>, p: int) -> Option<(u64, int)> {
    match spec_small(d, p, 3) {
        None => None,
        Some((n, q)) => if rcs_ok(d, q, n as nat) {
            Some((be_rcs(d, q, n as nat) as u64, q + 8 * n))
        } else {
            None
        },
    }
}

/// A modular short: one raw short, or two when the first has its top bit set;
/// each contributes its low 15 bits.
pub open spec fn spec_ms(d: Seq<u8>, p: int) -> Option<(u32, int)> {
    match spec_rs(d, p, Endian::Little) {
        None => None,
        Some((w1, q)) => if w1 < 0x8000 {
            Some((w1 as u32, q))
        } else {
            match spec_rs(d, q, Endian::Little) {
                None => None,
                Some((w2, q2)) => Some((((w1 - 0x8000) + (w2 % 0x8000) * 0x8000) as u32, q2)),
            }
        },
    }
}

/// The signed modular char from group `i` on: `acc` holds the groups read so
/// far and `mult` the weight of group `i`. A byte with the top bit clear ends
/// the number; its 0x40 bit is the sign and its low six bits the last group.
pub open spec fn mc_from(d: Seq<u8>, p: int, i: nat, acc: int, mult: int) -> Option<(i64, int)>
    decreases 4 - i,
{
    if i >= 4 {
        Some((acc as i64, p))
    } else {
        match spec_rc(d, p) {
            None => None,
            Some((b, q)) => if b < 0x80 {
                let mag = acc + (b % 0x40) as int * mult;
                Some(((if b >= 0x40 { -mag } else { mag }) as i64, q))
            } else {
                mc_from(d, q, i + 1, acc + (b - 0x80) as int * mult, mult * 0x80)
            },
        }
    }
}

/// A signed modular char: at most four groups, least significant first.
pub open spec fn spec_mc(d: Seq<u8>, p: int) -> Option<(i64, int)> {
    mc_from(d, p, 0, 0, 1)
}

/// The unsigned modular char from group `i` on, kept to 32 bits.
pub open spec fn umc_from(d: Seq<u8>, p: int, i: nat, acc: int, mult: int) -> Option<(u32, int)>
    decreases 5 - i,
{
    if i >= 5 {
        Some(((acc % 0x1_0000_0000) as u32, p))
    } else {
        match spec_rc(d, p) {
            None => None,
            Some((b, q)) => {
                let next = acc + (b % 0x80) as int * mult;
                if b < 0x80 {
                    Some(((next % 0x1_0000_0000) as u32, q))
                } else {
                    umc_from(d, q, i + 1, next, mult * 0x80)
                }
            },
        }
    }
}

/// An unsigned modular char: at most five 7-bit groups, least significant first.
pub open spec fn spec_umc(d: Seq<u8>, p: int) -> Option<(u32, int)> {
    umc_from(d, p, 0, 0, 1)
}

/// An object type (R2010 and later): a 2-bit selector, then a raw char, a raw
/// char plus 0x1F0, or a raw short.
pub open spec fn spec_ot(d: Seq<u8>, p: int) -> Option<(u16, int)> {
    match spec_small(d, p, 2) {
        None => None,
        Some((sel, q)) => if sel == 0 {
            match spec_rc(d, q) {
                None => None,
                Some((v, q2)) => Some((v as u16, q2)),
            }
        } else if sel == 1 {
            match spec_rc(d, q) {
                None => None,
                Some((v, q2)) => Some(((v as int + 0x1F0) as u16, q2)),
            }
        } else {
            spec_rs(d, q, Endian::Little)
        },
    }
}

/// A handle reference whose byte count is at most four: the code in the
/// high nibble of the first raw char, the count in its low nibble, then the
/// value in that many raw chars, big-endian. `None` also where the count
/// exceeds four.
pub open spec fn spec_h(d: Seq<u8>, p: int) -> Option<(HandleRef, int)> {
    match spec_rc(d, p) {
        None => None,
        Some((b, q)) => {
            let counter = b % 16;
            if counter <= 4 && rcs_ok(d, q, counter as nat) {
                Some((HandleRef { code: b / 16, counter, value: be_rcs(d, q, counter as nat) as u64 }, q + 8 * counter))
            } else {
                None
            }
        },
    }
}

/// Whether the handle reference at `p` declares more than four value bytes.
pub open spec fn h_count_too_large(d: Seq<u8>, p: int) -> bool {
    spec_rc(d, p).is_some() && rc_at(d, p) % 16 > 4
}

/// Text of raw code-page bytes: NUL bytes dropped, bytes from 0x7F up shown
/// as `*`.
pub open spec fn tv_text(raw: Seq<u8>) -> Seq<char>
    decreases raw.len(),
{
    if raw.len() == 0 {
        Seq::empty()
    } else {
        let last = raw.last();
        let rest = tv_text(raw.drop_last());
        if last == 0 {
            rest
        } else if last >= 0x7F {
            rest.push('*')
        } else {
            rest.push(last as char)
        }
    }
}

/// A variable text: a bit-short length, then that many raw chars.
pub open spec fn spec_tv(d: Seq<u8>, p: int) -> Option<(Seq<char>, int)> {
    match spec_bs(d, p) {
        None => None,
        Some((n, q)) => if rcs_ok(d, q, n as nat) {
            Some((tv_text(rcs_value(d, q, n as nat)), q + 8 * n))
        } else {
            None
        },
    }
}

/// The next byte boundary at or after `p`.
pub open spec fn aligned_up(p: int) -> int {
    if p % 8 == 0 {
        p
    } else {
        (p / 8 + 1) * 8
    }
}

/// A CRC: the next byte boundary, then a little-endian raw short.
pub open spec fn spec_crc(d: Seq<u8>, p: int) -> Option<(u16, int)> {
    spec_rs(d, aligned_up(p), Endian::Little)
}

/// The result of a read, against what its specification gives: the value and
/// the position after it, or an end-of-data failure.
pub open spec fn outcome<T>(r: Result<T, DwgError>, s: Option<(T, int)>, end: int) -> bool {
    match r {
        Ok(v) => s == Some((v, end)),
        Err(e) => s.is_none() && e.kind == ErrorKind::Io,
    }
}

proof fn lemma_split(b: int, k: int)
    requires
        0 <= b,
        0 <= k < 8,
    ensures
        (b * 8 + k) / 8 == b,
        (b * 8 + k) % 8 == k,
{
    vstd::arithmetic::div_mod::lemma_fundamental_div_mod_converse(b * 8 + k, 8, b, k);
}

proof fn lemma_low_bit(x: u8, s: u8)
    ensures
        (x >> s) & 1u8 <= 1,
{
    assert((x >> s) & 1u8 <= 1) by (bit_vector);
}

proof fn lemma_bits_bound(d: Seq<u8>, p: int, n: nat)
    ensures
        bits_value(d, p, n) < pow2(n),
    decreases n,
{
    vstd::arithmetic::power2::lemma_pow2_pos(n);
    if n > 0 {
        vstd::arithmetic::power2::lemma_pow2_unfold(n);
        lemma_bits_bound(d, p, (n - 1) as nat);
        lemma_low_bit(d[(p + n - 1) / 8], (7 - (p + n - 1) % 8) as u8);
        assert(bit_at(d, p + n - 1) <= 1);
        assert(bits_value(d, p, n) == bits_value(d, p, (n - 1) as nat) * 2 + bit_at(d, p + n - 1) as nat);
    }
}

/// The text that lossy UTF-8 decoding gives for `b`.
pub uninterp spec fn lossy_text(b: Seq<u8>) -> Seq<char>;

/// Relies on `String::from_utf8_lossy`: valid UTF-8 is decoded as it stands
/// (ASCII bytes are the characters with those codes); invalid sequences
/// become U+FFFD.
#[verifier::external_body]
pub(crate) fn text_of_bytes(bytes: &[u8]) -> (r: String)
    ensures
        r@ == lossy_text(bytes@),
        (forall|j: int| 0 <= j < bytes@.len() ==> #[trigger] bytes@[j] < 0x80) ==> r@
            == bytes@.map_values(|b: u8| b as char),
{
    String::from_utf8_lossy(bytes).into_owned()
}

/// Whether a bit cursor can be laid over `len` bytes: every bit position must
/// fit in a `u64`.
pub open spec fn reader_fits(len: int) -> bool {
    len <= max_byte_pos() && len < usize::MAX
}

/// Whether `data` is small enough for a bit cursor.
pub fn fits(data: &[u8]) -> (r: bool)
    ensures
        r == reader_fits(data@.len() as int),
{
    data.len() < usize::MAX && data.len() as u64 <= 0x0FFF_FFFF_FFFF_FFFF
}

/// A bit cursor over a borrowed byte slice.
#[derive(Debug, Clone)]
pub struct BitReader<'a> {
    data: &'a [u8],
    byte_pos: usize,
    bit_pos: u8,
}

impl<'a> BitReader<'a> {
    pub closed spec fn bytes(&self) -> Seq<u8> {
        self.data@
    }

    /// The cursor as an absolute bit position.
    pub closed spec fn pos(&self) -> int {
        self.byte_pos as int * 8 + self.bit_pos as int
    }

    pub closed spec fn wf(&self) -> bool {
        &&& self.bit_pos < 8
        &&& self.byte_pos <= max_byte_pos()
        &&& self.byte_pos < usize::MAX
        &&& self.data@.len() <= max_byte_pos()
        &&& self.data@.len() < usize::MAX
    }

    /// What a read leaves unchanged.
    pub open spec fn keeps(&self, other: &Self) -> bool {
        &&& self.bytes() == other.bytes()
        &&& self.wf()
    }

    pub fn new(data: &'a [u8]) -> (r: BitReader<'a>)
        requires
            data@.len() <= max_byte_pos(),
            data@.len() < usize::MAX,
        ensures
            r.wf(),
            r.bytes() == data@,
            r.pos() == 0,
    {
        BitReader { data, byte_pos: 0, bit_pos: 0 }
    }

    pub fn tell_bits(&self) -> (r: u64)
        requires
            self.wf(),
        ensures
            r == self.pos(),
    {
        (self.byte_pos as u64) * 8 + self.bit_pos as u64
    }

    pub fn get_pos(&self) -> (r: (usize, u8))
        requires
            self.wf(),
        ensures
            r.0 * 8 + r.1 == self.pos(),
            r.1 < 8,
            r.0 <= max_byte_pos(),
            r.0 < usize::MAX,
    {
        (self.byte_pos, self.bit_pos)
    }

    /// Moves to byte `byte_pos`, bit `bit_pos` (a bit index above 7 counts as 7).
    pub fn set_pos(&mut self, byte_pos: usize, bit_pos: u8)
        requires
            old(self).wf(),
            byte_pos <= max_byte_pos(),
            byte_pos < usize::MAX,
        ensures
            final(self).keeps(old(self)),
            final(self).pos() == byte_pos * 8 + (if bit_pos < 7 { bit_pos } else { 7 }),
    {
        self.byte_pos = byte_pos;
        self.bit_pos = if bit_pos < 7 { bit_pos } else { 7 };
    }

    /// Moves to an absolute bit position.
    pub fn set_bit_pos(&mut self, bit_pos: u32)
        requires
            old(self).wf(),
        ensures
            final(self).keeps(old(self)),
            final(self).pos() == bit_pos,
    {
        let byte_pos = bit_pos / 8;
        let bit = bit_pos % 8;
        self.set_pos(byte_pos as usize, bit as u8);
    }

    /// Moves forward to the next byte boundary, unless already on one.
    pub fn align_byte(&mut self)
        requires
            old(self).wf(),
            old(self).pos() / 8 < max_byte_pos(),
            old(self).pos() / 8 + 1 < usize::MAX,
        ensures
            final(self).keeps(old(self)),
            final(self).pos() == (if old(self).pos() % 8 == 0 {
                old(self).pos()
            } else {
                (old(self).pos() / 8 + 1) * 8
            }),
    {
        proof {
            lemma_split(self.byte_pos as int, self.bit_pos as int);
        }
        if self.bit_pos != 0 {
            self.bit_pos = 0;
            self.byte_pos = self.byte_pos + 1;
        }
    }

    fn eof(&self) -> (e: DwgError)
        ensures
            e.kind == ErrorKind::Io,
            e.offset == Some(self.byte_pos as u64),
    {
        DwgError::new(ErrorKind::Io, "unexpected end of data").with_offset(self.byte_pos as u64)
    }

    pub fn read_b(&mut self) -> (r: Result<u8, DwgError>)
        requires
            old(self).wf(),
        ensures
            final(self).keeps(old(self)),
            outcome(r, spec_b(old(self).bytes(), old(self).pos()), final(self).pos()),
            r is Err ==> *final(self) == *old(self) && r->Err_0.offset == Some((old(self).pos() / 8) as u64),
    {
        proof {
            lemma_split(self.byte_pos as int, self.bit_pos as int);
        }
        if self.byte_pos >= self.data.len() {
            return Err(self.eof());
        }
        let byte = self.data[self.byte_pos];
        let bit = (byte >> (7 - self.bit_pos)) & 1;
        if self.bit_pos == 7 {
            self.bit_pos = 0;
            self.byte_pos = self.byte_pos + 1;
        } else {
            self.bit_pos = self.bit_pos + 1;
        }
        Ok(bit)
    }

    /// `n` bits, most significant first; more than 64 is a decode failure.
    pub fn read_bits_msb(&mut self, n: u8) -> (r: Result<u64, DwgError>)
        requires
            old(self).wf(),
        ensures
            final(self).keeps(old(self)),
            n > 64 ==> r.is_err() && r->Err_0.kind == ErrorKind::Decode && *final(self) == *old(self),
            n <= 64 ==> outcome(r, spec_bits(old(self).bytes(), old(self).pos(), n as nat), final(self).pos()),
    {
        if n > 64 {
            return Err(DwgError::new(ErrorKind::Decode, "bit field wider than 64 bits"));
        }
        let ghost d = self.bytes();
        let ghost p = self.pos();
        proof {
            lemma_split(self.byte_pos as int, self.bit_pos as int);
        }
        let mut value: u64 = 0;
        let mut i: u8 = 0;
        while i < n
            invariant
                self.keeps(old(self)),
                d == self.bytes(),
                0 <= i <= n <= 64,
                self.pos() == p + i,
                p == old(self).pos(),
                0 <= p,
                i > 0 ==> p + i <= d.len() * 8,
                value == bits_value(d, p, i as nat),
            decreases n - i,
        {
            proof {
                lemma_bits_bound(d, p, i as nat);
                vstd::arithmetic::power2::lemma2_to64_rest();
                if i < 63 {
                    vstd::arithmetic::power2::lemma_pow2_strictly_increases(i as nat, 63);
                }
            }
            let b = self.read_b();
            match b {
                Ok(bit) => {
                    proof {
                        lemma_low_bit(d[(p + i) / 8], (7 - (p + i) % 8) as u8);
                        assert(bit == bit_at(d, p + i));
                        assert(bits_value(d, p, (i + 1) as nat) == bits_value(d, p, i as nat) * 2
                            + bit_at(d, p + i) as nat);
                    }
                    value = value * 2 + bit as u64;
                },
                Err(e) => {
                    assert(p + i >= d.len() * 8);
                    assert(e.kind == ErrorKind::Io);
                    assert(spec_bits(d, p, n as nat).is_none());
                    return Err(e);
                },
            }
            i = i + 1;
        }
        Ok(value)
    }

    pub fn read_bb(&mut self) -> (r: Result<u8, DwgError>)
        requires
            old(self).wf(),
        ensures
            final(self).keeps(old(self)),
            outcome(r, spec_small(old(self).bytes(), old(self).pos(), 2), final(self).pos()),
    {
        proof {
            lemma_bits_bound(self.bytes(), self.pos(), 2);
            vstd::arithmetic::power2::lemma2_to64();
        }
        let v = self.read_bits_msb(2)?;
        Ok(v as u8)
    }

    pub fn read_3b(&mut self) -> (r: Result<u8, DwgError>)
        requires
            old(self).wf(),
        ensures
            final(self).keeps(old(self)),
            outcome(r, spec_small(old(self).bytes(), old(self).pos(), 3), final(self).pos()),
    {
        proof {
            lemma_bits_bound(self.bytes(), self.pos(), 3);
            vstd::arithmetic::power2::lemma2_to64();
        }
        let v = self.read_bits_msb(3)?;
        Ok(v as u8)
    }

    pub fn read_rc(&mut self) -> (r: Result<u8, DwgError>)
        requires
            old(self).wf(),
        ensures
            final(self).keeps(old(self)),
            outcome(r, spec_rc(old(self).bytes(), old(self).pos()), final(self).pos()),
            r is Err ==> *final(self) == *old(self) && r->Err_0.offset == Some((old(self).pos() / 8) as u64),
    {
        proof {
            lemma_split(self.byte_pos as int, self.bit_pos as int);
        }
        if self.byte_pos >= self.data.len() || (self.bit_pos != 0 && self.byte_pos + 1 >= self.data.len()) {
            return Err(self.eof());
        }
        let b = self.byte_pos;
        let k = self.bit_pos;
        let value = if k == 0 {
            self.data[b]
        } else {
            let hi = (self.data[b] as u16) << (k as u16);
            let lo = (self.data[b + 1] as u16) >> ((8 - k) as u16);
            ((hi | lo) & 0xFFu16) as u8
        };
        self.byte_pos = b + 1;
        proof {
            lemma_split(self.byte_pos as int, self.bit_pos as int);
        }
        Ok(value)
    }

    /// `count` raw chars.
    pub fn read_rcs(&mut self, count: usize) -> (r: Result<Vec<u8>, DwgError>)
        requires
            old(self).wf(),
        ensures
            final(self).keeps(old(self)),
            match r {
                Ok(v) => rcs_ok(old(self).bytes(), old(self).pos(), count as nat)
                    && v@ == rcs_value(old(self).bytes(), old(self).pos(), count as nat)
                    && final(self).pos() == old(self).pos() + 8 * count,
                Err(e) => !rcs_ok(old(self).bytes(), old(self).pos(), count as nat)
                    && e.kind == ErrorKind::Io,
            },
    {
        let ghost d = self.bytes();
        let ghost p = self.pos();
        let mut out: Vec<u8> = Vec::new();
        let mut i: usize = 0;
        while i < count
            invariant
                self.keeps(old(self)),
                d == self.bytes(),
                p == old(self).pos(),
                0 <= p,
                0 <= i <= count,
                self.pos() == p + 8 * i,
                i > 0 ==> p + 8 * i <= d.len() * 8,
                out@ == rcs_value(d, p, i as nat),
            decreases count - i,
        {
            match self.read_rc() {
                Ok(b) => {
                    out.push(b);
                    assert(out@ =~= rcs_value(d, p, (i + 1) as nat));
                },
                Err(e) => {
                    return Err(e);
                },
            }
            i = i + 1;
        }
        assert(out@ =~= rcs_value(d, p, count as nat));
        Ok(out)
    }

    /// A raw short.
    pub fn read_rs(&mut self, endian: Endian) -> (r: Result<u16, DwgError>)
        requires
            old(self).wf(),
        ensures
            final(self).keeps(old(self)),
            outcome(r, spec_rs(old(self).bytes(), old(self).pos(), endian), final(self).pos()),
    {
        let b1 = self.read_rc()? as u16;
        let b2 = self.read_rc()? as u16;
        let value = match endian {
            Endian::Little => b2 * 0x100 + b1,
            Endian::Big => b1 * 0x100 + b2,
        };
        Ok(value)
    }

    /// A raw long.
    pub fn read_rl(&mut self, endian: Endian) -> (r: Result<u32, DwgError>)
        requires
            old(self).wf(),
        ensures
            final(self).keeps(old(self)),
            outcome(r, spec_rl(old(self).bytes(), old(self).pos(), endian), final(self).pos()),
    {
        let s1 = self.read_rs(endian)? as u32;
        let s2 = self.read_rs(endian)? as u32;
        let value = match endian {
            Endian::Little => s2 * 0x10000 + s1,
            Endian::Big => s1 * 0x10000 + s2,
        };
        Ok(value)
    }

    /// A raw double, returned as its IEEE-754 binary64 encoding.
    pub fn read_rd(&mut self, endian: Endian) -> (r: Result<u64, DwgError>)
        requires
            old(self).wf(),
        ensures
            final(self).keeps(old(self)),
            outcome(r, spec_rd(old(self).bytes(), old(self).pos(), endian), final(self).pos()),
    {
        let l1 = self.read_rl(endian)? as u64;
        let l2 = self.read_rl(endian)? as u64;
        let value = match endian {
            Endian::Little => l2 * 0x1_0000_0000 + l1,
            Endian::Big => l1 * 0x1_0000_0000 + l2,
        };
        Ok(value)
    }

    pub fn read_bs(&mut self) -> (r: Result<u16, DwgError>)
        requires
            old(self).wf(),
        ensures
            final(self).keeps(old(self)),
            outcome(r, spec_bs(old(self).bytes(), old(self).pos()), final(self).pos()),
    {
        let sel = self.read_bb()?;
        if sel == 0 {
            self.read_rs(Endian::Little)
        } else if sel == 1 {
            let v = self.read_rc()?;
            Ok(v as u16)
        } else if sel == 2 {
            Ok(0)
        } else {
            Ok(256)
        }
    }

    pub fn read_bl(&mut self) -> (r: Result<u32, DwgError>)
        requires
            old(self).wf(),
        ensures
            final(self).keeps(old(self)),
            outcome(r, spec_bl(old(self).bytes(), old(self).pos()), final(self).pos()),
    {
        let sel = self.read_bb()?;
        if sel == 0 {
            self.read_rl(Endian::Little)
        } else if sel == 1 {
            let v = self.read_rc()?;
            Ok(v as u32)
        } else {
            Ok(0)
        }
    }

    /// A bit-double, returned as its IEEE-754 binary64 encoding.
    pub fn read_bd(&mut self) -> (r: Result<u64, DwgError>)
        requires
            old(self).wf(),
        ensures
            final(self).keeps(old(self)),
            outcome(r, spec_bd(old(self).bytes(), old(self).pos()), final(self).pos()),
    {
        let sel = self.read_bb()?;
        if sel == 0 {
            self.read_rd(Endian::Little)
        } else if sel == 1 {
            Ok(ONE_BITS)
        } else {
            Ok(0)
        }
    }

    /// Three bit-doubles.
    pub fn read_3bd(&mut self) -> (r: Result<(u64, u64, u64), DwgError>)
        requires
            old(self).wf(),
        ensures
            final(self).keeps(old(self)),
            outcome(r, spec_3bd(old(self).bytes(), old(self).pos()), final(self).pos()),
    {
        let x = self.read_bd()?;
        let y = self.read_bd()?;
        let z = self.read_bd()?;
        Ok((x, y, z))
    }

    fn read_dd_low4(&mut self, default_value: u64) -> (r: Result<u64, DwgError>)
        requires
            old(self).wf(),
        ensures
            final(self).keeps(old(self)),
            outcome(r, dd_low4(old(self).bytes(), old(self).pos(), default_value), final(self).pos()),
    {
        let low = self.read_rl(Endian::Little)? as u64;
        Ok(default_value - default_value % 0x1_0000_0000 + low)
    }

    fn read_dd_low6(&mut self, default_value: u64) -> (r: Result<u64, DwgError>)
        requires
            old(self).wf(),
        ensures
            final(self).keeps(old(self)),
            outcome(r, dd_low6(old(self).bytes(), old(self).pos(), default_value), final(self).pos()),
    {
        let mid = self.read_rs(Endian::Little)? as u64;
        let low = self.read_rl(Endian::Little)? as u64;
        Ok(default_value - default_value % 0x1_0000_0000_0000 + mid * 0x1_0000_0000 + low)
    }

    /// A default double relative to the encoding `default_value`.
    pub fn read_dd(&mut self, default_value: u64) -> (r: Result<u64, DwgError>)
        requires
            old(self).wf(),
        ensures
            final(self).keeps(old(self)),
            outcome(r, spec_dd(old(self).bytes(), old(self).pos(), default_value), final(self).pos()),
    {
        let sel = self.read_bb()?;
        if sel == 0 {
            Ok(default_value)
        } else if sel == 1 {
            self.read_dd_low4(default_value)
        } else if sel == 2 {
            self.read_dd_low6(default_value)
        } else {
            self.read_rd(Endian::Little)
        }
    }

    /// A bit-thickness, returned as its IEEE-754 binary64 encoding.
    pub fn read_bt(&mut self) -> (r: Result<u64, DwgError>)
        requires
            old(self).wf(),
        ensures
            final(self).keeps(old(self)),
            outcome(r, spec_bt(old(self).bytes(), old(self).pos()), final(self).pos()),
    {
        let b = self.read_b()?;
        if b == 1 {
            Ok(0)
        } else {
            self.read_bd()
        }
    }

    /// A bit-extrusion, returned as the encodings of its three components.
    pub fn read_be(&mut self) -> (r: Result<(u64, u64, u64), DwgError>)
        requires
            old(self).wf(),
        ensures
            final(self).keeps(old(self)),
            outcome(r, spec_be(old(self).bytes(), old(self).pos()), final(self).pos()),
    {
        let b = self.read_b()?;
        if b == 1 {
            Ok((0, 0, ONE_BITS))
        } else {
            self.read_3bd()
        }
    }

    /// A bit-longlong.
    pub fn read_bll(&mut self) -> (r: Result<u64, DwgError>)
        requires
            old(self).wf(),
        ensures
            final(self).keeps(old(self)),
            outcome(r, spec_bll(old(self).bytes(), old(self).pos()), final(self).pos()),
    {
        let ghost p0 = self.pos();
        proof {
            lemma_bits_bound(self.bytes(), p0, 3);
            vstd::arithmetic::power2::lemma2_to64();
        }
        let n = self.read_3b()?;
        let ghost d = self.bytes();
        let ghost p = self.pos();
        let mut value: u64 = 0;
        let mut i: u8 = 0;
        while i < n
            invariant
                self.keeps(old(self)),
                d == self.bytes(),
                p == p0 + 3,
                spec_small(d, p0, 3) == Some((n, p)),
                p0 == old(self).pos(),
                0 <= p0,
                n < 8,
                0 <= i <= n,
                self.pos() == p + 8 * i,
                i > 0 ==> p + 8 * i <= d.len() * 8,
                value == be_rcs(d, p, i as nat),
                value < pow2(8 * i as nat),
            decreases n - i,
        {
            proof {
                vstd::arithmetic::power2::lemma2_to64();
                vstd::arithmetic::power2::lemma2_to64_rest();
                if i < 7 {
                    vstd::arithmetic::power2::lemma_pow2_strictly_increases(8 * i as nat, 56);
                }
                vstd::arithmetic::power2::lemma_pow2_adds(8 * i as nat, 8);
            }
            match self.read_rc() {
                Ok(b) => {
                    value = value * 256 + b as u64;
                },
                Err(e) => {
                    return Err(e);
                },
            }
            i = i + 1;
        }
        Ok(value)
    }

    /// A modular short.
    pub fn read_ms(&mut self) -> (r: Result<u32, DwgError>)
        requires
            old(self).wf(),
        ensures
            final(self).keeps(old(self)),
            outcome(r, spec_ms(old(self).bytes(), old(self).pos()), final(self).pos()),
    {
        let w1 = self.read_rs(Endian::Little)?;
        if w1 < 0x8000 {
            return Ok(w1 as u32);
        }
        let w2 = self.read_rs(Endian::Little)?;
        Ok((w1 - 0x8000) as u32 + (w2 % 0x8000) as u32 * 0x8000)
    }

    /// A signed modular char.
    pub fn read_mc(&mut self) -> (r: Result<i64, DwgError>)
        requires
            old(self).wf(),
        ensures
            final(self).keeps(old(self)),
            outcome(r, spec_mc(old(self).bytes(), old(self).pos()), final(self).pos()),
    {
        let ghost d = self.bytes();
        proof {
            vstd::arithmetic::power2::lemma2_to64();
        }
        let mut value: i64 = 0;
        let mut mult: i64 = 1;
        let mut i: usize = 0;
        while i < 4
            invariant
                self.keeps(old(self)),
                d == self.bytes(),
                0 <= i <= 4,
                mult == pow2(7 * i as nat),
                0 <= value < mult,
                spec_mc(d, old(self).pos()) == mc_from(d, self.pos(), i as nat, value as int, mult as int),
            decreases 4 - i,
        {
            proof {
                vstd::arithmetic::power2::lemma2_to64();
                vstd::arithmetic::power2::lemma_pow2_adds(7 * i as nat, 7);
                if i < 3 {
                    vstd::arithmetic::power2::lemma_pow2_strictly_increases(7 * i as nat, 21);
                }
            }
            let b = self.read_rc()?;
            proof {
                assert(mult <= 0x20_0000);
                assert((b % 0x80) as int * mult <= 0x7F * mult) by (nonlinear_arith)
                    requires
                        (b % 0x80) as int <= 0x7F,
                        mult >= 0,
                ;
                assert((b % 0x40) as int * mult <= 0x3F * mult) by (nonlinear_arith)
                    requires
                        (b % 0x40) as int <= 0x3F,
                        mult >= 0,
                ;
                assert(b >= 0x80 ==> (b - 0x80) as int * mult <= 0x7F * mult) by (nonlinear_arith)
                    requires
                        b >= 0x80 ==> (b - 0x80) as int <= 0x7F,
                        mult >= 0,
                ;
            }
            if b < 0x80 {
                let mag = value + (b % 0x40) as i64 * mult;
                if b >= 0x40 {
                    return Ok(-mag);
                }
                return Ok(mag);
            }
            value = value + (b - 0x80) as i64 * mult;
            mult = mult * 0x80;
            i = i + 1;
        }
        Ok(value)
    }

    /// An unsigned modular char.
    pub fn read_umc(&mut self) -> (r: Result<u32, DwgError>)
        requires
            old(self).wf(),
        ensures
            final(self).keeps(old(self)),
            outcome(r, spec_umc(old(self).bytes(), old(self).pos()), final(self).pos()),
    {
        let ghost d = self.bytes();
        proof {
            vstd::arithmetic::power2::lemma2_to64();
        }
        let mut value: u64 = 0;
        let mut mult: u64 = 1;
        let mut i: usize = 0;
        while i < 5
            invariant
                self.keeps(old(self)),
                d == self.bytes(),
                0 <= i <= 5,
                mult == pow2(7 * i as nat),
                0 <= value < mult,
                spec_umc(d, old(self).pos()) == umc_from(d, self.pos(), i as nat, value as int, mult as int),
            decreases 5 - i,
        {
            proof {
                vstd::arithmetic::power2::lemma2_to64();
                vstd::arithmetic::power2::lemma_pow2_adds(7 * i as nat, 7);
                if i < 4 {
                    vstd::arithmetic::power2::lemma_pow2_strictly_increases(7 * i as nat, 28);
                }
            }
            let b = self.read_rc()?;
            proof {
                assert(mult <= 0x1000_0000);
                assert((b % 0x80) as int * mult <= 0x7F * mult) by (nonlinear_arith)
                    requires
                        (b % 0x80) as int <= 0x7F,
                        mult >= 0,
                ;
            }
            value = value + (b % 0x80) as u64 * mult;
            if b < 0x80 {
                return Ok((value % 0x1_0000_0000) as u32);
            }
            mult = mult * 0x80;
            i = i + 1;
        }
        Ok((value % 0x1_0000_0000) as u32)
    }

    /// An object type code (R2010 and later).
    pub fn read_ot_r2010(&mut self) -> (r: Result<u16, DwgError>)
        requires
            old(self).wf(),
        ensures
            final(self).keeps(old(self)),
            outcome(r, spec_ot(old(self).bytes(), old(self).pos()), final(self).pos()),
    {
        let sel = self.read_bb()?;
        if sel == 0 {
            let v = self.read_rc()?;
            Ok(v as u16)
        } else if sel == 1 {
            let v = self.read_rc()?;
            Ok(v as u16 + 0x1F0)
        } else {
            self.read_rs(Endian::Little)
        }
    }

    /// A handle reference. A byte count above four is a format failure.
    pub fn read_h(&mut self) -> (r: Result<HandleRef, DwgError>)
        requires
            old(self).wf(),
        ensures
            final(self).keeps(old(self)),
            match r {
                Ok(h) => spec_h(old(self).bytes(), old(self).pos()) == Some((h, final(self).pos())),
                Err(e) => spec_h(old(self).bytes(), old(self).pos()).is_none() && (e.kind
                    == ErrorKind::Format <==> h_count_too_large(old(self).bytes(), old(self).pos())),
            },
    {
        let ghost d = self.bytes();
        let ghost p0 = self.pos();
        let first = self.read_rc()?;
        let counter = first % 16;
        let code = first / 16;
        if counter > 4 {
            return Err(DwgError::new(ErrorKind::Format, "handle byte count above four").with_offset(
                self.byte_pos as u64,
            ));
        }
        let ghost p = self.pos();
        proof {
            vstd::arithmetic::power2::lemma2_to64();
        }
        let mut value: u64 = 0;
        let mut i: u8 = 0;
        while i < counter
            invariant
                spec_rc(d, p0) == Some((first, p)),
                counter == first % 16,
                code == first / 16,
                self.keeps(old(self)),
                d == self.bytes(),
                p0 == old(self).pos(),
                p == p0 + 8,
                0 <= p0,
                counter <= 4,
                0 <= i <= counter,
                self.pos() == p + 8 * i,
                i > 0 ==> p + 8 * i <= d.len() * 8,
                value == be_rcs(d, p, i as nat),
                value < pow2(8 * i as nat),
            decreases counter - i,
        {
            proof {
                vstd::arithmetic::power2::lemma2_to64();
                if i < 4 {
                    vstd::arithmetic::power2::lemma_pow2_strictly_increases(8 * i as nat, 32);
                }
                vstd::arithmetic::power2::lemma_pow2_adds(8 * i as nat, 8);
            }
            match self.read_rc() {
                Ok(b) => {
                    value = value * 256 + b as u64;
                },
                Err(e) => {
                    return Err(e);
                },
            }
            i = i + 1;
        }
        Ok(HandleRef { code, counter, value })
    }

    /// A variable text as its bytes: NULs dropped, bytes from 0x7F up as `*`.
    pub fn read_tv_bytes(&mut self) -> (r: Result<Vec<u8>, DwgError>)
        requires
            old(self).wf(),
        ensures
            final(self).keeps(old(self)),
            match r {
                Ok(t) => spec_tv(old(self).bytes(), old(self).pos()) == Some(
                    (t@.map_values(|b: u8| b as char), final(self).pos()),
                ) && forall|j: int| 0 <= j < t@.len() ==> 0 < #[trigger] t@[j] < 0x80,
                Err(e) => spec_tv(old(self).bytes(), old(self).pos()).is_none() && e.kind == ErrorKind::Io,
            },
    {
        let n = self.read_bs()?;
        let raw = self.read_rcs(n as usize)?;
        let mut text: Vec<u8> = Vec::new();
        let mut i: usize = 0;
        while i < raw.len()
            invariant
                0 <= i <= raw.len(),
                forall|j: int| 0 <= j < text@.len() ==> 0 < #[trigger] text@[j] < 0x80,
                text@.map_values(|b: u8| b as char) == tv_text(raw@.subrange(0, i as int)),
            decreases raw.len() - i,
        {
            let b = raw[i];
            assert(raw@.subrange(0, i + 1).drop_last() =~= raw@.subrange(0, i as int));
            if b != 0 {
                let c: u8 = if b >= 0x7F { 0x2A } else { b };
                text.push(c);
                assert(text@.map_values(|b: u8| b as char) =~= tv_text(raw@.subrange(0, i + 1)));
            }
            i = i + 1;
        }
        assert(raw@.subrange(0, raw@.len() as int) =~= raw@);
        Ok(text)
    }

    /// A variable text in the file's code page.
    pub fn read_tv(&mut self) -> (r: Result<String, DwgError>)
        requires
            old(self).wf(),
        ensures
            final(self).keeps(old(self)),
            match r {
                Ok(t) => spec_tv(old(self).bytes(), old(self).pos()) == Some((t@, final(self).pos())),
                Err(e) => spec_tv(old(self).bytes(), old(self).pos()).is_none() && e.kind == ErrorKind::Io,
            },
    {
        let text = self.read_tv_bytes()?;
        Ok(text_of_bytes(text.as_slice()))
    }

    /// A CRC, read from the next byte boundary.
    pub fn read_crc(&mut self) -> (r: Result<u16, DwgError>)
        requires
            old(self).wf(),
        ensures
            final(self).keeps(old(self)),
            outcome(r, spec_crc(old(self).bytes(), old(self).pos()), final(self).pos()),
    {
        proof {
            lemma_split(self.byte_pos as int, self.bit_pos as int);
        }
        if self.byte_pos >= self.data.len() {
            return Err(self.eof());
        }
        if self.bit_pos > 0 {
            self.byte_pos = self.byte_pos + 1;
            self.bit_pos = 0;
        }
        proof {
            lemma_split(self.byte_pos as int, self.bit_pos as int);
        }
        self.read_rs(Endian::Little)
    }
}

} // verus!

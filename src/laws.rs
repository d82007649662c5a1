use vstd::prelude::*;
use crate::bit_reader::{spec_dd, spec_ms, spec_small};
use crate::common::resolve_handle;
use crate::error::ErrorKind;
use crate::object_map::{map_walk, mc_len, mc_value, signed, spec_modular_char, lemma_mc_bounds};
use crate::object_record::record_ok;
use crate::objects::ObjectRef;

verus! {

/// A relative handle reference resolves to the base handle moved by one
/// (codes 0x06 and 0x08) or by its value (0x0A and 0x0C); codes 0x02 to 0x05
/// stand for the value itself.
pub proof fn lemma_handle_resolution(code: u8, value: u64, base: u64)
    ensures
        code == 0x06 && base < u64::MAX ==> resolve_handle(code, value, base) == base + 1,
        code == 0x08 && base > 0 ==> resolve_handle(code, value, base) == base - 1,
        code == 0x0A && base + value <= u64::MAX ==> resolve_handle(code, value, base) == base + value,
        code == 0x0C && base >= value ==> resolve_handle(code, value, base) == base - value,
        0x02 <= code <= 0x05 ==> resolve_handle(code, value, base) == value,
{
}

/// The weight of group `k` of a modular char.
pub open spec fn group_weight(k: int) -> int {
    if k == 0 {
        1
    } else if k == 1 {
        0x80
    } else if k == 2 {
        0x4000
    } else {
        0x20_0000
    }
}

/// Group `k` of the modular char at `i`, weighted: seven bits, or six for a
/// final byte whose top bit is clear (its 0x40 bit being the sign).
pub open spec fn mc_term(d: Seq<u8>, i: int, k: int) -> int {
    let last = k == mc_len(d, i) - 1 && d[i + k] < 0x80;
    (if last { d[i + k] % 0x40 } else { d[i + k] % 0x80 }) as int * group_weight(k)
}

/// The sum of the first `m` weighted groups.
pub open spec fn mc_partial(d: Seq<u8>, i: int, m: nat) -> int
    decreases m,
{
    if m == 0 {
        0
    } else {
        mc_partial(d, i, (m - 1) as nat) + mc_term(d, i, m - 1)
    }
}

/// Decoding a modular char: every partial sum of its groups is non-negative
/// and no smaller than the one before, and the value is the signed sum of
/// all its groups.
pub proof fn lemma_modular_char_groups(d: Seq<u8>, i: int)
    requires
        spec_modular_char(d, i) is Some,
    ensures
        forall|m: nat| m < mc_len(d, i) ==> 0 <= #[trigger] mc_partial(d, i, m) <= mc_partial(d, i, m + 1),
        spec_modular_char(d, i) matches Some((v, _)) && v == signed(
            d[i + mc_len(d, i) - 1],
            mc_partial(d, i, mc_len(d, i) as nat),
        ),
{
    lemma_mc_bounds(d, i);
    reveal(crate::object_map::mc_magnitude);
    reveal(crate::object_map::mc_value);
    assert forall|m: nat| m < mc_len(d, i) implies 0 <= #[trigger] mc_partial(d, i, m) <= mc_partial(d, i, m + 1) by {
        reveal_with_fuel(mc_partial, 5);
    }
    reveal_with_fuel(mc_partial, 5);
}

/// A default double whose selector is 0 is the default itself, and reading
/// it consumes only the two selector bits.
pub proof fn lemma_dd_selector_zero(d: Seq<u8>, p: int, default: u64)
    requires
        spec_small(d, p, 2) matches Some((sel, _)) && sel == 0,
    ensures
        spec_dd(d, p, default) == Some((default, p + 2)),
{
}

/// Every object record that can be read lies inside the data with its
/// two-byte CRC: its start plus its payload size plus two is at most the
/// data's length.
pub proof fn lemma_record_in_bounds(d: Seq<u8>, offset: int)
    requires
        record_ok(d, offset),
    ensures
        spec_ms(d, offset * 8) matches Some((size, _)) && offset + size + 2 <= d.len(),
{
}

/// A block size of 2 ends the object map: the walk returns what it holds,
/// whatever bytes follow.
pub proof fn lemma_map_terminator(
    d1: Seq<u8>,
    d2: Seq<u8>,
    pos: int,
    acc: Seq<ObjectRef>,
    max: int,
)
    requires
        0 <= pos,
        pos + 2 <= d1.len(),
        pos + 2 <= d2.len(),
        d1[pos] == 0 && d1[pos + 1] == 2,
        d2[pos] == 0 && d2[pos + 1] == 2,
    ensures
        map_walk(d1, pos, 0, false, 0, 0, acc, max) == Ok::<Seq<ObjectRef>, ErrorKind>(acc),
        map_walk(d2, pos, 0, false, 0, 0, acc, max) == Ok::<Seq<ObjectRef>, ErrorKind>(acc),
{
}

} // verus!

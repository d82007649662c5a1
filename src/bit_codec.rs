use vstd::prelude::*;
use crate::bit_reader::{spec_h, spec_mc, outcome, BitReader};
use crate::error::{DwgError, ErrorKind};

verus! {

/// A signed modular integer at the cursor.
pub fn read_modular_int(reader: &mut BitReader<'_>) -> (r: Result<i64, DwgError>)
    requires
        old(reader).wf(),
    ensures
        final(reader).keeps(old(reader)),
        outcome(r, spec_mc(old(reader).bytes(), old(reader).pos()), final(reader).pos()),
{
    reader.read_mc()
}

/// A handle reference at the cursor, as its code and value.
pub fn read_handle_ref(reader: &mut BitReader<'_>) -> (r: Result<(u8, u64), DwgError>)
    requires
        old(reader).wf(),
    ensures
        final(reader).keeps(old(reader)),
        match r {
            Ok((code, value)) => spec_h(old(reader).bytes(), old(reader).pos()) matches Some((h, end))
                && h.code == code && h.value == value && end == final(reader).pos(),
            Err(e) => spec_h(old(reader).bytes(), old(reader).pos()).is_none(),
        },
{
    let h = reader.read_h()?;
    Ok((h.code, h.value))
}

} // verus!

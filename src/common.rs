use vstd::prelude::*;
use crate::bit_reader::{
    outcome, rcs_ok, spec_b, spec_bd, spec_bl, spec_bs, spec_h, spec_rc, spec_rl, spec_rs,
    spec_small, spec_tv, BitReader, Endian, HandleRef,
};
use crate::error::{DwgError, ErrorKind};

verus! {

/// The shared preamble of a graphical entity.
#[derive(Debug, Clone, Copy, PartialEq, Eq, Structural)]
pub struct CommonEntityHeader {
    pub obj_size: u32,
    pub handle: u64,
    pub entity_mode: u8,
    pub num_of_reactors: u32,
    pub xdic_missing_flag: u8,
    pub ltype_flags: u8,
    pub plotstyle_flags: u8,
}

/// The handles that follow an entity's data stream.
#[derive(Debug, Clone)]
pub struct CommonEntityHandles {
    pub owner_ref: Option<u64>,
    pub reactors: Vec<u64>,
    pub xdic_obj: Option<u64>,
    pub layer: u64,
    pub ltype: Option<u64>,
    pub plotstyle: Option<u64>,
}

/// The absolute handle that a reference with `code` and `value` designates
/// relative to `base`: codes 0x06 and 0x08 step one up or down, 0x0A and 0x0C
/// add or subtract the value, all others stand for the value itself. Results
/// are kept inside `u64` by saturation.
pub open spec fn resolve_handle(code: u8, value: u64, base: u64) -> u64 {
    if code == 0x06 {
        if base == u64::MAX { base } else { (base + 1) as u64 }
    } else if code == 0x08 {
        if base == 0 { 0 } else { (base - 1) as u64 }
    } else if code == 0x0A {
        if base + value > u64::MAX { u64::MAX } else { (base + value) as u64 }
    } else if code == 0x0C {
        if base < value { 0 } else { (base - value) as u64 }
    } else {
        value
    }
}

/// A handle reference resolved against `base`.
pub open spec fn spec_handle_ref(d: Seq<u8>, p: int, base: u64) -> Option<(u64, int)> {
    match spec_h(d, p) {
        None => None,
        Some((h, q)) => Some((resolve_handle(h.code, h.value, base), q)),
    }
}

/// Reads a handle reference and resolves it against `base_handle`.
pub fn read_handle_reference(reader: &mut BitReader<'_>, base_handle: u64) -> (r: Result<u64, DwgError>)
    requires
        old(reader).wf(),
    ensures
        final(reader).keeps(old(reader)),
        match r {
            Ok(v) => spec_handle_ref(old(reader).bytes(), old(reader).pos(), base_handle) == Some(
                (v, final(reader).pos()),
            ),
            Err(_) => spec_handle_ref(old(reader).bytes(), old(reader).pos(), base_handle).is_none(),
        },
{
    let h = reader.read_h()?;
    let code = h.code;
    let value = h.value;
    let absolute = if code == 0x06 {
        base_handle.saturating_add(1)
    } else if code == 0x08 {
        base_handle.saturating_sub(1)
    } else if code == 0x0A {
        base_handle.saturating_add(value)
    } else if code == 0x0C {
        base_handle.saturating_sub(value)
    } else {
        value
    };
    Ok(absolute)
}

/// Position after the extended entity data chain whose first group has
/// `size` bytes: each group is an application handle and `size` raw bytes,
/// followed by the next size; a size of 0 ends the chain.
pub open spec fn eed_end(d: Seq<u8>, p: int, size: u16) -> Option<int>
    decreases d.len() * 8 + 8 - p via eed_end_decreases
{
    if size == 0 {
        Some(p)
    } else if p < 0 || p > d.len() * 8 {
        None
    } else {
        match spec_h(d, p) {
            None => None,
            Some((_, q)) => if rcs_ok(d, q, size as nat) {
                match spec_bs(d, q + 8 * size) {
                    None => None,
                    Some((next, q2)) => eed_end(d, q2, next),
                }
            } else {
                None
            },
        }
    }
}

#[via_fn]
proof fn eed_end_decreases(d: Seq<u8>, p: int, size: u16) {
    if size == 0 {
    } else if p < 0 || p > d.len() * 8 {
    } else {
        match spec_h(d, p) {
            None => {},
            Some((_, q)) => {
                if rcs_ok(d, q, size as nat) {
                    match spec_bs(d, q + 8 * size) {
                        None => {},
                        Some((next, q2)) => {
                            assert(0 <= d.len() * 8 + 8 - q2 < d.len() * 8 + 8 - p);
                        },
                    }
                }
            },
        }
    }
}

/// Position after the optional preview: a flag bit, then a raw-long size and
/// that many bytes.
pub open spec fn preview_end(d: Seq<u8>, p: int) -> Option<int> {
    match spec_b(d, p) {
        None => None,
        Some((flag, q)) => if flag == 1 {
            match spec_rl(d, q, Endian::Little) {
                None => None,
                Some((n, q2)) => if rcs_ok(d, q2, n as nat) { Some(q2 + 8 * n) } else { None },
            }
        } else {
            Some(q)
        },
    }
}

/// Position after the color block.
pub open spec fn color_end(d: Seq<u8>, p: int) -> Option<int> {
    match spec_b(d, p) {
        None => None,
        Some((no_links, q)) => if no_links == 0 {
            match spec_b(d, q) {
                None => None,
                Some((mode, q2)) => if mode == 1 {
                    match spec_rc(d, q2) {
                        None => None,
                        Some((_, q3)) => Some(q3),
                    }
                } else {
                    match spec_rs(d, q2, Endian::Little) {
                        None => None,
                        Some((flags, q3)) => {
                            let after_true = if flags & 0x8000 != 0 {
                                match spec_bl(d, q3) {
                                    None => None,
                                    Some((_, q4)) => match spec_tv(d, q4) {
                                        None => None,
                                        Some((_, q5)) => Some(q5),
                                    },
                                }
                            } else {
                                Some(q3)
                            };
                            match after_true {
                                None => None,
                                Some(q6) => if flags & 0x2000 != 0 {
                                    match spec_bl(d, q6) {
                                        None => None,
                                        Some((_, q7)) => Some(q7),
                                    }
                                } else {
                                    Some(q6)
                                },
                            }
                        },
                    }
                },
            }
        } else {
            match spec_b(d, q) {
                None => None,
                Some((_, q2)) => Some(q2),
            }
        },
    }
}

/// The entity mode, reactor count and xdic flag that follow the preview.
pub open spec fn mode_block(d: Seq<u8>, p: int) -> Option<((u8, u32, u8), int)> {
    match spec_small(d, p, 2) {
        None => None,
        Some((mode, q)) => match spec_bl(d, q) {
            None => None,
            Some((reactors, q2)) => match spec_b(d, q2) {
                None => None,
                Some((xdic, q3)) => Some(((mode, reactors, xdic), q3)),
            },
        },
    }
}

/// The linetype scale, linetype flags, plot-style flags, invisibility and
/// line weight that close the preamble; the two flag fields are returned.
pub open spec fn style_block(d: Seq<u8>, p: int) -> Option<((u8, u8), int)> {
    match spec_bd(d, p) {
        None => None,
        Some((_, q)) => match spec_small(d, q, 2) {
            None => None,
            Some((ltype, q2)) => match spec_small(d, q2, 2) {
                None => None,
                Some((plot, q3)) => match spec_bs(d, q3) {
                    None => None,
                    Some((_, q4)) => match spec_rc(d, q4) {
                        None => None,
                        Some((_, q5)) => Some(((ltype, plot), q5)),
                    },
                },
            },
        },
    }
}

/// The common entity preamble (R2000 layout) at `p`.
#[verifier::opaque]
pub open spec fn spec_common_header(d: Seq<u8>, p: int) -> Option<(CommonEntityHeader, int)> {
    match spec_rl(d, p, Endian::Little) {
        None => None,
        Some((obj_size, p1)) => match spec_h(d, p1) {
            None => None,
            Some((h, p2)) => match spec_bs(d, p2) {
                None => None,
                Some((ext, p3)) => match eed_end(d, p3, ext) {
                    None => None,
                    Some(p4) => match preview_end(d, p4) {
                        None => None,
                        Some(p5) => match mode_block(d, p5) {
                            None => None,
                            Some(((mode, reactors, xdic), p6)) => match color_end(d, p6) {
                                None => None,
                                Some(p7) => match style_block(d, p7) {
                                    None => None,
                                    Some(((ltype, plot), p8)) => Some(
                                        (
                                            CommonEntityHeader {
                                                obj_size,
                                                handle: h.value,
                                                entity_mode: mode,
                                                num_of_reactors: reactors,
                                                xdic_missing_flag: xdic,
                                                ltype_flags: ltype,
                                                plotstyle_flags: plot,
                                            },
                                            p8,
                                        ),
                                    ),
                                },
                            },
                        },
                    },
                },
            },
        },
    }
}

fn skip_eed(reader: &mut BitReader<'_>, first: u16) -> (r: Result<(), DwgError>)
    requires
        old(reader).wf(),
    ensures
        final(reader).keeps(old(reader)),
        match r {
            Ok(_) => eed_end(old(reader).bytes(), old(reader).pos(), first) == Some(final(reader).pos()),
            Err(_) => eed_end(old(reader).bytes(), old(reader).pos(), first).is_none(),
        },
{
    let ghost d = reader.bytes();
    let mut ext_size = first;
    while ext_size > 0
        invariant
            reader.keeps(old(reader)),
            d == reader.bytes(),
            eed_end(d, old(reader).pos(), first) == eed_end(d, reader.pos(), ext_size),
        decreases d.len() * 8 + 8 - reader.pos(),
    {
        let ghost p = reader.pos();
        let ghost sz = ext_size;
        let _app = reader.read_h()?;
        let _data = reader.read_rcs(ext_size as usize)?;
        ext_size = reader.read_bs()?;
        assert(eed_end(d, p, sz) == eed_end(d, reader.pos(), ext_size));
    }
    Ok(())
}

fn skip_preview(reader: &mut BitReader<'_>) -> (r: Result<(), DwgError>)
    requires
        old(reader).wf(),
    ensures
        final(reader).keeps(old(reader)),
        match r {
            Ok(_) => preview_end(old(reader).bytes(), old(reader).pos()) == Some(final(reader).pos()),
            Err(_) => preview_end(old(reader).bytes(), old(reader).pos()).is_none(),
        },
{
    let graphic_present = reader.read_b()?;
    if graphic_present == 1 {
        let graphic_size = reader.read_rl(Endian::Little)?;
        let _preview = reader.read_rcs(graphic_size as usize)?;
    }
    Ok(())
}

fn read_mode_block(reader: &mut BitReader<'_>) -> (r: Result<(u8, u32, u8), DwgError>)
    requires
        old(reader).wf(),
    ensures
        final(reader).keeps(old(reader)),
        match r {
            Ok(v) => mode_block(old(reader).bytes(), old(reader).pos()) == Some((v, final(reader).pos())),
            Err(_) => mode_block(old(reader).bytes(), old(reader).pos()).is_none(),
        },
{
    let entity_mode = reader.read_bb()?;
    let num_of_reactors = reader.read_bl()?;
    let xdic_missing_flag = reader.read_b()?;
    Ok((entity_mode, num_of_reactors, xdic_missing_flag))
}

fn skip_color(reader: &mut BitReader<'_>) -> (r: Result<(), DwgError>)
    requires
        old(reader).wf(),
    ensures
        final(reader).keeps(old(reader)),
        match r {
            Ok(_) => color_end(old(reader).bytes(), old(reader).pos()) == Some(final(reader).pos()),
            Err(_) => color_end(old(reader).bytes(), old(reader).pos()).is_none(),
        },
{
    let no_links = reader.read_b()?;
    if no_links == 0 {
        let color_mode = reader.read_b()?;
        if color_mode == 1 {
            let _index = reader.read_rc()?;
        } else {
            let flags = reader.read_rs(Endian::Little)?;
            if flags & 0x8000 != 0 {
                let _rgb = reader.read_bl()?;
                let _name = reader.read_tv()?;
            }
            if flags & 0x2000 != 0 {
                let _transparency = reader.read_bl()?;
            }
        }
    } else {
        let _color_unknown = reader.read_b()?;
    }
    Ok(())
}

fn read_style_block(reader: &mut BitReader<'_>) -> (r: Result<(u8, u8), DwgError>)
    requires
        old(reader).wf(),
    ensures
        final(reader).keeps(old(reader)),
        match r {
            Ok(v) => style_block(old(reader).bytes(), old(reader).pos()) == Some((v, final(reader).pos())),
            Err(_) => style_block(old(reader).bytes(), old(reader).pos()).is_none(),
        },
{
    let _ltype_scale = reader.read_bd()?;
    let ltype_flags = reader.read_bb()?;
    let plotstyle_flags = reader.read_bb()?;
    let _invisibility = reader.read_bs()?;
    let _line_weight = reader.read_rc()?;
    Ok((ltype_flags, plotstyle_flags))
}

/// Reads the common entity preamble (R2000 layout).
pub fn parse_common_entity_header(reader: &mut BitReader<'_>) -> (r: Result<CommonEntityHeader, DwgError>)
    requires
        old(reader).wf(),
    ensures
        final(reader).keeps(old(reader)),
        match r {
            Ok(h) => spec_common_header(old(reader).bytes(), old(reader).pos()) == Some(
                (h, final(reader).pos()),
            ),
            Err(_) => spec_common_header(old(reader).bytes(), old(reader).pos()).is_none(),
        },
{
    proof {
        reveal(spec_common_header);
    }
    let obj_size = reader.read_rl(Endian::Little)?;
    let handle = reader.read_h()?.value;
    let ext_size = reader.read_bs()?;
    skip_eed(reader, ext_size)?;
    skip_preview(reader)?;
    let (entity_mode, num_of_reactors, xdic_missing_flag) = read_mode_block(reader)?;
    skip_color(reader)?;
    let (ltype_flags, plotstyle_flags) = read_style_block(reader)?;
    Ok(CommonEntityHeader {
        obj_size,
        handle,
        entity_mode,
        num_of_reactors,
        xdic_missing_flag,
        ltype_flags,
        plotstyle_flags,
    })
}

/// An optional handle reference: present ones are read and resolved.
pub open spec fn opt_ref(d: Seq<u8>, p: int, present: bool, base: u64) -> Option<(Option<u64>, int)> {
    if !present {
        Some((None, p))
    } else {
        match spec_handle_ref(d, p, base) {
            None => None,
            Some((v, q)) => Some((Some(v), q)),
        }
    }
}

/// `n` handle references in a row, resolved against `base`.
pub open spec fn reactor_refs(d: Seq<u8>, p: int, n: nat, base: u64) -> Option<(Seq<u64>, int)>
    decreases n,
{
    if n == 0 {
        Some((Seq::empty(), p))
    } else {
        match reactor_refs(d, p, (n - 1) as nat, base) {
            None => None,
            Some((s, q)) => match spec_handle_ref(d, q, base) {
                None => None,
                Some((v, q2)) => Some((s.push(v), q2)),
            },
        }
    }
}

pub proof fn lemma_reactor_refs_fail(d: Seq<u8>, p: int, m: nat, n: nat, base: u64)
    requires
        m <= n,
        reactor_refs(d, p, m, base).is_none(),
    ensures
        reactor_refs(d, p, n, base).is_none(),
    decreases n - m,
{
    if m < n {
        lemma_reactor_refs_fail(d, p, m, (n - 1) as nat, base);
    }
}

/// What an entity's handle stream holds: owner, reactors, extension
/// dictionary, layer, linetype and plot style.
pub type HandlesModel = (Option<u64>, Seq<u64>, Option<u64>, u64, Option<u64>, Option<u64>);

/// The handle stream at `p` for the preamble `h`.
pub open spec fn spec_entity_handles(d: Seq<u8>, p: int, h: CommonEntityHeader) -> Option<(HandlesModel, int)> {
    match opt_ref(d, p, h.entity_mode == 0, h.handle) {
        None => None,
        Some((owner, p1)) => match reactor_refs(d, p1, h.num_of_reactors as nat, h.handle) {
            None => None,
            Some((reactors, p2)) => match opt_ref(d, p2, h.xdic_missing_flag == 0, h.handle) {
                None => None,
                Some((xdic, p3)) => match spec_handle_ref(d, p3, h.handle) {
                    None => None,
                    Some((layer, p4)) => match opt_ref(d, p4, h.ltype_flags == 3, h.handle) {
                        None => None,
                        Some((ltype, p5)) => match opt_ref(d, p5, h.plotstyle_flags == 3, h.handle) {
                            None => None,
                            Some((plot, p6)) => Some(((owner, reactors, xdic, layer, ltype, plot), p6)),
                        },
                    },
                },
            },
        },
    }
}

/// The model of parsed handles.
pub open spec fn handles_model(h: CommonEntityHandles) -> HandlesModel {
    (h.owner_ref, h.reactors@, h.xdic_obj, h.layer, h.ltype, h.plotstyle)
}

fn read_optional_ref(reader: &mut BitReader<'_>, present: bool, base: u64) -> (r: Result<Option<u64>, DwgError>)
    requires
        old(reader).wf(),
    ensures
        final(reader).keeps(old(reader)),
        !present ==> r == Ok::<Option<u64>, DwgError>(None) && final(reader).pos() == old(reader).pos(),
        match r {
            Ok(v) => opt_ref(old(reader).bytes(), old(reader).pos(), present, base) == Some((v, final(reader).pos())),
            Err(_) => opt_ref(old(reader).bytes(), old(reader).pos(), present, base).is_none(),
        },
        present ==> match r {
            Ok(v) => v is Some && spec_handle_ref(old(reader).bytes(), old(reader).pos(), base) == Some(
                (v->Some_0, final(reader).pos()),
            ),
            Err(_) => spec_handle_ref(old(reader).bytes(), old(reader).pos(), base).is_none(),
        },
{
    if present {
        let v = read_handle_reference(reader, base)?;
        Ok(Some(v))
    } else {
        Ok(None)
    }
}

/// Reads the handle stream of an entity from the cursor: the owner (entity
/// mode 0), the reactors, the extension dictionary (flag 0), the layer, and
/// the linetype and plot style where their flags are 3. Each is resolved
/// against the entity's own handle.
#[verifier::rlimit(80)]
pub fn parse_common_entity_handles(reader: &mut BitReader<'_>, header: &CommonEntityHeader) -> (r: Result<
    CommonEntityHandles,
    DwgError,
>)
    requires
        old(reader).wf(),
    ensures
        final(reader).keeps(old(reader)),
        r matches Ok(h) ==> {
            &&& h.owner_ref.is_some() == (header.entity_mode == 0)
            &&& h.reactors@.len() == header.num_of_reactors
            &&& h.xdic_obj.is_some() == (header.xdic_missing_flag == 0)
            &&& h.ltype.is_some() == (header.ltype_flags == 3)
            &&& h.plotstyle.is_some() == (header.plotstyle_flags == 3)
            &&& header.entity_mode == 0 ==> (spec_handle_ref(
                old(reader).bytes(),
                old(reader).pos(),
                header.handle,
            ) matches Some((v, _)) && h.owner_ref == Some(v))
            &&& final(reader).pos() <= 8 * old(reader).bytes().len()
            &&& final(reader).pos() >= old(reader).pos()
        },
        match r {
            Ok(h) => spec_entity_handles(old(reader).bytes(), old(reader).pos(), *header) == Some(
                (handles_model(h), final(reader).pos()),
            ),
            Err(_) => spec_entity_handles(old(reader).bytes(), old(reader).pos(), *header).is_none(),
        },
{
    let ghost d = reader.bytes();
    let ghost p0 = reader.pos();
    let owner_ref = read_optional_ref(reader, header.entity_mode == 0, header.handle)?;
    let ghost p1 = reader.pos();
    let mut reactors: Vec<u64> = Vec::new();
    let mut i: u32 = 0;
    while i < header.num_of_reactors
        invariant
            reader.keeps(old(reader)),
            d == reader.bytes(),
            0 <= i <= header.num_of_reactors,
            reactors@.len() == i,
            reader.pos() >= old(reader).pos(),
            (header.entity_mode == 0 || i > 0) ==> reader.pos() <= 8 * d.len(),
            opt_ref(d, p0, header.entity_mode == 0, header.handle) == Some((owner_ref, p1)),
            p0 == old(reader).pos(),
            reactor_refs(d, p1, i as nat, header.handle) == Some((reactors@, reader.pos())),
        decreases header.num_of_reactors - i,
    {
        let v = match read_handle_reference(reader, header.handle) {
            Ok(v) => v,
            Err(e) => {
                proof {
                    lemma_reactor_refs_fail(d, p1, (i + 1) as nat, header.num_of_reactors as nat, header.handle);
                }
                return Err(e);
            },
        };
        reactors.push(v);
        i = i + 1;
    }
    let xdic_obj = read_optional_ref(reader, header.xdic_missing_flag == 0, header.handle)?;
    let layer = read_handle_reference(reader, header.handle)?;
    let ltype = read_optional_ref(reader, header.ltype_flags == 3, header.handle)?;
    let plotstyle = read_optional_ref(reader, header.plotstyle_flags == 3, header.handle)?;
    Ok(CommonEntityHandles { owner_ref, reactors, xdic_obj, layer, ltype, plotstyle })
}

/// Reads the handle stream of an entity, which begins at the bit position
/// `obj_size` that its preamble declares.
pub fn read_entity_handles(reader: &mut BitReader<'_>, header: &CommonEntityHeader) -> (r: Result<
    CommonEntityHandles,
    DwgError,
>)
    requires
        old(reader).wf(),
    ensures
        final(reader).keeps(old(reader)),
        r matches Ok(h) ==> {
            &&& final(reader).pos() >= header.obj_size
            &&& final(reader).pos() <= 8 * old(reader).bytes().len()
            &&& h.reactors@.len() == header.num_of_reactors
            &&& header.entity_mode == 0 ==> (spec_handle_ref(
                old(reader).bytes(),
                header.obj_size as int,
                header.handle,
            ) matches Some((v, _)) && h.owner_ref == Some(v))
        },
{
    reader.set_bit_pos(header.obj_size);
    parse_common_entity_handles(reader, header)
}

/// Which preamble layout a dialect uses: R2000/R2004, R2007, or R2010 and
/// later.
#[derive(Debug, Clone, Copy, PartialEq, Eq, Structural)]
pub enum HeaderLayout {
    R2000,
    R2007,
    R2010,
}

/// Reads the common entity preamble in the given layout. R2000 and R2007
/// read the object size from the stream; R2010 and later take it from the
/// caller (`end_bit`, the end of the data stream) and size the preview with
/// a bit-longlong. R2007 and later add the material flags and shadow byte,
/// R2010 and later three visual-style bits.
pub fn parse_common_entity_header_layout(reader: &mut BitReader<'_>, layout: HeaderLayout, end_bit: u32) -> (r:
    Result<CommonEntityHeader, DwgError>)
    requires
        old(reader).wf(),
    ensures
        final(reader).keeps(old(reader)),
        layout == HeaderLayout::R2000 ==> match r {
            Ok(h) => spec_common_header(old(reader).bytes(), old(reader).pos()) == Some((h, final(reader).pos())),
            Err(_) => spec_common_header(old(reader).bytes(), old(reader).pos()).is_none(),
        },
        r matches Ok(h) ==> layout == HeaderLayout::R2010 ==> h.obj_size == end_bit,
{
    if layout == HeaderLayout::R2000 {
        return parse_common_entity_header(reader);
    }
    let obj_size = if layout == HeaderLayout::R2010 { end_bit } else { reader.read_rl(Endian::Little)? };
    let handle = reader.read_h()?.value;
    let ext_size = reader.read_bs()?;
    skip_eed(reader, ext_size)?;
    let graphic_present = reader.read_b()?;
    if graphic_present == 1 {
        let size = if layout == HeaderLayout::R2010 {
            reader.read_bll()?
        } else {
            reader.read_rl(Endian::Little)? as u64
        };
        if size > usize::MAX as u64 {
            return Err(DwgError::new(ErrorKind::Format, "preview size too large"));
        }
        let _preview = reader.read_rcs(size as usize)?;
    }
    let (entity_mode, num_of_reactors, xdic_missing_flag) = read_mode_block(reader)?;
    skip_color(reader)?;
    let _ltype_scale = reader.read_bd()?;
    let ltype_flags = reader.read_bb()?;
    let plotstyle_flags = reader.read_bb()?;
    let _material_flags = reader.read_bb()?;
    let _shadow_flags = reader.read_rc()?;
    if layout == HeaderLayout::R2010 {
        let _full_visual_style = reader.read_b()?;
        let _face_visual_style = reader.read_b()?;
        let _edge_visual_style = reader.read_b()?;
    }
    let _invisibility = reader.read_bs()?;
    let _line_weight = reader.read_rc()?;
    Ok(CommonEntityHeader {
        obj_size,
        handle,
        entity_mode,
        num_of_reactors,
        xdic_missing_flag,
        ltype_flags,
        plotstyle_flags,
    })
}

} // verus!

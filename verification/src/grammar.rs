//! The type-information grammar, stated as spec functions over byte
//! sequences.  These functions are the contract of the exec parser: for
//! every input they give either the ghost model of the parsed value and the
//! end position, or the exact error.
//!
//! Recursion is bounded by an explicit depth, consumed once per nested
//! type-information value, as the format's resource model demands.

use vstd::prelude::*;

use crate::codec::{
    spec_da, spec_de, spec_dt, spec_is_sdacl_byte, spec_is_tah_byte, spec_sdacl,
    spec_serialize_dt, spec_tah,
};
use crate::errors::{CodecError, GrammarError};
use crate::strutil::spec_null_end;
use crate::types::{TypeV, unset_zero};

verus! {

/// Shorthand: the grammar error that carries a codec failure.
pub open spec fn ge(e: CodecError) -> GrammarError {
    GrammarError::spec_from_codec(e)
}

/// A type-information value at `pos`: the tag byte decides the variant.
/// Tags whose low four bits are at most nine, or fifteen, are terminal and
/// consume only the tag.
pub open spec fn spec_parse_type(s: Seq<u8>, pos: int, se: u8, depth: nat) -> Result<
    (TypeV, int),
    GrammarError,
>
    decreases depth, 3int, 0int,
{
    if !(0 <= pos < s.len()) {
        Err(GrammarError::ShortRead)
    } else {
        let m = s[pos];
        let base = m & 0x0f;
        let full = m & 0x3f;
        if base <= 0x09 || base == 0x0f {
            Ok((TypeV::Unset { meta: m }, pos + 1))
        } else if depth == 0 {
            Err(GrammarError::DepthExceeded)
        } else if base == 0x0a {
            spec_parse_pointer(s, pos, se, depth)
        } else if base == 0x0c {
            spec_parse_function(s, pos, se, depth)
        } else if base == 0x0b {
            spec_parse_array(s, pos, se, depth)
        } else if full == 0x3d {
            spec_parse_typedef(s, pos)
        } else if full == 0x1d {
            spec_parse_union(s, pos, se, depth)
        } else if full == 0x0d {
            spec_parse_struct(s, pos, se, depth)
        } else if full == 0x2d {
            spec_parse_enum(s, pos, se, depth)
        } else if base == 0x0e {
            spec_parse_bitfield(s, pos)
        } else {
            // No tag reaches this arm: the cases above cover every value of
            // the low four bits.  Kept for totality: raw bytes to the next
            // NUL.
            let end = spec_null_end(s, pos);
            Ok(
                (
                    TypeV::Unknown { bytes: s.subrange(pos, end) },
                    if end < s.len() {
                        end + 1
                    } else {
                        end
                    },
                ),
            )
        }
    }
}

/// Pointer: tag, then for a "type closure" either an embedded closure type
/// (marker `0xFF`) or a one-byte based-pointer size, then `tah`, then the
/// pointee.
pub open spec fn spec_parse_pointer(s: Seq<u8>, pos: int, se: u8, depth: nat) -> Result<
    (TypeV, int),
    GrammarError,
>
    decreases depth, 2int, 0int,
{
    if depth == 0 {
        Err(GrammarError::DepthExceeded)
    } else if !(0 <= pos < s.len()) {
        Err(GrammarError::ShortRead)
    } else {
        let m = s[pos];
        if m & 0x30 == 0x30 {
            if !(pos + 1 < s.len()) {
                Err(GrammarError::ShortRead)
            } else if s[pos + 1] == 0xff {
                match spec_parse_type(s, pos + 2, se, (depth - 1) as nat) {
                    Err(e) => Err(e),
                    Ok((cv, p2)) => spec_pointer_tail(s, p2, se, depth, m, Some(Box::new(cv)), 0),
                }
            } else {
                spec_pointer_tail(s, pos + 2, se, depth, m, None, s[pos + 1])
            }
        } else {
            spec_pointer_tail(s, pos + 1, se, depth, m, None, 0)
        }
    }
}

/// The common tail of a pointer: `tah`, then the pointee.
pub open spec fn spec_pointer_tail(
    s: Seq<u8>,
    pos: int,
    se: u8,
    depth: nat,
    m: u8,
    closure: Option<Box<TypeV>>,
    based: u8,
) -> Result<(TypeV, int), GrammarError>
    decreases depth, 1int, 0int,
{
    if depth == 0 {
        Err(GrammarError::DepthExceeded)
    } else {
        match spec_tah(s, pos) {
            Err(e) => Err(ge(e)),
            Ok((tv, p2)) => match spec_parse_type(s, p2, se, (depth - 1) as nat) {
                Err(e) => Err(e),
                Ok((pt, p3)) => Ok(
                    (
                        TypeV::Pointer {
                            meta: m,
                            closure,
                            based_ptr_size: based,
                            tah: tv,
                            pointee: Box::new(pt),
                        },
                        p3,
                    ),
                ),
            },
        }
    }
}

/// Array: tag, then either a `dt` element count (non-based) or a `da`
/// descriptor, then `tah`, then the element type.
pub open spec fn spec_parse_array(s: Seq<u8>, pos: int, se: u8, depth: nat) -> Result<
    (TypeV, int),
    GrammarError,
>
    decreases depth, 2int, 0int,
{
    if depth == 0 {
        Err(GrammarError::DepthExceeded)
    } else if !(0 <= pos < s.len()) {
        Err(GrammarError::ShortRead)
    } else {
        let m = s[pos];
        if m & 0x30 == 0x10 {
            match spec_dt(s, pos + 1) {
                Err(e) => Err(ge(e)),
                Ok((ne, p)) => spec_array_tail(s, p, se, depth, m, true, 0, ne),
            }
        } else {
            match spec_da(s, pos + 1) {
                Err(e) => Err(ge(e)),
                Ok(((ne, base), p)) => spec_array_tail(s, p, se, depth, m, false, base, ne as u16),
            }
        }
    }
}

/// The common tail of an array: `tah`, then the element type.
pub open spec fn spec_array_tail(
    s: Seq<u8>,
    pos: int,
    se: u8,
    depth: nat,
    m: u8,
    non_based: bool,
    base: u8,
    nelem: u16,
) -> Result<(TypeV, int), GrammarError>
    decreases depth, 1int, 0int,
{
    if depth == 0 {
        Err(GrammarError::DepthExceeded)
    } else {
        match spec_tah(s, pos) {
            Err(e) => Err(ge(e)),
            Ok((tv, p2)) => match spec_parse_type(s, p2, se, (depth - 1) as nat) {
                Err(e) => Err(e),
                Ok((ev, p3)) => Ok(
                    (
                        TypeV::Array {
                            meta: m,
                            non_based,
                            base,
                            nelem,
                            tah: tv,
                            elem: Box::new(ev),
                        },
                        p3,
                    ),
                ),
            },
        }
    }
}

/// Bitfield: tag, then a `dt` whose low bit is the signedness and whose
/// remaining bits are the width, then `tah`.  The byte count comes from the
/// tag's flag bits.
pub open spec fn spec_parse_bitfield(s: Seq<u8>, pos: int) -> Result<(TypeV, int), GrammarError> {
    if !(0 <= pos < s.len()) {
        Err(GrammarError::ShortRead)
    } else {
        let m = s[pos];
        match spec_dt(s, pos + 1) {
            Err(e) => Err(ge(e)),
            Ok((d, p)) => match spec_tah(s, p) {
                Err(e) => Err(ge(e)),
                Ok((_tv, p2)) => Ok(
                    (
                        TypeV::Bitfield {
                            meta: m,
                            unsigned: d & 1 == 1,
                            width: d >> 1,
                            nbytes: (1i32 << (((m & 0x30) >> 4) as i32)) as i32,
                        },
                        p2,
                    ),
                ),
            },
        }
    }
}

/// Typedef: tag, then a `dt`-prefixed buffer.  A buffer opening with `'#'`
/// is an ordinal reference, its ordinal a `de` over the rest of the buffer;
/// any other buffer is a name.
pub open spec fn spec_parse_typedef(s: Seq<u8>, pos: int) -> Result<(TypeV, int), GrammarError> {
    if !(0 <= pos < s.len()) {
        Err(GrammarError::ShortRead)
    } else {
        let m = s[pos];
        match spec_dt(s, pos + 1) {
            Err(e) => Err(ge(e)),
            Ok((len, p)) => if p + len > s.len() {
                Err(GrammarError::ShortRead)
            } else {
                let buf = s.subrange(p, p + len);
                let dtw = (p - (pos + 1)) as u8;
                if len > 0 && buf[0] == 0x23 {
                    match spec_de(buf, 1) {
                        Err(e) => Err(ge(e)),
                        Ok((v, _)) => Ok(
                            (
                                TypeV::Typedef {
                                    meta: m,
                                    buf,
                                    dt_width: dtw,
                                    is_ordref: true,
                                    ordinal: v,
                                },
                                p + len,
                            ),
                        ),
                    }
                } else {
                    Ok(
                        (
                            TypeV::Typedef {
                                meta: m,
                                buf,
                                dt_width: dtw,
                                is_ordref: false,
                                ordinal: 0,
                            },
                            p + len,
                        ),
                    )
                }
            },
        }
    }
}

/// The reference form shared by composites whose count is zero: a
/// `dt`-prefixed buffer, re-parsed as a type after prepending `'='` and a
/// re-serialized `dt` unless the buffer already opens with `'='`.
pub open spec fn spec_parse_ref(s: Seq<u8>, pos: int, se: u8, depth: nat) -> Result<
    (TypeV, int),
    GrammarError,
>
    decreases depth, 1int, 0int,
{
    if depth == 0 {
        Err(GrammarError::DepthExceeded)
    } else {
        match spec_dt(s, pos) {
            Err(e) => Err(ge(e)),
            Ok((len, p)) => if p + len > s.len() {
                Err(GrammarError::ShortRead)
            } else {
                let raw = s.subrange(p, p + len);
                let target = if len > 0 && raw[0] == 0x3d {
                    raw
                } else {
                    seq![0x3du8] + spec_serialize_dt(len) + raw
                };
                match spec_parse_type(target, 0, se, (depth - 1) as nat) {
                    Err(e) => Err(e),
                    Ok((tv, _)) => Ok((tv, p + len)),
                }
            },
        }
    }
}

/// Struct members: each is a type followed by an optional member attribute.
pub open spec fn spec_struct_members(
    s: Seq<u8>,
    pos: int,
    se: u8,
    depth: nat,
    left: u32,
    acc_m: Seq<TypeV>,
    acc_a: Seq<u16>,
) -> Result<((Seq<TypeV>, Seq<u16>), int), GrammarError>
    decreases depth, 0int, left,
{
    if left == 0 {
        Ok(((acc_m, acc_a), pos))
    } else if depth == 0 {
        Err(GrammarError::DepthExceeded)
    } else {
        match spec_parse_type(s, pos, se, (depth - 1) as nat) {
            Err(e) => Err(e),
            Ok((tv, p)) => match spec_sdacl(s, p) {
                Err(e) => Err(ge(e)),
                Ok((sd, p2)) => spec_struct_members(
                    s,
                    p2,
                    se,
                    depth,
                    (left - 1) as u32,
                    acc_m.push(tv),
                    acc_a.push(sd),
                ),
            },
        }
    }
}

/// Struct: tag, then a `dt` count.  Zero selects the reference form; the
/// sentinel `0x7FFE` promotes the count to a `de`.  The count's low three
/// bits give the alignment exponent, the rest the member count.
pub open spec fn spec_parse_struct(s: Seq<u8>, pos: int, se: u8, depth: nat) -> Result<
    (TypeV, int),
    GrammarError,
>
    decreases depth, 2int, 0int,
{
    if depth == 0 {
        Err(GrammarError::DepthExceeded)
    } else if !(0 <= pos < s.len()) {
        Err(GrammarError::ShortRead)
    } else {
        let m = s[pos];
        match spec_dt(s, pos + 1) {
            Err(e) => Err(ge(e)),
            Ok((n0, p)) => if n0 == 0 {
                match spec_parse_ref(s, p, se, depth) {
                    Err(e) => Err(e),
                    Ok((rv, p2)) => match spec_sdacl(s, p2) {
                        Err(e) => Err(ge(e)),
                        Ok((sd, p3)) => Ok(
                            (
                                TypeV::Struct {
                                    meta: m,
                                    is_ref: true,
                                    ref_type: Box::new(rv),
                                    alignment: 0,
                                    taudt: sd,
                                    members: Seq::empty(),
                                    member_attrs: Seq::empty(),
                                },
                                p3,
                            ),
                        ),
                    },
                }
            } else {
                let nres = if n0 == 0x7FFE {
                    spec_de(s, p)
                } else {
                    Ok((n0 as u32, p))
                };
                match nres {
                    Err(e) => Err(ge(e)),
                    Ok((n, p1)) => spec_struct_tail(s, p1, se, depth, m, n),
                }
            },
        }
    }
}

/// The body of a non-reference struct, after its count is known.
pub open spec fn spec_struct_tail(s: Seq<u8>, pos: int, se: u8, depth: nat, m: u8, n: u32) -> Result<
    (TypeV, int),
    GrammarError,
>
    decreases depth, 1int, 1int,
{
    if depth == 0 {
        Err(GrammarError::DepthExceeded)
    } else {
        let alpow = n & 7;
        let cnt = (n >> 3) as u32;
        let align: u16 = if alpow == 0 {
            0
        } else {
            (1u16 << ((alpow - 1) as u16)) as u16
        };
        match spec_sdacl(s, pos) {
            Err(e) => Err(ge(e)),
            Ok((sd, p2)) => match spec_struct_members(
                s,
                p2,
                se,
                depth,
                cnt,
                Seq::empty(),
                Seq::empty(),
            ) {
                Err(e) => Err(e),
                Ok(((ms, attrs), p3)) => Ok(
                    (
                        TypeV::Struct {
                            meta: m,
                            is_ref: false,
                            ref_type: Box::new(unset_zero()),
                            alignment: align,
                            taudt: sd,
                            members: ms,
                            member_attrs: attrs,
                        },
                        p3,
                    ),
                ),
            },
        }
    }
}

/// Union members: each is just a type.
pub open spec fn spec_union_members(
    s: Seq<u8>,
    pos: int,
    se: u8,
    depth: nat,
    left: u32,
    acc: Seq<TypeV>,
) -> Result<(Seq<TypeV>, int), GrammarError>
    decreases depth, 0int, left,
{
    if left == 0 {
        Ok((acc, pos))
    } else if depth == 0 {
        Err(GrammarError::DepthExceeded)
    } else {
        match spec_parse_type(s, pos, se, (depth - 1) as nat) {
            Err(e) => Err(e),
            Ok((tv, p)) => spec_union_members(s, p, se, depth, (left - 1) as u32, acc.push(tv)),
        }
    }
}

/// Union: as struct, but members carry no per-member attribute.
pub open spec fn spec_parse_union(s: Seq<u8>, pos: int, se: u8, depth: nat) -> Result<
    (TypeV, int),
    GrammarError,
>
    decreases depth, 2int, 0int,
{
    if depth == 0 {
        Err(GrammarError::DepthExceeded)
    } else if !(0 <= pos < s.len()) {
        Err(GrammarError::ShortRead)
    } else {
        let m = s[pos];
        match spec_dt(s, pos + 1) {
            Err(e) => Err(ge(e)),
            Ok((n0, p)) => if n0 == 0 {
                match spec_parse_ref(s, p, se, depth) {
                    Err(e) => Err(e),
                    Ok((rv, p2)) => match spec_sdacl(s, p2) {
                        Err(e) => Err(ge(e)),
                        Ok((sd, p3)) => Ok(
                            (
                                TypeV::Union {
                                    meta: m,
                                    is_ref: true,
                                    ref_type: Box::new(rv),
                                    alignment: 0,
                                    taudt: sd,
                                    members: Seq::empty(),
                                },
                                p3,
                            ),
                        ),
                    },
                }
            } else {
                let nres = if n0 == 0x7FFE {
                    spec_de(s, p)
                } else {
                    Ok((n0 as u32, p))
                };
                match nres {
                    Err(e) => Err(ge(e)),
                    Ok((n, p1)) => spec_union_tail(s, p1, se, depth, m, n),
                }
            },
        }
    }
}

/// The body of a non-reference union, after its count is known.
pub open spec fn spec_union_tail(s: Seq<u8>, pos: int, se: u8, depth: nat, m: u8, n: u32) -> Result<
    (TypeV, int),
    GrammarError,
>
    decreases depth, 1int, 1int,
{
    if depth == 0 {
        Err(GrammarError::DepthExceeded)
    } else {
        let alpow = n & 7;
        let cnt = (n >> 3) as u32;
        let align: u16 = if alpow == 0 {
            0
        } else {
            (1u16 << ((alpow - 1) as u16)) as u16
        };
        match spec_sdacl(s, pos) {
            Err(e) => Err(ge(e)),
            Ok((sd, p2)) => match spec_union_members(s, p2, se, depth, cnt, Seq::empty()) {
                Err(e) => Err(e),
                Ok((ms, p3)) => Ok(
                    (
                        TypeV::Union {
                            meta: m,
                            is_ref: false,
                            ref_type: Box::new(unset_zero()),
                            alignment: align,
                            taudt: sd,
                            members: ms,
                        },
                        p3,
                    ),
                ),
            },
        }
    }
}

/// Enum members: each iteration reads a low `de`, a high `de` when the
/// `taenum` bits ask for one, and a group-size `dt` when the `bte` bits ask
/// for one; the member value is the running 64-bit wrapping sum of the
/// masked deltas.
pub open spec fn spec_enum_members(
    s: Seq<u8>,
    pos: int,
    left: u32,
    taenum: u16,
    bte: u8,
    mask: u64,
    cur: u64,
    hi: u32,
    acc_g: Seq<(u16, u8)>,
    acc_m: Seq<u64>,
) -> Result<((Seq<(u16, u8)>, Seq<u64>), int), GrammarError>
    decreases left,
{
    if left == 0 {
        Ok(((acc_g, acc_m), pos))
    } else {
        match spec_de(s, pos) {
            Err(e) => Err(ge(e)),
            Ok((lo, p)) => {
                let hires = if taenum & 0x0020 != 0 {
                    spec_de(s, p)
                } else {
                    Ok((hi, p))
                };
                match hires {
                    Err(e) => Err(ge(e)),
                    Ok((h2, p2)) => {
                        let gres = if bte & 0x10 != 0 {
                            match spec_dt(s, p2) {
                                Err(e) => Err(e),
                                Ok((g, p3)) => Ok((acc_g.push((g, (p3 - p2) as u8)), p3)),
                            }
                        } else {
                            Ok((acc_g, p2))
                        };
                        match gres {
                            Err(e) => Err(ge(e)),
                            Ok((g2, p3)) => {
                                let delta = (((lo as u64) | (((h2 as u64) << 32) as u64))
                                    & mask) as u64;
                                let cur2 = if cur + delta > u64::MAX {
                                    (cur + delta - 0x10000000000000000) as u64
                                } else {
                                    (cur + delta) as u64
                                };
                                spec_enum_members(
                                    s,
                                    p3,
                                    (left - 1) as u32,
                                    taenum,
                                    bte,
                                    mask,
                                    cur2,
                                    h2,
                                    g2,
                                    acc_m.push(cur2),
                                )
                            },
                        }
                    },
                }
            },
        }
    }
}

/// Enum: tag, then a `dt` count (zero: reference form; `0x7FFE`: promote to
/// `de`), then `tah` (the `taenum` bits), then the `bte` byte, then the
/// members.  The member byte size comes from the `bte` low bits, or from
/// the library header's enum size, or defaults to four.
pub open spec fn spec_parse_enum(s: Seq<u8>, pos: int, se: u8, depth: nat) -> Result<
    (TypeV, int),
    GrammarError,
>
    decreases depth, 2int, 0int,
{
    if depth == 0 {
        Err(GrammarError::DepthExceeded)
    } else if !(0 <= pos < s.len()) {
        Err(GrammarError::ShortRead)
    } else {
        let m = s[pos];
        match spec_dt(s, pos + 1) {
            Err(e) => Err(ge(e)),
            Ok((n0, p)) => if n0 == 0 {
                match spec_parse_ref(s, p, se, depth) {
                    Err(e) => Err(e),
                    Ok((rv, p2)) => match spec_sdacl(s, p2) {
                        Err(e) => Err(ge(e)),
                        Ok((sd, p3)) => Ok(
                            (
                                TypeV::Enum {
                                    meta: m,
                                    is_ref: true,
                                    ref_type: Box::new(rv),
                                    taenum: sd,
                                    bte: 0,
                                    bytesize: 0,
                                    group_sizes: Seq::empty(),
                                    members: Seq::empty(),
                                },
                                p3,
                            ),
                        ),
                    },
                }
            } else {
                let nres = if n0 == 0x7FFE {
                    spec_de(s, p)
                } else {
                    Ok((n0 as u32, p))
                };
                match nres {
                    Err(e) => Err(ge(e)),
                    Ok((n, p1)) => match spec_tah(s, p1) {
                        Err(e) => Err(ge(e)),
                        Ok((ta, p2)) => if !(p2 < s.len()) {
                            Err(GrammarError::ShortRead)
                        } else {
                            let bte = s[p2];
                            let bytesize = spec_enum_bytesize(bte, se);
                            let mask = spec_enum_mask(bytesize);
                            match spec_enum_members(
                                s,
                                p2 + 1,
                                n,
                                ta,
                                bte,
                                mask,
                                0,
                                0,
                                Seq::empty(),
                                Seq::empty(),
                            ) {
                                Err(e) => Err(e),
                                Ok(((gs, ms), p3)) => Ok(
                                    (
                                        TypeV::Enum {
                                            meta: m,
                                            is_ref: false,
                                            ref_type: Box::new(unset_zero()),
                                            taenum: ta,
                                            bte,
                                            bytesize,
                                            group_sizes: gs,
                                            members: ms,
                                        },
                                        p3,
                                    ),
                                ),
                            }
                        },
                    },
                }
            },
        }
    }
}

/// The byte size of an enum's members: from the `bte` low bits when they
/// are nonzero, else from the library header's enum size, else four.
pub open spec fn spec_enum_bytesize(bte: u8, se: u8) -> u64 {
    let emsize = bte & 7;
    if emsize != 0 {
        (1u64 << ((emsize - 1) as u64)) as u64
    } else if se != 0 {
        se as u64
    } else {
        4
    }
}

/// The value mask of an enum: all ones over the member bit width, or the
/// full 64 bits when the width reaches 64.
pub open spec fn spec_enum_mask(bytesize: u64) -> u64 {
    if bytesize * 8 < 64 {
        ((1u64 << ((bytesize * 8) as u64)) - 1) as u64
    } else {
        0xffffffffffffffffu64
    }
}

/// Function: tag, then the calling-convention byte (skipping spoiled-
/// register marks), `tah`, the return type, and the arguments unless the
/// convention says there are none.  Special-PE conventions are not
/// supported: a non-void terminal return, or any argument, is refused.
pub open spec fn spec_parse_function(s: Seq<u8>, pos: int, se: u8, depth: nat) -> Result<
    (TypeV, int),
    GrammarError,
>
    decreases depth, 2int, 0int,
{
    if depth == 0 {
        Err(GrammarError::DepthExceeded)
    } else if !(0 <= pos < s.len()) {
        Err(GrammarError::ShortRead)
    } else {
        let m = s[pos];
        match spec_fn_cc(s, pos + 1) {
            Err(e) => Err(e),
            Ok((cc, p)) => match spec_tah(s, p) {
                Err(e) => Err(ge(e)),
                Ok((_tv, p1)) => match spec_parse_type(s, p1, se, (depth - 1) as nat) {
                    Err(e) => Err(e),
                    Ok((rv, p2)) => {
                        let spe = cc & 0xf0 == 0xd0 || cc & 0xf0 == 0xe0 || cc & 0xf0 == 0xf0;
                        if spe && (rv matches TypeV::Unset { meta } && meta & 0x3f != 0x01) {
                            Err(GrammarError::SpecialPEUnsupported)
                        } else if cc & 0xf0 == 0x20 {
                            Ok(
                                (
                                    TypeV::Function {
                                        meta: m,
                                        cc,
                                        ret: Box::new(rv),
                                        args: Seq::empty(),
                                    },
                                    p2,
                                ),
                            )
                        } else {
                            match spec_dt(s, p2) {
                                Err(e) => Err(ge(e)),
                                Ok((n, p3)) => match spec_fn_args(
                                    s,
                                    p3,
                                    se,
                                    depth,
                                    n,
                                    spe,
                                    Seq::empty(),
                                ) {
                                    Err(e) => Err(e),
                                    Ok((args, p4)) => Ok(
                                        (
                                            TypeV::Function {
                                                meta: m,
                                                cc,
                                                ret: Box::new(rv),
                                                args,
                                            },
                                            p4,
                                        ),
                                    ),
                                },
                            }
                        }
                    },
                },
            },
        }
    }
}

/// The calling-convention byte, skipping spoiled-register marks: while the
/// byte's high four bits read `0xA0`, its low four bits count spoiled
/// registers (fifteen demands one extra byte), and the next byte is looked
/// at in turn.
pub open spec fn spec_fn_cc(s: Seq<u8>, pos: int) -> Result<(u8, int), GrammarError>
    decreases s.len() - pos,
{
    if !(0 <= pos < s.len()) {
        Err(GrammarError::ShortRead)
    } else {
        let c = s[pos];
        if c & 0xf0 == 0xa0 {
            if c & 0x0f == 15 {
                if !(pos + 1 < s.len()) {
                    Err(GrammarError::ShortRead)
                } else {
                    spec_fn_cc(s, pos + 2)
                }
            } else {
                spec_fn_cc(s, pos + 1)
            }
        } else {
            Ok((c, pos + 1))
        }
    }
}

/// Function arguments: each may open with an `0xFF` marker and a `de` of
/// argument flags, then its type.  Under a special-PE convention every
/// argument is refused once parsed.
pub open spec fn spec_fn_args(
    s: Seq<u8>,
    pos: int,
    se: u8,
    depth: nat,
    left: u16,
    spe: bool,
    acc: Seq<TypeV>,
) -> Result<(Seq<TypeV>, int), GrammarError>
    decreases depth, 0int, left,
{
    if left == 0 {
        Ok((acc, pos))
    } else if depth == 0 {
        Err(GrammarError::DepthExceeded)
    } else if !(0 <= pos < s.len()) {
        Err(GrammarError::ShortRead)
    } else {
        let apres = if s[pos] == 0xff {
            match spec_de(s, pos + 1) {
                Err(e) => Err(ge(e)),
                Ok((_f, p1)) => Ok(p1),
            }
        } else {
            Ok(pos)
        };
        match apres {
            Err(e) => Err(e),
            Ok(ap) => match spec_parse_type(s, ap, se, (depth - 1) as nat) {
                Err(e) => Err(e),
                Ok((av, p2)) => if spe {
                    Err(GrammarError::SpecialPEUnsupported)
                } else {
                    spec_fn_args(s, p2, se, depth, (left - 1) as u16, spe, acc.push(av))
                },
            },
        }
    }
}

} // verus!

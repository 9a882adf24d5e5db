//! The exec type-information parser.  Each function is proved to agree with
//! its spec-level mirror in `grammar`: it returns a value modelling the
//! ghost result and the same end position, or the very same error.

use vstd::prelude::*;

use crate::codec::{
    DE, DT, SDACL, TAH, TypeAttribute, lemma_dt_range, parse_da, parse_de, parse_dt, parse_sdacl,
    parse_tah, serialize_dt,
};
use crate::errors::GrammarError;
use crate::flags::TypeMetadata;
use crate::grammar::{
    spec_enum_bytesize, spec_enum_mask, spec_enum_members, spec_fn_args, spec_fn_cc,
    spec_parse_array, spec_parse_bitfield, spec_parse_enum, spec_parse_function,
    spec_parse_pointer, spec_parse_ref, spec_parse_struct, spec_parse_type, spec_parse_typedef,
    spec_parse_union, spec_pointer_tail, spec_array_tail, spec_struct_members, spec_struct_tail,
    spec_union_members, spec_union_tail,
};
use crate::strutil::{lossy_string, spec_null_end};
use crate::types::{
    Array, Bitfield, DTBytes, Enum, EnumMember, FuncArgs, Function, Pointer, Ref, Struct,
    StructMember, Typedef, TypeV, Types, Union, UnionMember, args_model, closure_model,
    emembers_model, gsizes_model, models, smembers_model, umembers_model,
};

verus! {

/// The recursion depth every entry point starts from, bounding nested
/// type-information values on adversarial inputs.
pub const TYPE_DEPTH_LIMIT: u32 = 256;

/// An exec parse outcome agrees with a spec parse outcome: the value models
/// the ghost result at the same end position, or the errors are the same.
pub open spec fn type_matches(
    r: Result<(Types, usize), GrammarError>,
    s: Result<(TypeV, int), GrammarError>,
) -> bool {
    match (r, s) {
        (Ok((t, p)), Ok((v, sp))) => models(t, v) && p as int == sp,
        (Err(e), Err(se)) => e == se,
        _ => false,
    }
}

/// Parses one type-information value at `pos`.
pub fn parse_type(data: &[u8], pos: usize, se: u8, depth: u32) -> (r: Result<
    (Types, usize),
    GrammarError,
>)
    ensures
        type_matches(r, spec_parse_type(data@, pos as int, se, depth as nat)),
        r matches Ok(v) ==> v.1 <= data@.len(),
    decreases depth, 3int, 0int,
{
    if pos >= data.len() {
        return Err(GrammarError::ShortRead);
    }
    let m = data[pos];
    let base = m & 0x0f;
    let full = m & 0x3f;
    if base <= 0x09 || base == 0x0f {
        Ok((Types::Unset(TypeMetadata(m)), pos + 1))
    } else if depth == 0 {
        Err(GrammarError::DepthExceeded)
    } else if base == 0x0a {
        parse_pointer(data, pos, se, depth)
    } else if base == 0x0c {
        parse_function(data, pos, se, depth)
    } else if base == 0x0b {
        parse_array(data, pos, se, depth)
    } else if full == 0x3d {
        parse_typedef(data, pos)
    } else if full == 0x1d {
        parse_union(data, pos, se, depth)
    } else if full == 0x0d {
        parse_struct(data, pos, se, depth)
    } else if full == 0x2d {
        parse_enum(data, pos, se, depth)
    } else if base == 0x0e {
        parse_bitfield(data, pos)
    } else {
        // No tag byte reaches this arm; it mirrors the spec's totality arm:
        // raw bytes up to and including the next NUL.
        let mut end = pos;
        loop
            invariant_except_break
                pos <= end <= data@.len(),
                spec_null_end(data@, pos as int) == spec_null_end(data@, end as int),
            ensures
                pos <= end <= data@.len(),
                spec_null_end(data@, pos as int) == end as int,
                end < data@.len() ==> data@[end as int] == 0,
            decreases data@.len() - end,
        {
            if end >= data.len() {
                break ;
            }
            if data[end] == 0 {
                break ;
            }
            end = end + 1;
        }
        let mut raw: Vec<u8> = Vec::new();
        let mut i = pos;
        while i < end
            invariant
                pos <= i <= end <= data@.len(),
                raw@ =~= data@.subrange(pos as int, i as int),
            decreases end - i,
        {
            raw.push(data[i]);
            i = i + 1;
        }
        proof {
            assert(raw@ =~= data@.subrange(pos as int, end as int));
        }
        if end < data.len() {
            Ok((Types::Unknown(raw), end + 1))
        } else {
            Ok((Types::Unknown(raw), end))
        }
    }
}

/// Pointer: tag, optional closure or based-pointer size, `tah`, pointee.
pub fn parse_pointer(data: &[u8], pos: usize, se: u8, depth: u32) -> (r: Result<
    (Types, usize),
    GrammarError,
>)
    ensures
        type_matches(r, spec_parse_pointer(data@, pos as int, se, depth as nat)),
        r matches Ok(v) ==> v.1 <= data@.len(),
    decreases depth, 2int, 0int,
{
    if depth == 0 {
        return Err(GrammarError::DepthExceeded);
    }
    if pos >= data.len() {
        return Err(GrammarError::ShortRead);
    }
    let m = data[pos];
    if m & 0x30 == 0x30 {
        if pos + 1 >= data.len() {
            return Err(GrammarError::ShortRead);
        }
        if data[pos + 1] == 0xff {
            match parse_type(data, pos + 2, se, depth - 1) {
                Err(e) => Err(e),
                Ok((cv, p2)) => {
                    let ghost cvv = spec_parse_type(
                        data@,
                        pos + 2,
                        se,
                        (depth - 1) as nat,
                    )->Ok_0.0;
                    parse_pointer_tail(
                        data,
                        p2,
                        se,
                        depth,
                        m,
                        Some(cv),
                        0,
                        Ghost(Some(Box::new(cvv))),
                    )
                },
            }
        } else {
            parse_pointer_tail(data, pos + 2, se, depth, m, None, data[pos + 1], Ghost(None))
        }
    } else {
        parse_pointer_tail(data, pos + 1, se, depth, m, None, 0, Ghost(None))
    }
}

fn parse_pointer_tail(
    data: &[u8],
    pos: usize,
    se: u8,
    depth: u32,
    m: u8,
    closure: Option<Types>,
    based: u8,
    Ghost(cv): Ghost<Option<Box<TypeV>>>,
) -> (r: Result<(Types, usize), GrammarError>)
    requires
        closure_model(closure, cv),
    ensures
        type_matches(r, spec_pointer_tail(data@, pos as int, se, depth as nat, m, cv, based)),
        r matches Ok(v) ==> v.1 <= data@.len(),
    decreases depth, 1int, 0int,
{
    if depth == 0 {
        return Err(GrammarError::DepthExceeded);
    }
    let (tv, p2) = match parse_tah(data, pos) {
        Ok(v) => v,
        Err(e) => { return Err(GrammarError::from_codec(e)) },
    };
    let (pt, p3) = match parse_type(data, p2, se, depth - 1) {
        Ok(v) => v,
        Err(e) => { return Err(e) },
    };
    Ok(
        (
            Types::Pointer(
                Box::new(
                    Pointer {
                        metadata: TypeMetadata(m),
                        closure,
                        based_ptr_size: based,
                        tah: TAH(TypeAttribute(tv)),
                        typ: pt,
                    },
                ),
            ),
            p3,
        ),
    )
}

/// Array: tag, element count (`dt` or `da`), `tah`, element type.
pub fn parse_array(data: &[u8], pos: usize, se: u8, depth: u32) -> (r: Result<
    (Types, usize),
    GrammarError,
>)
    ensures
        type_matches(r, spec_parse_array(data@, pos as int, se, depth as nat)),
        r matches Ok(v) ==> v.1 <= data@.len(),
    decreases depth, 2int, 0int,
{
    if depth == 0 {
        return Err(GrammarError::DepthExceeded);
    }
    if pos >= data.len() {
        return Err(GrammarError::ShortRead);
    }
    let m = data[pos];
    if m & 0x30 == 0x10 {
        let (ne, p) = match parse_dt(data, pos + 1) {
            Ok(v) => v,
            Err(e) => { return Err(GrammarError::from_codec(e)) },
        };
        parse_array_tail(data, p, se, depth, m, true, 0, ne)
    } else {
        let ((ne, base), p) = match parse_da(data, pos + 1) {
            Ok(v) => v,
            Err(e) => { return Err(GrammarError::from_codec(e)) },
        };
        parse_array_tail(data, p, se, depth, m, false, base, ne as u16)
    }
}

fn parse_array_tail(
    data: &[u8],
    pos: usize,
    se: u8,
    depth: u32,
    m: u8,
    non_based: bool,
    base: u8,
    nelem: u16,
) -> (r: Result<(Types, usize), GrammarError>)
    ensures
        type_matches(
            r,
            spec_array_tail(data@, pos as int, se, depth as nat, m, non_based, base, nelem),
        ),
        r matches Ok(v) ==> v.1 <= data@.len(),
    decreases depth, 1int, 0int,
{
    if depth == 0 {
        return Err(GrammarError::DepthExceeded);
    }
    let (tv, p2) = match parse_tah(data, pos) {
        Ok(v) => v,
        Err(e) => { return Err(GrammarError::from_codec(e)) },
    };
    let (ev, p3) = match parse_type(data, p2, se, depth - 1) {
        Ok(v) => v,
        Err(e) => { return Err(e) },
    };
    Ok(
        (
            Types::Array(
                Box::new(
                    Array {
                        metadata: TypeMetadata(m),
                        is_non_based: non_based,
                        base,
                        nelem,
                        tah: TAH(TypeAttribute(tv)),
                        elem_type: ev,
                    },
                ),
            ),
            p3,
        ),
    )
}

/// Bitfield: tag, width/signedness `dt`, `tah`.
pub fn parse_bitfield(data: &[u8], pos: usize) -> (r: Result<(Types, usize), GrammarError>)
    ensures
        type_matches(r, spec_parse_bitfield(data@, pos as int)),
        r matches Ok(v) ==> v.1 <= data@.len(),
{
    if pos >= data.len() {
        return Err(GrammarError::ShortRead);
    }
    let m = data[pos];
    let (d, p) = match parse_dt(data, pos + 1) {
        Ok(v) => v,
        Err(e) => { return Err(GrammarError::from_codec(e)) },
    };
    let (_tv, p2) = match parse_tah(data, p) {
        Ok(v) => v,
        Err(e) => { return Err(GrammarError::from_codec(e)) },
    };
    proof {
        assert(((m & 0x30) >> 4) < 4) by (bit_vector);
    }
    Ok(
        (
            Types::Bitfield(
                Bitfield {
                    metadata: TypeMetadata(m),
                    unsigned: d & 1 == 1,
                    width: d >> 1,
                    nbytes: 1i32 << (((m & 0x30) >> 4) as i32),
                },
            ),
            p2,
        ),
    )
}

/// Typedef: tag, `dt`-prefixed buffer; `'#'` selects an ordinal reference.
pub fn parse_typedef(data: &[u8], pos: usize) -> (r: Result<(Types, usize), GrammarError>)
    ensures
        type_matches(r, spec_parse_typedef(data@, pos as int)),
        r matches Ok(v) ==> v.1 <= data@.len(),
{
    if pos >= data.len() {
        return Err(GrammarError::ShortRead);
    }
    let m = data[pos];
    let (len, p) = match parse_dt(data, pos + 1) {
        Ok(v) => v,
        Err(e) => { return Err(GrammarError::from_codec(e)) },
    };
    if (len as usize) > data.len() - p {
        return Err(GrammarError::ShortRead);
    }
    let end = p + len as usize;
    let mut buf: Vec<u8> = Vec::new();
    let mut i = p;
    while i < end
        invariant
            p <= i <= end <= data@.len(),
            buf@ =~= data@.subrange(p as int, i as int),
        decreases end - i,
    {
        buf.push(data[i]);
        i = i + 1;
    }
    proof {
        assert(buf@ =~= data@.subrange(p as int, p + len));
    }
    let width = (p - pos - 1) as u8;
    if len > 0 && buf[0] == 0x23 {
        let (v, _) = match parse_de(buf.as_slice(), 1) {
            Ok(v) => v,
            Err(e) => { return Err(GrammarError::from_codec(e)) },
        };
        Ok(
            (
                Types::Typedef(
                    Typedef {
                        metadata: TypeMetadata(m),
                        buf: DTBytes { dt: DT(len, width), bytes: buf },
                        is_ordref: true,
                        ordinal: DE(v),
                        name: String::new(),
                    },
                ),
                end,
            ),
        )
    } else {
        let name = lossy_string(buf.as_slice());
        Ok(
            (
                Types::Typedef(
                    Typedef {
                        metadata: TypeMetadata(m),
                        buf: DTBytes { dt: DT(len, width), bytes: buf },
                        is_ordref: false,
                        ordinal: DE(0),
                        name,
                    },
                ),
                end,
            ),
        )
    }
}

/// The reference form of a composite: a `dt`-prefixed buffer re-parsed as a
/// type, prepending `'='` and a re-serialized `dt` when needed.
fn parse_ref(data: &[u8], pos: usize, se: u8, depth: u32) -> (r: Result<
    (Types, usize),
    GrammarError,
>)
    ensures
        type_matches(r, spec_parse_ref(data@, pos as int, se, depth as nat)),
        r matches Ok(v) ==> v.1 <= data@.len(),
    decreases depth, 1int, 0int,
{
    if depth == 0 {
        return Err(GrammarError::DepthExceeded);
    }
    let (len, p) = match parse_dt(data, pos) {
        Ok(v) => v,
        Err(e) => { return Err(GrammarError::from_codec(e)) },
    };
    if (len as usize) > data.len() - p {
        return Err(GrammarError::ShortRead);
    }
    let end = p + len as usize;
    let mut raw: Vec<u8> = Vec::new();
    let mut i = p;
    while i < end
        invariant
            p <= i <= end <= data@.len(),
            raw@ =~= data@.subrange(p as int, i as int),
        decreases end - i,
    {
        raw.push(data[i]);
        i = i + 1;
    }
    proof {
        assert(raw@ =~= data@.subrange(p as int, p + len));
    }
    let target: Vec<u8>;
    if raw.len() > 0 && raw[0] == 0x3d {
        target = raw;
    } else {
        proof {
            lemma_dt_range(data@, pos as int);
        }
        let mut t: Vec<u8> = Vec::new();
        t.push(0x3d);
        let mut ser = serialize_dt(len);
        t.append(&mut ser);
        let mut rest = raw;
        t.append(&mut rest);
        proof {
            assert(t@ =~= seq![0x3du8] + crate::codec::spec_serialize_dt(len) + data@.subrange(
                p as int,
                p + len,
            ));
        }
        target = t;
    }
    match parse_type(target.as_slice(), 0, se, depth - 1) {
        Err(e) => Err(e),
        Ok((tv, _)) => Ok((tv, end)),
    }
}

/// Struct members: type plus optional member attribute, `left` times.
fn parse_struct_members(
    data: &[u8],
    pos: usize,
    se: u8,
    depth: u32,
    left: u32,
    acc: Vec<StructMember>,
    Ghost(accm): Ghost<Seq<TypeV>>,
    Ghost(acca): Ghost<Seq<u16>>,
) -> (r: Result<(Vec<StructMember>, usize), GrammarError>)
    requires
        pos <= data@.len(),
        smembers_model(acc@, accm, acca),
    ensures
        match (
            r,
            spec_struct_members(data@, pos as int, se, depth as nat, left, accm, acca),
        ) {
            (Ok((v, p)), Ok(((ms, ats), sp))) => smembers_model(v@, ms, ats) && p as int == sp
                && p <= data@.len(),
            (Err(e), Err(se_)) => e == se_,
            _ => false,
        },
    decreases depth, 0int, left,
{
    if left == 0 {
        return Ok((acc, pos));
    }
    if depth == 0 {
        return Err(GrammarError::DepthExceeded);
    }
    let (tv, p) = match parse_type(data, pos, se, depth - 1) {
        Ok(v) => v,
        Err(e) => { return Err(e) },
    };
    let (sd, p2) = match parse_sdacl(data, p) {
        Ok(v) => v,
        Err(e) => { return Err(GrammarError::from_codec(e)) },
    };
    let ghost gm = spec_parse_type(data@, pos as int, se, (depth - 1) as nat)->Ok_0.0;
    let mut acc2 = acc;
    acc2.push(StructMember(tv, SDACL(TypeAttribute(sd))));
    parse_struct_members(
        data,
        p2,
        se,
        depth,
        left - 1,
        acc2,
        Ghost(accm.push(gm)),
        Ghost(acca.push(sd)),
    )
}

/// Union members: a type each, `left` times.
fn parse_union_members(
    data: &[u8],
    pos: usize,
    se: u8,
    depth: u32,
    left: u32,
    acc: Vec<UnionMember>,
    Ghost(accm): Ghost<Seq<TypeV>>,
) -> (r: Result<(Vec<UnionMember>, usize), GrammarError>)
    requires
        pos <= data@.len(),
        umembers_model(acc@, accm),
    ensures
        match (r, spec_union_members(data@, pos as int, se, depth as nat, left, accm)) {
            (Ok((v, p)), Ok((ms, sp))) => umembers_model(v@, ms) && p as int == sp && p
                <= data@.len(),
            (Err(e), Err(se_)) => e == se_,
            _ => false,
        },
    decreases depth, 0int, left,
{
    if left == 0 {
        return Ok((acc, pos));
    }
    if depth == 0 {
        return Err(GrammarError::DepthExceeded);
    }
    let (tv, p) = match parse_type(data, pos, se, depth - 1) {
        Ok(v) => v,
        Err(e) => { return Err(e) },
    };
    let ghost gm = spec_parse_type(data@, pos as int, se, (depth - 1) as nat)->Ok_0.0;
    let mut acc2 = acc;
    acc2.push(UnionMember(tv));
    parse_union_members(data, p, se, depth, left - 1, acc2, Ghost(accm.push(gm)))
}

/// Struct: tag, count, optional reference form, attribute, members.
#[verifier::rlimit(100)]
pub fn parse_struct(data: &[u8], pos: usize, se: u8, depth: u32) -> (r: Result<
    (Types, usize),
    GrammarError,
>)
    ensures
        type_matches(r, spec_parse_struct(data@, pos as int, se, depth as nat)),
        r matches Ok(v) ==> v.1 <= data@.len(),
    decreases depth, 2int, 0int,
{
    if depth == 0 {
        return Err(GrammarError::DepthExceeded);
    }
    if pos >= data.len() {
        return Err(GrammarError::ShortRead);
    }
    let m = data[pos];
    let (n0, p) = match parse_dt(data, pos + 1) {
        Ok(v) => v,
        Err(e) => { return Err(GrammarError::from_codec(e)) },
    };
    if n0 == 0 {
        let (rv, p2) = match parse_ref(data, p, se, depth) {
            Ok(v) => v,
            Err(e) => { return Err(e) },
        };
        let (sd, p3) = match parse_sdacl(data, p2) {
            Ok(v) => v,
            Err(e) => { return Err(GrammarError::from_codec(e)) },
        };
        let bx = Box::new(
            Struct {
                metadata: TypeMetadata(m),
                is_ref: true,
                ref_type: Ref(rv),
                effective_alignment: 0,
                taudt_bits: SDACL(TypeAttribute(sd)),
                members: Vec::new(),
            },
        );
        proof {
            assert(smembers_model((*bx).members@, Seq::empty(), Seq::empty()));
        }
        Ok((Types::Struct(bx), p3))
    } else {
        let (n, p1) = if n0 == 0x7FFE {
            match parse_de(data, p) {
                Ok(v) => v,
                Err(e) => { return Err(GrammarError::from_codec(e)) },
            }
        } else {
            (n0 as u32, p)
        };
        parse_struct_tail(data, p1, se, depth, m, n)
    }
}

fn parse_struct_tail(data: &[u8], pos: usize, se: u8, depth: u32, m: u8, n: u32) -> (r: Result<
    (Types, usize),
    GrammarError,
>)
    ensures
        type_matches(r, spec_struct_tail(data@, pos as int, se, depth as nat, m, n)),
        r matches Ok(v) ==> v.1 <= data@.len(),
    decreases depth, 1int, 1int,
{
    if depth == 0 {
        return Err(GrammarError::DepthExceeded);
    }
    let alpow = n & 7;
    let cnt = n >> 3;
    let align: u16 = if alpow == 0 {
        0
    } else {
        proof {
            assert((n & 7) < 8) by (bit_vector);
        }
        1u16 << ((alpow - 1) as u16)
    };
    let (sd, p2) = match parse_sdacl(data, pos) {
        Ok(v) => v,
        Err(e) => { return Err(GrammarError::from_codec(e)) },
    };
    proof {
        assert(models(Types::Unset(TypeMetadata(0)), crate::types::unset_zero()));
    }
    let (members, p3) = match parse_struct_members(
        data,
        p2,
        se,
        depth,
        cnt,
        Vec::new(),
        Ghost(Seq::empty()),
        Ghost(Seq::empty()),
    ) {
        Ok(v) => v,
        Err(e) => { return Err(e) },
    };
    let bx = Box::new(
        Struct {
            metadata: TypeMetadata(m),
            is_ref: false,
            ref_type: Ref(Types::Unset(TypeMetadata(0))),
            effective_alignment: align,
            taudt_bits: SDACL(TypeAttribute(sd)),
            members,
        },
    );
    proof {
        let sres = spec_struct_tail(data@, pos as int, se, depth as nat, m, n);
        assert(sres is Ok);
        let v = sres->Ok_0.0;
        assert(v matches TypeV::Struct { members: msv, member_attrs: av, .. }
            && smembers_model((*bx).members@, msv, av));
    }
    Ok((Types::Struct(bx), p3))
}

/// Union: as struct, without per-member attributes.
#[verifier::rlimit(100)]
pub fn parse_union(data: &[u8], pos: usize, se: u8, depth: u32) -> (r: Result<
    (Types, usize),
    GrammarError,
>)
    ensures
        type_matches(r, spec_parse_union(data@, pos as int, se, depth as nat)),
        r matches Ok(v) ==> v.1 <= data@.len(),
    decreases depth, 2int, 0int,
{
    if depth == 0 {
        return Err(GrammarError::DepthExceeded);
    }
    if pos >= data.len() {
        return Err(GrammarError::ShortRead);
    }
    let m = data[pos];
    let (n0, p) = match parse_dt(data, pos + 1) {
        Ok(v) => v,
        Err(e) => { return Err(GrammarError::from_codec(e)) },
    };
    if n0 == 0 {
        let (rv, p2) = match parse_ref(data, p, se, depth) {
            Ok(v) => v,
            Err(e) => { return Err(e) },
        };
        let (sd, p3) = match parse_sdacl(data, p2) {
            Ok(v) => v,
            Err(e) => { return Err(GrammarError::from_codec(e)) },
        };
        let bx = Box::new(
            Union {
                metadata: TypeMetadata(m),
                is_ref: true,
                ref_type: Ref(rv),
                effective_alignment: 0,
                taudt_bits: SDACL(TypeAttribute(sd)),
                members: Vec::new(),
            },
        );
        proof {
            assert(umembers_model((*bx).members@, Seq::empty()));
        }
        Ok((Types::Union(bx), p3))
    } else {
        let (n, p1) = if n0 == 0x7FFE {
            match parse_de(data, p) {
                Ok(v) => v,
                Err(e) => { return Err(GrammarError::from_codec(e)) },
            }
        } else {
            (n0 as u32, p)
        };
        parse_union_tail(data, p1, se, depth, m, n)
    }
}

fn parse_union_tail(data: &[u8], pos: usize, se: u8, depth: u32, m: u8, n: u32) -> (r: Result<
    (Types, usize),
    GrammarError,
>)
    ensures
        type_matches(r, spec_union_tail(data@, pos as int, se, depth as nat, m, n)),
        r matches Ok(v) ==> v.1 <= data@.len(),
    decreases depth, 1int, 1int,
{
    if depth == 0 {
        return Err(GrammarError::DepthExceeded);
    }
    let alpow = n & 7;
    let cnt = n >> 3;
    let align: u16 = if alpow == 0 {
        0
    } else {
        proof {
            assert((n & 7) < 8) by (bit_vector);
        }
        1u16 << ((alpow - 1) as u16)
    };
    let (sd, p2) = match parse_sdacl(data, pos) {
        Ok(v) => v,
        Err(e) => { return Err(GrammarError::from_codec(e)) },
    };
    proof {
        assert(models(Types::Unset(TypeMetadata(0)), crate::types::unset_zero()));
    }
    let (members, p3) = match parse_union_members(
        data,
        p2,
        se,
        depth,
        cnt,
        Vec::new(),
        Ghost(Seq::empty()),
    ) {
        Ok(v) => v,
        Err(e) => { return Err(e) },
    };
    let bx = Box::new(
        Union {
            metadata: TypeMetadata(m),
            is_ref: false,
            ref_type: Ref(Types::Unset(TypeMetadata(0))),
            effective_alignment: align,
            taudt_bits: SDACL(TypeAttribute(sd)),
            members,
        },
    );
    proof {
        let sres = spec_union_tail(data@, pos as int, se, depth as nat, m, n);
        assert(sres is Ok);
        let v = sres->Ok_0.0;
        assert(v matches TypeV::Union { members: msv, .. } && umembers_model(
            (*bx).members@,
            msv,
        ));
    }
    Ok((Types::Union(bx), p3))
}

/// Enum members: low `de`, optional high `de`, optional group-size `dt`,
/// with the member value the running wrapping sum of masked deltas.
fn parse_enum_members(
    data: &[u8],
    pos: usize,
    left: u32,
    taenum: u16,
    bte: u8,
    mask: u64,
    cur: u64,
    hi: u32,
    gacc: Vec<DT>,
    macc: Vec<EnumMember>,
    Ghost(gv): Ghost<Seq<(u16, u8)>>,
    Ghost(mv): Ghost<Seq<u64>>,
) -> (r: Result<((Vec<DT>, Vec<EnumMember>), usize), GrammarError>)
    requires
        pos <= data@.len(),
        gsizes_model(gacc@, gv),
        emembers_model(macc@, mv),
    ensures
        match (
            r,
            spec_enum_members(
                data@,
                pos as int,
                left,
                taenum,
                bte,
                mask,
                cur,
                hi,
                gv,
                mv,
            ),
        ) {
            (Ok(((g, mm), p)), Ok(((sg, sm), sp))) => gsizes_model(g@, sg) && emembers_model(
                mm@,
                sm,
            ) && p as int == sp && p <= data@.len(),
            (Err(e), Err(se_)) => e == se_,
            _ => false,
        },
    decreases left,
{
    if left == 0 {
        return Ok(((gacc, macc), pos));
    }
    let (lo, p) = match parse_de(data, pos) {
        Ok(v) => v,
        Err(e) => { return Err(GrammarError::from_codec(e)) },
    };
    let (h2, p2) = if taenum & 0x0020 != 0 {
        match parse_de(data, p) {
            Ok(v) => v,
            Err(e) => { return Err(GrammarError::from_codec(e)) },
        }
    } else {
        (hi, p)
    };
    let mut gacc2 = gacc;
    let p3: usize;
    let ghost gv2: Seq<(u16, u8)>;
    if bte & 0x10 != 0 {
        let (g, pg) = match parse_dt(data, p2) {
            Ok(v) => v,
            Err(e) => { return Err(GrammarError::from_codec(e)) },
        };
        gacc2.push(DT(g, (pg - p2) as u8));
        proof {
            gv2 = gv.push((g, (pg - p2) as u8));
        }
        p3 = pg;
    } else {
        proof {
            gv2 = gv;
        }
        p3 = p2;
    }
    let delta = ((lo as u64) | ((h2 as u64) << 32u64)) & mask;
    let cur2 = cur.wrapping_add(delta);
    let mut macc2 = macc;
    macc2.push(EnumMember(cur2));
    parse_enum_members(
        data,
        p3,
        left - 1,
        taenum,
        bte,
        mask,
        cur2,
        h2,
        gacc2,
        macc2,
        Ghost(gv2),
        Ghost(mv.push(cur2)),
    )
}

/// Enum: tag, count, `tah`, `bte` byte, members.
#[verifier::rlimit(100)]
pub fn parse_enum(data: &[u8], pos: usize, se: u8, depth: u32) -> (r: Result<
    (Types, usize),
    GrammarError,
>)
    ensures
        type_matches(r, spec_parse_enum(data@, pos as int, se, depth as nat)),
        r matches Ok(v) ==> v.1 <= data@.len(),
    decreases depth, 2int, 0int,
{
    if depth == 0 {
        return Err(GrammarError::DepthExceeded);
    }
    if pos >= data.len() {
        return Err(GrammarError::ShortRead);
    }
    let m = data[pos];
    let (n0, p) = match parse_dt(data, pos + 1) {
        Ok(v) => v,
        Err(e) => { return Err(GrammarError::from_codec(e)) },
    };
    if n0 == 0 {
        let (rv, p2) = match parse_ref(data, p, se, depth) {
            Ok(v) => v,
            Err(e) => { return Err(e) },
        };
        let (sd, p3) = match parse_sdacl(data, p2) {
            Ok(v) => v,
            Err(e) => { return Err(GrammarError::from_codec(e)) },
        };
        Ok(
            (
                Types::Enum(
                    Box::new(
                        Enum {
                            metadata: TypeMetadata(m),
                            group_sizes: Vec::new(),
                            taenum_bits: TypeAttribute(sd),
                            bte: 0,
                            members: Vec::new(),
                            ref_type: Ref(rv),
                            is_ref: true,
                            bytesize: 0,
                        },
                    ),
                ),
                p3,
            ),
        )
    } else {
        let (n, p1) = if n0 == 0x7FFE {
            match parse_de(data, p) {
                Ok(v) => v,
                Err(e) => { return Err(GrammarError::from_codec(e)) },
            }
        } else {
            (n0 as u32, p)
        };
        let (ta, p2) = match parse_tah(data, p1) {
            Ok(v) => v,
            Err(e) => { return Err(GrammarError::from_codec(e)) },
        };
        if p2 >= data.len() {
            return Err(GrammarError::ShortRead);
        }
        let bte = data[p2];
        let emsize = bte & 7;
        let bytesize: u64 = if emsize != 0 {
            proof {
                assert(bte & 7 < 8) by (bit_vector);
            }
            1u64 << ((emsize - 1) as u64)
        } else if se != 0 {
            se as u64
        } else {
            4
        };
        proof {
            assert(bytesize == spec_enum_bytesize(bte, se));
            if bte & 7 != 0 {
                assert(1u64 << (((bte & 7) - 1) as u64) <= 64) by (bit_vector)
                    requires
                        bte & 7 != 0,
                ;
            }
            assert(bytesize <= 255);
        }
        let mask: u64 = if bytesize * 8 < 64 {
            proof {
                assert((1u64 << (bytesize * 8)) >= 1) by (bit_vector)
                    requires
                        bytesize * 8 < 64,
                ;
            }
            (1u64 << (bytesize * 8)) - 1
        } else {
            0xffffffffffffffff
        };
        proof {
            assert(models(Types::Unset(TypeMetadata(0)), crate::types::unset_zero()));
        }
        let ((group_sizes, members), p3) = match parse_enum_members(
            data,
            p2 + 1,
            n,
            ta,
            bte,
            mask,
            0,
            0,
            Vec::new(),
            Vec::new(),
            Ghost(Seq::empty()),
            Ghost(Seq::empty()),
        ) {
            Ok(v) => v,
            Err(e) => { return Err(e) },
        };
        Ok(
            (
                Types::Enum(
                    Box::new(
                        Enum {
                            metadata: TypeMetadata(m),
                            group_sizes,
                            taenum_bits: TypeAttribute(ta),
                            bte,
                            members,
                            ref_type: Ref(Types::Unset(TypeMetadata(0))),
                            is_ref: false,
                            bytesize,
                        },
                    ),
                ),
                p3,
            ),
        )
    }
}

/// The calling-convention byte, skipping spoiled-register marks.
fn parse_fn_cc(data: &[u8], pos: usize) -> (r: Result<(u8, usize), GrammarError>)
    ensures
        match (r, spec_fn_cc(data@, pos as int)) {
            (Ok((c, p)), Ok((sc, sp))) => c == sc && p as int == sp && p <= data@.len(),
            (Err(e), Err(se_)) => e == se_,
            _ => false,
        },
    decreases data@.len() - pos,
{
    if pos >= data.len() {
        return Err(GrammarError::ShortRead);
    }
    let c = data[pos];
    if c & 0xf0 == 0xa0 {
        if c & 0x0f == 15 {
            if pos + 1 >= data.len() {
                return Err(GrammarError::ShortRead);
            }
            parse_fn_cc(data, pos + 2)
        } else {
            parse_fn_cc(data, pos + 1)
        }
    } else {
        Ok((c, pos + 1))
    }
}

/// Function arguments: optional `0xFF`-marked flag `de`, then the type.
fn parse_fn_args(
    data: &[u8],
    pos: usize,
    se: u8,
    depth: u32,
    left: u16,
    spe: bool,
    acc: Vec<FuncArgs>,
    Ghost(accm): Ghost<Seq<TypeV>>,
) -> (r: Result<(Vec<FuncArgs>, usize), GrammarError>)
    requires
        pos <= data@.len(),
        args_model(acc@, accm),
    ensures
        match (r, spec_fn_args(data@, pos as int, se, depth as nat, left, spe, accm)) {
            (Ok((v, p)), Ok((ms, sp))) => args_model(v@, ms) && p as int == sp && p
                <= data@.len(),
            (Err(e), Err(se_)) => e == se_,
            _ => false,
        },
    decreases depth, 0int, left,
{
    if left == 0 {
        return Ok((acc, pos));
    }
    if depth == 0 {
        return Err(GrammarError::DepthExceeded);
    }
    if pos >= data.len() {
        return Err(GrammarError::ShortRead);
    }
    let ap: usize = if data[pos] == 0xff {
        match parse_de(data, pos + 1) {
            Ok((_f, p1)) => p1,
            Err(e) => { return Err(GrammarError::from_codec(e)) },
        }
    } else {
        pos
    };
    let (av, p2) = match parse_type(data, ap, se, depth - 1) {
        Ok(v) => v,
        Err(e) => { return Err(e) },
    };
    if spe {
        return Err(GrammarError::SpecialPEUnsupported);
    }
    let ghost gm = spec_parse_type(data@, ap as int, se, (depth - 1) as nat)->Ok_0.0;
    let mut acc2 = acc;
    acc2.push(FuncArgs(av));
    parse_fn_args(data, p2, se, depth, left - 1, spe, acc2, Ghost(accm.push(gm)))
}

/// Function: tag, calling convention, `tah`, return type, arguments.
#[verifier::rlimit(100)]
pub fn parse_function(data: &[u8], pos: usize, se: u8, depth: u32) -> (r: Result<
    (Types, usize),
    GrammarError,
>)
    ensures
        type_matches(r, spec_parse_function(data@, pos as int, se, depth as nat)),
        r matches Ok(v) ==> v.1 <= data@.len(),
    decreases depth, 2int, 0int,
{
    if depth == 0 {
        return Err(GrammarError::DepthExceeded);
    }
    if pos >= data.len() {
        return Err(GrammarError::ShortRead);
    }
    let m = data[pos];
    let (cc, p) = match parse_fn_cc(data, pos + 1) {
        Ok(v) => v,
        Err(e) => { return Err(e) },
    };
    let (_tv, p1) = match parse_tah(data, p) {
        Ok(v) => v,
        Err(e) => { return Err(GrammarError::from_codec(e)) },
    };
    let (rv, p2) = match parse_type(data, p1, se, depth - 1) {
        Ok(v) => v,
        Err(e) => { return Err(e) },
    };
    let spe = cc & 0xf0 == 0xd0 || cc & 0xf0 == 0xe0 || cc & 0xf0 == 0xf0;
    let ret_unset_nonvoid = match &rv {
        Types::Unset(md) => md.0 & 0x3f != 0x01,
        _ => false,
    };
    if spe && ret_unset_nonvoid {
        return Err(GrammarError::SpecialPEUnsupported);
    }
    if cc & 0xf0 == 0x20 {
        proof {
            assert(args_model(Seq::<FuncArgs>::empty(), Seq::<TypeV>::empty()));
        }
        return Ok(
            (
                Types::Function(
                    Box::new(
                        Function {
                            metadata: TypeMetadata(m),
                            cc: TypeMetadata(cc),
                            ret: rv,
                            args: Vec::new(),
                        },
                    ),
                ),
                p2,
            ),
        );
    }
    let (n, p3) = match parse_dt(data, p2) {
        Ok(v) => v,
        Err(e) => { return Err(GrammarError::from_codec(e)) },
    };
    let (args, p4) = match parse_fn_args(
        data,
        p3,
        se,
        depth,
        n,
        spe,
        Vec::new(),
        Ghost(Seq::empty()),
    ) {
        Ok(v) => v,
        Err(e) => { return Err(e) },
    };
    Ok(
        (
            Types::Function(
                Box::new(
                    Function {
                        metadata: TypeMetadata(m),
                        cc: TypeMetadata(cc),
                        ret: rv,
                        args,
                    },
                ),
            ),
            p4,
        ),
    )
}

} // verus!

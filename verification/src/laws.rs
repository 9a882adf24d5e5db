//! Laws of the parser that relate several functions: header-validation
//! determinism, the totality of type traversal, and the enum accumulator
//! equation.  Counting laws live beside their walks: see
//! `til::lemma_bucket_entry_count` and `id0::lemma_page_entry_count`.

use vstd::prelude::*;

use crate::grammar::{spec_enum_bytesize, spec_enum_mask, spec_enum_members, spec_parse_enum};
use crate::idb::{spec_header_check, spec_idb_header};
use crate::types::TypeV;

verus! {

broadcast use vstd::seq::group_seq_axioms;

/// Law: header validation is deterministic.  The same bytes always give
/// the same header and the same accept or reject outcome.
pub proof fn lemma_header_validation_deterministic(s1: Seq<u8>, s2: Seq<u8>)
    requires
        s1 == s2,
    ensures
        spec_idb_header(s1) == spec_idb_header(s2),
        match (spec_idb_header(s1), spec_idb_header(s2)) {
            (Ok(h1), Ok(h2)) => spec_header_check(h1) == spec_header_check(h2),
            (Err(e1), Err(e2)) => e1 == e2,
            _ => false,
        },
{
}

/// The height of a type-information model.  Verus accepts this recursion
/// as well-founded for every value, so any traversal that descends into
/// sub-types along this measure terminates: no variant leads to infinite
/// recursion.
pub open spec fn type_depth(v: TypeV) -> nat
    decreases v, 1int,
{
    match v {
        TypeV::Unset { .. } => 1,
        TypeV::Typedef { .. } => 1,
        TypeV::Bitfield { .. } => 1,
        TypeV::Unknown { .. } => 1,
        TypeV::Pointer { closure, pointee, .. } => {
            let c = match closure {
                Some(cv) => type_depth(*cv),
                None => 0,
            };
            let p = type_depth(*pointee);
            1 + if c > p {
                c
            } else {
                p
            }
        },
        TypeV::Function { ret, args, .. } => {
            let r = type_depth(*ret);
            let a = type_depth_seq(args);
            1 + if r > a {
                r
            } else {
                a
            }
        },
        TypeV::Array { elem, .. } => 1 + type_depth(*elem),
        TypeV::Struct { ref_type, members, .. } => {
            let r = type_depth(*ref_type);
            let m = type_depth_seq(members);
            1 + if r > m {
                r
            } else {
                m
            }
        },
        TypeV::Union { ref_type, members, .. } => {
            let r = type_depth(*ref_type);
            let m = type_depth_seq(members);
            1 + if r > m {
                r
            } else {
                m
            }
        },
        TypeV::Enum { ref_type, .. } => 1 + type_depth(*ref_type),
    }
}

/// The largest height among a sequence of type-information models.
pub open spec fn type_depth_seq(vs: Seq<TypeV>) -> nat
    decreases vs, 0int,
{
    if vs.len() == 0 {
        0
    } else {
        let d = type_depth(vs[0]);
        let rest = type_depth_seq(vs.subrange(1, vs.len() as int));
        if d > rest {
            d
        } else {
            rest
        }
    }
}

/// 64-bit wrapping addition, spelled out.
pub open spec fn wrap_add64(a: u64, b: u64) -> u64 {
    if a + b > u64::MAX {
        (a + b - 0x10000000000000000) as u64
    } else {
        (a + b) as u64
    }
}

/// 64-bit wrapping subtraction, spelled out.
pub open spec fn wrap_sub64(a: u64, b: u64) -> u64 {
    if a >= b {
        (a - b) as u64
    } else {
        (a + 0x10000000000000000 - b) as u64
    }
}

/// The deltas an enum's members were accumulated from: each member minus
/// its predecessor (the first minus zero), with wrapping arithmetic.
pub open spec fn member_deltas(ms: Seq<u64>) -> Seq<u64> {
    Seq::new(
        ms.len(),
        |i: int|
            wrap_sub64(
                ms[i],
                if i == 0 {
                    0u64
                } else {
                    ms[i - 1]
                },
            ),
    )
}

/// The wrapping sum of a sequence of deltas.
pub open spec fn wrap_sum64(ds: Seq<u64>) -> u64
    decreases ds.len(),
{
    if ds.len() == 0 {
        0
    } else {
        wrap_add64(wrap_sum64(ds.drop_last()), ds.last())
    }
}

/// The wrapping sum of a member list's deltas telescopes to its last
/// member.
pub proof fn lemma_wrap_sum_telescopes(ms: Seq<u64>)
    requires
        ms.len() > 0,
    ensures
        wrap_sum64(member_deltas(ms)) == ms.last(),
    decreases ms.len(),
{
    if ms.len() == 1 {
        assert(member_deltas(ms).drop_last() =~= member_deltas(ms.drop_last()));
        assert(wrap_sum64(member_deltas(ms).drop_last()) == 0);
    } else {
        let pre = ms.drop_last();
        lemma_wrap_sum_telescopes(pre);
        assert(member_deltas(ms).drop_last() =~= member_deltas(pre));
    }
}

/// The delta emitted at position `i` of a member walk that started at
/// position `k` from accumulator `base`.
pub open spec fn delta_at(ms: Seq<u64>, base: u64, k: int, i: int) -> u64 {
    wrap_sub64(
        ms[i],
        if i == k {
            base
        } else {
            ms[i - 1]
        },
    )
}

/// Inductive step for the accumulator walk: a successful member walk
/// extends the accumulator by exactly `left` members, preserves what was
/// already there, and every freshly emitted delta is invariant under the
/// mask.
pub proof fn lemma_enum_members_masked(
    s: Seq<u8>,
    pos: int,
    left: u32,
    taenum: u16,
    bte: u8,
    mask: u64,
    cur: u64,
    hi: u32,
    acc_g: Seq<(u16, u8)>,
    acc_m: Seq<u64>,
)
    ensures
        spec_enum_members(s, pos, left, taenum, bte, mask, cur, hi, acc_g, acc_m) matches Ok(
            ((g2, ms2), p),
        ) ==> {
            &&& ms2.len() == acc_m.len() + left
            &&& forall|i: int| 0 <= i < acc_m.len() ==> ms2[i] == acc_m[i]
            &&& forall|i: int|
                acc_m.len() <= i < ms2.len() ==> #[trigger] delta_at(ms2, cur, acc_m.len() as int, i)
                    & mask == delta_at(ms2, cur, acc_m.len() as int, i)
        },
    decreases left,
{
    if left != 0 {
        match crate::codec::spec_de(s, pos) {
            Err(_) => {},
            Ok((lo, p)) => {
                let hires = if taenum & 0x0020 != 0 {
                    crate::codec::spec_de(s, p)
                } else {
                    Ok((hi, p))
                };
                match hires {
                    Err(_) => {},
                    Ok((h2, p2)) => {
                        let gres = if bte & 0x10 != 0 {
                            match crate::codec::spec_dt(s, p2) {
                                Err(e) => Err(e),
                                Ok((g, p3)) => Ok((acc_g.push((g, (p3 - p2) as u8)), p3)),
                            }
                        } else {
                            Ok((acc_g, p2))
                        };
                        match gres {
                            Err(_) => {},
                            Ok((g2, p3)) => {
                                let delta = (((lo as u64) | (((h2 as u64) << 32) as u64))
                                    & mask) as u64;
                                let cur2 = if cur + delta > u64::MAX {
                                    (cur + delta - 0x10000000000000000) as u64
                                } else {
                                    (cur + delta) as u64
                                };
                                assert(wrap_sub64(cur2, cur) == delta);
                                assert(delta & mask == delta) by (bit_vector)
                                    requires
                                        delta == (((lo as u64) | (((h2 as u64) << 32) as u64))
                                            & mask) as u64,
                                ;
                                lemma_enum_members_masked(
                                    s,
                                    p3,
                                    (left - 1) as u32,
                                    taenum,
                                    bte,
                                    mask,
                                    cur2,
                                    h2,
                                    g2,
                                    acc_m.push(cur2),
                                );
                                let res = spec_enum_members(
                                    s,
                                    p3,
                                    (left - 1) as u32,
                                    taenum,
                                    bte,
                                    mask,
                                    cur2,
                                    h2,
                                    g2,
                                    acc_m.push(cur2),
                                );
                                match res {
                                    Err(_) => {},
                                    Ok(((_g2r, ms2), _pr)) => {
                                    let k = acc_m.len() as int;
                                    assert(ms2[k] == acc_m.push(cur2)[k]);
                                    assert(ms2[k] == cur2);
                                    assert forall|i: int| k <= i < ms2.len() implies #[trigger]
                                        delta_at(ms2, cur, k, i) & mask == delta_at(
                                        ms2,
                                        cur,
                                        k,
                                        i,
                                    ) by {
                                        if i == k {
                                            assert(delta_at(ms2, cur, k, k) == delta);
                                        } else {
                                            assert(delta_at(ms2, cur2, k + 1, i) & mask
                                                == delta_at(ms2, cur2, k + 1, i));
                                            assert(delta_at(ms2, cur, k, i) == delta_at(
                                                ms2,
                                                cur2,
                                                k + 1,
                                                i,
                                            ));
                                        }
                                    }
                                    },
                                }
                            },
                        }
                    },
                }
            },
        }
    }
}

/// Law: the enum accumulator.  For every successfully parsed enum, the
/// wrapping sum of the emitted deltas equals the last member's raw value,
/// and each emitted delta is already confined to the enum's value mask.
pub proof fn lemma_enum_accumulator(s: Seq<u8>, pos: int, se: u8, depth: nat)
    ensures
        spec_parse_enum(s, pos, se, depth) matches Ok(r) ==> r.0 matches TypeV::Enum {
            members,
            bytesize,
            is_ref,
            ..
        } ==> ((!is_ref && members.len() > 0) ==> {
            &&& wrap_sum64(member_deltas(members)) == members.last()
            &&& forall|i: int|
                0 <= i < members.len() ==> #[trigger] member_deltas(members)[i] & spec_enum_mask(
                    bytesize,
                ) == member_deltas(members)[i]
        }),
{
    let r = spec_parse_enum(s, pos, se, depth);
    if r is Ok {
        match r->Ok_0.0 {
            TypeV::Enum { members, bytesize, is_ref, .. } => if !is_ref && members.len() > 0 {
                lemma_wrap_sum_telescopes(members);
                if 0 <= pos < s.len() && depth != 0 {
                match crate::codec::spec_dt(s, pos + 1) {
                    Err(_) => {},
                    Ok((n0, p)) => {
                        if n0 != 0 {
                            let nres = if n0 == 0x7FFE {
                                crate::codec::spec_de(s, p)
                            } else {
                                Ok((n0 as u32, p))
                            };
                            match nres {
                                Err(_) => {},
                                Ok((n, p1)) => match crate::codec::spec_tah(s, p1) {
                                    Err(_) => {},
                                    Ok((ta, p2)) => {
                                        if p2 < s.len() {
                                            let bte2 = s[p2];
                                            let bs = spec_enum_bytesize(bte2, se);
                                            let mask = spec_enum_mask(bs);
                                            lemma_enum_members_masked(
                                                s,
                                                p2 + 1,
                                                n,
                                                ta,
                                                bte2,
                                                mask,
                                                0,
                                                0,
                                                Seq::empty(),
                                                Seq::empty(),
                                            );
                                            assert forall|i: int| 0 <= i < members.len() implies
                                                #[trigger] member_deltas(members)[i]
                                                & spec_enum_mask(bytesize) == member_deltas(
                                                members,
                                            )[i] by {
                                                assert(delta_at(members, 0, 0, i) & mask
                                                    == delta_at(members, 0, 0, i));
                                                assert(member_deltas(members)[i] == delta_at(
                                                    members,
                                                    0,
                                                    0,
                                                    i,
                                                ));
                                            }
                                        }
                                    },
                                },
                            }
                        }
                    },
                }
                }
            },
            _ => {},
        }
    }
}

} // verus!

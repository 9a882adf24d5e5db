//! Primitive varint and attribute codecs of the format: the 1-2 byte biased
//! `dt`, the 1-5 byte `de`, the based-array descriptor `da`, and the
//! self-describing attribute headers `tah` and `sdacl`.
//!
//! Every exec decoder is specified against a spec-level mirror over
//! `Seq<u8>`; the mirror is the authoritative statement of the encoding.

use vstd::prelude::*;

use crate::errors::CodecError;

verus! {

/// A decoded `dt` value together with the number of bytes it occupied.
#[derive(Clone, Copy, Debug, PartialEq, Eq, Structural)]
pub struct DT(pub u16, pub u8);

/// A decoded `de` value.
#[derive(Clone, Copy, Debug, PartialEq, Eq, Structural)]
pub struct DE(pub u32);

/// The 16-bit value carried by a type-attribute header.
#[derive(Clone, Copy, Debug, PartialEq, Eq, Structural)]
pub struct TypeAttribute(pub u16);

/// A type-attribute header in `tah` position (`0xFE` marker).
#[derive(Clone, Copy, Debug, PartialEq, Eq, Structural)]
pub struct TAH(pub TypeAttribute);

/// A type-attribute header in `sdacl` position.
#[derive(Clone, Copy, Debug, PartialEq, Eq, Structural)]
pub struct SDACL(pub TypeAttribute);

/// An exec decoding outcome `r` agrees with its spec mirror `s`: same value,
/// same end position, or the very same error.
pub open spec fn decoded_matches<T, E>(r: Result<(T, usize), E>, s: Result<(T, int), E>) -> bool {
    match (r, s) {
        (Ok((v, p)), Ok((sv, sp))) => v == sv && p as int == sp,
        (Err(e), Err(se)) => e == se,
        _ => false,
    }
}

// ---------------------------------------------------------------------------
// dt: 1-2 bytes, biased by one.
// ---------------------------------------------------------------------------

/// `dt` at `pos`: if the first byte has its high bit clear the value is that
/// byte minus one; otherwise the low seven bits and the following byte's
/// eight bits (shifted by seven) form the value, again minus one.  A decoded
/// zero before the bias is a violated reserved pattern.
pub open spec fn spec_dt(s: Seq<u8>, pos: int) -> Result<(u16, int), CodecError> {
    if !(0 <= pos < s.len()) {
        Err(CodecError::ShortRead)
    } else {
        let b0 = s[pos];
        if b0 & 0x80 == 0 {
            if b0 == 0 {
                Err(CodecError::BadVarint)
            } else {
                Ok(((b0 - 1) as u16, pos + 1))
            }
        } else if !(pos + 1 < s.len()) {
            Err(CodecError::ShortRead)
        } else {
            let v = (((b0 & 0x7f) as u16) | ((s[pos + 1] as u16) << 7)) as u16;
            if v == 0 {
                Err(CodecError::BadVarint)
            } else {
                Ok(((v - 1) as u16, pos + 2))
            }
        }
    }
}

pub fn parse_dt(data: &[u8], pos: usize) -> (r: Result<(u16, usize), CodecError>)
    ensures
        decoded_matches(r, spec_dt(data@, pos as int)),
        r matches Ok(v) ==> pos < v.1 <= data@.len(),
{
    if pos >= data.len() {
        return Err(CodecError::ShortRead);
    }
    let b0 = data[pos];
    if b0 & 0x80 == 0 {
        if b0 == 0 {
            Err(CodecError::BadVarint)
        } else {
            Ok(((b0 - 1) as u16, pos + 1))
        }
    } else if pos + 1 >= data.len() {
        Err(CodecError::ShortRead)
    } else {
        let b1 = data[pos + 1];
        let v: u16 = ((b0 & 0x7f) as u16) | ((b1 as u16) << 7);
        if v == 0 {
            Err(CodecError::BadVarint)
        } else {
            Ok((v - 1, pos + 2))
        }
    }
}

/// Every decoded `dt` value lies in the codec's range.
pub proof fn lemma_dt_range(s: Seq<u8>, pos: int)
    ensures
        spec_dt(s, pos) matches Ok(r) ==> r.0 <= 0x7FFE,
{
    if 0 <= pos < s.len() {
        let b0 = s[pos];
        if b0 & 0x80 == 0 {
            assert(b0 & 0x80 == 0 ==> b0 <= 0x7f) by (bit_vector);
        } else if pos + 1 < s.len() {
            let b1 = s[pos + 1];
            assert((((b0 & 0x7f) as u16) | ((b1 as u16) << 7)) <= 0x7FFF) by (bit_vector);
        }
    }
}

/// The canonical encoding of a `dt` value: one byte for biased values up to
/// 127, two bytes otherwise.
pub open spec fn spec_serialize_dt(n: u16) -> Seq<u8> {
    let m = (n + 1) as u16;
    if m > 127 {
        seq![((m & 0x7f) | 0x80) as u8, ((m >> 7) & 0xff) as u8]
    } else {
        seq![m as u8]
    }
}

pub fn serialize_dt(n: u16) -> (r: Vec<u8>)
    requires
        n <= 0x7FFE,
    ensures
        r@ == spec_serialize_dt(n),
{
    let m = n + 1;
    let mut result: Vec<u8> = Vec::new();
    if m > 127 {
        result.push(((m & 0x7f) | 0x80) as u8);
        result.push((m >> 7) as u8);
    } else {
        result.push(m as u8);
    }
    proof {
        assert(((m as u16) >> 7) & 0xff == (m as u16) >> 7) by (bit_vector)
            requires
                m <= 0x7FFFu16,
        ;
        assert(result@ =~= spec_serialize_dt(n));
    }
    result
}

/// Law: the `dt` codec round-trips.  Decoding the canonical encoding of any
/// value in the codec's range yields that value back and consumes exactly
/// the encoded bytes.
pub proof fn lemma_dt_round_trip(n: u16)
    requires
        n <= 0x7FFE,
    ensures
        spec_dt(spec_serialize_dt(n), 0) == Ok::<(u16, int), CodecError>(
            (n, spec_serialize_dt(n).len() as int),
        ),
{
    let m = (n + 1) as u16;
    if m > 127 {
        let b0 = ((m & 0x7f) | 0x80) as u8;
        let b1 = ((m >> 7) & 0xff) as u8;
        assert((((m & 0x7f) | 0x80) as u8) & 0x80 != 0) by (bit_vector);
        assert(((((((m & 0x7f) | 0x80) as u8) & 0x7f) as u16) | ((((m >> 7) & 0xff) as u8 as u16)
            << 7)) == m) by (bit_vector)
            requires
                127 < m <= 0x7FFF,
        ;
        assert(spec_serialize_dt(n) == seq![b0, b1]);
    } else {
        assert((m as u8) & 0x80 == 0) by (bit_vector)
            requires
                0 < m <= 127,
        ;
    }
}

// ---------------------------------------------------------------------------
// de: 1-5 bytes, six low bits in the terminating byte, seven bits in each
// continuation byte.
// ---------------------------------------------------------------------------

/// One step per byte: a byte with its high bit clear terminates with
/// `(b & 0x3f) | (acc << 6)`; otherwise the accumulator becomes
/// `((acc << 6) << 1) | (b & 0x7f)` and decoding continues, for at most
/// `left` bytes in all.
pub open spec fn spec_de_rec(s: Seq<u8>, pos: int, acc: u32, left: nat) -> Result<
    (u32, int),
    CodecError,
>
    decreases left,
{
    if left == 0 {
        Err(CodecError::BadVarint)
    } else if !(0 <= pos < s.len()) {
        Err(CodecError::ShortRead)
    } else {
        let b = s[pos];
        let hi = (acc << 6) as u32;
        if b & 0x80 == 0 {
            Ok(((((b & 0x3f) as u32) | hi) as u32, pos + 1))
        } else {
            spec_de_rec(s, pos + 1, (((hi << 1) as u32) | ((b & 0x7f) as u32)) as u32, (left
                - 1) as nat)
        }
    }
}

/// `de` at `pos`: up to five bytes.
pub open spec fn spec_de(s: Seq<u8>, pos: int) -> Result<(u32, int), CodecError> {
    spec_de_rec(s, pos, 0, 5)
}

pub fn parse_de(data: &[u8], pos: usize) -> (r: Result<(u32, usize), CodecError>)
    ensures
        decoded_matches(r, spec_de(data@, pos as int)),
        r matches Ok(v) ==> pos < v.1 <= data@.len(),
{
    let mut p = pos;
    let mut acc: u32 = 0;
    let mut left: u8 = 5;
    loop
        invariant
            pos <= p,
            left <= 5,
            spec_de(data@, pos as int) == spec_de_rec(data@, p as int, acc, left as nat),
        decreases left,
    {
        if left == 0 {
            return Err(CodecError::BadVarint);
        }
        if p >= data.len() {
            return Err(CodecError::ShortRead);
        }
        let b = data[p];
        let hi = acc << 6u32;
        if b & 0x80 == 0 {
            return Ok((((b & 0x3f) as u32) | hi, p + 1));
        }
        acc = (hi << 1u32) | ((b & 0x7f) as u32);
        p = p + 1;
        left = left - 1;
    }
}

/// The `de` decoder applied to a byte vector, starting after its first byte.
/// This is the form used for ordinal references, whose buffer begins with a
/// `'#'` marker byte.
pub fn consume_one_to_four_bytes_vec(bytes: &Vec<u8>) -> (r: u32)
    requires
        spec_de(bytes@, 1) is Ok,
    ensures
        Ok::<(u32, int), CodecError>((r, spec_de(bytes@, 1)->Ok_0.1)) == spec_de(bytes@, 1),
{
    let res = parse_de(bytes.as_slice(), 1);
    match res {
        Ok((v, _)) => v,
        Err(_) => {
            proof {
                assert(false);
            }
            0
        },
    }
}

/// The canonical `de` encoding of a value: the value's low six bits in the
/// final byte, the remaining bits in leading continuation bytes of seven
/// bits each, high group first, using as few bytes as possible.
pub open spec fn spec_encode_de(n: u32) -> Seq<u8> {
    let rest = (n >> 6) as u32;
    let f = ((n & 0x3f) as u8) as u8;
    if rest == 0 {
        seq![f]
    } else if rest < 0x80 {
        seq![(0x80 | rest) as u8, f]
    } else if rest < 0x4000 {
        seq![(0x80 | (rest >> 7)) as u8, (0x80 | (rest & 0x7f)) as u8, f]
    } else if rest < 0x200000 {
        seq![
            (0x80 | (rest >> 14)) as u8,
            (0x80 | ((rest >> 7) & 0x7f)) as u8,
            (0x80 | (rest & 0x7f)) as u8,
            f,
        ]
    } else {
        seq![
            (0x80 | (rest >> 21)) as u8,
            (0x80 | ((rest >> 14) & 0x7f)) as u8,
            (0x80 | ((rest >> 7) & 0x7f)) as u8,
            (0x80 | (rest & 0x7f)) as u8,
            f,
        ]
    }
}

/// Law: the `de` codec round-trips.  Decoding the canonical encoding of any
/// 32-bit value yields that value back and consumes exactly the encoded
/// bytes.
pub proof fn lemma_de_round_trip(n: u32)
    ensures
        spec_de(spec_encode_de(n), 0) == Ok::<(u32, int), CodecError>(
            (n, spec_encode_de(n).len() as int),
        ),
{
    reveal_with_fuel(spec_de_rec, 6);
    let rest = (n >> 6) as u32;
    let f = (n & 0x3f) as u8;
    assert(rest < 0x4000000) by (bit_vector)
        requires
            rest == (n >> 6) as u32,
    ;
    assert(f & 0x80 == 0) by (bit_vector)
        requires
            f == (n & 0x3f) as u8,
    ;
    if rest == 0 {
        assert(((f & 0x3f) as u32 | ((0u32 << 6) as u32)) == n) by (bit_vector)
            requires
                n >> 6 == 0 && f == (n & 0x3f) as u8,
        ;
    } else if rest < 0x80 {
        let c0 = (0x80 | rest) as u8;
        assert(c0 & 0x80 != 0) by (bit_vector)
            requires
                c0 == (0x80 | rest) as u8,
        ;
        let acc1 = ((((0u32 << 6) << 1) as u32) | ((c0 & 0x7f) as u32)) as u32;
        assert(acc1 == rest) by (bit_vector)
            requires
                acc1 == ((((0u32 << 6) << 1) as u32) | (((((0x80 | rest) as u8)) & 0x7f)
                    as u32)) as u32 && 0 < rest < 0x80,
        ;
        assert((((f & 0x3f) as u32) | ((rest << 6) as u32)) == n) by (bit_vector)
            requires
                rest == (n >> 6) as u32 && f == (n & 0x3f) as u8,
        ;
    } else if rest < 0x4000 {
        let c0 = (0x80 | (rest >> 7)) as u8;
        let c1 = (0x80 | (rest & 0x7f)) as u8;
        assert(c0 & 0x80 != 0 && c1 & 0x80 != 0) by (bit_vector)
            requires
                c0 == (0x80 | (rest >> 7)) as u8 && c1 == (0x80 | (rest & 0x7f)) as u8,
        ;
        let acc1 = ((((0u32 << 6) << 1) as u32) | ((c0 & 0x7f) as u32)) as u32;
        let acc2 = ((((acc1 << 6) << 1) as u32) | ((c1 & 0x7f) as u32)) as u32;
        assert(acc2 == rest) by (bit_vector)
            requires
                acc1 == ((((0u32 << 6) << 1) as u32) | (((((0x80 | (rest >> 7)) as u8)) & 0x7f)
                    as u32)) as u32 && acc2 == ((((acc1 << 6) << 1) as u32) | (((((0x80 | (rest
                    & 0x7f)) as u8)) & 0x7f) as u32)) as u32 && 0x80 <= rest < 0x4000,
        ;
        assert((((f & 0x3f) as u32) | ((rest << 6) as u32)) == n) by (bit_vector)
            requires
                rest == (n >> 6) as u32 && f == (n & 0x3f) as u8,
        ;
    } else if rest < 0x200000 {
        let c0 = (0x80 | (rest >> 14)) as u8;
        let c1 = (0x80 | ((rest >> 7) & 0x7f)) as u8;
        let c2 = (0x80 | (rest & 0x7f)) as u8;
        assert(c0 & 0x80 != 0 && c1 & 0x80 != 0 && c2 & 0x80 != 0) by (bit_vector)
            requires
                c0 == (0x80 | (rest >> 14)) as u8 && c1 == (0x80 | ((rest >> 7) & 0x7f)) as u8
                    && c2 == (0x80 | (rest & 0x7f)) as u8,
        ;
        let acc1 = ((((0u32 << 6) << 1) as u32) | ((c0 & 0x7f) as u32)) as u32;
        let acc2 = ((((acc1 << 6) << 1) as u32) | ((c1 & 0x7f) as u32)) as u32;
        let acc3 = ((((acc2 << 6) << 1) as u32) | ((c2 & 0x7f) as u32)) as u32;
        assert(acc3 == rest) by (bit_vector)
            requires
                acc1 == ((((0u32 << 6) << 1) as u32) | (((((0x80 | (rest >> 14)) as u8)) & 0x7f)
                    as u32)) as u32 && acc2 == ((((acc1 << 6) << 1) as u32) | (((((0x80 | ((rest
                    >> 7) & 0x7f)) as u8)) & 0x7f) as u32)) as u32 && acc3 == ((((acc2 << 6) << 1)
                    as u32) | (((((0x80 | (rest & 0x7f)) as u8)) & 0x7f) as u32)) as u32 && 0x4000
                    <= rest < 0x200000,
        ;
        assert((((f & 0x3f) as u32) | ((rest << 6) as u32)) == n) by (bit_vector)
            requires
                rest == (n >> 6) as u32 && f == (n & 0x3f) as u8,
        ;
    } else {
        let c0 = (0x80 | (rest >> 21)) as u8;
        let c1 = (0x80 | ((rest >> 14) & 0x7f)) as u8;
        let c2 = (0x80 | ((rest >> 7) & 0x7f)) as u8;
        let c3 = (0x80 | (rest & 0x7f)) as u8;
        assert(c0 & 0x80 != 0 && c1 & 0x80 != 0 && c2 & 0x80 != 0 && c3 & 0x80 != 0) by (bit_vector)
            requires
                c0 == (0x80 | (rest >> 21)) as u8 && c1 == (0x80 | ((rest >> 14) & 0x7f)) as u8
                    && c2 == (0x80 | ((rest >> 7) & 0x7f)) as u8 && c3 == (0x80 | (rest & 0x7f))
                    as u8,
        ;
        let acc1 = ((((0u32 << 6) << 1) as u32) | ((c0 & 0x7f) as u32)) as u32;
        let acc2 = ((((acc1 << 6) << 1) as u32) | ((c1 & 0x7f) as u32)) as u32;
        let acc3 = ((((acc2 << 6) << 1) as u32) | ((c2 & 0x7f) as u32)) as u32;
        let acc4 = ((((acc3 << 6) << 1) as u32) | ((c3 & 0x7f) as u32)) as u32;
        assert(acc4 == rest) by (bit_vector)
            requires
                acc1 == ((((0u32 << 6) << 1) as u32) | (((((0x80 | (rest >> 21)) as u8)) & 0x7f)
                    as u32)) as u32 && acc2 == ((((acc1 << 6) << 1) as u32) | (((((0x80 | ((rest
                    >> 14) & 0x7f)) as u8)) & 0x7f) as u32)) as u32 && acc3 == ((((acc2 << 6) << 1)
                    as u32) | (((((0x80 | ((rest >> 7) & 0x7f)) as u8)) & 0x7f) as u32)) as u32
                    && acc4 == ((((acc3 << 6) << 1) as u32) | (((((0x80 | (rest & 0x7f)) as u8))
                    & 0x7f) as u32)) as u32 && 0x200000 <= rest < 0x4000000,
        ;
        assert((((f & 0x3f) as u32) | ((rest << 6) as u32)) == n) by (bit_vector)
            requires
                rest == (n >> 6) as u32 && f == (n & 0x3f) as u8,
        ;
    }
}

// ---------------------------------------------------------------------------
// da: the based-array descriptor, yielding (nelem, base).
// ---------------------------------------------------------------------------

/// Continuation phase of `da`: up to four high-bit bytes fold into an
/// accumulator; a byte with its high bit clear ends the descriptor at once
/// (it is left unconsumed) with `(0, 0)`.  After the fourth high-bit byte
/// the sentinel phase begins.
pub open spec fn spec_da_cont(s: Seq<u8>, pos: int, da: u8, left: nat) -> Result<
    ((u8, u8), int),
    CodecError,
>
    decreases left,
{
    if !(0 <= pos < s.len()) {
        Err(CodecError::ShortRead)
    } else if s[pos] & 0x80 == 0 {
        Ok(((0, 0), pos))
    } else if left > 1 {
        spec_da_cont(s, pos + 1, ((da << 7) | (s[pos] & 0x7f)) as u8, (left - 1) as nat)
    } else {
        let da2 = ((da << 7) | (s[pos] & 0x7f)) as u8;
        if !(pos + 1 < s.len()) {
            Err(CodecError::ShortRead)
        } else {
            let z = s[pos + 1];
            let base = if z != 0 {
                ((da2 << 4) | (z & 0x0f)) as u8
            } else {
                0u8
            };
            spec_da_nelem(s, pos + 2, ((z >> 4) & 7) as u8, base, 4)
        }
    }
}

/// Element-count phase of `da`: the seed came from the sentinel byte; up to
/// four further high-bit bytes fold into it, seven bits each.  A byte with
/// its high bit clear ends the phase and is left unconsumed.
pub open spec fn spec_da_nelem(s: Seq<u8>, pos: int, nelem: u8, base: u8, left: nat) -> Result<
    ((u8, u8), int),
    CodecError,
>
    decreases left,
{
    if !(0 <= pos < s.len()) {
        Err(CodecError::ShortRead)
    } else if s[pos] & 0x80 == 0 {
        Ok(((nelem, base), pos))
    } else {
        let n2 = ((nelem << 7) | (s[pos] & 0x7f)) as u8;
        if left <= 1 {
            Ok(((n2, base), pos + 1))
        } else {
            spec_da_nelem(s, pos + 1, n2, base, (left - 1) as nat)
        }
    }
}

/// `da` at `pos`: the full descriptor.
pub open spec fn spec_da(s: Seq<u8>, pos: int) -> Result<((u8, u8), int), CodecError> {
    spec_da_cont(s, pos, 0, 4)
}

pub fn parse_da(data: &[u8], pos: usize) -> (r: Result<((u8, u8), usize), CodecError>)
    ensures
        decoded_matches(r, spec_da(data@, pos as int)),
        r matches Ok(v) ==> pos <= v.1 <= data@.len(),
{
    let mut p = pos;
    let mut da: u8 = 0;
    let mut left: u8 = 4;
    loop
        invariant
            1 <= left <= 4,
            pos <= p,
            p == pos || p <= data@.len(),
            spec_da(data@, pos as int) == spec_da_cont(data@, p as int, da, left as nat),
        decreases left,
    {
        if p >= data.len() {
            return Err(CodecError::ShortRead);
        }
        let b = data[p];
        if b & 0x80 == 0 {
            return Ok(((0, 0), p));
        }
        if left > 1 {
            da = (da << 7u8) | (b & 0x7f);
            p = p + 1;
            left = left - 1;
        } else {
            let da2 = (da << 7u8) | (b & 0x7f);
            if p + 1 >= data.len() {
                return Err(CodecError::ShortRead);
            }
            let z = data[p + 1];
            let base: u8 = if z != 0 {
                (da2 << 4u8) | (z & 0x0f)
            } else {
                0
            };
            let mut nelem: u8 = (z >> 4u8) & 7;
            let mut q = p + 2;
            let mut left2: u8 = 4;
            loop
                invariant
                    1 <= left2 <= 4,
                    pos <= q <= data@.len(),
                    spec_da(data@, pos as int) == spec_da_nelem(
                        data@,
                        q as int,
                        nelem,
                        base,
                        left2 as nat,
                    ),
                decreases left2,
            {
                if q >= data.len() {
                    return Err(CodecError::ShortRead);
                }
                let y = data[q];
                if y & 0x80 == 0 {
                    return Ok(((nelem, base), q));
                }
                nelem = (nelem << 7u8) | (y & 0x7f);
                if left2 <= 1 {
                    return Ok(((nelem, base), q + 1));
                }
                q = q + 1;
                left2 = left2 - 1;
            }
        }
    }
}

// ---------------------------------------------------------------------------
// tah / sdacl: optional attribute headers with self-describing presence.
// ---------------------------------------------------------------------------

/// Whether a byte opens an attribute header in `sdacl` position.
pub open spec fn spec_is_sdacl_byte(b: u8) -> bool {
    ((b & 0xcf) ^ 0xc0) <= 0x01
}

pub fn is_sdacl_byte(really: u8) -> (r: bool)
    ensures
        r == spec_is_sdacl_byte(really),
{
    ((really & 0xcf) ^ 0xc0) <= 0x01
}

/// Whether a byte opens an attribute header in `tah` position.
pub open spec fn spec_is_tah_byte(b: u8) -> bool {
    b == 0xfe
}

pub fn is_tah_byte(really: u8) -> (r: bool)
    ensures
        r == spec_is_tah_byte(really),
{
    really == 0xfe
}

/// Value phase of an attribute header: continuation bytes carry seven bits
/// each, low-to-high, ORed into the value; a zero byte is a violated
/// reserved pattern, and so is a fourth continuation byte, which would
/// shift past the 16-bit value.
pub open spec fn spec_ta_val(s: Seq<u8>, pos: int, val: u16, shift: nat) -> Result<
    (u16, int),
    CodecError,
>
    decreases s.len() - pos,
{
    if !(0 <= pos < s.len()) {
        Err(CodecError::ShortRead)
    } else {
        let b = s[pos];
        if b == 0 {
            Err(CodecError::BadVarint)
        } else {
            let val2 = (val | (((b & 0x7f) as u16) << (shift as u16))) as u16;
            if b & 0x80 == 0 {
                Ok((val2, pos + 1))
            } else if shift >= 14 {
                Err(CodecError::BadVarint)
            } else {
                spec_ta_val(s, pos + 1, val2, shift + 7)
            }
        }
    }
}

/// Extension records of an attribute header when bit 0x0010 is set: a
/// `dt`-counted vector of (`dt`-length string, `dt`-length skipped blob)
/// pairs.  A blob running past the end of the stream is clamped, matching a
/// cursor seek past the end; a string running past the end is a short read.
/// Yields the final position.
pub open spec fn spec_ta_pairs(s: Seq<u8>, pos: int, left: u16) -> Result<int, CodecError>
    decreases left,
{
    if left == 0 {
        Ok(pos)
    } else {
        match spec_dt(s, pos) {
            Err(e) => Err(e),
            Ok((len1, p1)) => if p1 + len1 > s.len() {
                Err(CodecError::ShortRead)
            } else {
                match spec_dt(s, p1 + len1) {
                    Err(e) => Err(e),
                    Ok((len2, p2)) => {
                        let next = if p2 + len2 > s.len() {
                            s.len() as int
                        } else {
                            p2 + len2
                        };
                        spec_ta_pairs(s, next, (left - 1) as u16)
                    },
                }
            },
        }
    }
}

/// A full attribute header at `pos`, the header byte included.  The value
/// phase runs only when the byte is `0xFE` or its low bit and bits 4-5 are
/// all set; if bit 0x0010 of the assembled value is set, the value is
/// replaced by the extension-record count and the records are consumed.
pub open spec fn spec_type_attribute(s: Seq<u8>, pos: int) -> Result<(u16, int), CodecError> {
    if !(0 <= pos < s.len()) {
        Err(CodecError::ShortRead)
    } else {
        let t = s[pos];
        let tmp = (((t & 1) | ((t >> 3) & 6)) + 1) as u8;
        if t == 0xfe || tmp == 8 {
            let v0: u16 = if tmp == 8 {
                8
            } else {
                0
            };
            match spec_ta_val(s, pos + 1, v0, 0) {
                Err(e) => Err(e),
                Ok((val, p)) => spec_ta_ext(s, p, val),
            }
        } else {
            spec_ta_ext(s, pos + 1, 0)
        }
    }
}

/// Dispatch on bit 0x0010 after the value phase.
pub open spec fn spec_ta_ext(s: Seq<u8>, pos: int, val: u16) -> Result<(u16, int), CodecError> {
    if val & 0x0010 != 0 {
        match spec_dt(s, pos) {
            Err(e) => Err(e),
            Ok((cnt, p)) => match spec_ta_pairs(s, p, cnt) {
                Err(e) => Err(e),
                Ok(pend) => Ok((cnt, pend)),
            },
        }
    } else {
        Ok((val, pos))
    }
}

pub fn parse_type_attribute(data: &[u8], pos: usize) -> (r: Result<(u16, usize), CodecError>)
    ensures
        decoded_matches(r, spec_type_attribute(data@, pos as int)),
        r matches Ok(v) ==> pos < v.1 <= data@.len(),
{
    if pos >= data.len() {
        return Err(CodecError::ShortRead);
    }
    let t = data[pos];
    proof {
        assert(((t & 1) | ((t >> 3u8) & 6)) <= 7) by (bit_vector);
    }
    let tmp = ((t & 1) | ((t >> 3u8) & 6)) + 1;
    let mut val: u16 = 0;
    let mut p = pos + 1;
    if t == 0xfe || tmp == 8 {
        if tmp == 8 {
            val = 8;
        }
        let mut shift: u16 = 0;
        loop
            invariant_except_break
                shift == 0 || shift == 7 || shift == 14,
                pos < p <= data@.len(),
                spec_type_attribute(data@, pos as int) == match spec_ta_val(
                    data@,
                    p as int,
                    val,
                    shift as nat,
                ) {
                    Err(e) => Err::<(u16, int), CodecError>(e),
                    Ok((v, q)) => spec_ta_ext(data@, q, v),
                },
            ensures
                pos < p <= data@.len(),
                spec_type_attribute(data@, pos as int) == spec_ta_ext(data@, p as int, val),
            decreases data@.len() - p,
        {
            if p >= data.len() {
                return Err(CodecError::ShortRead);
            }
            let b = data[p];
            if b == 0 {
                return Err(CodecError::BadVarint);
            }
            val = val | (((b & 0x7f) as u16) << shift);
            p = p + 1;
            if b & 0x80 == 0 {
                break ;
            }
            if shift >= 14 {
                return Err(CodecError::BadVarint);
            }
            shift = shift + 7;
        }
    }
    if val & 0x0010 != 0 {
        let (cnt, mut q) = match parse_dt(data, p) {
            Ok(v) => v,
            Err(e) => { return Err(e) },
        };
        let mut left = cnt;
        loop
            invariant
                pos < q <= data@.len(),
                spec_type_attribute(data@, pos as int) == match spec_ta_pairs(
                    data@,
                    q as int,
                    left,
                ) {
                    Err(e) => Err::<(u16, int), CodecError>(e),
                    Ok(pend) => Ok((cnt, pend)),
                },
            decreases left,
        {
            if left == 0 {
                return Ok((cnt, q));
            }
            let (len1, p1) = match parse_dt(data, q) {
                Ok(v) => v,
                Err(e) => { return Err(e) },
            };
            if (len1 as usize) > data.len() - p1 {
                return Err(CodecError::ShortRead);
            }
            let pstr = p1 + len1 as usize;
            let (len2, p2) = match parse_dt(data, pstr) {
                Ok(v) => v,
                Err(e) => { return Err(e) },
            };
            if (len2 as usize) > data.len() - p2 {
                q = data.len();
            } else {
                q = p2 + len2 as usize;
            }
            left = left - 1;
        }
    } else {
        Ok((val, p))
    }
}

/// `tah` at `pos`: present only when the byte is the `0xFE` marker; an
/// absent header consumes nothing and carries value zero.
pub open spec fn spec_tah(s: Seq<u8>, pos: int) -> Result<(u16, int), CodecError> {
    if !(0 <= pos < s.len()) {
        Err(CodecError::ShortRead)
    } else if spec_is_tah_byte(s[pos]) {
        spec_type_attribute(s, pos)
    } else {
        Ok((0, pos))
    }
}

pub fn parse_tah(data: &[u8], pos: usize) -> (r: Result<(u16, usize), CodecError>)
    ensures
        decoded_matches(r, spec_tah(data@, pos as int)),
        r matches Ok(v) ==> pos <= v.1 <= data@.len(),
{
    if pos >= data.len() {
        return Err(CodecError::ShortRead);
    }
    if is_tah_byte(data[pos]) {
        parse_type_attribute(data, pos)
    } else {
        Ok((0, pos))
    }
}

/// `sdacl` at `pos`: like `tah` but with the `sdacl` detection predicate; an
/// absent header consumes nothing and carries value zero.
pub open spec fn spec_sdacl(s: Seq<u8>, pos: int) -> Result<(u16, int), CodecError> {
    if !(0 <= pos < s.len()) {
        Err(CodecError::ShortRead)
    } else if spec_is_sdacl_byte(s[pos]) {
        spec_type_attribute(s, pos)
    } else {
        Ok((0, pos))
    }
}

pub fn parse_sdacl(data: &[u8], pos: usize) -> (r: Result<(u16, usize), CodecError>)
    ensures
        decoded_matches(r, spec_sdacl(data@, pos as int)),
        r matches Ok(v) ==> pos <= v.1 <= data@.len(),
{
    if pos >= data.len() {
        return Err(CodecError::ShortRead);
    }
    if is_sdacl_byte(data[pos]) {
        parse_type_attribute(data, pos)
    } else {
        Ok((0, pos))
    }
}


// ---------------------------------------------------------------------------
// Little-endian integer fields.
// ---------------------------------------------------------------------------

/// The little-endian 16-bit value at `pos`.
pub open spec fn spec_u16le(s: Seq<u8>, pos: int) -> Result<(u16, int), CodecError> {
    if !(0 <= pos && pos + 2 <= s.len()) {
        Err(CodecError::ShortRead)
    } else {
        Ok((((s[pos] as u16) | ((s[pos + 1] as u16) << 8)) as u16, pos + 2))
    }
}

pub fn parse_u16le(data: &[u8], pos: usize) -> (r: Result<(u16, usize), CodecError>)
    ensures
        decoded_matches(r, spec_u16le(data@, pos as int)),
        r matches Ok(v) ==> pos < v.1 <= data@.len(),
{
    if pos >= data.len() || 2 > data.len() - pos {
        return Err(CodecError::ShortRead);
    }
    Ok(((data[pos] as u16) | ((data[pos + 1] as u16) << 8), pos + 2))
}

/// The little-endian 32-bit value at `pos`.
pub open spec fn spec_u32le(s: Seq<u8>, pos: int) -> Result<(u32, int), CodecError> {
    if !(0 <= pos && pos + 4 <= s.len()) {
        Err(CodecError::ShortRead)
    } else {
        Ok(
            (
                ((s[pos] as u32) | ((s[pos + 1] as u32) << 8) | ((s[pos + 2] as u32) << 16) | ((s[
                    pos + 3] as u32) << 24)) as u32,
                pos + 4,
            ),
        )
    }
}

pub fn parse_u32le(data: &[u8], pos: usize) -> (r: Result<(u32, usize), CodecError>)
    ensures
        decoded_matches(r, spec_u32le(data@, pos as int)),
        r matches Ok(v) ==> pos < v.1 <= data@.len(),
{
    if pos >= data.len() || 4 > data.len() - pos {
        return Err(CodecError::ShortRead);
    }
    Ok(
        (
            (data[pos] as u32) | ((data[pos + 1] as u32) << 8) | ((data[pos + 2] as u32) << 16) | ((
            data[pos + 3] as u32) << 24),
            pos + 4,
        ),
    )
}

/// The little-endian 64-bit value at `pos`.
pub open spec fn spec_u64le(s: Seq<u8>, pos: int) -> Result<(u64, int), CodecError> {
    if !(0 <= pos && pos + 8 <= s.len()) {
        Err(CodecError::ShortRead)
    } else {
        Ok(
            (
                ((s[pos] as u64) | ((s[pos + 1] as u64) << 8) | ((s[pos + 2] as u64) << 16) | ((s[
                    pos + 3] as u64) << 24) | ((s[pos + 4] as u64) << 32) | ((s[pos + 5] as u64)
                    << 40) | ((s[pos + 6] as u64) << 48) | ((s[pos + 7] as u64) << 56)) as u64,
                pos + 8,
            ),
        )
    }
}

pub fn parse_u64le(data: &[u8], pos: usize) -> (r: Result<(u64, usize), CodecError>)
    ensures
        decoded_matches(r, spec_u64le(data@, pos as int)),
        r matches Ok(v) ==> pos < v.1 <= data@.len(),
{
    if pos >= data.len() || 8 > data.len() - pos {
        return Err(CodecError::ShortRead);
    }
    Ok(
        (
            (data[pos] as u64) | ((data[pos + 1] as u64) << 8) | ((data[pos + 2] as u64) << 16) | ((
            data[pos + 3] as u64) << 24) | ((data[pos + 4] as u64) << 32) | ((data[pos + 5] as u64)
                << 40) | ((data[pos + 6] as u64) << 48) | ((data[pos + 7] as u64) << 56),
            pos + 8,
        ),
    )
}

/// The single byte at `pos`.
pub open spec fn spec_u8at(s: Seq<u8>, pos: int) -> Result<(u8, int), CodecError> {
    if !(0 <= pos < s.len()) {
        Err(CodecError::ShortRead)
    } else {
        Ok((s[pos], pos + 1))
    }
}

pub fn parse_u8at(data: &[u8], pos: usize) -> (r: Result<(u8, usize), CodecError>)
    ensures
        decoded_matches(r, spec_u8at(data@, pos as int)),
        r matches Ok(v) ==> pos < v.1 <= data@.len(),
{
    if pos >= data.len() {
        return Err(CodecError::ShortRead);
    }
    Ok((data[pos], pos + 1))
}

} // verus!

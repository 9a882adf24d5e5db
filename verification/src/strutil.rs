//! Byte-run and string helpers: null-terminated runs, length-prefixed
//! strings, and the lossy UTF-8 conversion used for every name the format
//! stores as bytes.

use vstd::prelude::*;

use crate::errors::CodecError;

verus! {

broadcast use vstd::seq::group_seq_axioms;

/// The sequence of characters that lossy UTF-8 conversion yields for a byte
/// sequence.  The result depends on the bytes alone.
pub uninterp spec fn utf8_lossy_of(bytes: Seq<u8>) -> Seq<char>;

/// Relies on String::from_utf8_lossy: a pure function of the input bytes;
/// an empty input gives an empty string.
#[verifier::external_body]
pub fn lossy_string(bytes: &[u8]) -> (r: String)
    ensures
        r@ == utf8_lossy_of(bytes@),
        bytes@.len() == 0 ==> r@.len() == 0,
{
    String::from_utf8_lossy(bytes).into_owned()
}

/// A length-prefixed string: one length byte, then that many bytes.
#[derive(Clone, Debug)]
pub struct LengthPrefixString {
    pub len: u8,
    pub data: String,
}

/// A length-prefixed byte vector.
#[derive(Clone, Debug)]
pub struct LengthPrefixVector {
    pub len: u32,
    pub data: Vec<u8>,
}

/// The index of the first NUL byte at or after `pos`, or the length of the
/// sequence when there is none.
pub open spec fn spec_null_end(s: Seq<u8>, pos: int) -> int
    decreases s.len() - pos,
{
    if !(0 <= pos < s.len()) {
        s.len() as int
    } else if s[pos] == 0 {
        pos
    } else {
        spec_null_end(s, pos + 1)
    }
}

pub proof fn lemma_null_end_bounds(s: Seq<u8>, pos: int)
    requires
        0 <= pos <= s.len(),
    ensures
        pos <= spec_null_end(s, pos) <= s.len(),
    decreases s.len() - pos,
{
    if pos < s.len() && s[pos] != 0 {
        lemma_null_end_bounds(s, pos + 1);
    }
}

/// A NUL-terminated byte run at `pos`: the bytes before the terminator and
/// the position after it.  A run that reaches the end of the stream without
/// a terminator is a short read.
pub open spec fn spec_cstr(s: Seq<u8>, pos: int) -> Result<(Seq<u8>, int), CodecError> {
    let end = spec_null_end(s, pos);
    if !(0 <= pos <= s.len()) {
        Err(CodecError::ShortRead)
    } else if end >= s.len() {
        Err(CodecError::ShortRead)
    } else {
        Ok((s.subrange(pos, end), end + 1))
    }
}

/// Reads a NUL-terminated byte run, returning the bytes without the
/// terminator and the position after it.
pub fn parse_cstr(data: &[u8], pos: usize) -> (r: Result<(Vec<u8>, usize), CodecError>)
    requires
        pos <= data@.len(),
    ensures
        match (r, spec_cstr(data@, pos as int)) {
            (Ok((v, p)), Ok((sv, sp))) => v@ == sv && p as int == sp,
            (Err(e), Err(se)) => e == se,
            _ => false,
        },
{
    let mut end = pos;
    loop
        invariant_except_break
            pos <= end <= data@.len(),
            spec_null_end(data@, pos as int) == spec_null_end(data@, end as int),
        ensures
            pos <= end < data@.len(),
            data@[end as int] == 0,
            spec_null_end(data@, pos as int) == end as int,
        decreases data@.len() - end,
    {
        if end >= data.len() {
            return Err(CodecError::ShortRead);
        }
        if data[end] == 0 {
            break ;
        }
        end = end + 1;
    }
    let mut v: Vec<u8> = Vec::new();
    let mut i = pos;
    while i < end
        invariant
            pos <= i <= end <= data@.len(),
            v@ =~= data@.subrange(pos as int, i as int),
        decreases end - i,
    {
        v.push(data[i]);
        i = i + 1;
    }
    proof {
        assert(v@ =~= data@.subrange(pos as int, end as int));
    }
    let n = data.len();
    proof {
        assert(end < n);
    }
    Ok((v, end + 1))
}

/// Reads a NUL-terminated byte run and converts it to a string, lossily.
pub fn consume_null_terminated_string(data: &[u8], pos: usize) -> (r: Result<
    (String, usize),
    CodecError,
>)
    requires
        pos <= data@.len(),
    ensures
        match (r, spec_cstr(data@, pos as int)) {
            (Ok((v, p)), Ok((sv, sp))) => v@ == utf8_lossy_of(sv) && p as int == sp,
            (Err(e), Err(se)) => e == se,
            _ => false,
        },
{
    match parse_cstr(data, pos) {
        Ok((bytes, p)) => Ok((lossy_string(bytes.as_slice()), p)),
        Err(e) => Err(e),
    }
}

/// A 1-byte-length-prefixed byte run at `pos`: the length byte and the run.
pub open spec fn spec_len_prefix(s: Seq<u8>, pos: int) -> Result<((u8, Seq<u8>), int), CodecError> {
    if !(0 <= pos < s.len()) {
        Err(CodecError::ShortRead)
    } else {
        let l = s[pos];
        if pos + 1 + l > s.len() {
            Err(CodecError::ShortRead)
        } else {
            Ok(((l, s.subrange(pos + 1, pos + 1 + l)), pos + 1 + l))
        }
    }
}

/// Reads a 1-byte-length-prefixed string, converting the bytes lossily.
pub fn consume_len_prefix_str(data: &[u8], pos: usize) -> (r: Result<
    (LengthPrefixString, usize),
    CodecError,
>)
    ensures
        match (r, spec_len_prefix(data@, pos as int)) {
            (Ok((v, p)), Ok(((sl, sb), sp))) => v.len == sl && v.data@ == utf8_lossy_of(sb) && p
                as int == sp,
            (Err(e), Err(se)) => e == se,
            _ => false,
        },
{
    if pos >= data.len() {
        return Err(CodecError::ShortRead);
    }
    let l = data[pos];
    if (l as usize) > data.len() - pos - 1 {
        return Err(CodecError::ShortRead);
    }
    let mut v: Vec<u8> = Vec::new();
    let mut i = pos + 1;
    let end = pos + 1 + l as usize;
    while i < end
        invariant
            pos + 1 <= i <= end <= data@.len(),
            v@ =~= data@.subrange(pos + 1, i as int),
        decreases end - i,
    {
        v.push(data[i]);
        i = i + 1;
    }
    proof {
        assert(v@ =~= data@.subrange(pos + 1, pos + 1 + l));
    }
    Ok((LengthPrefixString { len: l, data: lossy_string(v.as_slice()) }, end))
}

/// The length-prefixed records inside a field-name buffer: each record is
/// one length byte followed by that many bytes; a record running past the
/// end of the buffer is dropped and ends the walk.
pub open spec fn spec_lps_records(s: Seq<u8>, pos: int) -> Seq<Seq<u8>>
    decreases s.len() - pos,
{
    if !(0 <= pos < s.len()) {
        Seq::empty()
    } else {
        let l = s[pos];
        if pos + 1 + l > s.len() {
            Seq::empty()
        } else {
            seq![s.subrange(pos + 1, pos + 1 + l)] + spec_lps_records(s, pos + 1 + l)
        }
    }
}

/// One step of the record walk: a whole record at `pos` contributes itself
/// in front of the records that follow it.
proof fn lemma_lps_step(s: Seq<u8>, pos: int)
    requires
        0 <= pos < s.len(),
        pos + 1 + s[pos] <= s.len(),
    ensures
        spec_lps_records(s, pos).len() == 1 + spec_lps_records(s, pos + 1 + s[pos]).len(),
        spec_lps_records(s, pos)[0] == s.subrange(pos + 1, pos + 1 + s[pos]),
        forall|j: int|
            1 <= j < spec_lps_records(s, pos).len() ==> spec_lps_records(s, pos)[j]
                == spec_lps_records(s, pos + 1 + s[pos])[j - 1],
{
}

/// Splits a field-name buffer into its length-prefixed records and converts
/// each lossily to a string.
pub fn parse_len_prefix_str_vec(vec: &Vec<u8>) -> (r: Vec<String>)
    ensures
        r@.len() == spec_lps_records(vec@, 0).len(),
        forall|i: int|
            0 <= i < r@.len() ==> (#[trigger] r@[i])@ == utf8_lossy_of(
                spec_lps_records(vec@, 0)[i],
            ),
{
    let ghost all = spec_lps_records(vec@, 0);
    let mut fields: Vec<String> = Vec::new();
    let mut pos: usize = 0;
    loop
        invariant_except_break
            pos <= vec@.len(),
            all == spec_lps_records(vec@, 0),
            fields@.len() <= all.len(),
            spec_lps_records(vec@, pos as int) =~= all.skip(fields@.len() as int),
            forall|i: int|
                0 <= i < fields@.len() ==> (#[trigger] fields@[i])@ == utf8_lossy_of(all[i]),
        ensures
            fields@.len() == all.len(),
            forall|i: int|
                0 <= i < fields@.len() ==> (#[trigger] fields@[i])@ == utf8_lossy_of(all[i]),
        decreases vec@.len() - pos,
    {
        if pos >= vec.len() {
            proof {
                assert(all.skip(fields@.len() as int).len() == 0);
            }
            break ;
        }
        let l = vec[pos];
        if (l as usize) > vec.len() - pos - 1 {
            proof {
                assert(all.skip(fields@.len() as int).len() == 0);
            }
            break ;
        }
        let mut rec: Vec<u8> = Vec::new();
        let mut i = pos + 1;
        let end = pos + 1 + l as usize;
        while i < end
            invariant
                pos + 1 <= i <= end <= vec@.len(),
                end == pos + 1 + l,
                rec@ =~= vec@.subrange(pos + 1, i as int),
            decreases end - i,
        {
            rec.push(vec[i]);
            i = i + 1;
        }
        proof {
            let k = fields@.len() as int;
            let rest = spec_lps_records(vec@, pos as int);
            lemma_lps_step(vec@, pos as int);
            assert(rec@ =~= vec@.subrange(pos + 1, pos + 1 + l));
            assert(all.skip(k)[0] == all[k]);
            assert(all[k] == rest[0]);
            assert forall|j: int| 0 <= j < rest.len() - 1 implies #[trigger] all.skip(k + 1)[j]
                == rest[j + 1] by {
                assert(all.skip(k + 1)[j] == all[k + 1 + j]);
                assert(all.skip(k)[j + 1] == all[k + 1 + j]);
            }
            assert(spec_lps_records(vec@, end as int) =~= all.skip(k + 1));
        }
        fields.push(lossy_string(rec.as_slice()));
        pos = end;
    }
    fields
}

} // verus!

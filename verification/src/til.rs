//! The TIL type library: section header, the three buckets (symbols, types,
//! macros) with transparent zlib inflation, and the type-information
//! entries inside each bucket.

use vstd::prelude::*;

use crate::codec::{
    spec_u8at, spec_u32le, spec_u64le, parse_u8at, parse_u32le, parse_u64le,
};
use crate::errors::{BucketFailure, CodecError, GrammarError, IDBError};
use crate::grammar::spec_parse_type;
use crate::parse::{TYPE_DEPTH_LIMIT, parse_type};
use crate::strutil::{
    lossy_string, parse_cstr, parse_len_prefix_str_vec, spec_cstr, spec_len_prefix,
    spec_lps_records, utf8_lossy_of, consume_len_prefix_str,
};
use crate::types::{TypeV, Typedef, Types, models};
use crate::flags::TypeMetadata;

verus! {

broadcast use vstd::seq::group_seq_axioms;

/// The bit set of a TIL header's `flags` word.
#[derive(Clone, Copy, Debug, PartialEq, Eq, Structural)]
pub struct TILFlags(pub u32);

impl TILFlags {
    pub fn is_zip(&self) -> (r: bool)
        ensures
            r == (self.0 & 0x0001 != 0),
    {
        self.0 & 0x0001 != 0
    }

    pub fn is_esi(&self) -> (r: bool)
        ensures
            r == (self.0 & 0x0004 != 0),
    {
        self.0 & 0x0004 != 0
    }

    pub fn is_ord(&self) -> (r: bool)
        ensures
            r == (self.0 & 0x0010 != 0),
    {
        self.0 & 0x0010 != 0
    }

    pub fn is_sld(&self) -> (r: bool)
        ensures
            r == (self.0 & 0x0100 != 0),
    {
        self.0 & 0x0100 != 0
    }
}

/// A type entry's ordinal: 64 bits wide when bit 31 of the entry's flags is
/// set, else a widened 32-bit value.
#[derive(Clone, Copy, Debug, PartialEq, Eq, Structural)]
pub enum TILOrdinal {
    U32(u32),
    U64(u64),
}

impl TILOrdinal {
    /// The ordinal's numeric value, whatever its stored width.
    pub fn value(&self) -> (r: u64)
        ensures
            r == self.spec_value(),
    {
        match self {
            TILOrdinal::U32(v) => *v as u64,
            TILOrdinal::U64(v) => *v,
        }
    }

    pub open spec fn spec_value(&self) -> u64 {
        match self {
            TILOrdinal::U32(v) => *v as u64,
            TILOrdinal::U64(v) => *v as u64,
        }
    }
}

/// The member names attached to a composite type entry, in declaration
/// order.
#[derive(Clone, Debug)]
pub struct NullVecLenString(pub Vec<String>);

/// One of the `ndefs` entries of a bucket.
#[derive(Debug)]
pub struct TILTypeInfo {
    pub flags: u32,
    pub name: String,
    pub name_bytes: Vec<u8>,
    pub ordinal: TILOrdinal,
    pub tinfo: Types,
    pub tinfo_bytes: Vec<u8>,
    pub tinfo_remainder: Vec<u8>,
    pub cmt: String,
    pub fields_buf: Vec<u8>,
    pub fields: NullVecLenString,
    pub fieldcmts: Vec<u8>,
    pub sclass: u8,
}

/// The ghost model of one type entry.
pub ghost struct TypeInfoV {
    pub flags: u32,
    pub name: Seq<u8>,
    pub ordinal: u64,
    pub is_ord64: bool,
    pub tinfo: TypeV,
    pub tinfo_run: Seq<u8>,
    pub tinfo_used: int,
    pub cmt: Seq<u8>,
    pub fields_buf: Seq<u8>,
    pub fieldcmts: Seq<u8>,
    pub sclass: u8,
}

/// The field-name vector agrees with the records of the buffer it was split
/// from.
pub open spec fn fields_model(fs: Seq<String>, buf: Seq<u8>) -> bool {
    &&& fs.len() == spec_lps_records(buf, 0).len()
    &&& forall|i: int|
        0 <= i < fs.len() ==> (#[trigger] fs[i])@ == utf8_lossy_of(spec_lps_records(buf, 0)[i])
}

/// The exec entry `t` is exactly the model `v`.
pub open spec fn models_ti(t: TILTypeInfo, v: TypeInfoV) -> bool {
    &&& t.flags == v.flags
    &&& t.name_bytes@ == v.name
    &&& t.name@ == utf8_lossy_of(v.name)
    &&& t.ordinal == (if v.is_ord64 {
        TILOrdinal::U64(v.ordinal)
    } else {
        TILOrdinal::U32(v.ordinal as u32)
    })
    &&& models(t.tinfo, v.tinfo)
    &&& t.tinfo_bytes@ == v.tinfo_run
    &&& t.tinfo_remainder@ == v.tinfo_run.skip(v.tinfo_used)
    &&& t.cmt@ == utf8_lossy_of(v.cmt)
    &&& t.fields_buf@ == v.fields_buf
    &&& fields_model(t.fields.0@, v.fields_buf)
    &&& t.fieldcmts@ == v.fieldcmts
    &&& t.sclass == v.sclass
}

/// One type entry at `pos` of a bucket payload: flags, name, ordinal, the
/// null-terminated type-information run (captured and recursively parsed,
/// the surplus kept as an opaque remainder), comment, field names, field
/// comments, and the storage class byte.
pub open spec fn spec_type_info(d: Seq<u8>, pos: int, se: u8) -> Result<
    (TypeInfoV, int),
    GrammarError,
> {
    match spec_u32le(d, pos) {
        Err(e) => Err(GrammarError::spec_from_codec(e)),
        Ok((flags, p1)) => match spec_cstr(d, p1) {
            Err(e) => Err(GrammarError::spec_from_codec(e)),
            Ok((name, p2)) => {
                let ordres = if flags >> 31 != 0 {
                    match spec_u64le(d, p2) {
                        Err(e) => Err(e),
                        Ok((o, p3)) => Ok((o, true, p3)),
                    }
                } else {
                    match spec_u32le(d, p2) {
                        Err(e) => Err(e),
                        Ok((o, p3)) => Ok((o as u64, false, p3)),
                    }
                };
                match ordres {
                    Err(e) => Err(GrammarError::spec_from_codec(e)),
                    Ok((ordinal, is_ord64, p3)) => match spec_cstr(d, p3) {
                        Err(e) => Err(GrammarError::spec_from_codec(e)),
                        Ok((run, p4)) => match spec_parse_type(
                            run,
                            0,
                            se,
                            TYPE_DEPTH_LIMIT as nat,
                        ) {
                            Err(e) => Err(e),
                            Ok((tv, used)) => match spec_cstr(d, p4) {
                                Err(e) => Err(GrammarError::spec_from_codec(e)),
                                Ok((cmt, p5)) => match spec_cstr(d, p5) {
                                    Err(e) => Err(GrammarError::spec_from_codec(e)),
                                    Ok((fields_buf, p6)) => match spec_cstr(d, p6) {
                                        Err(e) => Err(GrammarError::spec_from_codec(e)),
                                        Ok((fieldcmts, p7)) => match spec_u8at(d, p7) {
                                            Err(e) => Err(GrammarError::spec_from_codec(e)),
                                            Ok((sclass, p8)) => Ok(
                                                (
                                                    TypeInfoV {
                                                        flags,
                                                        name,
                                                        ordinal,
                                                        is_ord64,
                                                        tinfo: tv,
                                                        tinfo_run: run,
                                                        tinfo_used: used,
                                                        cmt,
                                                        fields_buf,
                                                        fieldcmts,
                                                        sclass,
                                                    },
                                                    p8,
                                                ),
                                            ),
                                        },
                                    },
                                },
                            },
                        },
                    },
                }
            },
        },
    }
}

/// Parses one type entry of a bucket payload.
#[verifier::rlimit(100)]
pub fn parse_type_info(data: &[u8], pos: usize, se: u8) -> (r: Result<
    (TILTypeInfo, usize),
    GrammarError,
>)
    requires
        pos <= data@.len(),
    ensures
        match (r, spec_type_info(data@, pos as int, se)) {
            (Ok((t, p)), Ok((v, sp))) => models_ti(t, v) && p as int == sp && p <= data@.len(),
            (Err(e), Err(se_)) => e == se_,
            _ => false,
        },
{
    let (flags, p1) = match parse_u32le(data, pos) {
        Ok(v) => v,
        Err(e) => { return Err(GrammarError::from_codec(e)) },
    };
    let (name_bytes, p2) = match parse_cstr(data, p1) {
        Ok(v) => v,
        Err(e) => { return Err(GrammarError::from_codec(e)) },
    };
    let (ordinal, is64, p3) = if flags >> 31u32 != 0 {
        match parse_u64le(data, p2) {
            Ok((o, q)) => (o, true, q),
            Err(e) => { return Err(GrammarError::from_codec(e)) },
        }
    } else {
        match parse_u32le(data, p2) {
            Ok((o, q)) => (o as u64, false, q),
            Err(e) => { return Err(GrammarError::from_codec(e)) },
        }
    };
    let (run, p4) = match parse_cstr(data, p3) {
        Ok(v) => v,
        Err(e) => { return Err(GrammarError::from_codec(e)) },
    };
    let (tinfo, used) = match parse_type(run.as_slice(), 0, se, TYPE_DEPTH_LIMIT) {
        Ok(v) => v,
        Err(e) => { return Err(e) },
    };
    let mut remainder: Vec<u8> = Vec::new();
    let mut i = used;
    while i < run.len()
        invariant
            used <= i <= run@.len(),
            remainder@ =~= run@.subrange(used as int, i as int),
        decreases run@.len() - i,
    {
        remainder.push(run[i]);
        i = i + 1;
    }
    proof {
        assert(remainder@ =~= run@.skip(used as int));
    }
    let (cmt_bytes, p5) = match parse_cstr(data, p4) {
        Ok(v) => v,
        Err(e) => { return Err(GrammarError::from_codec(e)) },
    };
    let (fields_buf, p6) = match parse_cstr(data, p5) {
        Ok(v) => v,
        Err(e) => { return Err(GrammarError::from_codec(e)) },
    };
    let (fieldcmts, p7) = match parse_cstr(data, p6) {
        Ok(v) => v,
        Err(e) => { return Err(GrammarError::from_codec(e)) },
    };
    let (sclass, p8) = match parse_u8at(data, p7) {
        Ok(v) => v,
        Err(e) => { return Err(GrammarError::from_codec(e)) },
    };
    let fields = parse_len_prefix_str_vec(&fields_buf);
    let name = lossy_string(name_bytes.as_slice());
    let cmt = lossy_string(cmt_bytes.as_slice());
    Ok(
        (
            TILTypeInfo {
                flags,
                name,
                name_bytes,
                ordinal: if is64 {
                    TILOrdinal::U64(ordinal)
                } else {
                    TILOrdinal::U32(ordinal as u32)
                },
                tinfo,
                tinfo_bytes: run,
                tinfo_remainder: remainder,
                cmt,
                fields_buf,
                fields: NullVecLenString(fields),
                fieldcmts,
                sclass,
            },
            p8,
        ),
    )
}

// ---------------------------------------------------------------------------
// Buckets.
// ---------------------------------------------------------------------------

/// What zlib inflation yields for a compressed stream under an output size
/// limit: the result is a function of the bytes and the limit alone; `None`
/// stands for any inflation failure.
pub uninterp spec fn zlib_inflate_of(input: Seq<u8>, limit: nat) -> Option<Seq<u8>>;

/// Relies on miniz_oxide::inflate::decompress_to_vec_zlib_with_limit:
/// deterministic in its two arguments, and the output never exceeds the
/// limit.
#[verifier::external_body]
fn inflate_zlib(input: &[u8], limit: usize) -> (r: Option<Vec<u8>>)
    ensures
        match r {
            Some(v) => zlib_inflate_of(input@, limit as nat) == Some(v@) && v@.len() <= limit,
            None => zlib_inflate_of(input@, limit as nat) is None,
        },
{
    match miniz_oxide::inflate::decompress_to_vec_zlib_with_limit(input, limit) {
        Ok(v) => Some(v),
        Err(_) => None,
    }
}

/// The ghost model of a bucket failure.
pub ghost enum BucketFailV {
    Decomp,
    Entry { offset: int, err: GrammarError },
}

/// The ghost model of one bucket.
pub ghost struct BucketV {
    pub ndefs: u32,
    pub len: u32,
    pub compressed_len: u32,
    pub payload: Seq<u8>,
    pub entries: Seq<TypeInfoV>,
    pub failure: Option<BucketFailV>,
}

/// Entry walk over a bucket payload: entries parse back to back; the first
/// failure stops the walk and is recorded with its byte offset, all earlier
/// entries remaining valid.
pub open spec fn spec_bucket_entries(d: Seq<u8>, pos: int, left: u32, se: u8, acc: Seq<TypeInfoV>) -> (
    Seq<TypeInfoV>,
    Option<BucketFailV>,
)
    decreases left,
{
    if left == 0 {
        (acc, None)
    } else {
        match spec_type_info(d, pos, se) {
            Err(e) => (acc, Some(BucketFailV::Entry { offset: pos, err: e })),
            Ok((tv, p2)) => spec_bucket_entries(d, p2, (left - 1) as u32, se, acc.push(tv)),
        }
    }
}

/// Law: a bucket holds at most its declared `ndefs` entries, and exactly
/// `ndefs` when no failure was recorded.
pub proof fn lemma_bucket_entry_count(d: Seq<u8>, pos: int, left: u32, se: u8, acc: Seq<TypeInfoV>)
    ensures
        spec_bucket_entries(d, pos, left, se, acc).0.len() <= acc.len() + left,
        spec_bucket_entries(d, pos, left, se, acc).1 is None ==> spec_bucket_entries(
            d,
            pos,
            left,
            se,
            acc,
        ).0.len() == acc.len() + left,
        acc.len() <= spec_bucket_entries(d, pos, left, se, acc).0.len(),
    decreases left,
{
    if left != 0 {
        match spec_type_info(d, pos, se) {
            Err(_) => {},
            Ok((tv, p2)) => {
                lemma_bucket_entry_count(d, p2, (left - 1) as u32, se, acc.push(tv));
            },
        }
    }
}

/// Parsed entries agree with their models, in order.
pub open spec fn entries_model(es: Seq<TILTypeInfo>, vs: Seq<TypeInfoV>) -> bool {
    &&& es.len() == vs.len()
    &&& forall|i: int| 0 <= i < vs.len() ==> models_ti(#[trigger] es[i], vs[i])
}

/// An exec bucket failure agrees with its model.
pub open spec fn failure_model(f: Option<BucketFailure>, v: Option<BucketFailV>) -> bool {
    match (f, v) {
        (None, None) => true,
        (Some(BucketFailure::Decompression), Some(BucketFailV::Decomp)) => true,
        (
            Some(BucketFailure::Entry { offset, err }),
            Some(BucketFailV::Entry { offset: so, err: se_ }),
        ) => offset as int == so && err == se_,
        _ => false,
    }
}

fn parse_bucket_entries(
    data: &[u8],
    pos: usize,
    left: u32,
    se: u8,
    acc: Vec<TILTypeInfo>,
    Ghost(accv): Ghost<Seq<TypeInfoV>>,
) -> (r: (Vec<TILTypeInfo>, Option<BucketFailure>))
    requires
        pos <= data@.len(),
        entries_model(acc@, accv),
    ensures
        ({
            let (es, f) = spec_bucket_entries(data@, pos as int, left, se, accv);
            entries_model(r.0@, es) && failure_model(r.1, f)
        }),
    decreases left,
{
    if left == 0 {
        return (acc, None);
    }
    match parse_type_info(data, pos, se) {
        Err(e) => (acc, Some(BucketFailure::Entry { offset: pos, err: e })),
        Ok((ti, p2)) => {
            let ghost gv = spec_type_info(data@, pos as int, se)->Ok_0.0;
            let mut acc2 = acc;
            acc2.push(ti);
            parse_bucket_entries(data, p2, left - 1, se, acc2, Ghost(accv.push(gv)))
        },
    }
}

/// A plain (uncompressed) bucket.
#[derive(Debug)]
pub struct TILBucket {
    pub ndefs: u32,
    pub len: u32,
    pub data: Vec<u8>,
    pub type_info: Vec<TILTypeInfo>,
    pub failure: Option<BucketFailure>,
}

/// A zlib-compressed bucket; `data` holds the inflated payload.
#[derive(Debug)]
pub struct TILBucketZip {
    pub ndefs: u32,
    pub len: u32,
    pub compressed_len: u32,
    pub data: Vec<u8>,
    pub type_info: Vec<TILTypeInfo>,
    pub failure: Option<BucketFailure>,
}

impl TILBucketZip {
    /// Repackages an inflated zip bucket as a plain bucket.
    pub fn unzip(self) -> (r: TILBucket)
        ensures
            r.ndefs == self.ndefs,
            r.len == self.len,
            r.data == self.data,
            r.type_info == self.type_info,
            r.failure == self.failure,
    {
        TILBucket {
            ndefs: self.ndefs,
            len: self.len,
            data: self.data,
            type_info: self.type_info,
            failure: self.failure,
        }
    }
}

/// A bucket slot of a TIL section.
#[derive(Debug)]
pub enum TILBucketType {
    Default(TILBucket),
    Zip(TILBucketZip),
}

impl TILBucketType {
    /// The declared entry count of the bucket, whatever its compression.
    pub fn ndefs(&self) -> (r: u32)
        ensures
            r == self.spec_ndefs(),
    {
        match self {
            TILBucketType::Default(b) => b.ndefs,
            TILBucketType::Zip(b) => b.ndefs,
        }
    }

    pub open spec fn spec_ndefs(&self) -> u32 {
        match self {
            TILBucketType::Default(b) => b.ndefs,
            TILBucketType::Zip(b) => b.ndefs,
        }
    }
}

/// An exec plain bucket agrees with its model.
pub open spec fn bucket_model(b: TILBucket, v: BucketV) -> bool {
    &&& b.ndefs == v.ndefs
    &&& b.len == v.len
    &&& b.data@ == v.payload
    &&& entries_model(b.type_info@, v.entries)
    &&& failure_model(b.failure, v.failure)
}

/// An exec zip bucket agrees with its model.
pub open spec fn bucket_zip_model(b: TILBucketZip, v: BucketV) -> bool {
    &&& b.ndefs == v.ndefs
    &&& b.len == v.len
    &&& b.compressed_len == v.compressed_len
    &&& b.data@ == v.payload
    &&& entries_model(b.type_info@, v.entries)
    &&& failure_model(b.failure, v.failure)
}

/// A plain bucket at `pos`: `ndefs`, the payload length, then exactly that
/// many payload bytes holding the entries.
pub open spec fn spec_til_bucket(s: Seq<u8>, pos: int, se: u8) -> Result<
    (BucketV, int),
    CodecError,
> {
    match spec_u32le(s, pos) {
        Err(e) => Err(e),
        Ok((ndefs, p1)) => match spec_u32le(s, p1) {
            Err(e) => Err(e),
            Ok((len, p2)) => if p2 + len > s.len() {
                Err(CodecError::ShortRead)
            } else {
                let payload = s.subrange(p2, p2 + len);
                let (entries, failure) = spec_bucket_entries(payload, 0, ndefs, se, Seq::empty());
                Ok(
                    (
                        BucketV {
                            ndefs,
                            len,
                            compressed_len: 0,
                            payload,
                            entries,
                            failure,
                        },
                        p2 + len,
                    ),
                )
            },
        },
    }
}

/// A zip bucket at `pos`: `ndefs`, the uncompressed length, the compressed
/// length, then the compressed bytes.  The payload inflates under a size
/// cap equal to the declared uncompressed length; anything but an inflation
/// to exactly that length marks the bucket as failed and empty.
pub open spec fn spec_til_bucket_zip(s: Seq<u8>, pos: int, se: u8) -> Result<
    (BucketV, int),
    CodecError,
> {
    match spec_u32le(s, pos) {
        Err(e) => Err(e),
        Ok((ndefs, p1)) => match spec_u32le(s, p1) {
            Err(e) => Err(e),
            Ok((len, p2)) => match spec_u32le(s, p2) {
                Err(e) => Err(e),
                Ok((clen, p3)) => if p3 + clen > s.len() {
                    Err(CodecError::ShortRead)
                } else {
                    let comp = s.subrange(p3, p3 + clen);
                    match zlib_inflate_of(comp, len as nat) {
                        Some(out) => if out.len() == len {
                            let (entries, failure) = spec_bucket_entries(
                                out,
                                0,
                                ndefs,
                                se,
                                Seq::empty(),
                            );
                            Ok(
                                (
                                    BucketV {
                                        ndefs,
                                        len,
                                        compressed_len: clen,
                                        payload: out,
                                        entries,
                                        failure,
                                    },
                                    p3 + clen,
                                ),
                            )
                        } else {
                            Ok(
                                (
                                    BucketV {
                                        ndefs,
                                        len,
                                        compressed_len: clen,
                                        payload: Seq::empty(),
                                        entries: Seq::empty(),
                                        failure: Some(BucketFailV::Decomp),
                                    },
                                    p3 + clen,
                                ),
                            )
                        },
                        None => Ok(
                            (
                                BucketV {
                                    ndefs,
                                    len,
                                    compressed_len: clen,
                                    payload: Seq::empty(),
                                    entries: Seq::empty(),
                                    failure: Some(BucketFailV::Decomp),
                                },
                                p3 + clen,
                            ),
                        ),
                    }
                },
            },
        },
    }
}

/// Parses a plain bucket.
pub fn parse_til_bucket(data: &[u8], pos: usize, se: u8) -> (r: Result<
    (TILBucket, usize),
    CodecError,
>)
    ensures
        match (r, spec_til_bucket(data@, pos as int, se)) {
            (Ok((b, p)), Ok((v, sp))) => bucket_model(b, v) && p as int == sp && p
                <= data@.len(),
            (Err(e), Err(se_)) => e == se_,
            _ => false,
        },
{
    let (ndefs, p1) = match parse_u32le(data, pos) {
        Ok(v) => v,
        Err(e) => { return Err(e) },
    };
    let (len, p2) = match parse_u32le(data, p1) {
        Ok(v) => v,
        Err(e) => { return Err(e) },
    };
    if (len as usize) > data.len() - p2 {
        return Err(CodecError::ShortRead);
    }
    let end = p2 + len as usize;
    let mut payload: Vec<u8> = Vec::new();
    let mut i = p2;
    while i < end
        invariant
            p2 <= i <= end <= data@.len(),
            payload@ =~= data@.subrange(p2 as int, i as int),
        decreases end - i,
    {
        payload.push(data[i]);
        i = i + 1;
    }
    proof {
        assert(payload@ =~= data@.subrange(p2 as int, p2 + len));
    }
    let (type_info, failure) = parse_bucket_entries(
        payload.as_slice(),
        0,
        ndefs,
        se,
        Vec::new(),
        Ghost(Seq::empty()),
    );
    Ok((TILBucket { ndefs, len, data: payload, type_info, failure }, end))
}

/// Parses a zip bucket, inflating its payload.
pub fn parse_til_bucket_zip(data: &[u8], pos: usize, se: u8) -> (r: Result<
    (TILBucketZip, usize),
    CodecError,
>)
    ensures
        match (r, spec_til_bucket_zip(data@, pos as int, se)) {
            (Ok((b, p)), Ok((v, sp))) => bucket_zip_model(b, v) && p as int == sp && p
                <= data@.len(),
            (Err(e), Err(se_)) => e == se_,
            _ => false,
        },
{
    let (ndefs, p1) = match parse_u32le(data, pos) {
        Ok(v) => v,
        Err(e) => { return Err(e) },
    };
    let (len, p2) = match parse_u32le(data, p1) {
        Ok(v) => v,
        Err(e) => { return Err(e) },
    };
    let (clen, p3) = match parse_u32le(data, p2) {
        Ok(v) => v,
        Err(e) => { return Err(e) },
    };
    if (clen as usize) > data.len() - p3 {
        return Err(CodecError::ShortRead);
    }
    let end = p3 + clen as usize;
    let mut comp: Vec<u8> = Vec::new();
    let mut i = p3;
    while i < end
        invariant
            p3 <= i <= end <= data@.len(),
            comp@ =~= data@.subrange(p3 as int, i as int),
        decreases end - i,
    {
        comp.push(data[i]);
        i = i + 1;
    }
    proof {
        assert(comp@ =~= data@.subrange(p3 as int, p3 + clen));
    }
    match inflate_zlib(comp.as_slice(), len as usize) {
        Some(out) => {
            if out.len() == len as usize {
                let (type_info, failure) = parse_bucket_entries(
                    out.as_slice(),
                    0,
                    ndefs,
                    se,
                    Vec::new(),
                    Ghost(Seq::empty()),
                );
                Ok(
                    (
                        TILBucketZip {
                            ndefs,
                            len,
                            compressed_len: clen,
                            data: out,
                            type_info,
                            failure,
                        },
                        end,
                    ),
                )
            } else {
                Ok(
                    (
                        TILBucketZip {
                            ndefs,
                            len,
                            compressed_len: clen,
                            data: Vec::new(),
                            type_info: Vec::new(),
                            failure: Some(BucketFailure::Decompression),
                        },
                        end,
                    ),
                )
            }
        },
        None => Ok(
            (
                TILBucketZip {
                    ndefs,
                    len,
                    compressed_len: clen,
                    data: Vec::new(),
                    type_info: Vec::new(),
                    failure: Some(BucketFailure::Decompression),
                },
                end,
            ),
        ),
    }
}

// ---------------------------------------------------------------------------
// The TIL section.
// ---------------------------------------------------------------------------

/// A parsed TIL section: header fields, the optional size blocks selected
/// by the flags, and the three buckets in file order.
#[derive(Debug)]
pub struct TILSection {
    pub format: u32,
    pub flags: TILFlags,
    pub title: String,
    pub base: String,
    pub id: u8,
    pub cm: u8,
    pub size_i: u8,
    pub size_b: u8,
    pub size_e: u8,
    pub def_align: u8,
    pub size_s: Option<u8>,
    pub size_l: Option<u8>,
    pub size_ll: Option<u8>,
    pub size_ldbl: Option<u8>,
    pub syms: TILBucketType,
    pub type_ordinal_numbers: Option<u32>,
    pub types: TILBucketType,
    pub macros: TILBucketType,
}

/// The ghost model of a TIL section.
pub ghost struct TILSectionV {
    pub format: u32,
    pub flags: u32,
    pub title: Seq<u8>,
    pub base: Seq<u8>,
    pub id: u8,
    pub cm: u8,
    pub size_i: u8,
    pub size_b: u8,
    pub size_e: u8,
    pub def_align: u8,
    pub size_s: Option<u8>,
    pub size_l: Option<u8>,
    pub size_ll: Option<u8>,
    pub size_ldbl: Option<u8>,
    pub syms: BucketV,
    pub type_ordinal_numbers: Option<u32>,
    pub types: BucketV,
    pub macros: BucketV,
}

/// A bucket slot agrees with its model under the section's zip flag.
pub open spec fn bucket_slot_model(b: TILBucketType, zip: bool, v: BucketV) -> bool {
    if zip {
        b matches TILBucketType::Zip(z) && bucket_zip_model(z, v)
    } else {
        b matches TILBucketType::Default(d) && bucket_model(d, v)
    }
}

/// The exec section agrees with its model.
pub open spec fn til_model(t: TILSection, v: TILSectionV) -> bool {
    &&& t.format == v.format
    &&& t.flags == TILFlags(v.flags)
    &&& t.title@ == utf8_lossy_of(v.title)
    &&& t.base@ == utf8_lossy_of(v.base)
    &&& t.id == v.id
    &&& t.cm == v.cm
    &&& t.size_i == v.size_i
    &&& t.size_b == v.size_b
    &&& t.size_e == v.size_e
    &&& t.def_align == v.def_align
    &&& t.size_s == v.size_s
    &&& t.size_l == v.size_l
    &&& t.size_ll == v.size_ll
    &&& t.size_ldbl == v.size_ldbl
    &&& bucket_slot_model(t.syms, v.flags & 0x0001 != 0, v.syms)
    &&& t.type_ordinal_numbers == v.type_ordinal_numbers
    &&& bucket_slot_model(t.types, v.flags & 0x0001 != 0, v.types)
    &&& bucket_slot_model(t.macros, v.flags & 0x0001 != 0, v.macros)
}

/// One bucket slot at `pos`, compressed or plain per the zip flag.
pub open spec fn spec_til_bucket_slot(s: Seq<u8>, pos: int, zip: bool, se: u8) -> Result<
    (BucketV, int),
    CodecError,
> {
    if zip {
        spec_til_bucket_zip(s, pos, se)
    } else {
        spec_til_bucket(s, pos, se)
    }
}

fn parse_til_bucket_slot(data: &[u8], pos: usize, zip: bool, se: u8) -> (r: Result<
    (TILBucketType, usize),
    CodecError,
>)
    ensures
        match (r, spec_til_bucket_slot(data@, pos as int, zip, se)) {
            (Ok((b, p)), Ok((v, sp))) => bucket_slot_model(b, zip, v) && p as int == sp && p
                <= data@.len(),
            (Err(e), Err(se_)) => e == se_,
            _ => false,
        },
{
    if zip {
        match parse_til_bucket_zip(data, pos, se) {
            Ok((b, p)) => Ok((TILBucketType::Zip(b), p)),
            Err(e) => Err(e),
        }
    } else {
        match parse_til_bucket(data, pos, se) {
            Ok((b, p)) => Ok((TILBucketType::Default(b), p)),
            Err(e) => Err(e),
        }
    }
}

/// The fixed head of a TIL section: the `IDATIL` signature, format and
/// flags words, the title and base strings, and six size bytes.  The model
/// carries placeholder buckets until the tail fills them in.
pub open spec fn spec_til_header(s: Seq<u8>, pos: int) -> Result<(TILSectionV, int), IDBError> {
    if !(0 <= pos && pos + 6 <= s.len()) {
        Err(IDBError::DeserializingError)
    } else if s.subrange(pos, pos + 6) != seq![0x49u8, 0x44u8, 0x41u8, 0x54u8, 0x49u8, 0x4cu8] {
        Err(IDBError::InvalidSignature)
    } else {
        match spec_u32le(s, pos + 6) {
            Err(_) => Err(IDBError::DeserializingError),
            Ok((format, p1)) => match spec_u32le(s, p1) {
                Err(_) => Err(IDBError::DeserializingError),
                Ok((flags, p2)) => match spec_len_prefix(s, p2) {
                    Err(_) => Err(IDBError::DeserializingError),
                    Ok(((_tl, title), p3)) => match spec_len_prefix(s, p3) {
                        Err(_) => Err(IDBError::DeserializingError),
                        Ok(((_bl, base), p4)) => if !(p4 + 6 <= s.len()) {
                            Err(IDBError::DeserializingError)
                        } else {
                            Ok(
                                (
                                    TILSectionV {
                                        format,
                                        flags,
                                        title,
                                        base,
                                        id: s[p4],
                                        cm: s[p4 + 1],
                                        size_i: s[p4 + 2],
                                        size_b: s[p4 + 3],
                                        size_e: s[p4 + 4],
                                        def_align: s[p4 + 5],
                                        size_s: None,
                                        size_l: None,
                                        size_ll: None,
                                        size_ldbl: None,
                                        syms: arbitrary(),
                                        type_ordinal_numbers: None,
                                        types: arbitrary(),
                                        macros: arbitrary(),
                                    },
                                    p4 + 6,
                                ),
                            )
                        },
                    },
                },
            },
        }
    }
}

/// The whole TIL section at `pos`: the fixed head, the optional size
/// blocks, then the symbols bucket, the optional ordinal count, the types
/// bucket, and the macros bucket.  Framing failures are `DeserializingError`
/// but a wrong signature, which is `InvalidSignature`.
pub open spec fn spec_til_section(s: Seq<u8>, pos: int) -> Result<(TILSectionV, int), IDBError> {
    match spec_til_header(s, pos) {
        Err(e) => Err(e),
        Ok((h, p5)) => spec_til_tail(s, p5, h),
    }
}

/// The optional size blocks and the three buckets, after the fixed header.
pub open spec fn spec_til_tail(s: Seq<u8>, pos: int, h: TILSectionV) -> Result<
    (TILSectionV, int),
    IDBError,
> {
    let esi = h.flags & 0x0004 != 0;
    let sld = h.flags & 0x0100 != 0;
    let ord = h.flags & 0x0010 != 0;
    let zip = h.flags & 0x0001 != 0;
    let esires = if esi {
        if pos + 3 <= s.len() {
            Ok((Some(s[pos]), Some(s[pos + 1]), Some(s[pos + 2]), pos + 3))
        } else {
            Err(IDBError::DeserializingError)
        }
    } else {
        Ok((None, None, None, pos))
    };
    match esires {
        Err(e) => Err(e),
        Ok((size_s, size_l, size_ll, p6)) => {
            let sldres = if sld {
                if p6 < s.len() {
                    Ok((Some(s[p6]), p6 + 1))
                } else {
                    Err(IDBError::DeserializingError)
                }
            } else {
                Ok((None, p6))
            };
            match sldres {
                Err(e) => Err(e),
                Ok((size_ldbl, p7)) => match spec_til_bucket_slot(s, p7, zip, h.size_e) {
                    Err(_) => Err(IDBError::DeserializingError),
                    Ok((syms, p8)) => {
                        let ordres = if ord {
                            match spec_u32le(s, p8) {
                                Err(_) => Err(IDBError::DeserializingError),
                                Ok((o, p9)) => Ok((Some(o), p9)),
                            }
                        } else {
                            Ok((None, p8))
                        };
                        match ordres {
                            Err(e) => Err(e),
                            Ok((ordnums, p9)) => match spec_til_bucket_slot(
                                s,
                                p9,
                                zip,
                                h.size_e,
                            ) {
                                Err(_) => Err(IDBError::DeserializingError),
                                Ok((types, p10)) => match spec_til_bucket_slot(
                                    s,
                                    p10,
                                    zip,
                                    h.size_e,
                                ) {
                                    Err(_) => Err(IDBError::DeserializingError),
                                    Ok((macros, p11)) => Ok(
                                        (
                                            TILSectionV {
                                                size_s,
                                                size_l,
                                                size_ll,
                                                size_ldbl,
                                                syms,
                                                type_ordinal_numbers: ordnums,
                                                types,
                                                macros,
                                                ..h
                                            },
                                            p11,
                                        ),
                                    ),
                                },
                            },
                        }
                    },
                },
            }
        },
    }
}

/// Parses a TIL section beginning at `pos` (at its `IDATIL` signature).
pub fn parse_til_section(data: &[u8], pos: usize) -> (r: Result<(TILSection, usize), IDBError>)
    ensures
        match (r, spec_til_section(data@, pos as int)) {
            (Ok((t, p)), Ok((v, sp))) => til_model(t, v) && p as int == sp,
            (Err(e), Err(se_)) => e == se_,
            _ => false,
        },
{
    let (format, flags, title, base, id, cm, size_i, size_b, size_e, def_align, p5) =
        match parse_til_header(data, pos) {
        Ok(v) => v,
        Err(e) => { return Err(e) },
    };
    let ghost h = spec_til_header(data@, pos as int)->Ok_0.0;
    parse_til_tail(
        data,
        p5,
        format,
        flags,
        title,
        base,
        id,
        cm,
        size_i,
        size_b,
        size_e,
        def_align,
        Ghost(h),
    )
}

/// Parses the fixed head of a TIL section, yielding its scalar fields, the
/// two strings, and the position after the six size bytes.
#[verifier::rlimit(100)]
fn parse_til_header(data: &[u8], pos: usize) -> (r: Result<
    (u32, u32, String, String, u8, u8, u8, u8, u8, u8, usize),
    IDBError,
>)
    ensures
        match (r, spec_til_header(data@, pos as int)) {
            (Ok((format, flags, title, base, id, cm, size_i, size_b, size_e, def_align, p)),
                Ok((h, sp))) => {
                &&& h.format == format
                &&& h.flags == flags
                &&& title@ == utf8_lossy_of(h.title)
                &&& base@ == utf8_lossy_of(h.base)
                &&& h.id == id
                &&& h.cm == cm
                &&& h.size_i == size_i
                &&& h.size_b == size_b
                &&& h.size_e == size_e
                &&& h.def_align == def_align
                &&& p as int == sp
            },
            (Err(e), Err(se_)) => e == se_,
            _ => false,
        },
{
    if pos >= data.len() || 6 > data.len() - pos {
        return Err(IDBError::DeserializingError);
    }
    if !(data[pos] == 0x49 && data[pos + 1] == 0x44 && data[pos + 2] == 0x41 && data[pos + 3]
        == 0x54 && data[pos + 4] == 0x49 && data[pos + 5] == 0x4c) {
        proof {
            assert(data@.subrange(pos as int, pos + 6) != seq![
                0x49u8,
                0x44u8,
                0x41u8,
                0x54u8,
                0x49u8,
                0x4cu8,
            ]);
        }
        return Err(IDBError::InvalidSignature);
    }
    proof {
        assert(data@.subrange(pos as int, pos + 6) =~= seq![
            0x49u8,
            0x44u8,
            0x41u8,
            0x54u8,
            0x49u8,
            0x4cu8,
        ]);
    }
    let (format, p1) = match parse_u32le(data, pos + 6) {
        Ok(v) => v,
        Err(_) => { return Err(IDBError::DeserializingError) },
    };
    let (flags, p2) = match parse_u32le(data, p1) {
        Ok(v) => v,
        Err(_) => { return Err(IDBError::DeserializingError) },
    };
    let (title_s, p3) = match consume_len_prefix_str(data, p2) {
        Ok(v) => v,
        Err(_) => { return Err(IDBError::DeserializingError) },
    };
    let (base_s, p4) = match consume_len_prefix_str(data, p3) {
        Ok(v) => v,
        Err(_) => { return Err(IDBError::DeserializingError) },
    };
    if p4 >= data.len() || 6 > data.len() - p4 {
        return Err(IDBError::DeserializingError);
    }
    let id = data[p4];
    let cm = data[p4 + 1];
    let size_i = data[p4 + 2];
    let size_b = data[p4 + 3];
    let size_e = data[p4 + 4];
    let def_align = data[p4 + 5];
    let p5 = p4 + 6;
    Ok((format, flags, title_s.data, base_s.data, id, cm, size_i, size_b, size_e, def_align, p5))
}

/// The optional size blocks and the three buckets, after the fixed header.
#[verifier::rlimit(100)]
fn parse_til_tail(
    data: &[u8],
    pos: usize,
    format: u32,
    flags: u32,
    title: String,
    base: String,
    id: u8,
    cm: u8,
    size_i: u8,
    size_b: u8,
    size_e: u8,
    def_align: u8,
    Ghost(h): Ghost<TILSectionV>,
) -> (r: Result<(TILSection, usize), IDBError>)
    requires
        h.format == format,
        h.flags == flags,
        title@ == utf8_lossy_of(h.title),
        base@ == utf8_lossy_of(h.base),
        h.id == id,
        h.cm == cm,
        h.size_i == size_i,
        h.size_b == size_b,
        h.size_e == size_e,
        h.def_align == def_align,
    ensures
        match (r, spec_til_tail(data@, pos as int, h)) {
            (Ok((t, p)), Ok((v, sp))) => til_model(t, v) && p as int == sp,
            (Err(e), Err(se_)) => e == se_,
            _ => false,
        },
{
    let esi = flags & 0x0004 != 0;
    let sld = flags & 0x0100 != 0;
    let ord = flags & 0x0010 != 0;
    let zip = flags & 0x0001 != 0;
    let (size_s, size_l, size_ll, p6) = if esi {
        if pos < data.len() && 3 <= data.len() - pos {
            (Some(data[pos]), Some(data[pos + 1]), Some(data[pos + 2]), pos + 3)
        } else {
            return Err(IDBError::DeserializingError);
        }
    } else {
        (None, None, None, pos)
    };
    let (size_ldbl, p7) = if sld {
        if p6 < data.len() {
            (Some(data[p6]), p6 + 1)
        } else {
            return Err(IDBError::DeserializingError);
        }
    } else {
        (None, p6)
    };
    let (syms, p8) = match parse_til_bucket_slot(data, p7, zip, size_e) {
        Ok(v) => v,
        Err(_) => { return Err(IDBError::DeserializingError) },
    };
    let (ordnums, p9) = if ord {
        match parse_u32le(data, p8) {
            Ok((o, q)) => (Some(o), q),
            Err(_) => { return Err(IDBError::DeserializingError) },
        }
    } else {
        (None, p8)
    };
    let (types, p10) = match parse_til_bucket_slot(data, p9, zip, size_e) {
        Ok(v) => v,
        Err(_) => { return Err(IDBError::DeserializingError) },
    };
    let (macros, p11) = match parse_til_bucket_slot(data, p10, zip, size_e) {
        Ok(v) => v,
        Err(_) => { return Err(IDBError::DeserializingError) },
    };
    Ok(
        (
            TILSection {
                format,
                flags: TILFlags(flags),
                title,
                base,
                id,
                cm,
                size_i,
                size_b,
                size_e,
                def_align,
                size_s,
                size_l,
                size_ll,
                size_ldbl,
                syms,
                type_ordinal_numbers: ordnums,
                types,
                macros,
            },
            p11,
        ),
    )
}

/// The canonical name of a built-in leaf tag: the low four bits select the
/// integer family, and for family nine the flag bits pick the floating
/// kind.  Tags that are not built-in leaves have no canonical name.
pub open spec fn spec_type_base_name(m: u8) -> Seq<char> {
    let base = m & 0x0f;
    let tflag = m & 0x30;
    if base == 0x00 {
        "unknown"@
    } else if base == 0x01 {
        "void"@
    } else if base == 0x02 {
        "int8_t"@
    } else if base == 0x03 {
        "int16_t"@
    } else if base == 0x04 {
        "int32_t"@
    } else if base == 0x05 {
        "int64_t"@
    } else if base == 0x06 {
        "int128_t"@
    } else if base == 0x07 {
        "int"@
    } else if base == 0x08 {
        "bool"@
    } else if base == 0x09 {
        if tflag == 0x00 {
            "float"@
        } else if tflag == 0x10 {
            "double"@
        } else if tflag == 0x20 {
            "long double"@
        } else {
            "special float"@
        }
    } else {
        ""@
    }
}

/// The canonical name of a built-in leaf tag, per the table that seeds any
/// user-facing rendering.
pub fn type_base_name(meta: &TypeMetadata) -> (r: String)
    ensures
        r@ == spec_type_base_name(meta.0),
{
    let base = meta.0 & 0x0f;
    let tflag = meta.0 & 0x30;
    if base == 0x00 {
        "unknown".to_owned()
    } else if base == 0x01 {
        "void".to_owned()
    } else if base == 0x02 {
        "int8_t".to_owned()
    } else if base == 0x03 {
        "int16_t".to_owned()
    } else if base == 0x04 {
        "int32_t".to_owned()
    } else if base == 0x05 {
        "int64_t".to_owned()
    } else if base == 0x06 {
        "int128_t".to_owned()
    } else if base == 0x07 {
        "int".to_owned()
    } else if base == 0x08 {
        "bool".to_owned()
    } else if base == 0x09 {
        if tflag == 0x00 {
            "float".to_owned()
        } else if tflag == 0x10 {
            "double".to_owned()
        } else if tflag == 0x20 {
            "long double".to_owned()
        } else {
            "special float".to_owned()
        }
    } else {
        "".to_owned()
    }
}

impl TILBucket {
    /// The first entry whose ordinal has the given value, if any.
    pub fn find_by_ordinal(&self, ord: u64) -> (r: Option<&TILTypeInfo>)
        ensures
            match r {
                Some(t) => exists|i: int|
                    0 <= i < self.type_info@.len() && *t == self.type_info@[i]
                        && (#[trigger] self.type_info@[i]).ordinal.spec_value() == ord,
                None => forall|i: int|
                    0 <= i < self.type_info@.len() ==> (#[trigger] self.type_info@[i])
                        .ordinal.spec_value() != ord,
            },
    {
        let mut i: usize = 0;
        while i < self.type_info.len()
            invariant
                i <= self.type_info@.len(),
                forall|j: int|
                    0 <= j < i ==> (#[trigger] self.type_info@[j]).ordinal.spec_value() != ord,
            decreases self.type_info@.len() - i,
        {
            if self.type_info[i].ordinal.value() == ord {
                return Some(&self.type_info[i]);
            }
            i = i + 1;
        }
        None
    }

    /// The first entry with the given name, if any.
    pub fn find_by_name(&self, name: &String) -> (r: Option<&TILTypeInfo>)
        ensures
            match r {
                Some(t) => exists|i: int|
                    0 <= i < self.type_info@.len() && *t == self.type_info@[i]
                        && (#[trigger] self.type_info@[i]).name@ == name@,
                None => forall|i: int|
                    0 <= i < self.type_info@.len() ==> (#[trigger] self.type_info@[i]).name@
                        != name@,
            },
    {
        let mut i: usize = 0;
        while i < self.type_info.len()
            invariant
                i <= self.type_info@.len(),
                forall|j: int| 0 <= j < i ==> (#[trigger] self.type_info@[j]).name@ != name@,
            decreases self.type_info@.len() - i,
        {
            if self.type_info[i].name == *name {
                return Some(&self.type_info[i]);
            }
            i = i + 1;
        }
        None
    }

    /// The entry a typedef refers to, looked up in this bucket by ordinal
    /// for an ordinal reference and by name otherwise.
    pub fn get_underlying_typeinfo(&self, typedef: &Typedef) -> (r: Option<&TILTypeInfo>)
        ensures
            typedef.is_ordref ==> match r {
                Some(t) => exists|i: int|
                    0 <= i < self.type_info@.len() && *t == self.type_info@[i]
                        && (#[trigger] self.type_info@[i]).ordinal.spec_value()
                        == typedef.ordinal.0 as u64,
                None => forall|i: int|
                    0 <= i < self.type_info@.len() ==> (#[trigger] self.type_info@[i])
                        .ordinal.spec_value() != typedef.ordinal.0 as u64,
            },
            !typedef.is_ordref ==> match r {
                Some(t) => exists|i: int|
                    0 <= i < self.type_info@.len() && *t == self.type_info@[i]
                        && (#[trigger] self.type_info@[i]).name@ == typedef.name@,
                None => forall|i: int|
                    0 <= i < self.type_info@.len() ==> (#[trigger] self.type_info@[i]).name@
                        != typedef.name@,
            },
    {
        if typedef.is_ordref {
            self.find_by_ordinal(typedef.ordinal.0 as u64)
        } else {
            self.find_by_name(&typedef.name)
        }
    }
}

impl TILSection {
    /// The entry of the types bucket with the given name, if any.  A
    /// compressed bucket is searched through its inflated entries.
    pub fn get_type(&self, name: &String) -> (r: Option<&TILTypeInfo>)
        ensures
            r matches Some(t) ==> t.name@ == name@,
            self.types matches TILBucketType::Default(b) ==> (r is None ==> forall|i: int|
                0 <= i < b.type_info@.len() ==> (#[trigger] b.type_info@[i]).name@ != name@),
            self.types matches TILBucketType::Zip(b) ==> (r is None ==> forall|i: int|
                0 <= i < b.type_info@.len() ==> (#[trigger] b.type_info@[i]).name@ != name@),
    {
        match &self.types {
            TILBucketType::Default(b) => {
                let mut i: usize = 0;
                while i < b.type_info.len()
                    invariant
                        i <= b.type_info@.len(),
                        forall|j: int|
                            0 <= j < i ==> (#[trigger] b.type_info@[j]).name@ != name@,
                    decreases b.type_info@.len() - i,
                {
                    if b.type_info[i].name == *name {
                        return Some(&b.type_info[i]);
                    }
                    i = i + 1;
                }
                None
            },
            TILBucketType::Zip(b) => {
                let mut i: usize = 0;
                while i < b.type_info.len()
                    invariant
                        i <= b.type_info@.len(),
                        forall|j: int|
                            0 <= j < i ==> (#[trigger] b.type_info@[j]).name@ != name@,
                    decreases b.type_info@.len() - i,
                {
                    if b.type_info[i].name == *name {
                        return Some(&b.type_info[i]);
                    }
                    i = i + 1;
                }
                None
            },
        }
    }
}

impl TILSection {
    /// Parses a standalone TIL file: the byte slice begins with `IDATIL`.
    pub fn parse(bytes: &[u8]) -> (r: Result<TILSection, IDBError>)
        ensures
            match (r, spec_til_section(bytes@, 0)) {
                (Ok(t), Ok((v, _))) => til_model(t, v),
                (Err(e), Err(se_)) => e == se_,
                _ => false,
            },
    {
        match parse_til_section(bytes, 0) {
            Ok((t, _)) => Ok(t),
            Err(e) => Err(e),
        }
    }
}

} // verus!

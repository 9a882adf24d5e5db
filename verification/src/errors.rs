use vstd::prelude::*;

verus! {

/// Failure of one of the primitive codecs: the stream ended in the middle of
/// an encoding, or a reserved bit pattern was violated.
#[derive(Clone, Copy, Debug, PartialEq, Eq, Structural)]
pub enum CodecError {
    ShortRead,
    BadVarint,
}

/// Failure of the type-information grammar for one entry.  The first two
/// variants carry a codec failure upward; the others are grammar-level.
#[derive(Clone, Copy, Debug, PartialEq, Eq, Structural)]
pub enum GrammarError {
    ShortRead,
    BadVarint,
    DepthExceeded,
    SpecialPEUnsupported,
}

impl GrammarError {
    /// The grammar variant that carries a given codec failure.
    pub open spec fn spec_from_codec(e: CodecError) -> GrammarError {
        match e {
            CodecError::ShortRead => GrammarError::ShortRead,
            CodecError::BadVarint => GrammarError::BadVarint,
        }
    }

    pub fn from_codec(e: CodecError) -> (r: GrammarError)
        ensures
            r == GrammarError::spec_from_codec(e),
    {
        match e {
            CodecError::ShortRead => GrammarError::ShortRead,
            CodecError::BadVarint => GrammarError::BadVarint,
        }
    }
}

/// Errors of the outer container: header validation, section framing, and
/// section decoding.  Header failures are fatal for the whole file; an
/// `InvalidOffset` or `DeserializingError` is confined to one section, and
/// `SectionUnset` stands for an offset of zero ("section absent").
#[derive(Clone, Copy, Debug, PartialEq, Eq, Structural)]
pub enum IDBError {
    InvalidSignature,
    InvalidSecondaryMagic,
    UnsupportedVersion,
    InvalidOffset,
    SectionUnset,
    DeserializingError,
}

/// Why a TIL bucket holds fewer entries than its declared `ndefs`: either the
/// zlib payload did not inflate, or entry parsing stopped at the byte offset
/// given, with all earlier entries still valid.
#[derive(Clone, Copy, Debug, PartialEq, Eq, Structural)]
pub enum BucketFailure {
    Decompression,
    Entry { offset: usize, err: GrammarError },
}

} // verus!

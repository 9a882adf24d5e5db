//! Section framing: the 9-byte section header and the opaque sections that
//! are recorded but not interpreted.

use vstd::prelude::*;

use crate::codec::{spec_u8at, spec_u64le, parse_u8at, parse_u64le};
use crate::errors::CodecError;

verus! {

/// The header in front of every section's payload.
#[derive(Clone, Copy, Debug, PartialEq, Eq, Structural)]
pub struct IDBSectionHeader {
    pub compression_method: u8,
    pub length: u64,
}

/// The section header at `pos`: one compression byte, then the payload
/// length.
pub open spec fn spec_section_header(s: Seq<u8>, pos: int) -> Result<
    (IDBSectionHeader, int),
    CodecError,
> {
    match spec_u8at(s, pos) {
        Err(e) => Err(e),
        Ok((cm, p1)) => match spec_u64le(s, p1) {
            Err(e) => Err(e),
            Ok((len, p2)) => Ok((IDBSectionHeader { compression_method: cm, length: len }, p2)),
        },
    }
}

pub fn parse_section_header(data: &[u8], pos: usize) -> (r: Result<
    (IDBSectionHeader, usize),
    CodecError,
>)
    ensures
        match (r, spec_section_header(data@, pos as int)) {
            (Ok((h, p)), Ok((sh, sp))) => h == sh && p as int == sp && p <= data@.len(),
            (Err(e), Err(se)) => e == se,
            _ => false,
        },
{
    let (cm, p1) = match parse_u8at(data, pos) {
        Ok(v) => v,
        Err(e) => { return Err(e) },
    };
    let (len, p2) = match parse_u64le(data, p1) {
        Ok(v) => v,
        Err(e) => { return Err(e) },
    };
    Ok((IDBSectionHeader { compression_method: cm, length: len }, p2))
}

/// A section held as an opaque byte blob.
#[derive(Debug)]
pub struct IDBSection {
    pub section_buffer: Vec<u8>,
    pub header: IDBSectionHeader,
}

/// The ID1 section: recorded, not interpreted.
#[derive(Debug)]
pub struct ID1Section {
    pub section_buffer: Vec<u8>,
    pub header: IDBSectionHeader,
}

/// The NAM section: recorded, not interpreted.
#[derive(Debug)]
pub struct NAMSection {
    pub section_buffer: Vec<u8>,
    pub header: IDBSectionHeader,
}

/// The SEG section: recorded, not interpreted.
#[derive(Debug)]
pub struct SEGSection {
    pub section_buffer: Vec<u8>,
    pub header: IDBSectionHeader,
}

/// The ID2 section: recorded, not interpreted.
#[derive(Debug)]
pub struct ID2Section {
    pub section_buffer: Vec<u8>,
    pub header: IDBSectionHeader,
}

} // verus!

//! The outer IDB container: the file header with its six section offsets,
//! header validation, and the assembly of the per-section results.

use vstd::prelude::*;

use crate::codec::{
    spec_u16le, spec_u32le, spec_u64le, spec_u8at, parse_u16le, parse_u32le, parse_u64le,
    parse_u8at,
};
use crate::errors::{CodecError, IDBError};
use crate::id0::{ID0Section, page_slot_model, spec_id0_preamble, spec_version_digits};
use crate::sections::{
    ID1Section, ID2Section, IDBSection, IDBSectionHeader, NAMSection, SEGSection,
    parse_section_header, spec_section_header,
};
use crate::strutil::utf8_lossy_of;
use crate::til::{TILSection, parse_til_section, spec_til_section, til_model};

verus! {

broadcast use vstd::seq::group_seq_axioms;

/// The IDB file header: signature, secondary magic, version, and the six
/// absolute section offsets, checksums carried along uninterpreted.
#[derive(Debug)]
pub struct IDBHeader2 {
    pub signature: [u8; 4],
    pub unk: u16,
    pub offset1: u64,
    pub offset2: u64,
    pub unk2: u32,
    pub sig2: u32,
    pub version: u16,
    pub offset3: u64,
    pub offset4: u64,
    pub offset5: u64,
    pub checksum1: u32,
    pub checksum2: u32,
    pub checksum3: u32,
    pub checksum4: u32,
    pub checksum5: u32,
    pub offset6: u64,
    pub checksum6: u32,
}

/// The ghost model of the file header.
pub ghost struct IDBHeaderV {
    pub sig: Seq<u8>,
    pub unk: u16,
    pub offset1: u64,
    pub offset2: u64,
    pub unk2: u32,
    pub sig2: u32,
    pub version: u16,
    pub offset3: u64,
    pub offset4: u64,
    pub offset5: u64,
    pub checksum1: u32,
    pub checksum2: u32,
    pub checksum3: u32,
    pub checksum4: u32,
    pub checksum5: u32,
    pub offset6: u64,
    pub checksum6: u32,
}

/// The exec header agrees with its model.
pub open spec fn header_model(h: IDBHeader2, v: IDBHeaderV) -> bool {
    &&& h.signature@ == v.sig
    &&& h.unk == v.unk
    &&& h.offset1 == v.offset1
    &&& h.offset2 == v.offset2
    &&& h.unk2 == v.unk2
    &&& h.sig2 == v.sig2
    &&& h.version == v.version
    &&& h.offset3 == v.offset3
    &&& h.offset4 == v.offset4
    &&& h.offset5 == v.offset5
    &&& h.checksum1 == v.checksum1
    &&& h.checksum2 == v.checksum2
    &&& h.checksum3 == v.checksum3
    &&& h.checksum4 == v.checksum4
    &&& h.checksum5 == v.checksum5
    &&& h.offset6 == v.offset6
    &&& h.checksum6 == v.checksum6
}

/// The file header at the start of the bytes.  A header cut short is a
/// deserializing failure.
pub open spec fn spec_idb_header(s: Seq<u8>) -> Result<IDBHeaderV, IDBError> {
    if s.len() < 4 {
        Err(IDBError::DeserializingError)
    } else {
        let sig = s.subrange(0, 4);
        match spec_u16le(s, 4) {
            Err(_) => Err(IDBError::DeserializingError),
            Ok((unk, p1)) => match spec_u64le(s, p1) {
                Err(_) => Err(IDBError::DeserializingError),
                Ok((offset1, p2)) => match spec_u64le(s, p2) {
                    Err(_) => Err(IDBError::DeserializingError),
                    Ok((offset2, p3)) => match spec_u32le(s, p3) {
                        Err(_) => Err(IDBError::DeserializingError),
                        Ok((unk2, p4)) => match spec_u32le(s, p4) {
                            Err(_) => Err(IDBError::DeserializingError),
                            Ok((sig2, p5)) => match spec_u16le(s, p5) {
                                Err(_) => Err(IDBError::DeserializingError),
                                Ok((version, p6)) => match spec_u64le(s, p6) {
                                    Err(_) => Err(IDBError::DeserializingError),
                                    Ok((offset3, p7)) => match spec_u64le(s, p7) {
                                        Err(_) => Err(IDBError::DeserializingError),
                                        Ok((offset4, p8)) => match spec_u64le(s, p8) {
                                            Err(_) => Err(IDBError::DeserializingError),
                                            Ok((offset5, p9)) => spec_idb_header_tail(
                                                s,
                                                p9,
                                                IDBHeaderV {
                                                    sig,
                                                    unk,
                                                    offset1,
                                                    offset2,
                                                    unk2,
                                                    sig2,
                                                    version,
                                                    offset3,
                                                    offset4,
                                                    offset5,
                                                    checksum1: 0,
                                                    checksum2: 0,
                                                    checksum3: 0,
                                                    checksum4: 0,
                                                    checksum5: 0,
                                                    offset6: 0,
                                                    checksum6: 0,
                                                },
                                            ),
                                        },
                                    },
                                },
                            },
                        },
                    },
                },
            },
        }
    }
}

/// The five checksums, the last offset, and the final checksum.
pub open spec fn spec_idb_header_tail(s: Seq<u8>, pos: int, h: IDBHeaderV) -> Result<
    IDBHeaderV,
    IDBError,
> {
    match spec_u32le(s, pos) {
        Err(_) => Err(IDBError::DeserializingError),
        Ok((c1, p1)) => match spec_u32le(s, p1) {
            Err(_) => Err(IDBError::DeserializingError),
            Ok((c2, p2)) => match spec_u32le(s, p2) {
                Err(_) => Err(IDBError::DeserializingError),
                Ok((c3, p3)) => match spec_u32le(s, p3) {
                    Err(_) => Err(IDBError::DeserializingError),
                    Ok((c4, p4)) => match spec_u32le(s, p4) {
                        Err(_) => Err(IDBError::DeserializingError),
                        Ok((c5, p5)) => match spec_u64le(s, p5) {
                            Err(_) => Err(IDBError::DeserializingError),
                            Ok((offset6, p6)) => match spec_u32le(s, p6) {
                                Err(_) => Err(IDBError::DeserializingError),
                                Ok((c6, _p7)) => Ok(
                                    IDBHeaderV {
                                        checksum1: c1,
                                        checksum2: c2,
                                        checksum3: c3,
                                        checksum4: c4,
                                        checksum5: c5,
                                        offset6,
                                        checksum6: c6,
                                        ..h
                                    },
                                ),
                            },
                        },
                    },
                },
            },
        },
    }
}

/// Whether the header's signature names a supported container.
pub open spec fn spec_sig_ok(sig: Seq<u8>) -> bool {
    sig == seq![0x49u8, 0x44u8, 0x41u8, 0x30u8] || sig == seq![0x49u8, 0x44u8, 0x41u8, 0x31u8]
        || sig == seq![0x49u8, 0x44u8, 0x41u8, 0x32u8]
}

/// Header validation: the signature must name a supported container, the
/// secondary magic must match, and the version must be six.  Each check
/// has its own error, in that order.
pub open spec fn spec_header_check(v: IDBHeaderV) -> Result<(), IDBError> {
    if !spec_sig_ok(v.sig) {
        Err(IDBError::InvalidSignature)
    } else if v.sig2 != 0xAABBCCDD {
        Err(IDBError::InvalidSecondaryMagic)
    } else if v.version != 0x6 {
        Err(IDBError::UnsupportedVersion)
    } else {
        Ok(())
    }
}

impl IDBHeader2 {
    /// Whether every header validation check passes.
    pub fn is_valid(&self) -> (r: bool)
        ensures
            r == (spec_sig_ok(self.signature@) && self.sig2 == 0xAABBCCDD && self.version == 0x6),
    {
        let s = &self.signature;
        let sig_ok = s[0] == 0x49 && s[1] == 0x44 && s[2] == 0x41 && (s[3] == 0x30 || s[3] == 0x31
            || s[3] == 0x32);
        proof {
            if sig_ok {
                if s@[3] == 0x30 {
                    assert(s@ =~= seq![0x49u8, 0x44u8, 0x41u8, 0x30u8]);
                } else if s@[3] == 0x31 {
                    assert(s@ =~= seq![0x49u8, 0x44u8, 0x41u8, 0x31u8]);
                } else {
                    assert(s@ =~= seq![0x49u8, 0x44u8, 0x41u8, 0x32u8]);
                }
            }
        }
        sig_ok && self.sig2 == 0xAABBCCDD && self.version == 0x6
    }
}

/// The window of a section at a header offset: absent for offset zero, the
/// 9-byte section header and exactly `length` payload bytes otherwise, and
/// `InvalidOffset` where the file cannot hold them.
pub open spec fn spec_section_window(s: Seq<u8>, off: u64) -> Result<
    (IDBSectionHeader, Seq<u8>),
    IDBError,
> {
    if off == 0 {
        Err(IDBError::SectionUnset)
    } else {
        match spec_section_header(s, off as int) {
            Err(_) => Err(IDBError::InvalidOffset),
            Ok((h, p)) => if p + h.length > s.len() {
                Err(IDBError::InvalidOffset)
            } else {
                Ok((h, s.subrange(p, p + h.length)))
            },
        }
    }
}

/// Reads a section window: the framing header and a copy of the payload.
fn read_section_window(data: &[u8], off: u64) -> (r: Result<(IDBSectionHeader, Vec<u8>), IDBError>)
    ensures
        match (r, spec_section_window(data@, off)) {
            (Ok((h, v)), Ok((sh, sv))) => h == sh && v@ == sv,
            (Err(e), Err(se)) => e == se,
            _ => false,
        },
{
    if off == 0 {
        return Err(IDBError::SectionUnset);
    }
    if off > data.len() as u64 {
        return Err(IDBError::InvalidOffset);
    }
    let (h, p) = match parse_section_header(data, off as usize) {
        Ok(v) => v,
        Err(_) => { return Err(IDBError::InvalidOffset) },
    };
    if h.length > (data.len() - p) as u64 {
        return Err(IDBError::InvalidOffset);
    }
    let end = p + h.length as usize;
    let mut v: Vec<u8> = Vec::new();
    let mut i = p;
    while i < end
        invariant
            p <= i <= end <= data@.len(),
            v@ =~= data@.subrange(p as int, i as int),
        decreases end - i,
    {
        v.push(data[i]);
        i = i + 1;
    }
    proof {
        assert(v@ =~= data@.subrange(p as int, p + h.length));
    }
    Ok((h, v))
}

/// How a parsed ID0 slot must relate to the file bytes and its offset.
pub open spec fn id0_slot_model(r: Result<ID0Section, IDBError>, s: Seq<u8>, off: u64) -> bool {
    match spec_section_window(s, off) {
        Err(e) => r == Err::<ID0Section, IDBError>(e),
        Ok((h, payload)) => match spec_id0_preamble(payload) {
            Err(_) => r == Err::<ID0Section, IDBError>(IDBError::DeserializingError),
            Ok(v) => {
                &&& r matches Ok(sec)
                &&& sec.header == h
                &&& sec.next_free_offset == v.next_free_offset
                &&& sec.page_size == v.page_size
                &&& sec.root_page == v.root_page
                &&& sec.record_count == v.record_count
                &&& sec.page_count == v.page_count
                &&& sec.signature_bytes@ == v.signature
                &&& sec.btree_version@ == utf8_lossy_of(
                    spec_version_digits(v.signature, 0, Seq::empty()),
                )
                &&& sec.pages@.len() == v.page_count + 1
                &&& forall|p: int|
                    1 <= p <= v.page_count ==> page_slot_model(
                        #[trigger] sec.pages@[p],
                        payload,
                        v.page_size,
                        p,
                    )
            },
        },
    }
}

/// How a parsed TIL slot must relate to the file bytes and its offset.
pub open spec fn til_slot_model(r: Result<TILSection, IDBError>, s: Seq<u8>, off: u64) -> bool {
    match spec_section_window(s, off) {
        Err(e) => r == Err::<TILSection, IDBError>(e),
        Ok((_h, payload)) => match spec_til_section(payload, 0) {
            Err(e2) => r == Err::<TILSection, IDBError>(e2),
            Ok((v, _)) => r matches Ok(t) && til_model(t, v),
        },
    }
}

/// How an opaque slot must relate to the file bytes and its offset: the
/// framing header and the payload, kept byte-identical.
pub open spec fn opaque_slot_model(
    r: Option<(IDBSectionHeader, Seq<u8>)>,
    s: Seq<u8>,
    off: u64,
    e: Option<IDBError>,
) -> bool {
    match spec_section_window(s, off) {
        Err(err) => r is None && e == Some(err),
        Ok((h, payload)) => r matches Some((rh, rp)) && rh == h && rp == payload && e is None,
    }
}

/// The parsed container: the header and one result per section.  A section
/// result is `SectionUnset` for a zero offset, `InvalidOffset` where the
/// window does not fit the file, and otherwise the section's own outcome.
#[derive(Debug)]
pub struct IDB {
    pub header: IDBHeader2,
    pub id0: Result<ID0Section, IDBError>,
    pub id1: Result<ID1Section, IDBError>,
    pub nam: Result<NAMSection, IDBError>,
    pub seg: Result<SEGSection, IDBError>,
    pub til: Result<TILSection, IDBError>,
    pub id2: Result<ID2Section, IDBError>,
}

impl IDB {
    /// Parses a whole IDB file.  The result is an error exactly when the
    /// header cannot be read or fails validation; each section then
    /// carries its own per-section outcome, and a zero offset leaves the
    /// section absent.
    #[verifier::rlimit(100)]
    pub fn parse(bytes: &[u8]) -> (r: Result<IDB, IDBError>)
        ensures
            match (r, spec_idb_header(bytes@)) {
                (Err(e), Err(se)) => e == se,
                (Err(e), Ok(hv)) => spec_header_check(hv) == Err::<(), IDBError>(e),
                (Ok(idb), Ok(hv)) => {
                    &&& header_model(idb.header, hv)
                    &&& spec_header_check(hv) is Ok
                    &&& id0_slot_model(idb.id0, bytes@, hv.offset1)
                    &&& match idb.id1 {
                        Ok(sec) => opaque_slot_model(
                            Some((sec.header, sec.section_buffer@)),
                            bytes@,
                            hv.offset2,
                            None,
                        ),
                        Err(e) => opaque_slot_model(None, bytes@, hv.offset2, Some(e)),
                    }
                    &&& match idb.nam {
                        Ok(sec) => opaque_slot_model(
                            Some((sec.header, sec.section_buffer@)),
                            bytes@,
                            hv.offset3,
                            None,
                        ),
                        Err(e) => opaque_slot_model(None, bytes@, hv.offset3, Some(e)),
                    }
                    &&& match idb.seg {
                        Ok(sec) => opaque_slot_model(
                            Some((sec.header, sec.section_buffer@)),
                            bytes@,
                            hv.offset4,
                            None,
                        ),
                        Err(e) => opaque_slot_model(None, bytes@, hv.offset4, Some(e)),
                    }
                    &&& til_slot_model(idb.til, bytes@, hv.offset5)
                    &&& match idb.id2 {
                        Ok(sec) => opaque_slot_model(
                            Some((sec.header, sec.section_buffer@)),
                            bytes@,
                            hv.offset6,
                            None,
                        ),
                        Err(e) => opaque_slot_model(None, bytes@, hv.offset6, Some(e)),
                    }
                },
                (Ok(_), Err(_)) => false,
            },
    {
        let header = match Self::parse_header(bytes) {
            Ok(h) => h,
            Err(e) => { return Err(e) },
        };
        if !(header.signature[0] == 0x49 && header.signature[1] == 0x44 && header.signature[2]
            == 0x41 && (header.signature[3] == 0x30 || header.signature[3] == 0x31
            || header.signature[3] == 0x32)) {
            proof {
                assert(!spec_sig_ok(header.signature@));
            }
            return Err(IDBError::InvalidSignature);
        }
        proof {
            if header.signature@[3] == 0x30 {
                assert(header.signature@ =~= seq![0x49u8, 0x44u8, 0x41u8, 0x30u8]);
            } else if header.signature@[3] == 0x31 {
                assert(header.signature@ =~= seq![0x49u8, 0x44u8, 0x41u8, 0x31u8]);
            } else {
                assert(header.signature@ =~= seq![0x49u8, 0x44u8, 0x41u8, 0x32u8]);
            }
        }
        if header.sig2 != 0xAABBCCDD {
            return Err(IDBError::InvalidSecondaryMagic);
        }
        if header.version != 0x6 {
            return Err(IDBError::UnsupportedVersion);
        }
        let id0 = match read_section_window(bytes, header.offset1) {
            Err(e) => Err(e),
            Ok((h, payload)) => match ID0Section::parse(payload.as_slice(), h) {
                Ok(sec) => Ok(sec),
                Err(_) => Err(IDBError::DeserializingError),
            },
        };
        let id1 = match read_section_window(bytes, header.offset2) {
            Err(e) => Err(e),
            Ok((h, payload)) => Ok(ID1Section { section_buffer: payload, header: h }),
        };
        let nam = match read_section_window(bytes, header.offset3) {
            Err(e) => Err(e),
            Ok((h, payload)) => Ok(NAMSection { section_buffer: payload, header: h }),
        };
        let seg = match read_section_window(bytes, header.offset4) {
            Err(e) => Err(e),
            Ok((h, payload)) => Ok(SEGSection { section_buffer: payload, header: h }),
        };
        let til = match read_section_window(bytes, header.offset5) {
            Err(e) => Err(e),
            Ok((_h, payload)) => match parse_til_section(payload.as_slice(), 0) {
                Ok((t, _)) => Ok(t),
                Err(e) => Err(e),
            },
        };
        let id2 = match read_section_window(bytes, header.offset6) {
            Err(e) => Err(e),
            Ok((h, payload)) => Ok(ID2Section { section_buffer: payload, header: h }),
        };
        Ok(IDB { header, id0, id1, nam, seg, til, id2 })
    }

    /// Reads the fixed-layout file header.
    fn parse_header(bytes: &[u8]) -> (r: Result<IDBHeader2, IDBError>)
        ensures
            match (r, spec_idb_header(bytes@)) {
                (Ok(h), Ok(v)) => header_model(h, v),
                (Err(e), Err(se)) => e == se,
                _ => false,
            },
    {
        if bytes.len() < 4 {
            return Err(IDBError::DeserializingError);
        }
        let signature = [bytes[0], bytes[1], bytes[2], bytes[3]];
        proof {
            assert(signature@ =~= bytes@.subrange(0, 4));
        }
        let (unk, p1) = match parse_u16le(bytes, 4) {
            Ok(v) => v,
            Err(_) => { return Err(IDBError::DeserializingError) },
        };
        let (offset1, p2) = match parse_u64le(bytes, p1) {
            Ok(v) => v,
            Err(_) => { return Err(IDBError::DeserializingError) },
        };
        let (offset2, p3) = match parse_u64le(bytes, p2) {
            Ok(v) => v,
            Err(_) => { return Err(IDBError::DeserializingError) },
        };
        let (unk2, p4) = match parse_u32le(bytes, p3) {
            Ok(v) => v,
            Err(_) => { return Err(IDBError::DeserializingError) },
        };
        let (sig2, p5) = match parse_u32le(bytes, p4) {
            Ok(v) => v,
            Err(_) => { return Err(IDBError::DeserializingError) },
        };
        let (version, p6) = match parse_u16le(bytes, p5) {
            Ok(v) => v,
            Err(_) => { return Err(IDBError::DeserializingError) },
        };
        let (offset3, p7) = match parse_u64le(bytes, p6) {
            Ok(v) => v,
            Err(_) => { return Err(IDBError::DeserializingError) },
        };
        let (offset4, p8) = match parse_u64le(bytes, p7) {
            Ok(v) => v,
            Err(_) => { return Err(IDBError::DeserializingError) },
        };
        let (offset5, p9) = match parse_u64le(bytes, p8) {
            Ok(v) => v,
            Err(_) => { return Err(IDBError::DeserializingError) },
        };
        let (checksum1, p10) = match parse_u32le(bytes, p9) {
            Ok(v) => v,
            Err(_) => { return Err(IDBError::DeserializingError) },
        };
        let (checksum2, p11) = match parse_u32le(bytes, p10) {
            Ok(v) => v,
            Err(_) => { return Err(IDBError::DeserializingError) },
        };
        let (checksum3, p12) = match parse_u32le(bytes, p11) {
            Ok(v) => v,
            Err(_) => { return Err(IDBError::DeserializingError) },
        };
        let (checksum4, p13) = match parse_u32le(bytes, p12) {
            Ok(v) => v,
            Err(_) => { return Err(IDBError::DeserializingError) },
        };
        let (checksum5, p14) = match parse_u32le(bytes, p13) {
            Ok(v) => v,
            Err(_) => { return Err(IDBError::DeserializingError) },
        };
        let (offset6, p15) = match parse_u64le(bytes, p14) {
            Ok(v) => v,
            Err(_) => { return Err(IDBError::DeserializingError) },
        };
        let (checksum6, _p16) = match parse_u32le(bytes, p15) {
            Ok(v) => v,
            Err(_) => { return Err(IDBError::DeserializingError) },
        };
        Ok(
            IDBHeader2 {
                signature,
                unk,
                offset1,
                offset2,
                unk2,
                sig2,
                version,
                offset3,
                offset4,
                offset5,
                checksum1,
                checksum2,
                checksum3,
                checksum4,
                checksum5,
                offset6,
                checksum6,
            },
        )
    }
}

} // verus!

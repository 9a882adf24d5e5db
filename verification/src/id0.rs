//! The ID0 B-tree paged key-value store: preamble, pages, and the
//! reconstruction of prefix-compressed leaf keys.

use vstd::prelude::*;

use crate::codec::{
    spec_u16le, spec_u32le, spec_u8at, parse_u16le, parse_u32le, parse_u8at,
};
use crate::errors::CodecError;
use crate::sections::IDBSectionHeader;
use crate::strutil::{lossy_string, utf8_lossy_of};

verus! {

broadcast use vstd::seq::group_seq_axioms;

/// One reconstructed key-value pair of a page.
#[derive(Debug)]
pub struct KeyValueEntry {
    pub key: Vec<u8>,
    pub value: Vec<u8>,
    pub is_leaf: bool,
}

/// The ghost model of one key-value pair.
pub ghost struct KeyValueEntryV {
    pub key: Seq<u8>,
    pub value: Seq<u8>,
    pub is_leaf: bool,
}

/// One page: its right-child pointer, declared entry count, and entries.
#[derive(Debug)]
pub struct Page {
    pub pointer: u32,
    pub entry_count: u16,
    pub kv_entries: Vec<KeyValueEntry>,
}

/// Parsed entries agree with their models, in order.
pub open spec fn kv_entries_model(es: Seq<KeyValueEntry>, vs: Seq<KeyValueEntryV>) -> bool {
    &&& es.len() == vs.len()
    &&& forall|i: int|
        0 <= i < vs.len() ==> {
            &&& (#[trigger] es[i]).key@ == vs[i].key
            &&& es[i].value@ == vs[i].value
            &&& es[i].is_leaf == vs[i].is_leaf
        }
}

/// The record a pointer record points at: a 16-bit key length, the key
/// bytes, a 16-bit value length, and the value bytes, all within the page.
pub open spec fn spec_kv_record(d: Seq<u8>, off: int) -> Result<(Seq<u8>, Seq<u8>), CodecError> {
    match spec_u16le(d, off) {
        Err(e) => Err(e),
        Ok((klen, p1)) => if p1 + klen > d.len() {
            Err(CodecError::ShortRead)
        } else {
            let key = d.subrange(p1, p1 + klen);
            match spec_u16le(d, p1 + klen) {
                Err(e) => Err(e),
                Ok((vlen, p2)) => if p2 + vlen > d.len() {
                    Err(CodecError::ShortRead)
                } else {
                    Ok((key, d.subrange(p2, p2 + vlen)))
                },
            }
        },
    }
}

/// The entries of one page, walked in order.  A leaf entry's effective key
/// is the first `min(common_prefix, |previous key|)` bytes of the previous
/// effective key followed by the stored suffix; branch keys are stored
/// whole.  The previous-key register starts empty on every page.
pub open spec fn spec_page_entries(
    d: Seq<u8>,
    idx: int,
    left: u16,
    is_leaf: bool,
    prev: Seq<u8>,
    acc: Seq<KeyValueEntryV>,
) -> Result<Seq<KeyValueEntryV>, CodecError>
    decreases left,
{
    if left == 0 {
        Ok(acc)
    } else {
        let ptr_off = 6 + idx * 6;
        if is_leaf {
            match spec_u16le(d, ptr_off) {
                Err(e) => Err(e),
                Ok((cp, _)) => match spec_u16le(d, ptr_off + 4) {
                    Err(e) => Err(e),
                    Ok((off, _)) => match spec_kv_record(d, off as int) {
                        Err(e) => Err(e),
                        Ok((suffix, value)) => {
                            let take = if cp <= prev.len() {
                                cp as int
                            } else {
                                prev.len() as int
                            };
                            let key = prev.take(take) + suffix;
                            spec_page_entries(
                                d,
                                idx + 1,
                                (left - 1) as u16,
                                is_leaf,
                                key,
                                acc.push(KeyValueEntryV { key, value, is_leaf: true }),
                            )
                        },
                    },
                },
            }
        } else {
            match spec_u16le(d, ptr_off + 4) {
                Err(e) => Err(e),
                Ok((off, _)) => match spec_kv_record(d, off as int) {
                    Err(e) => Err(e),
                    Ok((key, value)) => spec_page_entries(
                        d,
                        idx + 1,
                        (left - 1) as u16,
                        is_leaf,
                        key,
                        acc.push(KeyValueEntryV { key, value, is_leaf: false }),
                    ),
                },
            }
        }
    }
}

/// One page from its `page_size` bytes: right-child pointer, entry count,
/// then the entries.  A page is a leaf exactly when its pointer is zero.
pub open spec fn spec_page(d: Seq<u8>) -> Result<(u32, u16, Seq<KeyValueEntryV>), CodecError> {
    match spec_u32le(d, 0) {
        Err(e) => Err(e),
        Ok((pointer, _)) => match spec_u16le(d, 4) {
            Err(e) => Err(e),
            Ok((count, _)) => match spec_page_entries(
                d,
                0,
                count,
                pointer == 0,
                Seq::empty(),
                Seq::empty(),
            ) {
                Err(e) => Err(e),
                Ok(entries) => Ok((pointer, count, entries)),
            },
        },
    }
}

/// Every successful page walk yields exactly as many entries as it was
/// asked for.
pub proof fn lemma_page_entry_count(
    d: Seq<u8>,
    idx: int,
    left: u16,
    is_leaf: bool,
    prev: Seq<u8>,
    acc: Seq<KeyValueEntryV>,
)
    ensures
        spec_page_entries(d, idx, left, is_leaf, prev, acc) matches Ok(es) ==> es.len()
            == acc.len() + left,
    decreases left,
{
    if left != 0 {
        let ptr_off = 6 + idx * 6;
        if is_leaf {
            match spec_u16le(d, ptr_off) {
                Err(_) => {},
                Ok((cp, _)) => match spec_u16le(d, ptr_off + 4) {
                    Err(_) => {},
                    Ok((off, _)) => match spec_kv_record(d, off as int) {
                        Err(_) => {},
                        Ok((suffix, value)) => {
                            let take = if cp <= prev.len() {
                                cp as int
                            } else {
                                prev.len() as int
                            };
                            let key = prev.take(take) + suffix;
                            lemma_page_entry_count(
                                d,
                                idx + 1,
                                (left - 1) as u16,
                                is_leaf,
                                key,
                                acc.push(KeyValueEntryV { key, value, is_leaf: true }),
                            );
                        },
                    },
                },
            }
        } else {
            match spec_u16le(d, ptr_off + 4) {
                Err(_) => {},
                Ok((off, _)) => match spec_kv_record(d, off as int) {
                    Err(_) => {},
                    Ok((key, value)) => {
                        lemma_page_entry_count(
                            d,
                            idx + 1,
                            (left - 1) as u16,
                            is_leaf,
                            key,
                            acc.push(KeyValueEntryV { key, value, is_leaf: false }),
                        );
                    },
                },
            }
        }
    }
}

/// Copies `d[from..to]` into a fresh vector.
fn copy_range(d: &[u8], from: usize, to: usize) -> (r: Vec<u8>)
    requires
        from <= to <= d@.len(),
    ensures
        r@ == d@.subrange(from as int, to as int),
{
    let mut v: Vec<u8> = Vec::new();
    let mut i = from;
    while i < to
        invariant
            from <= i <= to <= d@.len(),
            v@ =~= d@.subrange(from as int, i as int),
        decreases to - i,
    {
        v.push(d[i]);
        i = i + 1;
    }
    proof {
        assert(v@ =~= d@.subrange(from as int, to as int));
    }
    v
}

fn parse_kv_record(d: &[u8], off: usize) -> (r: Result<(Vec<u8>, Vec<u8>), CodecError>)
    ensures
        match (r, spec_kv_record(d@, off as int)) {
            (Ok((k, v)), Ok((sk, sv))) => k@ == sk && v@ == sv,
            (Err(e), Err(se)) => e == se,
            _ => false,
        },
{
    let (klen, p1) = match parse_u16le(d, off) {
        Ok(v) => v,
        Err(e) => { return Err(e) },
    };
    if (klen as usize) > d.len() - p1 {
        return Err(CodecError::ShortRead);
    }
    let key = copy_range(d, p1, p1 + klen as usize);
    let (vlen, p2) = match parse_u16le(d, p1 + klen as usize) {
        Ok(v) => v,
        Err(e) => { return Err(e) },
    };
    if (vlen as usize) > d.len() - p2 {
        return Err(CodecError::ShortRead);
    }
    let value = copy_range(d, p2, p2 + vlen as usize);
    Ok((key, value))
}

impl Page {
    /// Parses the entries of a page, reconstructing leaf keys from their
    /// common prefix with the previous key.
    fn parse_entries(entry_count: u16, is_leaf: bool, contents: &[u8]) -> (r: Result<
        Vec<KeyValueEntry>,
        CodecError,
    >)
        ensures
            match (
                r,
                spec_page_entries(
                    contents@,
                    0,
                    entry_count,
                    is_leaf,
                    Seq::empty(),
                    Seq::empty(),
                ),
            ) {
                (Ok(es), Ok(vs)) => kv_entries_model(es@, vs),
                (Err(e), Err(se)) => e == se,
                _ => false,
            },
    {
        let mut out: Vec<KeyValueEntry> = Vec::new();
        let mut prev: Vec<u8> = Vec::new();
        let ghost mut accv: Seq<KeyValueEntryV> = Seq::empty();
        let mut idx: usize = 0;
        let mut left = entry_count;
        loop
            invariant_except_break
                idx == entry_count - left,
                left <= entry_count,
                kv_entries_model(out@, accv),
                spec_page_entries(contents@, 0, entry_count, is_leaf, Seq::empty(), Seq::empty())
                    == spec_page_entries(
                    contents@,
                    idx as int,
                    left,
                    is_leaf,
                    prev@,
                    accv,
                ),
            ensures
                ({
                    let res = spec_page_entries(
                        contents@,
                        0,
                        entry_count,
                        is_leaf,
                        Seq::empty(),
                        Seq::empty(),
                    );
                    res matches Ok(vs) && kv_entries_model(out@, vs)
                }),
            decreases left,
        {
            if left == 0 {
                break ;
            }
            let ptr_off = 6 + idx * 6;
            if is_leaf {
                let (cp, _) = match parse_u16le(contents, ptr_off) {
                    Ok(v) => v,
                    Err(e) => { return Err(e) },
                };
                let (off, _) = match parse_u16le(contents, ptr_off + 4) {
                    Ok(v) => v,
                    Err(e) => { return Err(e) },
                };
                let (suffix, value) = match parse_kv_record(contents, off as usize) {
                    Ok(v) => v,
                    Err(e) => { return Err(e) },
                };
                let take: usize = if (cp as usize) <= prev.len() {
                    cp as usize
                } else {
                    prev.len()
                };
                let mut key = copy_range(prev.as_slice(), 0, take);
                let mut suffix2 = suffix;
                key.append(&mut suffix2);
                proof {
                    assert(key@ =~= prev@.take(take as int) + spec_kv_record(
                        contents@,
                        off as int,
                    )->Ok_0.0);
                }
                let keycopy = copy_range(key.as_slice(), 0, key.len());
                proof {
                    assert(keycopy@ =~= key@);
                    accv = accv.push(
                        KeyValueEntryV {
                            key: key@,
                            value: spec_kv_record(contents@, off as int)->Ok_0.1,
                            is_leaf: true,
                        },
                    );
                }
                out.push(KeyValueEntry { key, value, is_leaf: true });
                prev = keycopy;
            } else {
                let (off, _) = match parse_u16le(contents, ptr_off + 4) {
                    Ok(v) => v,
                    Err(e) => { return Err(e) },
                };
                let (key, value) = match parse_kv_record(contents, off as usize) {
                    Ok(v) => v,
                    Err(e) => { return Err(e) },
                };
                let keycopy = copy_range(key.as_slice(), 0, key.len());
                proof {
                    assert(keycopy@ =~= key@);
                    accv = accv.push(
                        KeyValueEntryV {
                            key: key@,
                            value: spec_kv_record(contents@, off as int)->Ok_0.1,
                            is_leaf: false,
                        },
                    );
                }
                out.push(KeyValueEntry { key, value, is_leaf: false });
                prev = keycopy;
            }
            idx = idx + 1;
            left = left - 1;
        }
        Ok(out)
    }

    /// Parses one page from exactly its `page_size` bytes.  On success the
    /// page holds exactly its declared number of entries.
    pub fn new(data: &[u8]) -> (r: Result<Page, CodecError>)
        ensures
            match (r, spec_page(data@)) {
                (Ok(p), Ok((ptr, cnt, vs))) => p.pointer == ptr && p.entry_count == cnt
                    && kv_entries_model(p.kv_entries@, vs) && p.kv_entries@.len() == cnt,
                (Err(e), Err(se)) => e == se,
                _ => false,
            },
    {
        let (pointer, _) = match parse_u32le(data, 0) {
            Ok(v) => v,
            Err(e) => { return Err(e) },
        };
        let (entry_count, _) = match parse_u16le(data, 4) {
            Ok(v) => v,
            Err(e) => { return Err(e) },
        };
        let kv_entries = match Page::parse_entries(entry_count, pointer == 0, data) {
            Ok(v) => v,
            Err(e) => { return Err(e) },
        };
        proof {
            lemma_page_entry_count(
                data@,
                0,
                entry_count,
                pointer == 0,
                Seq::empty(),
                Seq::empty(),
            );
        }
        Ok(Page { pointer, entry_count, kv_entries })
    }

    /// Slices the section bytes into pages and parses each: page numbers
    /// run from one (slot zero, the preamble, stays empty), and a page
    /// whose bytes are out of range or malformed yields an empty slot.
    pub fn collect_pages(page_size: u16, page_count: u32, bytes: &[u8]) -> (r: Vec<Option<Page>>)
        ensures
            r@.len() == page_count + 1,
            r@[0] is None,
            forall|p: int|
                1 <= p <= page_count ==> page_slot_model(#[trigger] r@[p], bytes@, page_size, p),
    {
        let n = bytes.len();
        let mut out: Vec<Option<Page>> = Vec::new();
        out.push(None);
        let mut p: u64 = 1;
        while p <= page_count as u64
            invariant
                1 <= p <= page_count + 1,
                n == bytes@.len(),
                out@.len() == p,
                out@[0] is None,
                forall|q: int|
                    1 <= q < p ==> page_slot_model(#[trigger] out@[q], bytes@, page_size, q),
            decreases page_count + 1 - p,
        {
            proof {
                assert((page_size as u64) * p <= 65535u64 * 0x100000000u64) by (nonlinear_arith)
                    requires
                        page_size <= 65535 && p <= 0x100000000u64,
                ;
            }
            let start_ok = (page_size as u64) * p <= (usize::MAX as u64);
            let slot: Option<Page> = if !start_ok {
                None
            } else {
                let start = (page_size as usize) * (p as usize);
                if page_size == 0 || start > n || (page_size as usize) > n - start {
                    None
                } else {
                    let page_bytes = copy_range(bytes, start, start + page_size as usize);
                    match Page::new(page_bytes.as_slice()) {
                        Ok(pg) => Some(pg),
                        Err(_) => None,
                    }
                }
            };
            proof {
                assert(page_slot_model(slot, bytes@, page_size, p as int));
            }
            out.push(slot);
            p = p + 1;
        }
        out
    }
}

/// A byte that may appear in the B-tree version text: a digit or a dot.
pub open spec fn spec_digit_or_dot(b: u8) -> bool {
    (0x30 <= b && b <= 0x39) || b == 0x2e
}

/// The first three digit-or-dot bytes of the signature text, in order: the
/// B-tree version as it is written in the preamble.
pub open spec fn spec_version_digits(sig: Seq<u8>, i: int, acc: Seq<u8>) -> Seq<u8>
    decreases sig.len() - i,
{
    if !(0 <= i < sig.len()) || acc.len() >= 3 {
        acc
    } else if spec_digit_or_dot(sig[i]) {
        spec_version_digits(sig, i + 1, acc.push(sig[i]))
    } else {
        spec_version_digits(sig, i + 1, acc)
    }
}

/// The ID0 section: its preamble and its pages.  The version is kept as the
/// text the preamble spells (up to three digit-or-dot characters).
#[derive(Debug)]
pub struct ID0Section {
    pub header: IDBSectionHeader,
    pub next_free_offset: u32,
    pub page_size: u16,
    pub root_page: u32,
    pub record_count: u32,
    pub page_count: u32,
    pub unk: u8,
    pub signature: String,
    pub signature_bytes: Vec<u8>,
    pub btree_version: String,
    pub pages: Vec<Option<Page>>,
}

/// The preamble at the start of the section payload.
pub ghost struct ID0PreambleV {
    pub next_free_offset: u32,
    pub page_size: u16,
    pub root_page: u32,
    pub record_count: u32,
    pub page_count: u32,
    pub unk: u8,
    pub signature: Seq<u8>,
}

/// The preamble: five scalar fields, one reserved byte, and 25 signature
/// bytes.
pub open spec fn spec_id0_preamble(s: Seq<u8>) -> Result<ID0PreambleV, CodecError> {
    match spec_u32le(s, 0) {
        Err(e) => Err(e),
        Ok((nfo, p1)) => match spec_u16le(s, p1) {
            Err(e) => Err(e),
            Ok((psize, p2)) => match spec_u32le(s, p2) {
                Err(e) => Err(e),
                Ok((root, p3)) => match spec_u32le(s, p3) {
                    Err(e) => Err(e),
                    Ok((rcount, p4)) => match spec_u32le(s, p4) {
                        Err(e) => Err(e),
                        Ok((pcount, p5)) => match spec_u8at(s, p5) {
                            Err(e) => Err(e),
                            Ok((unk, p6)) => if p6 + 25 > s.len() {
                                Err(CodecError::ShortRead)
                            } else {
                                Ok(
                                    ID0PreambleV {
                                        next_free_offset: nfo,
                                        page_size: psize,
                                        root_page: root,
                                        record_count: rcount,
                                        page_count: pcount,
                                        unk,
                                        signature: s.subrange(p6, p6 + 25),
                                    },
                                )
                            },
                        },
                    },
                },
            },
        },
    }
}

impl ID0Section {
    /// Parses the ID0 section from its payload bytes (the preamble at the
    /// start, the pages following at page-size boundaries), recording the
    /// framing header alongside.
    pub fn parse(bytes: &[u8], header: IDBSectionHeader) -> (r: Result<ID0Section, CodecError>)
        ensures
            match (r, spec_id0_preamble(bytes@)) {
                (Ok(sec), Ok(v)) => {
                    &&& sec.header == header
                    &&& sec.next_free_offset == v.next_free_offset
                    &&& sec.page_size == v.page_size
                    &&& sec.root_page == v.root_page
                    &&& sec.record_count == v.record_count
                    &&& sec.page_count == v.page_count
                    &&& sec.unk == v.unk
                    &&& sec.signature_bytes@ == v.signature
                    &&& sec.signature@ == utf8_lossy_of(v.signature)
                    &&& sec.btree_version@ == utf8_lossy_of(
                        spec_version_digits(v.signature, 0, Seq::empty()),
                    )
                    &&& sec.pages@.len() == v.page_count + 1
                    &&& sec.pages@[0] is None
                    &&& forall|p: int|
                        1 <= p <= v.page_count ==> page_slot_model(
                            #[trigger] sec.pages@[p],
                            bytes@,
                            v.page_size,
                            p,
                        )
                },
                (Err(e), Err(se)) => e == se,
                _ => false,
            },
    {
        let (nfo, p1) = match parse_u32le(bytes, 0) {
            Ok(v) => v,
            Err(e) => { return Err(e) },
        };
        let (psize, p2) = match parse_u16le(bytes, p1) {
            Ok(v) => v,
            Err(e) => { return Err(e) },
        };
        let (root, p3) = match parse_u32le(bytes, p2) {
            Ok(v) => v,
            Err(e) => { return Err(e) },
        };
        let (rcount, p4) = match parse_u32le(bytes, p3) {
            Ok(v) => v,
            Err(e) => { return Err(e) },
        };
        let (pcount, p5) = match parse_u32le(bytes, p4) {
            Ok(v) => v,
            Err(e) => { return Err(e) },
        };
        let (unk, p6) = match parse_u8at(bytes, p5) {
            Ok(v) => v,
            Err(e) => { return Err(e) },
        };
        if 25 > bytes.len() - p6 {
            return Err(CodecError::ShortRead);
        }
        let signature_bytes = copy_range(bytes, p6, p6 + 25);
        let mut digits: Vec<u8> = Vec::new();
        let mut i: usize = 0;
        loop
            invariant_except_break
                i <= signature_bytes@.len(),
                spec_version_digits(signature_bytes@, 0, Seq::empty()) == spec_version_digits(
                    signature_bytes@,
                    i as int,
                    digits@,
                ),
            ensures
                digits@ == spec_version_digits(signature_bytes@, 0, Seq::empty()),
            decreases signature_bytes@.len() - i,
        {
            if i >= signature_bytes.len() || digits.len() >= 3 {
                break ;
            }
            let b = signature_bytes[i];
            if (0x30 <= b && b <= 0x39) || b == 0x2e {
                digits.push(b);
            }
            i = i + 1;
        }
        let signature = lossy_string(signature_bytes.as_slice());
        let btree_version = lossy_string(digits.as_slice());
        let pages = Page::collect_pages(psize, pcount, bytes);
        Ok(
            ID0Section {
                header,
                next_free_offset: nfo,
                page_size: psize,
                root_page: root,
                record_count: rcount,
                page_count: pcount,
                unk,
                signature,
                signature_bytes,
                btree_version,
                pages,
            },
        )
    }
}

/// The slot for page number `p` of a section agrees with the bytes: a page
/// window out of range or malformed gives an empty slot; otherwise the
/// page's fields and reconstructed entries are those of the window.
pub open spec fn page_slot_model(slot: Option<Page>, s: Seq<u8>, page_size: u16, p: int) -> bool {
    let start = page_size * p;
    if page_size == 0 || start + page_size > s.len() {
        slot is None
    } else {
        match spec_page(s.subrange(start, start + page_size)) {
            Ok((ptr, cnt, vs)) => {
                &&& slot matches Some(pg)
                &&& pg.pointer == ptr
                &&& pg.entry_count == cnt
                &&& kv_entries_model(pg.kv_entries@, vs)
            },
            Err(_) => slot is None,
        }
    }
}

} // verus!

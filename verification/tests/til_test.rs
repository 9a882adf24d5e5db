//! Tests of TIL buckets, zlib inflation, entries, and ID0 pages.

use idb_parser::til::{parse_til_bucket, parse_til_bucket_zip, parse_type_info};
use idb_parser::{BucketFailure, Page, TILBucketType, TILSection, Types};

/// One minimal type entry: flags 0, name "A", 32-bit ordinal 7, a type run
/// of one terminal int32 tag, empty comment, fields and field comments,
/// storage class 1.
fn minimal_entry() -> Vec<u8> {
    let mut v: Vec<u8> = Vec::new();
    v.extend_from_slice(&0u32.to_le_bytes()); // flags
    v.extend_from_slice(b"A\0"); // name
    v.extend_from_slice(&7u32.to_le_bytes()); // ordinal (32-bit form)
    v.extend_from_slice(&[0x04, 0x00]); // type run: int32, terminator
    v.push(0); // comment
    v.push(0); // field names
    v.push(0); // field comments
    v.push(1); // storage class
    v
}

#[test]
fn type_info_entry_parses() {
    let e = minimal_entry();
    let (ti, used) = parse_type_info(&e, 0, 0).unwrap();
    assert_eq!(used, e.len());
    assert_eq!(ti.flags, 0);
    assert_eq!(ti.name, "A");
    assert_eq!(ti.ordinal.value(), 7);
    assert!(matches!(ti.tinfo, Types::Unset(m) if m.0 == 0x04));
    assert_eq!(ti.sclass, 1);
    assert!(ti.tinfo_remainder.is_empty());
}

#[test]
fn plain_bucket_holds_declared_entries() {
    let entry = minimal_entry();
    let mut payload: Vec<u8> = Vec::new();
    payload.extend_from_slice(&entry);
    payload.extend_from_slice(&entry);
    let mut bucket: Vec<u8> = Vec::new();
    bucket.extend_from_slice(&2u32.to_le_bytes()); // ndefs
    bucket.extend_from_slice(&(payload.len() as u32).to_le_bytes());
    bucket.extend_from_slice(&payload);
    let (b, used) = parse_til_bucket(&bucket, 0, 0).unwrap();
    assert_eq!(used, bucket.len());
    assert_eq!(b.ndefs, 2);
    assert_eq!(b.type_info.len(), 2);
    assert!(b.failure.is_none());
}

#[test]
fn short_bucket_records_entry_failure() {
    // Two entries declared, bytes for only one: the walk stops at the
    // second entry's offset, the first stays valid.
    let entry = minimal_entry();
    let mut bucket: Vec<u8> = Vec::new();
    bucket.extend_from_slice(&2u32.to_le_bytes());
    bucket.extend_from_slice(&(entry.len() as u32).to_le_bytes());
    bucket.extend_from_slice(&entry);
    let (b, _used) = parse_til_bucket(&bucket, 0, 0).unwrap();
    assert_eq!(b.type_info.len(), 1);
    assert!(b.type_info.len() <= b.ndefs as usize);
    match b.failure {
        Some(BucketFailure::Entry { offset, .. }) => assert_eq!(offset, entry.len()),
        other => panic!("expected an entry failure, got {:?}", other),
    }
}

#[test]
fn zip_bucket_inflates_to_declared_length() {
    let entry = minimal_entry();
    let compressed = miniz_oxide::deflate::compress_to_vec_zlib(&entry, 6);
    let mut bucket: Vec<u8> = Vec::new();
    bucket.extend_from_slice(&1u32.to_le_bytes()); // ndefs
    bucket.extend_from_slice(&(entry.len() as u32).to_le_bytes()); // uncompressed length
    bucket.extend_from_slice(&(compressed.len() as u32).to_le_bytes());
    bucket.extend_from_slice(&compressed);
    let (b, used) = parse_til_bucket_zip(&bucket, 0, 0).unwrap();
    assert_eq!(used, bucket.len());
    // The stored payload is the inflated data, not the compressed bytes.
    assert_eq!(b.data, entry);
    assert_ne!(b.data, compressed);
    assert_eq!(b.type_info.len(), 1);
    assert!(b.failure.is_none());
}

#[test]
fn corrupt_zip_bucket_is_empty_with_decompression_failure() {
    let garbage = [0xDE, 0xAD, 0xBE, 0xEF];
    let mut bucket: Vec<u8> = Vec::new();
    bucket.extend_from_slice(&1u32.to_le_bytes());
    bucket.extend_from_slice(&100u32.to_le_bytes());
    bucket.extend_from_slice(&(garbage.len() as u32).to_le_bytes());
    bucket.extend_from_slice(&garbage);
    let (b, _used) = parse_til_bucket_zip(&bucket, 0, 0).unwrap();
    assert!(b.type_info.is_empty());
    assert!(b.data.is_empty());
    assert!(matches!(b.failure, Some(BucketFailure::Decompression)));
}

#[test]
fn wrong_inflated_length_is_decompression_failure() {
    // The payload inflates, but to a different length than declared.
    let entry = minimal_entry();
    let compressed = miniz_oxide::deflate::compress_to_vec_zlib(&entry, 6);
    let mut bucket: Vec<u8> = Vec::new();
    bucket.extend_from_slice(&1u32.to_le_bytes());
    bucket.extend_from_slice(&((entry.len() - 1) as u32).to_le_bytes());
    bucket.extend_from_slice(&(compressed.len() as u32).to_le_bytes());
    bucket.extend_from_slice(&compressed);
    let (b, _used) = parse_til_bucket_zip(&bucket, 0, 0).unwrap();
    assert!(matches!(b.failure, Some(BucketFailure::Decompression)));
}

#[test]
fn zipped_til_section_round_trips() {
    // A TIL section with the zip flag: three compressed empty buckets.
    let mut til: Vec<u8> = Vec::new();
    til.extend_from_slice(b"IDATIL");
    til.extend_from_slice(&0u32.to_le_bytes()); // format
    til.extend_from_slice(&1u32.to_le_bytes()); // flags: zip
    til.push(0); // title
    til.push(0); // base
    til.extend_from_slice(&[1, 2, 4, 1, 4, 0]);
    let empty = miniz_oxide::deflate::compress_to_vec_zlib(&[], 6);
    for _ in 0..3 {
        til.extend_from_slice(&0u32.to_le_bytes()); // ndefs
        til.extend_from_slice(&0u32.to_le_bytes()); // uncompressed length
        til.extend_from_slice(&(empty.len() as u32).to_le_bytes());
        til.extend_from_slice(&empty);
    }
    let sec = TILSection::parse(&til).unwrap();
    match sec.types {
        TILBucketType::Zip(z) => {
            assert_eq!(z.ndefs, 0);
            assert!(z.failure.is_none());
        },
        other => panic!("expected a zip bucket, got {:?}", other),
    }
}

#[test]
fn id0_page_reconstructs_prefixed_keys() {
    // One leaf page: pointer 0, two entries; the second key shares one
    // prefix byte with the first.
    let page_size = 64usize;
    let mut page = vec![0u8; page_size];
    page[0..4].copy_from_slice(&0u32.to_le_bytes()); // leaf
    page[4..6].copy_from_slice(&2u16.to_le_bytes()); // entry count
    // Entry pointers at 6 and 12: (common_prefix, pad, offset).
    page[6..8].copy_from_slice(&0u16.to_le_bytes());
    page[10..12].copy_from_slice(&20u16.to_le_bytes());
    page[12..14].copy_from_slice(&1u16.to_le_bytes());
    page[16..18].copy_from_slice(&30u16.to_le_bytes());
    // Record one at 20: key "a", value "x".
    page[20..22].copy_from_slice(&1u16.to_le_bytes());
    page[22] = b'a';
    page[23..25].copy_from_slice(&1u16.to_le_bytes());
    page[25] = b'x';
    // Record two at 30: key suffix "b", empty value.
    page[30..32].copy_from_slice(&1u16.to_le_bytes());
    page[32] = b'b';
    page[33..35].copy_from_slice(&0u16.to_le_bytes());
    let p = Page::new(&page).unwrap();
    assert_eq!(p.entry_count, 2);
    assert_eq!(p.kv_entries.len(), 2);
    assert_eq!(p.kv_entries[0].key, b"a");
    assert_eq!(p.kv_entries[0].value, b"x");
    assert_eq!(p.kv_entries[1].key, b"ab");
    assert!(p.kv_entries[1].value.is_empty());
}

#[test]
fn id0_overlong_prefix_is_clamped() {
    // The second entry claims a longer common prefix than the previous key
    // has; the prefix is clamped to the previous key's length.
    let page_size = 64usize;
    let mut page = vec![0u8; page_size];
    page[0..4].copy_from_slice(&0u32.to_le_bytes());
    page[4..6].copy_from_slice(&2u16.to_le_bytes());
    page[6..8].copy_from_slice(&0u16.to_le_bytes());
    page[10..12].copy_from_slice(&20u16.to_le_bytes());
    page[12..14].copy_from_slice(&9u16.to_le_bytes()); // prefix 9 > 1
    page[16..18].copy_from_slice(&30u16.to_le_bytes());
    page[20..22].copy_from_slice(&1u16.to_le_bytes());
    page[22] = b'a';
    page[23..25].copy_from_slice(&0u16.to_le_bytes());
    page[30..32].copy_from_slice(&1u16.to_le_bytes());
    page[32] = b'b';
    page[33..35].copy_from_slice(&0u16.to_le_bytes());
    let p = Page::new(&page).unwrap();
    assert_eq!(p.kv_entries[1].key, b"ab");
}

#[test]
fn id0_record_offset_outside_page_is_rejected() {
    let page_size = 64usize;
    let mut page = vec![0u8; page_size];
    page[0..4].copy_from_slice(&0u32.to_le_bytes());
    page[4..6].copy_from_slice(&1u16.to_le_bytes());
    page[6..8].copy_from_slice(&0u16.to_le_bytes());
    page[10..12].copy_from_slice(&200u16.to_le_bytes()); // outside the page
    assert!(Page::new(&page).is_err());
}

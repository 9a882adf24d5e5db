//! End-to-end tests over synthetic container and type-library files.

use idb_parser::{IDBError, TILBucketType, TILSection, IDB};

/// A minimal TIL file: `IDATIL`, format 0, flags 0, empty title and base,
/// six size bytes, and three empty plain buckets.
fn minimal_til() -> Vec<u8> {
    let mut v: Vec<u8> = Vec::new();
    v.extend_from_slice(b"IDATIL");
    v.extend_from_slice(&0u32.to_le_bytes()); // format
    v.extend_from_slice(&0u32.to_le_bytes()); // flags
    v.push(0); // title length
    v.push(0); // base length
    v.extend_from_slice(&[1, 2, 4, 1, 4, 0]); // id, cm, size_i, size_b, size_e, def_align
    for _ in 0..3 {
        v.extend_from_slice(&0u32.to_le_bytes()); // ndefs
        v.extend_from_slice(&0u32.to_le_bytes()); // uncompressed length
    }
    v
}

/// An IDB file whose only section is a TIL at a given offset.
fn idb_with_til(til: &[u8]) -> Vec<u8> {
    let mut v: Vec<u8> = Vec::new();
    v.extend_from_slice(b"IDA2");
    v.extend_from_slice(&0u16.to_le_bytes()); // pad
    v.extend_from_slice(&0u64.to_le_bytes()); // id0 offset
    v.extend_from_slice(&0u64.to_le_bytes()); // id1 offset
    v.extend_from_slice(&0u32.to_le_bytes()); // pad
    v.extend_from_slice(&0xAABBCCDDu32.to_le_bytes()); // secondary magic
    v.extend_from_slice(&0x0006u16.to_le_bytes()); // version
    v.extend_from_slice(&0u64.to_le_bytes()); // nam offset
    v.extend_from_slice(&0u64.to_le_bytes()); // seg offset
    v.extend_from_slice(&88u64.to_le_bytes()); // til offset
    v.extend_from_slice(&[0u8; 20]); // five checksums
    v.extend_from_slice(&0u64.to_le_bytes()); // id2 offset
    v.extend_from_slice(&0u32.to_le_bytes()); // final checksum
    assert_eq!(v.len(), 88);
    v.push(0); // section compression method
    v.extend_from_slice(&(til.len() as u64).to_le_bytes()); // section length
    v.extend_from_slice(til);
    v
}

#[test]
fn test_parse_idb() {
    let til = minimal_til();
    let bytes = idb_with_til(&til);
    let _idb = IDB::parse(&bytes).unwrap();
}

#[test]
fn test_parse_til() {
    let til = minimal_til();
    let _til = TILSection::parse(&til).unwrap();
}

#[test]
fn test_idb_til_same() {
    let til_bytes = minimal_til();
    let idb = IDB::parse(&idb_with_til(&til_bytes)).unwrap();
    let til = TILSection::parse(&til_bytes).unwrap();

    let idb_type_ndefs = match idb.til.unwrap().types {
        TILBucketType::Default(def) => def.ndefs as usize + def.type_info.len(),
        TILBucketType::Zip(zip) => zip.ndefs as usize + zip.type_info.len(),
    };
    let til_type_ndefs = match til.types {
        TILBucketType::Default(def) => def.ndefs as usize + def.type_info.len(),
        TILBucketType::Zip(zip) => zip.ndefs as usize + zip.type_info.len(),
    };

    assert_eq!(idb_type_ndefs, til_type_ndefs);
}

#[test]
fn header_accept_all_sections_absent() {
    // Signature, secondary magic and version accepted; six zero offsets
    // leave every section absent.
    let til: Vec<u8> = Vec::new();
    let mut bytes = idb_with_til(&til);
    // Zero out the til offset again to make all six offsets zero.
    for i in 48..56 {
        bytes[i] = 0;
    }
    let idb = IDB::parse(&bytes).unwrap();
    assert!(matches!(idb.id0, Err(IDBError::SectionUnset)));
    assert!(matches!(idb.id1, Err(IDBError::SectionUnset)));
    assert!(matches!(idb.nam, Err(IDBError::SectionUnset)));
    assert!(matches!(idb.seg, Err(IDBError::SectionUnset)));
    assert!(matches!(idb.til, Err(IDBError::SectionUnset)));
    assert!(matches!(idb.id2, Err(IDBError::SectionUnset)));
}

#[test]
fn header_reject_version_five() {
    let til = minimal_til();
    let mut bytes = idb_with_til(&til);
    bytes[30] = 0x05; // version low byte
    assert!(matches!(IDB::parse(&bytes), Err(IDBError::UnsupportedVersion)));
}

#[test]
fn header_reject_bad_signature() {
    let til = minimal_til();
    let mut bytes = idb_with_til(&til);
    bytes[0] = b'X';
    assert!(matches!(IDB::parse(&bytes), Err(IDBError::InvalidSignature)));
}

#[test]
fn header_reject_bad_secondary_magic() {
    let til = minimal_til();
    let mut bytes = idb_with_til(&til);
    bytes[26] = 0;
    assert!(matches!(IDB::parse(&bytes), Err(IDBError::InvalidSecondaryMagic)));
}

#[test]
fn header_truncated_is_deserializing_error() {
    assert!(matches!(IDB::parse(&[0x49]), Err(IDBError::DeserializingError)));
}

#[test]
fn section_offset_out_of_range() {
    let til = minimal_til();
    let mut bytes = idb_with_til(&til);
    // id0 offset points far past the end of the file.
    let far = (bytes.len() as u64 + 1000).to_le_bytes();
    bytes[6..14].copy_from_slice(&far);
    let idb = IDB::parse(&bytes).unwrap();
    assert!(matches!(idb.id0, Err(IDBError::InvalidOffset)));
}

#[test]
fn til_with_wrong_signature_is_rejected() {
    let mut til = minimal_til();
    til[0] = b'X';
    assert!(matches!(TILSection::parse(&til), Err(IDBError::InvalidSignature)));
}

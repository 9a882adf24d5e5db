//! Tests of the primitive codecs: the literal scenarios and the round
//! trips on concrete values.

use idb_parser::codec::{
    is_sdacl_byte, is_tah_byte, parse_da, parse_de, parse_dt, parse_tah, serialize_dt,
};
use idb_parser::CodecError;

#[test]
fn dt_one_byte() {
    assert_eq!(parse_dt(&[0x01], 0), Ok((0u16, 1usize)));
}

#[test]
fn dt_two_bytes() {
    // ((0x01) | (0x02 << 7)) - 1 = 0x100
    assert_eq!(parse_dt(&[0x81, 0x02], 0), Ok((0x100u16, 2usize)));
}

#[test]
fn dt_zero_byte_is_bad_varint() {
    assert_eq!(parse_dt(&[0x00], 0), Err(CodecError::BadVarint));
}

#[test]
fn dt_empty_is_short_read() {
    assert_eq!(parse_dt(&[], 0), Err(CodecError::ShortRead));
}

#[test]
fn dt_round_trip_concrete() {
    for n in [0u16, 1, 126, 127, 128, 0x100, 0x1234, 0x7FFE] {
        let enc = serialize_dt(n);
        let (back, used) = parse_dt(&enc, 0).unwrap();
        assert_eq!(back, n);
        assert_eq!(used, enc.len());
    }
}

#[test]
fn dt_canonical_forms() {
    assert_eq!(serialize_dt(0), vec![0x01]);
    assert_eq!(serialize_dt(0x100), vec![0x81, 0x02]);
}

#[test]
fn de_one_byte() {
    assert_eq!(parse_de(&[0x3F], 0), Ok((0x3Fu32, 1usize)));
}

#[test]
fn de_two_bytes() {
    // (0x01 << 6) | 0x02 = 0x42
    assert_eq!(parse_de(&[0x81, 0x02], 0), Ok((0x42u32, 2usize)));
}

#[test]
fn de_never_terminated_is_bad_varint() {
    assert_eq!(parse_de(&[0x80, 0x80, 0x80, 0x80, 0x80], 0), Err(CodecError::BadVarint));
}

#[test]
fn de_round_trip_concrete() {
    // The canonical encodings of a few values across the width classes,
    // decoded back.
    let cases: [(u32, &[u8]); 4] = [
        (0x3F, &[0x3F]),
        (0x42, &[0x81, 0x02]),
        (0x1000, &[0xC0, 0x00]),
        (0x12345678, &[0x82, 0xA3, 0xA2, 0xD9, 0x38]),
    ];
    for (n, enc) in cases {
        assert_eq!(parse_de(enc, 0), Ok((n, enc.len())));
    }
}

#[test]
fn da_terminates_on_clear_high_bit() {
    // An immediate non-continuation byte ends the descriptor, unconsumed.
    assert_eq!(parse_da(&[0x05], 0), Ok(((0u8, 0u8), 0usize)));
}

#[test]
fn da_four_continuations_then_sentinel() {
    // Four high-bit bytes fold into the accumulator, the sentinel supplies
    // the base and seeds the element count, a clear byte then ends it.
    let bytes = [0x81, 0x80, 0x80, 0x80, 0x12, 0x00];
    let ((nelem, base), used) = parse_da(&bytes, 0).unwrap();
    assert_eq!(base, 0x02);
    assert_eq!(nelem, 0x01);
    assert_eq!(used, 5);
}

#[test]
fn tah_absent_consumes_nothing() {
    assert_eq!(parse_tah(&[0x00], 0), Ok((0u16, 0usize)));
}

#[test]
fn tah_present_parses_value() {
    // 0xFE marker, then one value byte with its high bit clear.
    assert_eq!(parse_tah(&[0xFE, 0x01], 0), Ok((1u16, 2usize)));
}

#[test]
fn attribute_header_predicates() {
    assert!(is_tah_byte(0xFE));
    assert!(!is_tah_byte(0xFD));
    assert!(is_sdacl_byte(0xC0));
    assert!(is_sdacl_byte(0xF1));
    assert!(!is_sdacl_byte(0x00));
    assert!(!is_sdacl_byte(0x04));
}

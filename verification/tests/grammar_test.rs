//! Tests of the type-information grammar: the literal scenarios for
//! bitfield, struct and typedef, plus variant coverage and error cases.

use idb_parser::parse::{parse_type, TYPE_DEPTH_LIMIT};
use idb_parser::{GrammarError, Types, DE};

#[test]
fn bitfield_scenario() {
    // Tag 0x1E (base 0x0E, flag 0x10), dt value 0x21 (width 16, unsigned),
    // then a byte that is not an attribute header.
    let bytes = [0x1E, 0x22, 0x00];
    let (t, _used) = parse_type(&bytes, 0, 0, TYPE_DEPTH_LIMIT).unwrap();
    match t {
        Types::Bitfield(b) => {
            assert_eq!(b.width, 16);
            assert!(b.unsigned);
            assert_eq!(b.nbytes, 2);
        },
        other => panic!("expected a bitfield, got {:?}", other),
    }
}

#[test]
fn struct_scenario() {
    // Tag 0x0D, dt value 0x10 (alignment exponent 0, two members), then
    // two built-in int32 tags; the first doubles as the pushed-back
    // attribute-header candidate, and a final byte closes the second
    // member's attribute slot.
    let bytes = [0x0D, 0x11, 0x04, 0x04, 0x00];
    let (t, _used) = parse_type(&bytes, 0, 0, TYPE_DEPTH_LIMIT).unwrap();
    match t {
        Types::Struct(s) => {
            assert!(!s.is_ref);
            assert_eq!(s.effective_alignment, 0);
            assert_eq!(s.members.len(), 2);
            for m in s.members.iter() {
                match &m.0 {
                    Types::Unset(meta) => assert_eq!(meta.0, 0x04),
                    other => panic!("expected a terminal member, got {:?}", other),
                }
            }
        },
        other => panic!("expected a struct, got {:?}", other),
    }
}

#[test]
fn typedef_ordinal_scenario() {
    // Tag 0x3D, a dt-prefixed buffer opening with '#': an ordinal
    // reference, the ordinal a de over the rest of the buffer.
    let bytes = [0x3D, 0x04, b'#', 0x85, 0x03];
    let (t, used) = parse_type(&bytes, 0, 0, TYPE_DEPTH_LIMIT).unwrap();
    assert_eq!(used, 5);
    match t {
        Types::Typedef(td) => {
            assert!(td.is_ordref);
            // de over {0x85, 0x03}: ((0x05) << 7 then << 6 fold) | 0x03.
            assert_eq!(td.ordinal, DE(0x143));
            assert_eq!(td.name, "");
            assert_eq!(td.buf.bytes, vec![b'#', 0x85, 0x03]);
        },
        other => panic!("expected a typedef, got {:?}", other),
    }
}

#[test]
fn typedef_name_form() {
    let bytes = [0x3D, 0x04, b'a', b'b', b'c'];
    let (t, _used) = parse_type(&bytes, 0, 0, TYPE_DEPTH_LIMIT).unwrap();
    match t {
        Types::Typedef(td) => {
            assert!(!td.is_ordref);
            assert_eq!(td.name, "abc");
        },
        other => panic!("expected a typedef, got {:?}", other),
    }
}

#[test]
fn terminal_tag_consumes_only_itself() {
    let bytes = [0x04, 0x99];
    assert!(matches!(
        parse_type(&bytes, 0, 0, TYPE_DEPTH_LIMIT),
        Ok((Types::Unset(m), 1)) if m.0 == 0x04
    ));
}

#[test]
fn pointer_to_int() {
    // Tag 0x0A (flag 0), no attribute header, pointee int32.
    let bytes = [0x0A, 0x04];
    let (t, used) = parse_type(&bytes, 0, 0, TYPE_DEPTH_LIMIT).unwrap();
    assert_eq!(used, 2);
    match t {
        Types::Pointer(p) => {
            assert!(p.closure.is_none());
            assert!(matches!(p.typ, Types::Unset(m) if m.0 == 0x04));
        },
        other => panic!("expected a pointer, got {:?}", other),
    }
}

#[test]
fn array_non_based() {
    // Tag 0x1B: base 0x0B (array) with flag 0x10, the non-based form.
    // A dt element count of three, then an int8 element type.
    let bytes = [0x1B, 0x04, 0x02];
    let (t, _used) = parse_type(&bytes, 0, 0, TYPE_DEPTH_LIMIT).unwrap();
    match t {
        Types::Array(a) => {
            assert!(a.is_non_based);
            assert_eq!(a.nelem, 3);
            assert_eq!(a.base, 0);
            assert!(matches!(a.elem_type, Types::Unset(m) if m.0 == 0x02));
        },
        other => panic!("expected an array, got {:?}", other),
    }
}

#[test]
fn enum_members_accumulate() {
    // Tag 0x2D, count 2, no attribute header, bte 0: byte size defaults to
    // four; the members are the running sums of the deltas 5 and 7.
    let bytes = [0x2D, 0x03, 0x00, 0x05, 0x07];
    let (t, _used) = parse_type(&bytes, 0, 0, TYPE_DEPTH_LIMIT).unwrap();
    match t {
        Types::Enum(e) => {
            assert!(!e.is_ref);
            assert_eq!(e.bytesize, 4);
            assert_eq!(e.members.len(), 2);
            assert_eq!(e.members[0].0, 5);
            assert_eq!(e.members[1].0, 12);
            // The sum of the emitted deltas equals the last member.
            let mut sum: u64 = 0;
            let mut prev: u64 = 0;
            for m in e.members.iter() {
                sum = sum.wrapping_add(m.0.wrapping_sub(prev));
                prev = m.0;
            }
            assert_eq!(sum, e.members[e.members.len() - 1].0);
        },
        other => panic!("expected an enum, got {:?}", other),
    }
}

#[test]
fn enum_bytesize_from_library_header() {
    // bte 0 and a nonzero enum size in the library header.
    let bytes = [0x2D, 0x02, 0x00, 0x01];
    let (t, _used) = parse_type(&bytes, 0, 2, TYPE_DEPTH_LIMIT).unwrap();
    match t {
        Types::Enum(e) => assert_eq!(e.bytesize, 2),
        other => panic!("expected an enum, got {:?}", other),
    }
}

#[test]
fn function_void_args() {
    // Tag 0x0C, calling convention 0x20 (void arguments), no attribute
    // header, return int32.
    let bytes = [0x0C, 0x20, 0x04];
    let (t, _used) = parse_type(&bytes, 0, 0, TYPE_DEPTH_LIMIT).unwrap();
    match t {
        Types::Function(f) => {
            assert_eq!(f.args.len(), 0);
            assert!(matches!(f.ret, Types::Unset(m) if m.0 == 0x04));
        },
        other => panic!("expected a function, got {:?}", other),
    }
}

#[test]
fn function_with_one_arg() {
    // Convention 0x30, return void (0x01), one argument of type int8.
    let bytes = [0x0C, 0x30, 0x01, 0x02, 0x02];
    let (t, _used) = parse_type(&bytes, 0, 0, TYPE_DEPTH_LIMIT).unwrap();
    match t {
        Types::Function(f) => {
            assert_eq!(f.args.len(), 1);
            assert!(matches!(f.args[0].0, Types::Unset(m) if m.0 == 0x02));
        },
        other => panic!("expected a function, got {:?}", other),
    }
}

#[test]
fn function_special_pe_is_unsupported() {
    // Convention 0xD0 with a non-void terminal return.
    let bytes = [0x0C, 0xD0, 0x04, 0x02];
    assert!(matches!(
        parse_type(&bytes, 0, 0, TYPE_DEPTH_LIMIT),
        Err(GrammarError::SpecialPEUnsupported)
    ));
}

#[test]
fn union_with_members() {
    // Tag 0x1D, count value 0x08 (one member, alignment exponent 0), one
    // int16 member that doubles as the pushed-back attribute candidate.
    let bytes = [0x1D, 0x09, 0x03];
    let (t, _used) = parse_type(&bytes, 0, 0, TYPE_DEPTH_LIMIT).unwrap();
    match t {
        Types::Union(u) => {
            assert!(!u.is_ref);
            assert_eq!(u.members.len(), 1);
            assert!(matches!(u.members[0].0, Types::Unset(m) if m.0 == 0x03));
        },
        other => panic!("expected a union, got {:?}", other),
    }
}

#[test]
fn struct_reference_form() {
    // Tag 0x0D with count zero: the reference form; the dt-prefixed buffer
    // re-parses as a typedef after the '=' and dt prefix are prepended.
    let bytes = [0x0D, 0x01, 0x02, b'T', 0x00];
    let (t, _used) = parse_type(&bytes, 0, 0, TYPE_DEPTH_LIMIT).unwrap();
    match t {
        Types::Struct(s) => {
            assert!(s.is_ref);
            match &s.ref_type.0 {
                Types::Typedef(td) => assert_eq!(td.name, "T"),
                other => panic!("expected a typedef reference, got {:?}", other),
            }
        },
        other => panic!("expected a struct, got {:?}", other),
    }
}

#[test]
fn depth_cap_is_enforced() {
    // Three hundred nested pointers exceed the depth cap.
    let mut bytes = vec![0x0A; 300];
    bytes.push(0x01);
    assert!(matches!(
        parse_type(&bytes, 0, 0, TYPE_DEPTH_LIMIT),
        Err(GrammarError::DepthExceeded)
    ));
}

#[test]
fn truncated_input_is_short_read() {
    assert!(matches!(parse_type(&[], 0, 0, TYPE_DEPTH_LIMIT), Err(GrammarError::ShortRead)));
    assert!(matches!(
        parse_type(&[0x0A], 0, 0, TYPE_DEPTH_LIMIT),
        Err(GrammarError::ShortRead)
    ));
}

//! Header validation: the reference layout is accepted with its exact
//! field values, and every single-byte corruption of it is rejected.

use lua_chunk::chunk::DecodeError;
use lua_chunk::reader::Reader;

/// The 33 bytes of a valid header for the single supported layout.
fn valid_header() -> Vec<u8> {
    let mut v: Vec<u8> = vec![
        0x1B, 0x4C, 0x75, 0x61, // signature "\x1bLua"
        0x53, // version
        0x00, // format
        0x19, 0x93, 0x0D, 0x0A, 0x1A, 0x0A, // luac data block
        0x04, 0x08, 0x04, 0x08, 0x08, // size indicators
    ];
    v.extend_from_slice(&0x5678u64.to_le_bytes()); // sample integer
    v.extend_from_slice(&370.5f64.to_bits().to_le_bytes()); // sample number
    v
}

#[test]
fn accepts_reference_layout_with_exact_fields() {
    let mut reader = Reader::new(valid_header());
    let header = reader.check_header().expect("valid header must decode");
    assert_eq!(header.signature, vec![0x1B, 0x4C, 0x75, 0x61]);
    assert_eq!(header.version, 0x53);
    assert_eq!(header.format, 0);
    assert_eq!(header.luac_data, vec![0x19, 0x93, 0x0D, 0x0A, 0x1A, 0x0A]);
    assert_eq!(header.cint_size, 4);
    assert_eq!(header.sizet_size, 8);
    assert_eq!(header.instruction_size, 4);
    assert_eq!(header.lua_integer_size, 8);
    assert_eq!(header.lua_number_size, 8);
    assert_eq!(header.luac_int, 0x5678);
    assert_eq!(header.luac_num, 370.5f64.to_bits());
    assert_eq!(reader.position(), 33);
}

#[test]
fn rejects_every_single_byte_mutation_of_the_checked_prefix() {
    // Signature, version, format, magic block and size indicators: bytes
    // 0..=16.  Flipping any of them to any other value must give a
    // HeaderMismatch, never a success and never a panic.
    for i in 0..17usize {
        for delta in 1..=255u8 {
            let mut bytes = valid_header();
            bytes[i] = bytes[i].wrapping_add(delta);
            let mut reader = Reader::new(bytes);
            match reader.check_header() {
                Err(DecodeError::HeaderMismatch { .. }) => {},
                other => panic!("byte {} mutated: expected HeaderMismatch, got {:?}", i, other),
            }
        }
    }
}

#[test]
fn rejects_corrupt_sample_integer_and_number() {
    let mut bytes = valid_header();
    bytes[17] = 0x79; // sample integer now 0x5679
    let mut reader = Reader::new(bytes);
    match reader.check_header() {
        Err(DecodeError::HeaderMismatch { expected, actual, .. }) => {
            assert_eq!(expected, 0x5678);
            assert_eq!(actual, 0x5679);
        },
        other => panic!("expected HeaderMismatch, got {:?}", other),
    }
    let mut bytes = valid_header();
    bytes[25] ^= 0x01; // sample number bits off by one
    let mut reader = Reader::new(bytes);
    assert!(matches!(reader.check_header(), Err(DecodeError::HeaderMismatch { .. })));
}

#[test]
fn rejects_truncated_header_with_eof() {
    for len in 0..33usize {
        let bytes = valid_header()[..len].to_vec();
        let mut reader = Reader::new(bytes);
        assert_eq!(reader.check_header().unwrap_err(), DecodeError::UnexpectedEof);
        assert_eq!(reader.position(), 0);
    }
}

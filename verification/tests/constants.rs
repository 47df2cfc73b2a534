//! Constant tag dispatch: the five recognized tags and the rejection of
//! every other tag byte.

use lua_chunk::chunk::{Constant, DecodeError};
use lua_chunk::reader::Reader;

#[test]
fn tag_nil() {
    let mut reader = Reader::new(vec![0x00]);
    assert_eq!(reader.read_constant().unwrap(), Constant::Nil);
    assert_eq!(reader.position(), 1);
}

#[test]
fn tag_boolean_nonzero_is_true() {
    let mut reader = Reader::new(vec![0x01, 0x01]);
    assert_eq!(reader.read_constant().unwrap(), Constant::Boolean(true));
    let mut reader = Reader::new(vec![0x01, 0x00]);
    assert_eq!(reader.read_constant().unwrap(), Constant::Boolean(false));
    let mut reader = Reader::new(vec![0x01, 0x7F]);
    assert_eq!(reader.read_constant().unwrap(), Constant::Boolean(true));
}

#[test]
fn tag_number_keeps_the_exact_bit_pattern() {
    let mut bytes = vec![0x03u8];
    bytes.extend_from_slice(&370.5f64.to_bits().to_le_bytes());
    let mut reader = Reader::new(bytes);
    assert_eq!(reader.read_constant().unwrap(), Constant::Number(370.5f64.to_bits()));
    assert_eq!(reader.position(), 9);
}

#[test]
fn tag_integer_is_signed_little_endian() {
    let mut bytes = vec![0x13u8];
    bytes.extend_from_slice(&(-5i64 as u64).to_le_bytes());
    let mut reader = Reader::new(bytes);
    assert_eq!(reader.read_constant().unwrap(), Constant::Integer(-5));
    assert_eq!(reader.position(), 9);
}

#[test]
fn tag_short_string_and_long_string_decode_alike() {
    let mut reader = Reader::new(vec![0x04, 0x03, b'h', b'i']);
    assert_eq!(reader.read_constant().unwrap(), Constant::Str("hi".to_string()));
    let mut reader = Reader::new(vec![0x14, 0x03, b'h', b'i']);
    assert_eq!(reader.read_constant().unwrap(), Constant::Str("hi".to_string()));
}

#[test]
fn tag_two_is_rejected_as_invalid() {
    let mut reader = Reader::new(vec![0x02, 0x00]);
    assert_eq!(reader.read_constant().unwrap_err(), DecodeError::InvalidConstantTag(0x02));
    assert_eq!(reader.position(), 0);
}

#[test]
fn every_unrecognized_tag_is_rejected_as_itself() {
    for tag in 0..=255u8 {
        if matches!(tag, 0x00 | 0x01 | 0x03 | 0x13 | 0x04 | 0x14) {
            continue;
        }
        let mut reader = Reader::new(vec![tag]);
        assert_eq!(reader.read_constant().unwrap_err(), DecodeError::InvalidConstantTag(tag));
    }
}

#[test]
fn truncated_payload_is_eof() {
    let mut reader = Reader::new(vec![0x01]);
    assert_eq!(reader.read_constant().unwrap_err(), DecodeError::UnexpectedEof);
    let mut reader = Reader::new(vec![0x13, 0x01, 0x02]);
    assert_eq!(reader.read_constant().unwrap_err(), DecodeError::UnexpectedEof);
}

//! The length-prefixed string protocol, bit for bit.

use lua_chunk::chunk::DecodeError;
use lua_chunk::reader::Reader;

#[test]
fn zero_length_byte_is_the_empty_string_and_consumes_one_byte() {
    let mut reader = Reader::new(vec![0x00, 0xAA, 0xBB]);
    assert_eq!(reader.read_string().unwrap(), "");
    assert_eq!(reader.position(), 1);
}

#[test]
fn short_form_length_two_is_one_content_byte() {
    let mut reader = Reader::new(vec![0x02, b'A', 0xCC]);
    assert_eq!(reader.read_string().unwrap(), "A");
    assert_eq!(reader.position(), 2);
}

#[test]
fn short_form_reads_length_minus_one_content_bytes() {
    let mut reader = Reader::new(vec![0x0A, b'c', b'h', b'u', b'n', b'k', b'.', b'l', b'u', b'a']);
    assert_eq!(reader.read_string().unwrap(), "chunk.lua");
    assert_eq!(reader.position(), 10);
}

#[test]
fn long_form_declared_length_past_the_end_is_eof() {
    // 0xFF, then an 8-byte length of 3, which declares two content bytes;
    // only one is present, so the declared length exceeds what remains.
    let mut bytes = vec![0xFFu8];
    bytes.extend_from_slice(&3u64.to_le_bytes());
    bytes.push(b'x'); // one content byte present, two declared
    let mut reader = Reader::new(bytes);
    assert_eq!(reader.read_string().unwrap_err(), DecodeError::UnexpectedEof);
    assert_eq!(reader.position(), 0);
}

#[test]
fn long_form_reads_its_content() {
    let mut bytes = vec![0xFFu8];
    bytes.extend_from_slice(&4u64.to_le_bytes());
    bytes.extend_from_slice(b"abc");
    let mut reader = Reader::new(bytes);
    assert_eq!(reader.read_string().unwrap(), "abc");
    assert_eq!(reader.position(), 12);
}

#[test]
fn long_form_length_zero_is_length_overflow() {
    let mut bytes = vec![0xFFu8];
    bytes.extend_from_slice(&0u64.to_le_bytes());
    let mut reader = Reader::new(bytes);
    assert_eq!(reader.read_string().unwrap_err(), DecodeError::LengthOverflow);
    assert_eq!(reader.position(), 0);
}

#[test]
fn invalid_utf8_content_is_invalid_text() {
    let mut reader = Reader::new(vec![0x02, 0xFF]);
    assert_eq!(reader.read_string().unwrap_err(), DecodeError::InvalidText);
    assert_eq!(reader.position(), 0);
}

#[test]
fn multibyte_utf8_content_is_decoded_as_characters() {
    // Two content bytes encode one character; a decoder that handed the
    // bytes through unchanged would not produce this one-character string.
    let mut reader = Reader::new(vec![0x03, 0xC3, 0xA9]);
    let s = reader.read_string().unwrap();
    assert_eq!(s, "\u{e9}");
    assert_eq!(s.chars().count(), 1);
    assert_eq!(reader.position(), 3);
}

#[test]
fn missing_length_byte_is_eof() {
    let mut reader = Reader::new(vec![]);
    assert_eq!(reader.read_string().unwrap_err(), DecodeError::UnexpectedEof);
}

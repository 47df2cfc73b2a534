//! The primitive cursor operations.

use lua_chunk::chunk::DecodeError;
use lua_chunk::reader::Reader;

#[test]
fn read_byte_advances_one_byte_at_a_time() {
    let mut reader = Reader::new(vec![0x10, 0x20]);
    assert_eq!(reader.read_byte().unwrap(), 0x10);
    assert_eq!(reader.read_byte().unwrap(), 0x20);
    assert_eq!(reader.read_byte().unwrap_err(), DecodeError::UnexpectedEof);
    assert_eq!(reader.position(), 2);
}

#[test]
fn read_bytes_returns_the_run_or_eof_without_truncating() {
    let mut reader = Reader::new(vec![1, 2, 3]);
    assert_eq!(reader.read_bytes(2).unwrap(), vec![1, 2]);
    assert_eq!(reader.read_bytes(2).unwrap_err(), DecodeError::UnexpectedEof);
    assert_eq!(reader.position(), 2);
    assert_eq!(reader.read_bytes(1).unwrap(), vec![3]);
}

#[test]
fn read_u32_is_little_endian() {
    let mut reader = Reader::new(vec![0x78, 0x56, 0x34, 0x12]);
    assert_eq!(reader.read_u32().unwrap(), 0x12345678);
    let mut reader = Reader::new(vec![0x01, 0x02, 0x03]);
    assert_eq!(reader.read_u32().unwrap_err(), DecodeError::UnexpectedEof);
}

#[test]
fn read_u64_is_little_endian() {
    let mut reader = Reader::new(vec![0xEF, 0xCD, 0xAB, 0x89, 0x67, 0x45, 0x23, 0x01]);
    assert_eq!(reader.read_u64().unwrap(), 0x0123456789ABCDEF);
}

#[test]
fn read_lua_integer_reinterprets_as_signed() {
    let mut reader = Reader::new((-1i64 as u64).to_le_bytes().to_vec());
    assert_eq!(reader.read_lua_integer().unwrap(), -1);
}

#[test]
fn read_lua_number_returns_the_bit_pattern() {
    let mut reader = Reader::new(370.5f64.to_le_bytes().to_vec());
    assert_eq!(f64::from_bits(reader.read_lua_number().unwrap()), 370.5);
}

#[test]
fn read_code_reads_count_then_words() {
    let mut bytes = 2u32.to_le_bytes().to_vec();
    bytes.extend_from_slice(&0xAABBCCDDu32.to_le_bytes());
    bytes.extend_from_slice(&7u32.to_le_bytes());
    let mut reader = Reader::new(bytes);
    assert_eq!(reader.read_code().unwrap(), vec![0xAABBCCDD, 7]);
    assert_eq!(reader.position(), 12);
}

#[test]
fn read_code_with_missing_words_is_eof() {
    let mut bytes = 3u32.to_le_bytes().to_vec();
    bytes.extend_from_slice(&7u32.to_le_bytes());
    let mut reader = Reader::new(bytes);
    assert_eq!(reader.read_code().unwrap_err(), DecodeError::UnexpectedEof);
    assert_eq!(reader.position(), 0);
}

#[test]
fn read_line_info_reads_count_then_lines() {
    let mut bytes = 1u32.to_le_bytes().to_vec();
    bytes.extend_from_slice(&42u32.to_le_bytes());
    let mut reader = Reader::new(bytes);
    assert_eq!(reader.read_line_info().unwrap(), vec![42]);
}

#[test]
fn read_upvalues_reads_instack_and_index_pairs() {
    let mut bytes = 2u32.to_le_bytes().to_vec();
    bytes.extend_from_slice(&[1, 0, 0, 3]);
    let mut reader = Reader::new(bytes);
    let ups = reader.read_upvalues().unwrap();
    assert_eq!(ups.len(), 2);
    assert_eq!((ups[0].instack, ups[0].idx), (1, 0));
    assert_eq!((ups[1].instack, ups[1].idx), (0, 3));
}

#[test]
fn read_loc_vars_reads_name_and_pc_range() {
    let mut bytes = 1u32.to_le_bytes().to_vec();
    bytes.extend_from_slice(&[0x02, b'a']);
    bytes.extend_from_slice(&0u32.to_le_bytes());
    bytes.extend_from_slice(&9u32.to_le_bytes());
    let mut reader = Reader::new(bytes);
    let vars = reader.read_loc_vars().unwrap();
    assert_eq!(vars.len(), 1);
    assert_eq!(vars[0].var_name, "a");
    assert_eq!(vars[0].start_pc, 0);
    assert_eq!(vars[0].end_pc, 9);
}

#[test]
fn read_upvalue_names_reads_count_then_strings() {
    let mut bytes = 2u32.to_le_bytes().to_vec();
    bytes.extend_from_slice(&[0x02, b'x', 0x00]);
    let mut reader = Reader::new(bytes);
    assert_eq!(reader.read_upvalue_names().unwrap(), vec!["x".to_string(), String::new()]);
}

#[test]
fn read_constants_keeps_pool_order() {
    let mut bytes = 2u32.to_le_bytes().to_vec();
    bytes.push(0x00); // Nil
    bytes.push(0x01);
    bytes.push(0x01); // Boolean(true)
    let mut reader = Reader::new(bytes);
    let pool = reader.read_constants().unwrap();
    assert_eq!(pool.len(), 2);
    assert!(matches!(pool[0], lua_chunk::chunk::Constant::Nil));
    assert!(matches!(pool[1], lua_chunk::chunk::Constant::Boolean(true)));
}

//! Whole-chunk decoding through `undump`: the prototype tree, source-name
//! inheritance, truncation at every boundary, and idempotence.

use lua_chunk::chunk::{undump, Constant, DecodeError, Prototype};

fn push_u32(v: &mut Vec<u8>, x: u32) {
    v.extend_from_slice(&x.to_le_bytes());
}

/// Encodes a string in the short form: length byte is content length plus
/// one, except that the empty string is the single byte 0.
fn push_str(v: &mut Vec<u8>, s: &str) {
    if s.is_empty() {
        v.push(0);
    } else {
        v.push((s.len() + 1) as u8);
        v.extend_from_slice(s.as_bytes());
    }
}

/// A valid header followed by the top-level upvalue-count byte.
fn preamble() -> Vec<u8> {
    let mut v: Vec<u8> = vec![
        0x1B, 0x4C, 0x75, 0x61, 0x53, 0x00, 0x19, 0x93, 0x0D, 0x0A, 0x1A, 0x0A, 0x04, 0x08, 0x04,
        0x08, 0x08,
    ];
    v.extend_from_slice(&0x5678u64.to_le_bytes());
    v.extend_from_slice(&370.5f64.to_bits().to_le_bytes());
    v.push(1); // top-level upvalue count (structural, unchecked)
    v
}

/// A prototype with the given source name and children and no other
/// content.
fn plain_proto(source: &str, children: &[Vec<u8>]) -> Vec<u8> {
    let mut v = Vec::new();
    push_str(&mut v, source);
    push_u32(&mut v, 7); // line_defined
    push_u32(&mut v, 9); // last_line_defined
    v.push(2); // num_params
    v.push(1); // is_vararg
    v.push(5); // max_stack_size
    push_u32(&mut v, 0); // instructions
    push_u32(&mut v, 0); // constants
    push_u32(&mut v, 0); // upvalues
    push_u32(&mut v, children.len() as u32);
    for c in children {
        v.extend_from_slice(c);
    }
    push_u32(&mut v, 0); // line info
    push_u32(&mut v, 0); // local variables
    push_u32(&mut v, 0); // upvalue names
    v
}

/// A chunk whose root prototype carries one of everything.
fn rich_chunk() -> Vec<u8> {
    let mut v = preamble();
    push_str(&mut v, "chunk.lua");
    push_u32(&mut v, 0); // line_defined: main chunk
    push_u32(&mut v, 3);
    v.push(0); // num_params
    v.push(1); // is_vararg
    v.push(2); // max_stack_size
    push_u32(&mut v, 2); // two instructions
    push_u32(&mut v, 0x00008026);
    push_u32(&mut v, 0x00800027);
    push_u32(&mut v, 5); // five constants, one of each tag shape
    v.push(0x00);
    v.push(0x01);
    v.push(0x01);
    v.push(0x13);
    v.extend_from_slice(&(-5i64 as u64).to_le_bytes());
    v.push(0x03);
    v.extend_from_slice(&1.5f64.to_bits().to_le_bytes());
    v.push(0x04);
    push_str(&mut v, "hi");
    push_u32(&mut v, 1); // one upvalue
    v.push(1);
    v.push(0);
    push_u32(&mut v, 1); // one child, inheriting the source
    let child = plain_proto("", &[]);
    v.extend_from_slice(&child);
    push_u32(&mut v, 2); // line info, parallel to the instructions
    push_u32(&mut v, 11);
    push_u32(&mut v, 12);
    push_u32(&mut v, 1); // one local
    push_str(&mut v, "arg");
    push_u32(&mut v, 0);
    push_u32(&mut v, 2);
    push_u32(&mut v, 1); // one upvalue name
    push_str(&mut v, "_ENV");
    v
}

#[test]
fn decodes_a_full_chunk_exactly() {
    let proto = undump(rich_chunk()).expect("valid chunk must decode");
    assert_eq!(proto.source, "chunk.lua");
    assert_eq!(proto.line_defined, 0);
    assert_eq!(proto.last_line_defined, 3);
    assert_eq!(proto.num_params, 0);
    assert_eq!(proto.is_vararg, 1);
    assert_eq!(proto.max_stack_size, 2);
    assert_eq!(proto.code, vec![0x00008026, 0x00800027]);
    assert_eq!(
        proto.constants,
        vec![
            Constant::Nil,
            Constant::Boolean(true),
            Constant::Integer(-5),
            Constant::Number(1.5f64.to_bits()),
            Constant::Str("hi".to_string()),
        ]
    );
    assert_eq!(proto.upvalues.len(), 1);
    assert_eq!((proto.upvalues[0].instack, proto.upvalues[0].idx), (1, 0));
    assert_eq!(proto.protos.len(), 1);
    assert_eq!(proto.line_info, vec![11, 12]);
    assert_eq!(proto.loc_vars.len(), 1);
    assert_eq!(proto.loc_vars[0].var_name, "arg");
    assert_eq!(proto.upvalue_names, vec!["_ENV".to_string()]);
}

#[test]
fn child_with_empty_source_inherits_the_parent_source() {
    let proto = undump(rich_chunk()).unwrap();
    assert_eq!(proto.protos[0].source, "chunk.lua");
}

#[test]
fn child_with_its_own_source_keeps_it() {
    let child = plain_proto("own.lua", &[]);
    let root = plain_proto("chunk.lua", &[child]);
    let mut bytes = preamble();
    bytes.extend_from_slice(&root);
    let proto = undump(bytes).unwrap();
    assert_eq!(proto.source, "chunk.lua");
    assert_eq!(proto.protos[0].source, "own.lua");
}

#[test]
fn grandchildren_inherit_the_resolved_source() {
    // The middle prototype has no name of its own, so it resolves to the
    // root's; the innermost inherits that resolved name, not the raw
    // empty string.
    let grandchild = plain_proto("", &[]);
    let child = plain_proto("", &[grandchild]);
    let root = plain_proto("chunk.lua", &[child]);
    let mut bytes = preamble();
    bytes.extend_from_slice(&root);
    let proto = undump(bytes).unwrap();
    assert_eq!(proto.protos[0].protos[0].source, "chunk.lua");
}

#[test]
fn root_with_empty_source_gets_the_empty_parent_name() {
    let mut bytes = preamble();
    let root = plain_proto("", &[]);
    bytes.extend_from_slice(&root);
    let proto = undump(bytes).unwrap();
    assert_eq!(proto.source, "");
}

#[test]
fn truncation_at_every_boundary_is_eof() {
    // Cutting a valid chunk anywhere -- inside the header, the lists'
    // counts, the strings, the nested prototypes or the debug tables --
    // must give UnexpectedEof: never a panic, never a success.
    let bytes = rich_chunk();
    for len in 0..bytes.len() {
        let cut = bytes[..len].to_vec();
        assert_eq!(undump(cut).unwrap_err(), DecodeError::UnexpectedEof, "cut at {}", len);
    }
}

#[test]
fn declared_list_count_past_the_end_is_eof() {
    let mut bytes = preamble();
    push_str(&mut bytes, "x.lua");
    push_u32(&mut bytes, 1);
    push_u32(&mut bytes, 1);
    bytes.push(0);
    bytes.push(0);
    bytes.push(2);
    push_u32(&mut bytes, 100); // 100 instructions declared, none present
    assert_eq!(undump(bytes).unwrap_err(), DecodeError::UnexpectedEof);
}

#[test]
fn long_form_source_length_zero_is_length_overflow() {
    let mut bytes = preamble();
    bytes.push(0xFF);
    bytes.extend_from_slice(&0u64.to_le_bytes());
    assert_eq!(undump(bytes).unwrap_err(), DecodeError::LengthOverflow);
}

#[test]
fn invalid_source_text_is_invalid_text() {
    let mut bytes = preamble();
    bytes.push(0x03); // two content bytes follow
    bytes.push(0xC3); // start of a two-byte sequence
    bytes.push(0x28); // ...which this byte cannot continue
    assert_eq!(undump(bytes).unwrap_err(), DecodeError::InvalidText);
}

#[test]
fn bad_constant_tag_fails_the_whole_decode() {
    let mut bytes = preamble();
    push_str(&mut bytes, "x.lua");
    push_u32(&mut bytes, 1);
    push_u32(&mut bytes, 1);
    bytes.push(0);
    bytes.push(0);
    bytes.push(2);
    push_u32(&mut bytes, 0); // no instructions
    push_u32(&mut bytes, 1); // one constant
    bytes.push(0x02); // unrecognized tag
    assert_eq!(undump(bytes).unwrap_err(), DecodeError::InvalidConstantTag(0x02));
}

#[test]
fn decoding_the_same_buffer_twice_gives_equal_trees() {
    let first: Prototype = undump(rich_chunk()).unwrap();
    let second: Prototype = undump(rich_chunk()).unwrap();
    assert_eq!(first, second);
}

#[test]
fn trailing_bytes_after_the_root_prototype_are_ignored() {
    let mut bytes = preamble();
    let root = plain_proto("x.lua", &[]);
    bytes.extend_from_slice(&root);
    bytes.extend_from_slice(&[0xDE, 0xAD]);
    assert!(undump(bytes).is_ok());
}

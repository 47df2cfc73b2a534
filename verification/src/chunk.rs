//! The data model of a decoded chunk and the fixed format constants.

use crate::model::spec_undump;
use crate::reader::Reader;
use vstd::prelude::*;

verus! {

// Expected header values of the single supported chunk layout.  A header is
// accepted only when every field equals the constant given here.
/// First signature byte (the escape character before "Lua").
pub const SIG_0: u8 = 0x1B;

/// Second signature byte (`'L'`).
pub const SIG_1: u8 = 0x4C;

/// Third signature byte (`'u'`).
pub const SIG_2: u8 = 0x75;

/// Fourth signature byte (`'a'`).
pub const SIG_3: u8 = 0x61;

/// The four signature bytes combined little-endian, as reported in errors.
pub const LUA_SIGNATURE_LE: u32 = 0x61754C1B;

/// Magic data block bytes, chosen to catch text-mode translation damage.
pub const LUAC_DATA_0: u8 = 0x19;

/// Second magic data byte.
pub const LUAC_DATA_1: u8 = 0x93;

/// Third magic data byte (carriage return).
pub const LUAC_DATA_2: u8 = 0x0D;

/// Fourth magic data byte (line feed).
pub const LUAC_DATA_3: u8 = 0x0A;

/// Fifth magic data byte (substitute).
pub const LUAC_DATA_4: u8 = 0x1A;

/// Sixth magic data byte (line feed).
pub const LUAC_DATA_5: u8 = 0x0A;

/// The six magic data bytes combined little-endian, as reported in errors.
pub const LUAC_DATA_LE: u64 = 0x0A1A0A0D9319;

/// Supported bytecode version byte.
pub const LUAC_VERSION: u8 = 0x53;

/// Supported format byte (0 is the reference format).
pub const LUAC_FORMAT: u8 = 0;

/// Expected size of the C `int` type in the producing compiler.
pub const CINT_SIZE: u8 = 4;

/// Expected size of the C `size_t` type.
pub const CSIZET_SIZE: u8 = 8;

/// Expected size of one encoded instruction word.
pub const INSTRUCTION_SIZE: u8 = 4;

/// Expected size of the Lua integer type.
pub const LUA_INTEGER_SIZE: u8 = 8;

/// Expected size of the Lua floating-point number type.
pub const LUA_NUMBER_SIZE: u8 = 8;

/// Sample integer stored in every header to detect endianness mismatch.
pub const LUAC_INT: i64 = 0x5678;

/// IEEE-754 bit pattern of the sample number (370.5) stored in every header
/// to detect floating-point format mismatch.  The decoder never interprets
/// the number; it only compares the bits.
pub const LUAC_NUM_BITS: u64 = 0x4077280000000000;

/// Names the header field on which validation failed.
#[derive(Debug, Clone, Copy, PartialEq, Eq)]
pub enum HeaderField {
    Signature,
    Version,
    Format,
    LuacData,
    CIntSize,
    SizetSize,
    InstructionSize,
    LuaIntegerSize,
    LuaNumberSize,
    LuacInt,
    LuacNum,
}

/// Why a decode failed.  Every malformed input is reported through one of
/// these values; no decode operation panics.
#[derive(Debug, Clone, Copy, PartialEq, Eq)]
pub enum DecodeError {
    /// The cursor was asked for more bytes than remain.
    UnexpectedEof,
    /// A header field does not equal the fixed value of the supported
    /// layout.  Multi-byte fields are reported as their little-endian value
    /// widened to 64 bits.
    HeaderMismatch { field: HeaderField, expected: u64, actual: u64 },
    /// A constant's tag byte is not one of the recognized values.
    InvalidConstantTag(u8),
    /// String content bytes are not valid UTF-8.
    InvalidText,
    /// A declared length lies outside the encodable range: the long string
    /// form declares the content length plus one, so a stored length of
    /// zero can never have been produced by the encoder.
    LengthOverflow,
}

/// The fixed-size header record at the front of every chunk.  Immutable
/// once built; a `Header` is only ever returned after full validation.
#[derive(Debug, Clone, PartialEq, Eq)]
pub struct Header {
    /// The four signature bytes as read.
    pub signature: Vec<u8>,
    pub version: u8,
    pub format: u8,
    /// The six magic data bytes as read.
    pub luac_data: Vec<u8>,
    pub cint_size: u8,
    pub sizet_size: u8,
    pub instruction_size: u8,
    pub lua_integer_size: u8,
    pub lua_number_size: u8,
    pub luac_int: i64,
    /// Bit pattern of the sample floating-point number.
    pub luac_num: u64,
}

/// One constant-pool entry: a closed tagged variant.
#[derive(Debug, Clone, PartialEq)]
pub enum Constant {
    Nil,
    Boolean(bool),
    Integer(i64),
    /// A floating-point constant, kept as its IEEE-754 bit pattern; the
    /// decoder never interprets the value.
    Number(u64),
    Str(String),
}

/// An upvalue descriptor: whether the value is captured from the enclosing
/// function's stack, and the index into that source.
#[derive(Debug, Clone, Copy, PartialEq, Eq, Structural)]
pub struct Upvalue {
    pub instack: u8,
    pub idx: u8,
}

/// A local-variable debug record: its name and the instruction range over
/// which it is live.
#[derive(Debug, Clone, PartialEq)]
pub struct LocVar {
    pub var_name: String,
    pub start_pc: u32,
    pub end_pc: u32,
}

/// One function prototype: the top-level chunk or a nested closure.
/// Children are owned by their parent; the tree is built bottom-up and
/// never mutated after decode.
#[derive(Debug, PartialEq)]
pub struct Prototype {
    pub source: String,
    pub line_defined: u32,
    pub last_line_defined: u32,
    pub num_params: u8,
    pub is_vararg: u8,
    pub max_stack_size: u8,
    /// Encoded instructions, kept as opaque 32-bit words.
    pub code: Vec<u32>,
    pub constants: Vec<Constant>,
    pub upvalues: Vec<Upvalue>,
    pub protos: Vec<Prototype>,
    /// Per-instruction source lines; empty means no debug line data.
    pub line_info: Vec<u32>,
    pub loc_vars: Vec<LocVar>,
    /// Debug names parallel to `upvalues` by index.
    pub upvalue_names: Vec<String>,
}

/// Decodes a complete binary chunk: validates the header, consumes the
/// top-level upvalue-count byte, and decodes the root prototype, with the
/// empty string as its parent source name.  Trailing bytes are ignored.
/// Every malformed input yields the error value that [`spec_undump`] names
/// for it; nothing panics.
pub fn undump(data: Vec<u8>) -> (r: Result<Prototype, DecodeError>)
    ensures
        match spec_undump(data@) {
            Ok(p) => r is Ok && r->Ok_0@ == p,
            Err(e) => r == Err::<Prototype, DecodeError>(e),
        },
{
    let mut reader = Reader::new(data);
    match reader.check_header() {
        Ok(_) => {},
        Err(e) => {
            return Err(e);
        },
    }
    match reader.read_byte() {
        Ok(_) => {},
        Err(e) => {
            return Err(e);
        },
    }
    proof {
        reveal_strlit("");
        assert(""@ =~= Seq::<char>::empty());
    }
    match reader.read_proto("") {
        Ok(p) => Ok(p),
        Err(e) => Err(e),
    }
}

} // verus!

//! The mathematical model of the decoder.
//!
//! Every executable read operation is specified against a spec-level reader
//! over a byte sequence and a position.  A spec reader returns either the
//! decoded value together with the position after it, or the exact error the
//! executable reader reports.  The executable functions' contracts state
//! that they return precisely what these functions compute.

use crate::chunk::{
    Constant, DecodeError, Header, HeaderField, LocVar, Prototype, Upvalue, CINT_SIZE, CSIZET_SIZE,
    INSTRUCTION_SIZE, LUAC_DATA_0, LUAC_DATA_1, LUAC_DATA_2, LUAC_DATA_3, LUAC_DATA_4, LUAC_DATA_5,
    LUAC_DATA_LE, LUAC_FORMAT, LUAC_INT, LUAC_NUM_BITS, LUAC_VERSION, LUA_INTEGER_SIZE,
    LUA_NUMBER_SIZE, LUA_SIGNATURE_LE, SIG_0, SIG_1, SIG_2, SIG_3,
};
use vstd::prelude::*;
use vstd::utf8::{decode_utf8, valid_utf8};

verus! {

/// Mathematical image of a validated header.
#[verifier::ext_equal]
pub ghost struct HeaderView {
    pub signature: Seq<u8>,
    pub version: u8,
    pub format: u8,
    pub luac_data: Seq<u8>,
    pub cint_size: u8,
    pub sizet_size: u8,
    pub instruction_size: u8,
    pub lua_integer_size: u8,
    pub lua_number_size: u8,
    pub luac_int: i64,
    pub luac_num: u64,
}

/// Mathematical image of a constant-pool entry.
#[verifier::ext_equal]
pub ghost enum ConstantView {
    Nil,
    Boolean(bool),
    Integer(i64),
    Number(u64),
    Str(Seq<char>),
}

/// Mathematical image of a local-variable debug record.
#[verifier::ext_equal]
pub ghost struct LocVarView {
    pub var_name: Seq<char>,
    pub start_pc: u32,
    pub end_pc: u32,
}

/// Mathematical image of a prototype tree.
#[verifier::ext_equal]
pub ghost struct ProtoView {
    pub source: Seq<char>,
    pub line_defined: u32,
    pub last_line_defined: u32,
    pub num_params: u8,
    pub is_vararg: u8,
    pub max_stack_size: u8,
    pub code: Seq<u32>,
    pub constants: Seq<ConstantView>,
    pub upvalues: Seq<Upvalue>,
    pub protos: Seq<ProtoView>,
    pub line_info: Seq<u32>,
    pub loc_vars: Seq<LocVarView>,
    pub upvalue_names: Seq<Seq<char>>,
}

impl View for Header {
    type V = HeaderView;

    open spec fn view(&self) -> HeaderView {
        HeaderView {
            signature: self.signature@,
            version: self.version,
            format: self.format,
            luac_data: self.luac_data@,
            cint_size: self.cint_size,
            sizet_size: self.sizet_size,
            instruction_size: self.instruction_size,
            lua_integer_size: self.lua_integer_size,
            lua_number_size: self.lua_number_size,
            luac_int: self.luac_int,
            luac_num: self.luac_num,
        }
    }
}

impl View for Constant {
    type V = ConstantView;

    open spec fn view(&self) -> ConstantView {
        match self {
            Constant::Nil => ConstantView::Nil,
            Constant::Boolean(b) => ConstantView::Boolean(*b),
            Constant::Integer(i) => ConstantView::Integer(*i),
            Constant::Number(bits) => ConstantView::Number(*bits),
            Constant::Str(s) => ConstantView::Str(s@),
        }
    }
}

impl View for LocVar {
    type V = LocVarView;

    open spec fn view(&self) -> LocVarView {
        LocVarView { var_name: self.var_name@, start_pc: self.start_pc, end_pc: self.end_pc }
    }
}

/// The view of a prototype, defined by recursion over the tree.
pub open spec fn proto_view(p: Prototype) -> ProtoView
    decreases p,
{
    ProtoView {
        source: p.source@,
        line_defined: p.line_defined,
        last_line_defined: p.last_line_defined,
        num_params: p.num_params,
        is_vararg: p.is_vararg,
        max_stack_size: p.max_stack_size,
        code: p.code@,
        constants: constants_view(p.constants@),
        upvalues: p.upvalues@,
        // The range test keeps the recursion inside the list, where the
        // children stand below `p` in the termination order.
        protos: Seq::new(
            p.protos@.len(),
            |i: int|
                if 0 <= i < p.protos@.len() {
                    proto_view(p.protos@[i])
                } else {
                    arbitrary()
                },
        ),
        line_info: p.line_info@,
        loc_vars: loc_vars_view(p.loc_vars@),
        upvalue_names: strings_view(p.upvalue_names@),
    }
}

/// Element-wise view of a constant pool.
pub open spec fn constants_view(s: Seq<Constant>) -> Seq<ConstantView> {
    Seq::new(s.len(), |i: int| s[i]@)
}

/// Element-wise view of a local-variable list.
pub open spec fn loc_vars_view(s: Seq<LocVar>) -> Seq<LocVarView> {
    Seq::new(s.len(), |i: int| s[i]@)
}

/// Element-wise view of a string list.
pub open spec fn strings_view(s: Seq<String>) -> Seq<Seq<char>> {
    Seq::new(s.len(), |i: int| s[i]@)
}

/// Element-wise view of a prototype list.
pub open spec fn protos_view(s: Seq<Prototype>) -> Seq<ProtoView> {
    Seq::new(s.len(), |i: int| proto_view(s[i]))
}

impl View for Prototype {
    type V = ProtoView;

    open spec fn view(&self) -> ProtoView {
        proto_view(*self)
    }
}

/// Prefixes the items already read to the outcome of reading the rest of a
/// list; an error stays an error.  Loops that fill a list relate the full
/// list's outcome to their progress through this function.
pub open spec fn prepend_items<T>(
    s: Seq<T>,
    rest: Result<(Seq<T>, int), DecodeError>,
) -> Result<(Seq<T>, int), DecodeError> {
    match rest {
        Ok((s2, p)) => Ok((s + s2, p)),
        Err(e) => Err(e),
    }
}

/// The value of four bytes read little-endian.
pub open spec fn u32_from_le(b0: u8, b1: u8, b2: u8, b3: u8) -> u32 {
    (b0 + b1 * 0x100 + b2 * 0x1_0000 + b3 * 0x100_0000) as u32
}

/// The value of eight bytes read little-endian.
pub open spec fn u64_from_le(
    b0: u8,
    b1: u8,
    b2: u8,
    b3: u8,
    b4: u8,
    b5: u8,
    b6: u8,
    b7: u8,
) -> u64 {
    (b0 + b1 * 0x100 + b2 * 0x1_0000 + b3 * 0x100_0000 + b4 * 0x1_0000_0000 + b5
        * 0x100_0000_0000 + b6 * 0x1_0000_0000_0000 + b7 * 0x100_0000_0000_0000) as u64
}

/// Reads one byte.
pub open spec fn spec_read_byte(data: Seq<u8>, pos: int) -> Result<(u8, int), DecodeError> {
    if 0 <= pos < data.len() {
        Ok((data[pos], pos + 1))
    } else {
        Err(DecodeError::UnexpectedEof)
    }
}

/// Reads a run of `n` bytes.
pub open spec fn spec_read_bytes(data: Seq<u8>, pos: int, n: int) -> Result<
    (Seq<u8>, int),
    DecodeError,
> {
    if 0 <= pos && 0 <= n && pos + n <= data.len() {
        Ok((data.subrange(pos, pos + n), pos + n))
    } else {
        Err(DecodeError::UnexpectedEof)
    }
}

/// Reads a 4-byte little-endian unsigned integer.
pub open spec fn spec_read_u32(data: Seq<u8>, pos: int) -> Result<(u32, int), DecodeError> {
    if 0 <= pos && pos + 4 <= data.len() {
        Ok((u32_from_le(data[pos], data[pos + 1], data[pos + 2], data[pos + 3]), pos + 4))
    } else {
        Err(DecodeError::UnexpectedEof)
    }
}

/// Reads an 8-byte little-endian unsigned integer.
pub open spec fn spec_read_u64(data: Seq<u8>, pos: int) -> Result<(u64, int), DecodeError> {
    if 0 <= pos && pos + 8 <= data.len() {
        Ok(
            (
                u64_from_le(
                    data[pos],
                    data[pos + 1],
                    data[pos + 2],
                    data[pos + 3],
                    data[pos + 4],
                    data[pos + 5],
                    data[pos + 6],
                    data[pos + 7],
                ),
                pos + 8,
            ),
        )
    } else {
        Err(DecodeError::UnexpectedEof)
    }
}

/// Reads an 8-byte integer and reinterprets it as signed (two's complement).
pub open spec fn spec_read_i64(data: Seq<u8>, pos: int) -> Result<(i64, int), DecodeError> {
    match spec_read_u64(data, pos) {
        Ok((v, p)) => Ok((v as i64, p)),
        Err(e) => Err(e),
    }
}

/// Decodes `len` content bytes as UTF-8 text.
pub open spec fn spec_read_string_content(data: Seq<u8>, pos: int, len: int) -> Result<
    (Seq<char>, int),
    DecodeError,
> {
    if 0 <= len && pos + len <= data.len() {
        let bytes = data.subrange(pos, pos + len);
        if valid_utf8(bytes) {
            Ok((decode_utf8(bytes), pos + len))
        } else {
            Err(DecodeError::InvalidText)
        }
    } else {
        Err(DecodeError::UnexpectedEof)
    }
}

/// Reads a length-prefixed string.  A first byte of 0 is the empty string;
/// 0xFF means the true length follows as an 8-byte integer; any other value
/// is the length itself.  The stored length counts the content plus one
/// trailing terminator that is never read, so `length - 1` content bytes
/// follow.  A long-form length of zero lies outside the encodable range.
pub open spec fn spec_read_string(data: Seq<u8>, pos: int) -> Result<
    (Seq<char>, int),
    DecodeError,
> {
    match spec_read_byte(data, pos) {
        Err(e) => Err(e),
        Ok((b, p1)) => {
            if b == 0 {
                Ok((Seq::empty(), p1))
            } else if b == 0xFF {
                match spec_read_u64(data, p1) {
                    Err(e) => Err(e),
                    Ok((size, p2)) => {
                        if size == 0 {
                            Err(DecodeError::LengthOverflow)
                        } else {
                            spec_read_string_content(data, p2, size - 1)
                        }
                    },
                }
            } else {
                spec_read_string_content(data, p1, b - 1)
            }
        },
    }
}

/// Reads one tagged constant.
pub open spec fn spec_read_constant(data: Seq<u8>, pos: int) -> Result<
    (ConstantView, int),
    DecodeError,
> {
    match spec_read_byte(data, pos) {
        Err(e) => Err(e),
        Ok((tag, p1)) => {
            if tag == 0x00 {
                Ok((ConstantView::Nil, p1))
            } else if tag == 0x01 {
                match spec_read_byte(data, p1) {
                    Err(e) => Err(e),
                    Ok((b, p2)) => Ok((ConstantView::Boolean(b != 0), p2)),
                }
            } else if tag == 0x03 {
                match spec_read_u64(data, p1) {
                    Err(e) => Err(e),
                    Ok((bits, p2)) => Ok((ConstantView::Number(bits), p2)),
                }
            } else if tag == 0x13 {
                match spec_read_i64(data, p1) {
                    Err(e) => Err(e),
                    Ok((v, p2)) => Ok((ConstantView::Integer(v), p2)),
                }
            } else if tag == 0x04 || tag == 0x14 {
                match spec_read_string(data, p1) {
                    Err(e) => Err(e),
                    Ok((s, p2)) => Ok((ConstantView::Str(s), p2)),
                }
            } else {
                Err(DecodeError::InvalidConstantTag(tag))
            }
        },
    }
}

/// Reads `n` consecutive 4-byte integers.
pub open spec fn spec_read_u32_items(data: Seq<u8>, pos: int, n: nat) -> Result<
    (Seq<u32>, int),
    DecodeError,
>
    decreases n,
{
    if n == 0 {
        Ok((Seq::empty(), pos))
    } else {
        match spec_read_u32(data, pos) {
            Err(e) => Err(e),
            Ok((v, p)) => match spec_read_u32_items(data, p, (n - 1) as nat) {
                Err(e) => Err(e),
                Ok((s, p2)) => Ok((seq![v] + s, p2)),
            },
        }
    }
}

/// Reads `n` consecutive upvalue descriptors (two bytes each).
pub open spec fn spec_read_upvalue_items(data: Seq<u8>, pos: int, n: nat) -> Result<
    (Seq<Upvalue>, int),
    DecodeError,
>
    decreases n,
{
    if n == 0 {
        Ok((Seq::empty(), pos))
    } else {
        match spec_read_byte(data, pos) {
            Err(e) => Err(e),
            Ok((instack, p1)) => match spec_read_byte(data, p1) {
                Err(e) => Err(e),
                Ok((idx, p2)) => match spec_read_upvalue_items(data, p2, (n - 1) as nat) {
                    Err(e) => Err(e),
                    Ok((s, p3)) => Ok((seq![Upvalue { instack, idx }] + s, p3)),
                },
            },
        }
    }
}

/// Reads `n` consecutive tagged constants.
pub open spec fn spec_read_constant_items(data: Seq<u8>, pos: int, n: nat) -> Result<
    (Seq<ConstantView>, int),
    DecodeError,
>
    decreases n,
{
    if n == 0 {
        Ok((Seq::empty(), pos))
    } else {
        match spec_read_constant(data, pos) {
            Err(e) => Err(e),
            Ok((c, p)) => match spec_read_constant_items(data, p, (n - 1) as nat) {
                Err(e) => Err(e),
                Ok((s, p2)) => Ok((seq![c] + s, p2)),
            },
        }
    }
}

/// Reads one local-variable debug record: name, first and one-past-last
/// live instruction index.
pub open spec fn spec_read_loc_var(data: Seq<u8>, pos: int) -> Result<
    (LocVarView, int),
    DecodeError,
> {
    match spec_read_string(data, pos) {
        Err(e) => Err(e),
        Ok((name, p1)) => match spec_read_u32(data, p1) {
            Err(e) => Err(e),
            Ok((start_pc, p2)) => match spec_read_u32(data, p2) {
                Err(e) => Err(e),
                Ok((end_pc, p3)) => Ok((LocVarView { var_name: name, start_pc, end_pc }, p3)),
            },
        },
    }
}

/// Reads `n` consecutive local-variable records.
pub open spec fn spec_read_loc_var_items(data: Seq<u8>, pos: int, n: nat) -> Result<
    (Seq<LocVarView>, int),
    DecodeError,
>
    decreases n,
{
    if n == 0 {
        Ok((Seq::empty(), pos))
    } else {
        match spec_read_loc_var(data, pos) {
            Err(e) => Err(e),
            Ok((v, p)) => match spec_read_loc_var_items(data, p, (n - 1) as nat) {
                Err(e) => Err(e),
                Ok((s, p2)) => Ok((seq![v] + s, p2)),
            },
        }
    }
}

/// Reads `n` consecutive length-prefixed strings.
pub open spec fn spec_read_string_items(data: Seq<u8>, pos: int, n: nat) -> Result<
    (Seq<Seq<char>>, int),
    DecodeError,
>
    decreases n,
{
    if n == 0 {
        Ok((Seq::empty(), pos))
    } else {
        match spec_read_string(data, pos) {
            Err(e) => Err(e),
            Ok((v, p)) => match spec_read_string_items(data, p, (n - 1) as nat) {
                Err(e) => Err(e),
                Ok((s, p2)) => Ok((seq![v] + s, p2)),
            },
        }
    }
}

/// Reads a 4-byte count followed by that many 4-byte integers: the layout
/// of both the instruction list and the line-info table.
pub open spec fn spec_read_u32_list(data: Seq<u8>, pos: int) -> Result<
    (Seq<u32>, int),
    DecodeError,
> {
    match spec_read_u32(data, pos) {
        Err(e) => Err(e),
        Ok((n, p)) => spec_read_u32_items(data, p, n as nat),
    }
}

/// Reads a 4-byte count followed by that many constants.
pub open spec fn spec_read_constant_list(data: Seq<u8>, pos: int) -> Result<
    (Seq<ConstantView>, int),
    DecodeError,
> {
    match spec_read_u32(data, pos) {
        Err(e) => Err(e),
        Ok((n, p)) => spec_read_constant_items(data, p, n as nat),
    }
}

/// Reads a 4-byte count followed by that many upvalue descriptors.
pub open spec fn spec_read_upvalue_list(data: Seq<u8>, pos: int) -> Result<
    (Seq<Upvalue>, int),
    DecodeError,
> {
    match spec_read_u32(data, pos) {
        Err(e) => Err(e),
        Ok((n, p)) => spec_read_upvalue_items(data, p, n as nat),
    }
}

/// Reads a 4-byte count followed by that many local-variable records.
pub open spec fn spec_read_loc_var_list(data: Seq<u8>, pos: int) -> Result<
    (Seq<LocVarView>, int),
    DecodeError,
> {
    match spec_read_u32(data, pos) {
        Err(e) => Err(e),
        Ok((n, p)) => spec_read_loc_var_items(data, p, n as nat),
    }
}

/// Reads a 4-byte count followed by that many strings.
pub open spec fn spec_read_string_list(data: Seq<u8>, pos: int) -> Result<
    (Seq<Seq<char>>, int),
    DecodeError,
> {
    match spec_read_u32(data, pos) {
        Err(e) => Err(e),
        Ok((n, p)) => spec_read_string_items(data, p, n as nat),
    }
}

/// Validates and reads the fixed-layout header.  Fields are read and
/// compared in order; the first mismatch is the error reported.
pub open spec fn spec_read_header(data: Seq<u8>, pos: int) -> Result<
    (HeaderView, int),
    DecodeError,
> {
    match spec_read_bytes(data, pos, 4) {
        Err(e) => Err(e),
        Ok((sig, p1)) => {
            if !(sig[0] == SIG_0 && sig[1] == SIG_1 && sig[2] == SIG_2 && sig[3] == SIG_3) {
                Err(
                    DecodeError::HeaderMismatch {
                        field: HeaderField::Signature,
                        expected: LUA_SIGNATURE_LE as u64,
                        actual: u32_from_le(sig[0], sig[1], sig[2], sig[3]) as u64,
                    },
                )
            } else {
                match spec_read_byte(data, p1) {
                    Err(e) => Err(e),
                    Ok((version, p2)) => {
                        if version != LUAC_VERSION {
                            Err(
                                DecodeError::HeaderMismatch {
                                    field: HeaderField::Version,
                                    expected: LUAC_VERSION as u64,
                                    actual: version as u64,
                                },
                            )
                        } else {
                            match spec_read_byte(data, p2) {
                                Err(e) => Err(e),
                                Ok((format, p3)) => {
                                    if format != LUAC_FORMAT {
                                        Err(
                                            DecodeError::HeaderMismatch {
                                                field: HeaderField::Format,
                                                expected: LUAC_FORMAT as u64,
                                                actual: format as u64,
                                            },
                                        )
                                    } else {
                                        spec_read_header_tail(data, p3, sig, version, format)
                                    }
                                },
                            }
                        }
                    },
                }
            }
        },
    }
}

/// The header fields after the format byte: magic data block, the five
/// size-indicator bytes, and the two sample values.
pub open spec fn spec_read_header_tail(
    data: Seq<u8>,
    pos: int,
    sig: Seq<u8>,
    version: u8,
    format: u8,
) -> Result<(HeaderView, int), DecodeError> {
    match spec_read_bytes(data, pos, 6) {
        Err(e) => Err(e),
        Ok((magic, p4)) => {
            if !(magic[0] == LUAC_DATA_0 && magic[1] == LUAC_DATA_1 && magic[2] == LUAC_DATA_2
                && magic[3] == LUAC_DATA_3 && magic[4] == LUAC_DATA_4 && magic[5]
                == LUAC_DATA_5) {
                Err(
                    DecodeError::HeaderMismatch {
                        field: HeaderField::LuacData,
                        expected: LUAC_DATA_LE,
                        actual: (
                        magic[0] + magic[1] * 0x100 + magic[2] * 0x1_0000 + magic[3] * 0x100_0000
                            + magic[4] * 0x1_0000_0000 + magic[5] * 0x100_0000_0000) as u64,
                    },
                )
            } else {
                match spec_read_sizes(data, p4) {
                    Err(e) => Err(e),
                    Ok(((cint, sizet, instr, lint, lnum), p9)) => match spec_read_i64(data, p9) {
                        Err(e) => Err(e),
                        Ok((sample_int, p10)) => {
                            if sample_int != LUAC_INT {
                                Err(
                                    DecodeError::HeaderMismatch {
                                        field: HeaderField::LuacInt,
                                        expected: LUAC_INT as u64,
                                        actual: sample_int as u64,
                                    },
                                )
                            } else {
                                match spec_read_u64(data, p10) {
                                    Err(e) => Err(e),
                                    Ok((sample_num, p11)) => {
                                        if sample_num != LUAC_NUM_BITS {
                                            Err(
                                                DecodeError::HeaderMismatch {
                                                    field: HeaderField::LuacNum,
                                                    expected: LUAC_NUM_BITS,
                                                    actual: sample_num,
                                                },
                                            )
                                        } else {
                                            Ok(
                                                (
                                                    HeaderView {
                                                        signature: sig,
                                                        version,
                                                        format,
                                                        luac_data: magic,
                                                        cint_size: cint,
                                                        sizet_size: sizet,
                                                        instruction_size: instr,
                                                        lua_integer_size: lint,
                                                        lua_number_size: lnum,
                                                        luac_int: sample_int,
                                                        luac_num: sample_num,
                                                    },
                                                    p11,
                                                ),
                                            )
                                        }
                                    },
                                }
                            }
                        },
                    },
                }
            }
        },
    }
}

/// The five expected-primitive-size bytes, each compared to its fixed value.
pub open spec fn spec_read_sizes(data: Seq<u8>, pos: int) -> Result<
    ((u8, u8, u8, u8, u8), int),
    DecodeError,
> {
    if !(0 <= pos && pos + 5 <= data.len()) {
        Err(DecodeError::UnexpectedEof)
    } else {
        let cint = data[pos];
        let sizet = data[pos + 1];
        let instr = data[pos + 2];
        let lint = data[pos + 3];
        let lnum = data[pos + 4];
        if cint != CINT_SIZE {
            Err(
                DecodeError::HeaderMismatch {
                    field: HeaderField::CIntSize,
                    expected: CINT_SIZE as u64,
                    actual: cint as u64,
                },
            )
        } else if sizet != CSIZET_SIZE {
            Err(
                DecodeError::HeaderMismatch {
                    field: HeaderField::SizetSize,
                    expected: CSIZET_SIZE as u64,
                    actual: sizet as u64,
                },
            )
        } else if instr != INSTRUCTION_SIZE {
            Err(
                DecodeError::HeaderMismatch {
                    field: HeaderField::InstructionSize,
                    expected: INSTRUCTION_SIZE as u64,
                    actual: instr as u64,
                },
            )
        } else if lint != LUA_INTEGER_SIZE {
            Err(
                DecodeError::HeaderMismatch {
                    field: HeaderField::LuaIntegerSize,
                    expected: LUA_INTEGER_SIZE as u64,
                    actual: lint as u64,
                },
            )
        } else if lnum != LUA_NUMBER_SIZE {
            Err(
                DecodeError::HeaderMismatch {
                    field: HeaderField::LuaNumberSize,
                    expected: LUA_NUMBER_SIZE as u64,
                    actual: lnum as u64,
                },
            )
        } else {
            Ok(((cint, sizet, instr, lint, lnum), pos + 5))
        }
    }
}

/// Reads one prototype.  An empty source name adopts `parent_source`; the
/// resolved name is what child prototypes inherit in turn.
///
/// The bound checks before the recursive step restate that the earlier
/// reads stay inside the buffer and consume at least one byte; the
/// executable reader proves they always hold of its own positions.
pub open spec fn spec_read_proto(data: Seq<u8>, pos: int, parent_source: Seq<char>) -> Result<
    (ProtoView, int),
    DecodeError,
>
    decreases data.len() - pos, 0int, 0nat,
{
    match spec_read_string(data, pos) {
        Err(e) => Err(e),
        Ok((raw_source, p1)) => {
            let source = if raw_source.len() == 0 {
                parent_source
            } else {
                raw_source
            };
            match spec_read_u32(data, p1) {
                Err(e) => Err(e),
                Ok((line_defined, p2)) => match spec_read_u32(data, p2) {
                    Err(e) => Err(e),
                    Ok((last_line_defined, p3)) => match spec_read_byte(data, p3) {
                        Err(e) => Err(e),
                        Ok((num_params, p4)) => match spec_read_byte(data, p4) {
                            Err(e) => Err(e),
                            Ok((is_vararg, p5)) => match spec_read_byte(data, p5) {
                                Err(e) => Err(e),
                                Ok((max_stack_size, p6)) => match spec_read_u32_list(data, p6) {
                                    Err(e) => Err(e),
                                    Ok((code, p7)) => match spec_read_constant_list(data, p7) {
                                        Err(e) => Err(e),
                                        Ok((constants, p8)) => match spec_read_upvalue_list(
                                            data,
                                            p8,
                                        ) {
                                            Err(e) => Err(e),
                                            Ok((upvalues, p9)) => {
                                            if !(pos < p9 <= data.len()) {
                                                Err(DecodeError::UnexpectedEof)
                                            } else {
                                                match spec_read_proto_list(data, p9, source) {
                                                    Err(e) => Err(e),
                                                    Ok((protos, p11)) => spec_read_proto_tail(
                                                        data,
                                                        p11,
                                                        ProtoView {
                                                            source,
                                                            line_defined,
                                                            last_line_defined,
                                                            num_params,
                                                            is_vararg,
                                                            max_stack_size,
                                                            code,
                                                            constants,
                                                            upvalues,
                                                            protos,
                                                            line_info: Seq::empty(),
                                                            loc_vars: Seq::empty(),
                                                            upvalue_names: Seq::empty(),
                                                        },
                                                    ),
                                                }
                                            }
                                        },
                                        },
                                    },
                                },
                            },
                        },
                    },
                },
            }
        },
    }
}

/// The debug tables at the end of a prototype: line info, local variables,
/// upvalue names.
pub open spec fn spec_read_proto_tail(data: Seq<u8>, pos: int, partial: ProtoView) -> Result<
    (ProtoView, int),
    DecodeError,
> {
    match spec_read_u32_list(data, pos) {
        Err(e) => Err(e),
        Ok((line_info, p1)) => match spec_read_loc_var_list(data, p1) {
            Err(e) => Err(e),
            Ok((loc_vars, p2)) => match spec_read_string_list(data, p2) {
                Err(e) => Err(e),
                Ok((upvalue_names, p3)) => Ok(
                    (ProtoView { line_info, loc_vars, upvalue_names, ..partial }, p3),
                ),
            },
        },
    }
}

/// Reads the nested-prototype list: a 4-byte count, then that many
/// prototypes, each inheriting `parent_source`.
pub open spec fn spec_read_proto_list(data: Seq<u8>, pos: int, parent_source: Seq<char>) -> Result<
    (Seq<ProtoView>, int),
    DecodeError,
>
    decreases data.len() - pos, 2int, 0nat,
{
    match spec_read_u32(data, pos) {
        Err(e) => Err(e),
        Ok((n, p)) => spec_read_proto_items(data, p, n as nat, parent_source),
    }
}

/// Reads `n` consecutive nested prototypes, each inheriting `parent_source`.
pub open spec fn spec_read_proto_items(
    data: Seq<u8>,
    pos: int,
    n: nat,
    parent_source: Seq<char>,
) -> Result<(Seq<ProtoView>, int), DecodeError>
    decreases data.len() - pos, 1int, n,
{
    if n == 0 {
        Ok((Seq::empty(), pos))
    } else if !(0 <= pos <= data.len()) {
        Err(DecodeError::UnexpectedEof)
    } else {
        match spec_read_proto(data, pos, parent_source) {
            Err(e) => Err(e),
            Ok((p, p1)) => {
                if !(pos < p1 <= data.len()) {
                    Err(DecodeError::UnexpectedEof)
                } else {
                    match spec_read_proto_items(data, p1, (n - 1) as nat, parent_source) {
                        Err(e) => Err(e),
                        Ok((s, p2)) => Ok((seq![p] + s, p2)),
                    }
                }
            },
        }
    }
}

/// Decodes a whole chunk: validated header, one top-level upvalue-count
/// byte (structural, unchecked), then the root prototype with the empty
/// string as parent source.  Trailing bytes are ignored.
pub open spec fn spec_undump(data: Seq<u8>) -> Result<ProtoView, DecodeError> {
    match spec_read_header(data, 0) {
        Err(e) => Err(e),
        Ok((_header, p1)) => match spec_read_byte(data, p1) {
            Err(e) => Err(e),
            Ok((_n_upvalues, p2)) => match spec_read_proto(data, p2, Seq::empty()) {
                Err(e) => Err(e),
                Ok((proto, _end)) => Ok(proto),
            },
        },
    }
}

} // verus!

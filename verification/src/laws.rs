//! Properties of the decoder, stated and proved against the model in
//! [`crate::model`].  The executable readers return exactly what the model
//! computes, so everything proved here carries over to them.

use crate::chunk::{
    DecodeError, CINT_SIZE, CSIZET_SIZE, INSTRUCTION_SIZE, LUAC_DATA_0, LUAC_DATA_1, LUAC_DATA_2,
    LUAC_DATA_3, LUAC_DATA_4, LUAC_DATA_5, LUAC_FORMAT, LUAC_INT, LUAC_NUM_BITS, LUAC_VERSION,
    LUA_INTEGER_SIZE, LUA_NUMBER_SIZE, SIG_0, SIG_1, SIG_2, SIG_3,
};
use crate::model::{
    spec_read_constant, spec_read_constant_items, spec_read_header, spec_read_loc_var,
    spec_read_loc_var_items, spec_read_proto, spec_read_proto_items, spec_read_string,
    spec_read_string_items, spec_read_u32_items, spec_read_upvalue_items, spec_undump, u64_from_le,
    ConstantView, ProtoView,
};
use vstd::prelude::*;

verus! {

/// A byte sequence that lays out a valid header at `pos`: every field holds
/// the fixed expected value of the supported format.
pub open spec fn valid_header_bytes(data: Seq<u8>, pos: int) -> bool {
    &&& 0 <= pos
    &&& pos + 33 <= data.len()
    &&& data[pos] == SIG_0
    &&& data[pos + 1] == SIG_1
    &&& data[pos + 2] == SIG_2
    &&& data[pos + 3] == SIG_3
    &&& data[pos + 4] == LUAC_VERSION
    &&& data[pos + 5] == LUAC_FORMAT
    &&& data[pos + 6] == LUAC_DATA_0
    &&& data[pos + 7] == LUAC_DATA_1
    &&& data[pos + 8] == LUAC_DATA_2
    &&& data[pos + 9] == LUAC_DATA_3
    &&& data[pos + 10] == LUAC_DATA_4
    &&& data[pos + 11] == LUAC_DATA_5
    &&& data[pos + 12] == CINT_SIZE
    &&& data[pos + 13] == CSIZET_SIZE
    &&& data[pos + 14] == INSTRUCTION_SIZE
    &&& data[pos + 15] == LUA_INTEGER_SIZE
    &&& data[pos + 16] == LUA_NUMBER_SIZE
    &&& u64_from_le(
        data[pos + 17],
        data[pos + 18],
        data[pos + 19],
        data[pos + 20],
        data[pos + 21],
        data[pos + 22],
        data[pos + 23],
        data[pos + 24],
    ) == LUAC_INT as u64
    &&& u64_from_le(
        data[pos + 25],
        data[pos + 26],
        data[pos + 27],
        data[pos + 28],
        data[pos + 29],
        data[pos + 30],
        data[pos + 31],
        data[pos + 32],
    ) == LUAC_NUM_BITS
}

/// Every valid header is accepted, consumes exactly its 33 bytes, and
/// decodes to a header whose fields are exactly the input bytes' values.
pub proof fn lemma_header_accepts_valid(data: Seq<u8>, pos: int)
    requires
        valid_header_bytes(data, pos),
    ensures
        ({
            let r = spec_read_header(data, pos);
            &&& r is Ok
            &&& r->Ok_0.1 == pos + 33
            &&& r->Ok_0.0.signature == data.subrange(pos, pos + 4)
            &&& r->Ok_0.0.version == data[pos + 4]
            &&& r->Ok_0.0.format == data[pos + 5]
            &&& r->Ok_0.0.luac_data == data.subrange(pos + 6, pos + 12)
            &&& r->Ok_0.0.cint_size == data[pos + 12]
            &&& r->Ok_0.0.sizet_size == data[pos + 13]
            &&& r->Ok_0.0.instruction_size == data[pos + 14]
            &&& r->Ok_0.0.lua_integer_size == data[pos + 15]
            &&& r->Ok_0.0.lua_number_size == data[pos + 16]
            &&& r->Ok_0.0.luac_int == LUAC_INT
            &&& r->Ok_0.0.luac_num == LUAC_NUM_BITS
        }),
{
    let sig = data.subrange(pos, pos + 4);
    assert(sig[0] == data[pos] && sig[1] == data[pos + 1] && sig[2] == data[pos + 2] && sig[3]
        == data[pos + 3]);
    let magic = data.subrange(pos + 6, pos + 12);
    assert(magic[0] == data[pos + 6] && magic[1] == data[pos + 7] && magic[2] == data[pos + 8]
        && magic[3] == data[pos + 9] && magic[4] == data[pos + 10] && magic[5] == data[pos + 11]);
}

/// Changing any single byte among the signature, the version and format
/// bytes, the magic data block, or the five size-indicator fields of a
/// valid header makes it fail with a header mismatch — never succeed.
pub proof fn lemma_header_rejects_mutation(data: Seq<u8>, pos: int, i: int, v: u8)
    requires
        valid_header_bytes(data, pos),
        pos <= i < pos + 17,
        v != data[i],
    ensures
        spec_read_header(data.update(i, v), pos) is Err,
        spec_read_header(data.update(i, v), pos)->Err_0 is HeaderMismatch,
{
    let d2 = data.update(i, v);
    assert(d2.len() == data.len());
    let sig = d2.subrange(pos, pos + 4);
    assert(sig[0] == d2[pos] && sig[1] == d2[pos + 1] && sig[2] == d2[pos + 2] && sig[3] == d2[pos
        + 3]);
    let magic = d2.subrange(pos + 6, pos + 12);
    assert(magic[0] == d2[pos + 6] && magic[1] == d2[pos + 7] && magic[2] == d2[pos + 8]
        && magic[3] == d2[pos + 9] && magic[4] == d2[pos + 10] && magic[5] == d2[pos + 11]);
}

/// Tag 0x00 decodes to Nil and consumes only the tag byte.
pub proof fn lemma_constant_nil(data: Seq<u8>, pos: int)
    requires
        0 <= pos < data.len(),
        data[pos] == 0x00,
    ensures
        spec_read_constant(data, pos) == Ok::<(ConstantView, int), DecodeError>(
            (ConstantView::Nil, pos + 1),
        ),
{
}

/// Tag 0x01 decodes the next byte as a boolean: nonzero is true.
pub proof fn lemma_constant_boolean(data: Seq<u8>, pos: int)
    requires
        0 <= pos,
        pos + 2 <= data.len(),
        data[pos] == 0x01,
    ensures
        spec_read_constant(data, pos) == Ok::<(ConstantView, int), DecodeError>(
            (ConstantView::Boolean(data[pos + 1] != 0), pos + 2),
        ),
{
}

/// Tag 0x03 decodes the next eight bytes as a number's bit pattern.
pub proof fn lemma_constant_number(data: Seq<u8>, pos: int)
    requires
        0 <= pos,
        pos + 9 <= data.len(),
        data[pos] == 0x03,
    ensures
        spec_read_constant(data, pos) == Ok::<(ConstantView, int), DecodeError>(
            (
                ConstantView::Number(
                    u64_from_le(
                        data[pos + 1],
                        data[pos + 2],
                        data[pos + 3],
                        data[pos + 4],
                        data[pos + 5],
                        data[pos + 6],
                        data[pos + 7],
                        data[pos + 8],
                    ),
                ),
                pos + 9,
            ),
        ),
{
}

/// Tag 0x13 decodes the next eight bytes as a signed integer.
pub proof fn lemma_constant_integer(data: Seq<u8>, pos: int)
    requires
        0 <= pos,
        pos + 9 <= data.len(),
        data[pos] == 0x13,
    ensures
        spec_read_constant(data, pos) == Ok::<(ConstantView, int), DecodeError>(
            (
                ConstantView::Integer(
                    u64_from_le(
                        data[pos + 1],
                        data[pos + 2],
                        data[pos + 3],
                        data[pos + 4],
                        data[pos + 5],
                        data[pos + 6],
                        data[pos + 7],
                        data[pos + 8],
                    ) as i64,
                ),
                pos + 9,
            ),
        ),
{
}

/// Tags 0x04 and 0x14 both decode a length-prefixed string with the exact
/// payload the string reader gives; the two forms do not differ here.
pub proof fn lemma_constant_string(data: Seq<u8>, pos: int)
    requires
        0 <= pos < data.len(),
        data[pos] == 0x04 || data[pos] == 0x14,
    ensures
        spec_read_constant(data, pos) == (match spec_read_string(data, pos + 1) {
            Ok((s, p)) => Ok::<(ConstantView, int), DecodeError>((ConstantView::Str(s), p)),
            Err(e) => Err::<(ConstantView, int), DecodeError>(e),
        }),
{
}

/// Every unrecognized tag byte is rejected as exactly that tag.
pub proof fn lemma_constant_invalid_tag(data: Seq<u8>, pos: int)
    requires
        0 <= pos < data.len(),
        data[pos] != 0x00 && data[pos] != 0x01 && data[pos] != 0x03 && data[pos] != 0x13
            && data[pos] != 0x04 && data[pos] != 0x14,
    ensures
        spec_read_constant(data, pos) == Err::<(ConstantView, int), DecodeError>(
            DecodeError::InvalidConstantTag(data[pos]),
        ),
{
}

/// A prototype with an empty source-name string adopts its parent's
/// resolved source name; one with its own name keeps it unchanged.
pub proof fn lemma_source_inheritance(data: Seq<u8>, pos: int, parent: Seq<char>)
    requires
        spec_read_proto(data, pos, parent) is Ok,
    ensures
        spec_read_string(data, pos) is Ok,
        spec_read_string(data, pos)->Ok_0.0.len() == 0 ==> spec_read_proto(
            data,
            pos,
            parent,
        )->Ok_0.0.source == parent,
        spec_read_string(data, pos)->Ok_0.0.len() > 0 ==> spec_read_proto(
            data,
            pos,
            parent,
        )->Ok_0.0.source == spec_read_string(data, pos)->Ok_0.0,
{
}

/// A buffer holding fewer bytes than a declared count of 4-byte items
/// requires is rejected with an end-of-input error — never accepted and,
/// the readers being verified, never a panic.  This covers the instruction
/// list and the line-info table.
pub proof fn lemma_u32_items_truncated(data: Seq<u8>, pos: int, n: nat)
    requires
        0 <= pos <= data.len(),
        data.len() - pos < 4 * n,
    ensures
        spec_read_u32_items(data, pos, n) == Err::<(Seq<u32>, int), DecodeError>(
            DecodeError::UnexpectedEof,
        ),
    decreases n,
{
    if n > 0 && pos + 4 <= data.len() {
        lemma_u32_items_truncated(data, pos + 4, (n - 1) as nat);
    }
}

/// The same for the upvalue descriptor list, whose items take 2 bytes.
pub proof fn lemma_upvalue_items_truncated(data: Seq<u8>, pos: int, n: nat)
    requires
        0 <= pos <= data.len(),
        data.len() - pos < 2 * n,
    ensures
        spec_read_upvalue_items(data, pos, n) is Err,
        spec_read_upvalue_items(data, pos, n)->Err_0 == DecodeError::UnexpectedEof,
    decreases n,
{
    if n > 0 && pos + 2 <= data.len() {
        lemma_upvalue_items_truncated(data, pos + 2, (n - 1) as nat);
    }
}

/// A successful string read consumes at least its length byte and never
/// passes the end of the buffer.
pub proof fn lemma_string_consumes(data: Seq<u8>, pos: int)
    requires
        spec_read_string(data, pos) is Ok,
    ensures
        pos < spec_read_string(data, pos)->Ok_0.1 <= data.len(),
{
}

/// A successful constant read consumes at least its tag byte and never
/// passes the end of the buffer.
pub proof fn lemma_constant_consumes(data: Seq<u8>, pos: int)
    requires
        spec_read_constant(data, pos) is Ok,
    ensures
        pos < spec_read_constant(data, pos)->Ok_0.1 <= data.len(),
{
    if 0 <= pos < data.len() && (data[pos] == 0x04 || data[pos] == 0x14) {
        if spec_read_string(data, pos + 1) is Ok {
            lemma_string_consumes(data, pos + 1);
        }
    }
}

/// A constant pool whose declared count exceeds the remaining byte count
/// can never decode: every constant takes at least one byte.
pub proof fn lemma_constant_items_overrun(data: Seq<u8>, pos: int, n: nat)
    requires
        0 <= pos <= data.len(),
        data.len() - pos < n,
    ensures
        spec_read_constant_items(data, pos, n) is Err,
    decreases n,
{
    if n > 0 {
        match spec_read_constant(data, pos) {
            Ok((_c, p2)) => {
                lemma_constant_consumes(data, pos);
                lemma_constant_items_overrun(data, p2, (n - 1) as nat);
            },
            Err(_) => {},
        }
    }
}

/// A string list whose declared count exceeds the remaining byte count can
/// never decode: every string takes at least its length byte.  This covers
/// the upvalue-name table.
pub proof fn lemma_string_items_overrun(data: Seq<u8>, pos: int, n: nat)
    requires
        0 <= pos <= data.len(),
        data.len() - pos < n,
    ensures
        spec_read_string_items(data, pos, n) is Err,
    decreases n,
{
    if n > 0 {
        match spec_read_string(data, pos) {
            Ok((_s, p2)) => {
                lemma_string_consumes(data, pos);
                lemma_string_items_overrun(data, p2, (n - 1) as nat);
            },
            Err(_) => {},
        }
    }
}

/// A local-variable table whose declared count exceeds the remaining byte
/// count can never decode.
pub proof fn lemma_loc_var_items_overrun(data: Seq<u8>, pos: int, n: nat)
    requires
        0 <= pos <= data.len(),
        data.len() - pos < n,
    ensures
        spec_read_loc_var_items(data, pos, n) is Err,
    decreases n,
{
    if n > 0 {
        match spec_read_loc_var(data, pos) {
            Ok((_v, p2)) => {
                if spec_read_string(data, pos) is Ok {
                    lemma_string_consumes(data, pos);
                }
                lemma_loc_var_items_overrun(data, p2, (n - 1) as nat);
            },
            Err(_) => {},
        }
    }
}

/// A nested-prototype list whose declared count exceeds the remaining byte
/// count can never decode.
pub proof fn lemma_proto_items_overrun(data: Seq<u8>, pos: int, n: nat, parent: Seq<char>)
    requires
        0 <= pos <= data.len(),
        data.len() - pos < n,
    ensures
        spec_read_proto_items(data, pos, n, parent) is Err,
    decreases n,
{
    if n > 0 {
        match spec_read_proto(data, pos, parent) {
            Ok((_p, p2)) => {
                if pos < p2 <= data.len() {
                    lemma_proto_items_overrun(data, p2, (n - 1) as nat, parent);
                }
            },
            Err(_) => {},
        }
    }
}

/// Decoding is a function of the input bytes alone: any two decode results
/// that the contract of `undump` allows on equal buffers are equal, so
/// decoding the same buffer twice gives structurally equal trees.
pub proof fn lemma_undump_deterministic(
    data1: Seq<u8>,
    data2: Seq<u8>,
    r1: Result<ProtoView, DecodeError>,
    r2: Result<ProtoView, DecodeError>,
)
    requires
        data1 == data2,
        r1 == spec_undump(data1),
        r2 == spec_undump(data2),
    ensures
        r1 == r2,
{
}

} // verus!

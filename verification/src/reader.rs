//! The byte cursor and the executable decode operations.
//!
//! A `Reader` owns the raw input buffer and a read position and extracts
//! values from the front of the remaining bytes.  Every operation returns
//! exactly what the corresponding spec reader in [`crate::model`] computes
//! on the same buffer and position; on an error the position is left where
//! the operation started.

use crate::chunk::{
    Constant, DecodeError, Header, HeaderField, LocVar, Prototype, Upvalue, CINT_SIZE, CSIZET_SIZE,
    INSTRUCTION_SIZE, LUAC_DATA_0, LUAC_DATA_1, LUAC_DATA_2, LUAC_DATA_3, LUAC_DATA_4, LUAC_DATA_5,
    LUAC_DATA_LE, LUAC_FORMAT, LUAC_INT, LUAC_NUM_BITS, LUAC_VERSION, LUA_INTEGER_SIZE,
    LUA_NUMBER_SIZE, LUA_SIGNATURE_LE, SIG_0, SIG_1, SIG_2, SIG_3,
};
use crate::model::{
    constants_view, loc_vars_view, prepend_items, proto_view, protos_view, ConstantView,
    LocVarView, ProtoView, spec_read_byte, spec_read_bytes,
    spec_read_constant, spec_read_constant_items, spec_read_constant_list, spec_read_header,
    spec_read_i64, spec_read_loc_var, spec_read_loc_var_items, spec_read_loc_var_list,
    spec_read_proto, spec_read_proto_items, spec_read_proto_list, spec_read_string,
    spec_read_string_items,
    spec_read_string_list, spec_read_u32, spec_read_u32_items, spec_read_u32_list, spec_read_u64,
    spec_read_upvalue_items, spec_read_upvalue_list, strings_view,
};
use vstd::prelude::*;
use vstd::utf8::{decode_utf8, valid_utf8};

verus! {

/// Relates an executable read to a spec reader's outcome, for results whose
/// spec value is the executable value itself.
pub open spec fn reads_to<T>(
    outcome: Result<(T, int), DecodeError>,
    r: Result<T, DecodeError>,
    pos0: int,
    pos1: int,
) -> bool {
    match outcome {
        Ok((v, p)) => r == Ok::<T, DecodeError>(v) && pos1 == p,
        Err(e) => r == Err::<T, DecodeError>(e) && pos1 == pos0,
    }
}

/// Relates an executable read to a spec reader's outcome, for results whose
/// spec value is the view of the executable value.
pub open spec fn reads_to_view<T: View>(
    outcome: Result<(T::V, int), DecodeError>,
    r: Result<T, DecodeError>,
    pos0: int,
    pos1: int,
) -> bool {
    match outcome {
        Ok((v, p)) => r is Ok && r->Ok_0@ == v && pos1 == p,
        Err(e) => r is Err && r->Err_0 == e && pos1 == pos0,
    }
}

/// Relies on std's String::from_utf8: it succeeds exactly on the byte
/// sequences that vstd's `valid_utf8` accepts, and the returned string holds
/// exactly the characters that vstd's `decode_utf8` gives for those bytes.
#[verifier::external_body]
fn utf8_to_string(bytes: Vec<u8>) -> (r: Option<String>)
    ensures
        r is Some <==> valid_utf8(bytes@),
        r matches Some(s) ==> s@ == decode_utf8(bytes@),
{
    match String::from_utf8(bytes) {
        Ok(s) => Some(s),
        Err(_) => None,
    }
}

/// A forward-only cursor over an immutable byte buffer.
pub struct Reader {
    data: Vec<u8>,
    pos: usize,
}

impl Reader {
    /// The whole input buffer; it never changes after construction.
    pub closed spec fn spec_data(&self) -> Seq<u8> {
        self.data@
    }

    /// The current read position.
    pub closed spec fn spec_pos(&self) -> int {
        self.pos as int
    }

    /// Well-formedness: the position never passes the end of the buffer.
    pub closed spec fn wf(&self) -> bool {
        self.pos <= self.data.len()
    }

    /// The number of bytes consumed so far.
    pub fn position(&self) -> (r: usize)
        ensures
            r as int == self.spec_pos(),
    {
        self.pos
    }

    /// Wraps a buffer in a cursor positioned at its first byte.
    pub fn new(data: Vec<u8>) -> (r: Reader)
        ensures
            r.wf(),
            r.spec_data() == data@,
            r.spec_pos() == 0,
    {
        Reader { data, pos: 0 }
    }

    /// Reads the next byte.
    pub fn read_byte(&mut self) -> (r: Result<u8, DecodeError>)
        requires
            old(self).wf(),
        ensures
            final(self).wf(),
            final(self).spec_data() == old(self).spec_data(),
            reads_to(
                spec_read_byte(old(self).spec_data(), old(self).spec_pos()),
                r,
                old(self).spec_pos(),
                final(self).spec_pos(),
            ),
    {
        if self.pos < self.data.len() {
            let b = self.data[self.pos];
            self.pos = self.pos + 1;
            Ok(b)
        } else {
            Err(DecodeError::UnexpectedEof)
        }
    }

    /// Reads a run of `n` bytes; the buffer must hold all of them.
    pub fn read_bytes(&mut self, n: usize) -> (r: Result<Vec<u8>, DecodeError>)
        requires
            old(self).wf(),
        ensures
            final(self).wf(),
            final(self).spec_data() == old(self).spec_data(),
            reads_to_view(
                spec_read_bytes(old(self).spec_data(), old(self).spec_pos(), n as int),
                r,
                old(self).spec_pos(),
                final(self).spec_pos(),
            ),
    {
        if n > self.data.len() - self.pos {
            return Err(DecodeError::UnexpectedEof);
        }
        let ghost data0 = self.spec_data();
        let ghost pos0 = self.spec_pos();
        let mut result: Vec<u8> = Vec::new();
        let mut i: usize = 0;
        while i < n
            invariant
                self.wf(),
                self.spec_data() == data0,
                i <= n,
                data0 == old(self).spec_data(),
                pos0 == old(self).spec_pos(),
                0 <= pos0,
                pos0 + n <= data0.len(),
                self.spec_pos() == pos0 + i,
                result@ == data0.subrange(pos0, pos0 + i),
            decreases n - i,
        {
            let b = self.data[self.pos];
            self.pos = self.pos + 1;
            result.push(b);
            i = i + 1;
            proof {
                assert(result@ =~= data0.subrange(pos0, pos0 + i));
            }
        }
        proof {
            assert(result@ =~= data0.subrange(pos0, pos0 + n as int));
        }
        Ok(result)
    }

    /// Reads a 4-byte little-endian unsigned integer.
    pub fn read_u32(&mut self) -> (r: Result<u32, DecodeError>)
        requires
            old(self).wf(),
        ensures
            final(self).wf(),
            final(self).spec_data() == old(self).spec_data(),
            reads_to(
                spec_read_u32(old(self).spec_data(), old(self).spec_pos()),
                r,
                old(self).spec_pos(),
                final(self).spec_pos(),
            ),
    {
        if self.data.len() - self.pos < 4 {
            return Err(DecodeError::UnexpectedEof);
        }
        let b0 = self.data[self.pos];
        let b1 = self.data[self.pos + 1];
        let b2 = self.data[self.pos + 2];
        let b3 = self.data[self.pos + 3];
        self.pos = self.pos + 4;
        Ok((b0 as u32) + (b1 as u32) * 0x100 + (b2 as u32) * 0x1_0000 + (b3 as u32) * 0x100_0000)
    }

    /// Reads an 8-byte little-endian unsigned integer.
    pub fn read_u64(&mut self) -> (r: Result<u64, DecodeError>)
        requires
            old(self).wf(),
        ensures
            final(self).wf(),
            final(self).spec_data() == old(self).spec_data(),
            reads_to(
                spec_read_u64(old(self).spec_data(), old(self).spec_pos()),
                r,
                old(self).spec_pos(),
                final(self).spec_pos(),
            ),
    {
        if self.data.len() - self.pos < 8 {
            return Err(DecodeError::UnexpectedEof);
        }
        let b0 = self.data[self.pos];
        let b1 = self.data[self.pos + 1];
        let b2 = self.data[self.pos + 2];
        let b3 = self.data[self.pos + 3];
        let b4 = self.data[self.pos + 4];
        let b5 = self.data[self.pos + 5];
        let b6 = self.data[self.pos + 6];
        let b7 = self.data[self.pos + 7];
        self.pos = self.pos + 8;
        Ok(
            (b0 as u64) + (b1 as u64) * 0x100 + (b2 as u64) * 0x1_0000 + (b3 as u64) * 0x100_0000
                + (b4 as u64) * 0x1_0000_0000 + (b5 as u64) * 0x100_0000_0000 + (b6 as u64)
                * 0x1_0000_0000_0000 + (b7 as u64) * 0x100_0000_0000_0000,
        )
    }

    /// Reads an 8-byte integer and reinterprets it as signed, two's
    /// complement, with no range check.
    pub fn read_lua_integer(&mut self) -> (r: Result<i64, DecodeError>)
        requires
            old(self).wf(),
        ensures
            final(self).wf(),
            final(self).spec_data() == old(self).spec_data(),
            reads_to(
                spec_read_i64(old(self).spec_data(), old(self).spec_pos()),
                r,
                old(self).spec_pos(),
                final(self).spec_pos(),
            ),
    {
        match self.read_u64() {
            Ok(v) => Ok(v as i64),
            Err(e) => Err(e),
        }
    }

    /// Reads the 8-byte pattern of an IEEE-754 floating-point number.  The
    /// decoder keeps numbers as their bit patterns and never interprets
    /// them, so this is the raw little-endian word.
    pub fn read_lua_number(&mut self) -> (r: Result<u64, DecodeError>)
        requires
            old(self).wf(),
        ensures
            final(self).wf(),
            final(self).spec_data() == old(self).spec_data(),
            reads_to(
                spec_read_u64(old(self).spec_data(), old(self).spec_pos()),
                r,
                old(self).spec_pos(),
                final(self).spec_pos(),
            ),
    {
        self.read_u64()
    }

    /// Reads a length-prefixed string: one length byte, where 0 is the
    /// empty string and 0xFF announces an 8-byte length; the stored length
    /// counts one trailing terminator byte that is never read, so
    /// `length - 1` content bytes follow and are decoded as UTF-8.
    pub fn read_string(&mut self) -> (r: Result<String, DecodeError>)
        requires
            old(self).wf(),
        ensures
            final(self).wf(),
            final(self).spec_data() == old(self).spec_data(),
            reads_to_view(
                spec_read_string(old(self).spec_data(), old(self).spec_pos()),
                r,
                old(self).spec_pos(),
                final(self).spec_pos(),
            ),
    {
        let start = self.pos;
        let b = match self.read_byte() {
            Ok(b) => b,
            Err(e) => {
                return Err(e);
            },
        };
        if b == 0 {
            return Ok(String::new());
        }
        let size: u64 = if b == 0xFF {
            match self.read_u64() {
                Ok(v) => v,
                Err(e) => {
                    self.pos = start;
                    return Err(e);
                },
            }
        } else {
            b as u64
        };
        if size == 0 {
            self.pos = start;
            return Err(DecodeError::LengthOverflow);
        }
        let content_len = size - 1;
        let remaining = self.data.len() - self.pos;
        if content_len > remaining as u64 {
            self.pos = start;
            return Err(DecodeError::UnexpectedEof);
        }
        let content = match self.read_bytes(content_len as usize) {
            Ok(v) => v,
            Err(e) => {
                self.pos = start;
                return Err(e);
            },
        };
        match utf8_to_string(content) {
            Some(s) => Ok(s),
            None => {
                self.pos = start;
                Err(DecodeError::InvalidText)
            },
        }
    }

    /// Reads a 4-byte count followed by that many 4-byte integers.
    fn read_counted_u32s(&mut self) -> (r: Result<Vec<u32>, DecodeError>)
        requires
            old(self).wf(),
        ensures
            final(self).wf(),
            final(self).spec_data() == old(self).spec_data(),
            old(self).spec_pos() <= final(self).spec_pos(),
            reads_to_view(
                spec_read_u32_list(old(self).spec_data(), old(self).spec_pos()),
                r,
                old(self).spec_pos(),
                final(self).spec_pos(),
            ),
    {
        let ghost data0 = self.spec_data();
        let ghost pos0 = self.spec_pos();
        let start = self.pos;
        let n = match self.read_u32() {
            Ok(n) => n,
            Err(e) => {
                return Err(e);
            },
        };
        let ghost p1 = self.spec_pos();
        let ghost items0 = spec_read_u32_items(data0, p1, n as nat);
        let mut result: Vec<u32> = Vec::new();
        let mut i: u32 = 0;
        proof {
            match items0 {
                Ok((s, _p)) => {
                    assert(Seq::<u32>::empty() + s =~= s);
                },
                Err(_) => {},
            }
        }
        while i < n
            invariant
                self.wf(),
                self.spec_data() == data0,
                i <= n,
                start as int == pos0,
                data0 == old(self).spec_data(),
                pos0 == old(self).spec_pos(),
                0 <= pos0 <= data0.len(),
                pos0 <= self.spec_pos(),
                spec_read_u32(data0, pos0) == Ok::<(u32, int), DecodeError>((n, p1)),
                items0 == spec_read_u32_items(data0, p1, n as nat),
                items0 == prepend_items(
                    result@,
                    spec_read_u32_items(data0, self.spec_pos(), (n - i) as nat),
                ),
            decreases n - i,
        {
            let ghost result_pre = result@;
            let v = match self.read_u32() {
                Ok(v) => v,
                Err(e) => {
                    self.pos = start;
                    return Err(e);
                },
            };
            result.push(v);
            i = i + 1;
            proof {
                match spec_read_u32_items(data0, self.spec_pos(), (n - i) as nat) {
                    Ok((s2, _p2)) => {
                        assert(result_pre + (seq![v] + s2) =~= result@ + s2);
                    },
                    Err(_) => {},
                }
            }
        }
        proof {
            assert(result@ + Seq::<u32>::empty() =~= result@);
        }
        Ok(result)
    }

    /// Reads the instruction list: a 4-byte count, then that many 4-byte
    /// instruction words kept verbatim as opaque values.
    pub fn read_code(&mut self) -> (r: Result<Vec<u32>, DecodeError>)
        requires
            old(self).wf(),
        ensures
            final(self).wf(),
            final(self).spec_data() == old(self).spec_data(),
            old(self).spec_pos() <= final(self).spec_pos(),
            reads_to_view(
                spec_read_u32_list(old(self).spec_data(), old(self).spec_pos()),
                r,
                old(self).spec_pos(),
                final(self).spec_pos(),
            ),
    {
        self.read_counted_u32s()
    }

    /// Reads the line-info table: a 4-byte count, then that many 4-byte
    /// line numbers, index-aligned with the instruction list.
    pub fn read_line_info(&mut self) -> (r: Result<Vec<u32>, DecodeError>)
        requires
            old(self).wf(),
        ensures
            final(self).wf(),
            final(self).spec_data() == old(self).spec_data(),
            old(self).spec_pos() <= final(self).spec_pos(),
            reads_to_view(
                spec_read_u32_list(old(self).spec_data(), old(self).spec_pos()),
                r,
                old(self).spec_pos(),
                final(self).spec_pos(),
            ),
    {
        self.read_counted_u32s()
    }

    /// Reads the upvalue descriptor list: a 4-byte count, then that many
    /// (instack, index) byte pairs.
    pub fn read_upvalues(&mut self) -> (r: Result<Vec<Upvalue>, DecodeError>)
        requires
            old(self).wf(),
        ensures
            final(self).wf(),
            final(self).spec_data() == old(self).spec_data(),
            old(self).spec_pos() <= final(self).spec_pos(),
            reads_to_view(
                spec_read_upvalue_list(old(self).spec_data(), old(self).spec_pos()),
                r,
                old(self).spec_pos(),
                final(self).spec_pos(),
            ),
    {
        let ghost data0 = self.spec_data();
        let ghost pos0 = self.spec_pos();
        let start = self.pos;
        let n = match self.read_u32() {
            Ok(n) => n,
            Err(e) => {
                return Err(e);
            },
        };
        let ghost p1 = self.spec_pos();
        let ghost items0 = spec_read_upvalue_items(data0, p1, n as nat);
        let mut result: Vec<Upvalue> = Vec::new();
        let mut i: u32 = 0;
        proof {
            match items0 {
                Ok((s, _p)) => {
                    assert(Seq::<Upvalue>::empty() + s =~= s);
                },
                Err(_) => {},
            }
        }
        while i < n
            invariant
                self.wf(),
                self.spec_data() == data0,
                i <= n,
                start as int == pos0,
                data0 == old(self).spec_data(),
                pos0 == old(self).spec_pos(),
                0 <= pos0 <= data0.len(),
                pos0 <= self.spec_pos(),
                spec_read_u32(data0, pos0) == Ok::<(u32, int), DecodeError>((n, p1)),
                items0 == spec_read_upvalue_items(data0, p1, n as nat),
                items0 == prepend_items(
                    result@,
                    spec_read_upvalue_items(data0, self.spec_pos(), (n - i) as nat),
                ),
            decreases n - i,
        {
            let ghost result_pre = result@;
            let instack = match self.read_byte() {
                Ok(b) => b,
                Err(e) => {
                    self.pos = start;
                    return Err(e);
                },
            };
            let idx = match self.read_byte() {
                Ok(b) => b,
                Err(e) => {
                    self.pos = start;
                    return Err(e);
                },
            };
            let item = Upvalue { instack, idx };
            result.push(item);
            i = i + 1;
            proof {
                match spec_read_upvalue_items(data0, self.spec_pos(), (n - i) as nat) {
                    Ok((s2, _p2)) => {
                        assert(result_pre + (seq![item] + s2) =~= result@ + s2);
                    },
                    Err(_) => {},
                }
            }
        }
        proof {
            assert(result@ + Seq::<Upvalue>::empty() =~= result@);
        }
        Ok(result)
    }

    /// Reads one tagged constant: a tag byte, then the payload the tag
    /// calls for.  Unrecognized tags are rejected.
    pub fn read_constant(&mut self) -> (r: Result<Constant, DecodeError>)
        requires
            old(self).wf(),
        ensures
            final(self).wf(),
            final(self).spec_data() == old(self).spec_data(),
            old(self).spec_pos() <= final(self).spec_pos(),
            reads_to_view(
                spec_read_constant(old(self).spec_data(), old(self).spec_pos()),
                r,
                old(self).spec_pos(),
                final(self).spec_pos(),
            ),
    {
        let start = self.pos;
        let tag = match self.read_byte() {
            Ok(t) => t,
            Err(e) => {
                return Err(e);
            },
        };
        match tag {
            0x00 => Ok(Constant::Nil),
            0x01 => match self.read_byte() {
                Ok(b) => Ok(Constant::Boolean(b != 0)),
                Err(e) => {
                    self.pos = start;
                    Err(e)
                },
            },
            0x03 => match self.read_lua_number() {
                Ok(bits) => Ok(Constant::Number(bits)),
                Err(e) => {
                    self.pos = start;
                    Err(e)
                },
            },
            0x13 => match self.read_lua_integer() {
                Ok(v) => Ok(Constant::Integer(v)),
                Err(e) => {
                    self.pos = start;
                    Err(e)
                },
            },
            0x04 | 0x14 => match self.read_string() {
                Ok(s) => Ok(Constant::Str(s)),
                Err(e) => {
                    self.pos = start;
                    Err(e)
                },
            },
            _ => {
                self.pos = start;
                Err(DecodeError::InvalidConstantTag(tag))
            },
        }
    }

    /// Reads the constant pool: a 4-byte count, then that many tagged
    /// constants, in order.
    pub fn read_constants(&mut self) -> (r: Result<Vec<Constant>, DecodeError>)
        requires
            old(self).wf(),
        ensures
            final(self).wf(),
            final(self).spec_data() == old(self).spec_data(),
            old(self).spec_pos() <= final(self).spec_pos(),
            match spec_read_constant_list(old(self).spec_data(), old(self).spec_pos()) {
                Ok((v, p)) => r is Ok && constants_view(r->Ok_0@) == v && final(self).spec_pos()
                    == p,
                Err(e) => r is Err && r->Err_0 == e && final(self).spec_pos() == old(
                    self,
                ).spec_pos(),
            },
    {
        let ghost data0 = self.spec_data();
        let ghost pos0 = self.spec_pos();
        let start = self.pos;
        let n = match self.read_u32() {
            Ok(n) => n,
            Err(e) => {
                return Err(e);
            },
        };
        let ghost p1 = self.spec_pos();
        let ghost items0 = spec_read_constant_items(data0, p1, n as nat);
        let mut result: Vec<Constant> = Vec::new();
        let mut i: u32 = 0;
        proof {
            assert(constants_view(result@) =~= Seq::<ConstantView>::empty());
            match items0 {
                Ok((s, _p)) => {
                    assert(Seq::<ConstantView>::empty() + s =~= s);
                },
                Err(_) => {},
            }
        }
        while i < n
            invariant
                self.wf(),
                self.spec_data() == data0,
                i <= n,
                start as int == pos0,
                data0 == old(self).spec_data(),
                pos0 == old(self).spec_pos(),
                0 <= pos0 <= data0.len(),
                pos0 <= self.spec_pos(),
                spec_read_u32(data0, pos0) == Ok::<(u32, int), DecodeError>((n, p1)),
                items0 == spec_read_constant_items(data0, p1, n as nat),
                items0 == prepend_items(
                    constants_view(result@),
                    spec_read_constant_items(data0, self.spec_pos(), (n - i) as nat),
                ),
            decreases n - i,
        {
            let ghost result_pre = result@;
            let c = match self.read_constant() {
                Ok(c) => c,
                Err(e) => {
                    self.pos = start;
                    return Err(e);
                },
            };
            let ghost cv = c@;
            result.push(c);
            i = i + 1;
            proof {
                assert(constants_view(result@) =~= constants_view(result_pre).push(cv));
                match spec_read_constant_items(data0, self.spec_pos(), (n - i) as nat) {
                    Ok((s2, _p2)) => {
                        assert(constants_view(result_pre) + (seq![cv] + s2) =~= constants_view(
                            result@,
                        ) + s2);
                    },
                    Err(_) => {},
                }
            }
        }
        proof {
            assert(constants_view(result@) + Seq::<ConstantView>::empty() =~= constants_view(
                result@,
            ));
        }
        Ok(result)
    }

    /// Reads the local-variable debug list: a 4-byte count, then that many
    /// (name, start-pc, end-pc) records.
    pub fn read_loc_vars(&mut self) -> (r: Result<Vec<LocVar>, DecodeError>)
        requires
            old(self).wf(),
        ensures
            final(self).wf(),
            final(self).spec_data() == old(self).spec_data(),
            old(self).spec_pos() <= final(self).spec_pos(),
            match spec_read_loc_var_list(old(self).spec_data(), old(self).spec_pos()) {
                Ok((v, p)) => r is Ok && loc_vars_view(r->Ok_0@) == v && final(self).spec_pos()
                    == p,
                Err(e) => r is Err && r->Err_0 == e && final(self).spec_pos() == old(
                    self,
                ).spec_pos(),
            },
    {
        let ghost data0 = self.spec_data();
        let ghost pos0 = self.spec_pos();
        let start = self.pos;
        let n = match self.read_u32() {
            Ok(n) => n,
            Err(e) => {
                return Err(e);
            },
        };
        let ghost p1 = self.spec_pos();
        let ghost items0 = spec_read_loc_var_items(data0, p1, n as nat);
        let mut result: Vec<LocVar> = Vec::new();
        let mut i: u32 = 0;
        proof {
            assert(loc_vars_view(result@) =~= Seq::<LocVarView>::empty());
            match items0 {
                Ok((s, _p)) => {
                    assert(Seq::<LocVarView>::empty() + s =~= s);
                },
                Err(_) => {},
            }
        }
        while i < n
            invariant
                self.wf(),
                self.spec_data() == data0,
                i <= n,
                start as int == pos0,
                data0 == old(self).spec_data(),
                pos0 == old(self).spec_pos(),
                0 <= pos0 <= data0.len(),
                pos0 <= self.spec_pos(),
                spec_read_u32(data0, pos0) == Ok::<(u32, int), DecodeError>((n, p1)),
                items0 == spec_read_loc_var_items(data0, p1, n as nat),
                items0 == prepend_items(
                    loc_vars_view(result@),
                    spec_read_loc_var_items(data0, self.spec_pos(), (n - i) as nat),
                ),
            decreases n - i,
        {
            let ghost result_pre = result@;
            let var_name = match self.read_string() {
                Ok(s) => s,
                Err(e) => {
                    self.pos = start;
                    return Err(e);
                },
            };
            let start_pc = match self.read_u32() {
                Ok(v) => v,
                Err(e) => {
                    self.pos = start;
                    return Err(e);
                },
            };
            let end_pc = match self.read_u32() {
                Ok(v) => v,
                Err(e) => {
                    self.pos = start;
                    return Err(e);
                },
            };
            let item = LocVar { var_name, start_pc, end_pc };
            let ghost iv = item@;
            result.push(item);
            i = i + 1;
            proof {
                assert(loc_vars_view(result@) =~= loc_vars_view(result_pre).push(iv));
                match spec_read_loc_var_items(data0, self.spec_pos(), (n - i) as nat) {
                    Ok((s2, _p2)) => {
                        assert(loc_vars_view(result_pre) + (seq![iv] + s2) =~= loc_vars_view(
                            result@,
                        ) + s2);
                    },
                    Err(_) => {},
                }
            }
        }
        proof {
            assert(loc_vars_view(result@) + Seq::<LocVarView>::empty() =~= loc_vars_view(result@));
        }
        Ok(result)
    }

    /// Reads the upvalue-name debug list: a 4-byte count, then that many
    /// strings, parallel to the upvalue descriptors by index.
    pub fn read_upvalue_names(&mut self) -> (r: Result<Vec<String>, DecodeError>)
        requires
            old(self).wf(),
        ensures
            final(self).wf(),
            final(self).spec_data() == old(self).spec_data(),
            old(self).spec_pos() <= final(self).spec_pos(),
            match spec_read_string_list(old(self).spec_data(), old(self).spec_pos()) {
                Ok((v, p)) => r is Ok && strings_view(r->Ok_0@) == v && final(self).spec_pos()
                    == p,
                Err(e) => r is Err && r->Err_0 == e && final(self).spec_pos() == old(
                    self,
                ).spec_pos(),
            },
    {
        let ghost data0 = self.spec_data();
        let ghost pos0 = self.spec_pos();
        let start = self.pos;
        let n = match self.read_u32() {
            Ok(n) => n,
            Err(e) => {
                return Err(e);
            },
        };
        let ghost p1 = self.spec_pos();
        let ghost items0 = spec_read_string_items(data0, p1, n as nat);
        let mut result: Vec<String> = Vec::new();
        let mut i: u32 = 0;
        proof {
            assert(strings_view(result@) =~= Seq::<Seq<char>>::empty());
            match items0 {
                Ok((s, _p)) => {
                    assert(Seq::<Seq<char>>::empty() + s =~= s);
                },
                Err(_) => {},
            }
        }
        while i < n
            invariant
                self.wf(),
                self.spec_data() == data0,
                i <= n,
                start as int == pos0,
                data0 == old(self).spec_data(),
                pos0 == old(self).spec_pos(),
                0 <= pos0 <= data0.len(),
                pos0 <= self.spec_pos(),
                spec_read_u32(data0, pos0) == Ok::<(u32, int), DecodeError>((n, p1)),
                items0 == spec_read_string_items(data0, p1, n as nat),
                items0 == prepend_items(
                    strings_view(result@),
                    spec_read_string_items(data0, self.spec_pos(), (n - i) as nat),
                ),
            decreases n - i,
        {
            let ghost result_pre = result@;
            let s = match self.read_string() {
                Ok(s) => s,
                Err(e) => {
                    self.pos = start;
                    return Err(e);
                },
            };
            let ghost sv = s@;
            result.push(s);
            i = i + 1;
            proof {
                assert(strings_view(result@) =~= strings_view(result_pre).push(sv));
                match spec_read_string_items(data0, self.spec_pos(), (n - i) as nat) {
                    Ok((s2, _p2)) => {
                        assert(strings_view(result_pre) + (seq![sv] + s2) =~= strings_view(result@)
                            + s2);
                    },
                    Err(_) => {},
                }
            }
        }
        proof {
            assert(strings_view(result@) + Seq::<Seq<char>>::empty() =~= strings_view(result@));
        }
        Ok(result)
    }

    /// Validates the fixed-layout header and returns it.  Every field is
    /// compared against the single supported format's constant, in order;
    /// the first mismatch is reported and decoding must not proceed.
    pub fn check_header(&mut self) -> (r: Result<Header, DecodeError>)
        requires
            old(self).wf(),
        ensures
            final(self).wf(),
            final(self).spec_data() == old(self).spec_data(),
            old(self).spec_pos() <= final(self).spec_pos(),
            reads_to_view(
                spec_read_header(old(self).spec_data(), old(self).spec_pos()),
                r,
                old(self).spec_pos(),
                final(self).spec_pos(),
            ),
    {
        let start = self.pos;
        let signature = match self.read_bytes(4) {
            Ok(v) => v,
            Err(e) => {
                return Err(e);
            },
        };
        if !(signature[0] == SIG_0 && signature[1] == SIG_1 && signature[2] == SIG_2
            && signature[3] == SIG_3) {
            let actual = (signature[0] as u64) + (signature[1] as u64) * 0x100 + (signature[2]
                as u64) * 0x1_0000 + (signature[3] as u64) * 0x100_0000;
            self.pos = start;
            return Err(
                DecodeError::HeaderMismatch {
                    field: HeaderField::Signature,
                    expected: LUA_SIGNATURE_LE as u64,
                    actual,
                },
            );
        }
        let version = match self.read_byte() {
            Ok(b) => b,
            Err(e) => {
                self.pos = start;
                return Err(e);
            },
        };
        if version != LUAC_VERSION {
            self.pos = start;
            return Err(
                DecodeError::HeaderMismatch {
                    field: HeaderField::Version,
                    expected: LUAC_VERSION as u64,
                    actual: version as u64,
                },
            );
        }
        let format = match self.read_byte() {
            Ok(b) => b,
            Err(e) => {
                self.pos = start;
                return Err(e);
            },
        };
        if format != LUAC_FORMAT {
            self.pos = start;
            return Err(
                DecodeError::HeaderMismatch {
                    field: HeaderField::Format,
                    expected: LUAC_FORMAT as u64,
                    actual: format as u64,
                },
            );
        }
        let luac_data = match self.read_bytes(6) {
            Ok(v) => v,
            Err(e) => {
                self.pos = start;
                return Err(e);
            },
        };
        if !(luac_data[0] == LUAC_DATA_0 && luac_data[1] == LUAC_DATA_1 && luac_data[2]
            == LUAC_DATA_2 && luac_data[3] == LUAC_DATA_3 && luac_data[4] == LUAC_DATA_4
            && luac_data[5] == LUAC_DATA_5) {
            let actual = (luac_data[0] as u64) + (luac_data[1] as u64) * 0x100 + (luac_data[2]
                as u64) * 0x1_0000 + (luac_data[3] as u64) * 0x100_0000 + (luac_data[4] as u64)
                * 0x1_0000_0000 + (luac_data[5] as u64) * 0x100_0000_0000;
            self.pos = start;
            return Err(
                DecodeError::HeaderMismatch {
                    field: HeaderField::LuacData,
                    expected: LUAC_DATA_LE,
                    actual,
                },
            );
        }
        let cint_size = match self.read_byte() {
            Ok(b) => b,
            Err(e) => {
                self.pos = start;
                return Err(e);
            },
        };
        let sizet_size = match self.read_byte() {
            Ok(b) => b,
            Err(e) => {
                self.pos = start;
                return Err(e);
            },
        };
        let instruction_size = match self.read_byte() {
            Ok(b) => b,
            Err(e) => {
                self.pos = start;
                return Err(e);
            },
        };
        let lua_integer_size = match self.read_byte() {
            Ok(b) => b,
            Err(e) => {
                self.pos = start;
                return Err(e);
            },
        };
        let lua_number_size = match self.read_byte() {
            Ok(b) => b,
            Err(e) => {
                self.pos = start;
                return Err(e);
            },
        };
        if cint_size != CINT_SIZE {
            self.pos = start;
            return Err(
                DecodeError::HeaderMismatch {
                    field: HeaderField::CIntSize,
                    expected: CINT_SIZE as u64,
                    actual: cint_size as u64,
                },
            );
        }
        if sizet_size != CSIZET_SIZE {
            self.pos = start;
            return Err(
                DecodeError::HeaderMismatch {
                    field: HeaderField::SizetSize,
                    expected: CSIZET_SIZE as u64,
                    actual: sizet_size as u64,
                },
            );
        }
        if instruction_size != INSTRUCTION_SIZE {
            self.pos = start;
            return Err(
                DecodeError::HeaderMismatch {
                    field: HeaderField::InstructionSize,
                    expected: INSTRUCTION_SIZE as u64,
                    actual: instruction_size as u64,
                },
            );
        }
        if lua_integer_size != LUA_INTEGER_SIZE {
            self.pos = start;
            return Err(
                DecodeError::HeaderMismatch {
                    field: HeaderField::LuaIntegerSize,
                    expected: LUA_INTEGER_SIZE as u64,
                    actual: lua_integer_size as u64,
                },
            );
        }
        if lua_number_size != LUA_NUMBER_SIZE {
            self.pos = start;
            return Err(
                DecodeError::HeaderMismatch {
                    field: HeaderField::LuaNumberSize,
                    expected: LUA_NUMBER_SIZE as u64,
                    actual: lua_number_size as u64,
                },
            );
        }
        let luac_int = match self.read_lua_integer() {
            Ok(v) => v,
            Err(e) => {
                self.pos = start;
                return Err(e);
            },
        };
        if luac_int != LUAC_INT {
            self.pos = start;
            return Err(
                DecodeError::HeaderMismatch {
                    field: HeaderField::LuacInt,
                    expected: LUAC_INT as u64,
                    actual: luac_int as u64,
                },
            );
        }
        let luac_num = match self.read_lua_number() {
            Ok(v) => v,
            Err(e) => {
                self.pos = start;
                return Err(e);
            },
        };
        if luac_num != LUAC_NUM_BITS {
            self.pos = start;
            return Err(
                DecodeError::HeaderMismatch {
                    field: HeaderField::LuacNum,
                    expected: LUAC_NUM_BITS,
                    actual: luac_num,
                },
            );
        }
        Ok(
            Header {
                signature,
                version,
                format,
                luac_data,
                cint_size,
                sizet_size,
                instruction_size,
                lua_integer_size,
                lua_number_size,
                luac_int,
                luac_num,
            },
        )
    }

    /// Reads one prototype and, recursively, all of its nested children.
    /// An empty source-name string adopts `parent_source` (a copied value);
    /// children inherit the resolved name, not the raw one.
    pub fn read_proto(&mut self, parent_source: &str) -> (r: Result<Prototype, DecodeError>)
        requires
            old(self).wf(),
        ensures
            final(self).wf(),
            final(self).spec_data() == old(self).spec_data(),
            old(self).spec_pos() <= final(self).spec_pos(),
            r is Ok ==> old(self).spec_pos() < final(self).spec_pos(),
            reads_to_view(
                spec_read_proto(old(self).spec_data(), old(self).spec_pos(), parent_source@),
                r,
                old(self).spec_pos(),
                final(self).spec_pos(),
            ),
        decreases self.spec_data().len() - self.spec_pos(), 1int,
    {
        let ghost data0 = self.spec_data();
        let ghost pos0 = self.spec_pos();
        let start = self.pos;
        let raw_source = match self.read_string() {
            Ok(s) => s,
            Err(e) => {
                return Err(e);
            },
        };
        let ghost rawv = raw_source@;
        let source: String = if raw_source.as_str().is_empty() {
            parent_source.to_owned()
        } else {
            raw_source
        };
        let ghost srcv = source@;
        let line_defined = match self.read_u32() {
            Ok(v) => v,
            Err(e) => {
                self.pos = start;
                return Err(e);
            },
        };
        let last_line_defined = match self.read_u32() {
            Ok(v) => v,
            Err(e) => {
                self.pos = start;
                return Err(e);
            },
        };
        let num_params = match self.read_byte() {
            Ok(v) => v,
            Err(e) => {
                self.pos = start;
                return Err(e);
            },
        };
        let is_vararg = match self.read_byte() {
            Ok(v) => v,
            Err(e) => {
                self.pos = start;
                return Err(e);
            },
        };
        let max_stack_size = match self.read_byte() {
            Ok(v) => v,
            Err(e) => {
                self.pos = start;
                return Err(e);
            },
        };
        let code = match self.read_code() {
            Ok(v) => v,
            Err(e) => {
                self.pos = start;
                return Err(e);
            },
        };
        let constants = match self.read_constants() {
            Ok(v) => v,
            Err(e) => {
                self.pos = start;
                return Err(e);
            },
        };
        let upvalues = match self.read_upvalues() {
            Ok(v) => v,
            Err(e) => {
                self.pos = start;
                return Err(e);
            },
        };
        let protos = match self.read_protos(source.as_str()) {
            Ok(v) => v,
            Err(e) => {
                self.pos = start;
                return Err(e);
            },
        };
        let line_info = match self.read_line_info() {
            Ok(v) => v,
            Err(e) => {
                self.pos = start;
                return Err(e);
            },
        };
        let loc_vars = match self.read_loc_vars() {
            Ok(v) => v,
            Err(e) => {
                self.pos = start;
                return Err(e);
            },
        };
        let upvalue_names = match self.read_upvalue_names() {
            Ok(v) => v,
            Err(e) => {
                self.pos = start;
                return Err(e);
            },
        };
        let result = Prototype {
            source,
            line_defined,
            last_line_defined,
            num_params,
            is_vararg,
            max_stack_size,
            code,
            constants,
            upvalues,
            protos,
            line_info,
            loc_vars,
            upvalue_names,
        };
        proof {
            assert(proto_view(result).protos =~= protos_view(result.protos@));
            match spec_read_proto(data0, pos0, parent_source@) {
                Ok((pv, _pend)) => {
                    assert(result@ =~~= pv);
                },
                Err(_) => {},
            }
        }
        Ok(result)
    }

    /// Reads the nested-prototype list of one prototype: a 4-byte count,
    /// then that many prototypes, each inheriting `parent_source`.
    pub fn read_protos(&mut self, parent_source: &str) -> (r: Result<Vec<Prototype>, DecodeError>)
        requires
            old(self).wf(),
        ensures
            final(self).wf(),
            final(self).spec_data() == old(self).spec_data(),
            old(self).spec_pos() <= final(self).spec_pos(),
            match spec_read_proto_list(
                old(self).spec_data(),
                old(self).spec_pos(),
                parent_source@,
            ) {
                Ok((v, p)) => r is Ok && protos_view(r->Ok_0@) == v && final(self).spec_pos() == p,
                Err(e) => r is Err && r->Err_0 == e && final(self).spec_pos() == old(
                    self,
                ).spec_pos(),
            },
        decreases self.spec_data().len() - self.spec_pos(), 0int,
    {
        let ghost data0 = self.spec_data();
        let ghost pos0 = self.spec_pos();
        let start = self.pos;
        let n = match self.read_u32() {
            Ok(n) => n,
            Err(e) => {
                return Err(e);
            },
        };
        let ghost p1 = self.spec_pos();
        let ghost items0 = spec_read_proto_items(data0, p1, n as nat, parent_source@);
        let mut result: Vec<Prototype> = Vec::new();
        let mut i: u32 = 0;
        proof {
            assert(protos_view(result@) =~= Seq::<ProtoView>::empty());
            match items0 {
                Ok((s, _p)) => {
                    assert(Seq::<ProtoView>::empty() + s =~= s);
                },
                Err(_) => {},
            }
        }
        while i < n
            invariant
                self.wf(),
                self.spec_data() == data0,
                i <= n,
                start as int == pos0,
                data0 == old(self).spec_data(),
                pos0 == old(self).spec_pos(),
                0 <= pos0 <= data0.len(),
                pos0 < self.spec_pos(),
                spec_read_u32(data0, pos0) == Ok::<(u32, int), DecodeError>((n, p1)),
                items0 == spec_read_proto_items(data0, p1, n as nat, parent_source@),
                items0 == prepend_items(
                    protos_view(result@),
                    spec_read_proto_items(
                        data0,
                        self.spec_pos(),
                        (n - i) as nat,
                        parent_source@,
                    ),
                ),
            decreases n - i,
        {
            let ghost result_pre = result@;
            let p = match self.read_proto(parent_source) {
                Ok(p) => p,
                Err(e) => {
                    self.pos = start;
                    return Err(e);
                },
            };
            let ghost pv = p@;
            result.push(p);
            i = i + 1;
            proof {
                assert(protos_view(result@) =~= protos_view(result_pre).push(pv));
                match spec_read_proto_items(data0, self.spec_pos(), (n - i) as nat, parent_source@) {
                    Ok((s2, _p2)) => {
                        assert(protos_view(result_pre) + (seq![pv] + s2) =~= protos_view(result@)
                            + s2);
                    },
                    Err(_) => {},
                }
            }
        }
        proof {
            assert(protos_view(result@) + Seq::<ProtoView>::empty() =~= protos_view(result@));
        }
        Ok(result)
    }
}

} // verus!

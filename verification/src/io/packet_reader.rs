//! Reading integers and bytes from the payload of a message.

use crate::bytes::{
    be_nat, be_read_i16, be_read_i32, be_read_i64, le_nat, le_read_i16, le_read_i32, le_read_i64,
    le_read_u16, le_read_u32, le_read_u64, le_read_uint, lemma_le_nat_bound, lemma_pow256, signed,
};
use crate::error::{Error, ErrorKind, IoErrorKind, TdsResult};
use crate::datatypes::meaning::{law_big_endian_number_is_read, law_number_is_read, part};
use crate::datatypes::sql_string::law_units_round_trip;
use crate::io::packet_writer::units_bytes;
use crate::text::{
    char_units, decode_utf16_units, is_utf16, law_utf16_round_trip, lemma_utf16_first, units_from_bytes,
    units_of, utf16_decoded, utf16_paired, utf16_units,
};
use vstd::prelude::*;
use vstd::string::StringExecFns;

verus! {

/// The error of a stream that ends too early.
pub open spec fn end_of_data() -> ErrorKind {
    ErrorKind::Io(IoErrorKind::UnexpectedEof)
}

/// Reading an unsigned number of `n` bytes, least significant first, at position `p`: the number
/// and the position after it, or the error.
pub open spec fn get_uint(d: Seq<u8>, p: int, n: nat) -> Result<(nat, int), ErrorKind> {
    if p + n <= d.len() {
        Ok((le_nat(d, p, n), p + n))
    } else {
        Err(end_of_data())
    }
}

/// Reading a two's complement number of `n` bytes, least significant first, at position `p`.
pub open spec fn get_int(d: Seq<u8>, p: int, n: nat) -> Result<(int, int), ErrorKind> {
    if p + n <= d.len() {
        Ok((signed(le_nat(d, p, n), n), p + n))
    } else {
        Err(end_of_data())
    }
}

/// Reading a two's complement number of `n` bytes, most significant first, at position `p`.
pub open spec fn get_int_be(d: Seq<u8>, p: int, n: nat) -> Result<(int, int), ErrorKind> {
    if p + n <= d.len() {
        Ok((signed(be_nat(d, p, n), n), p + n))
    } else {
        Err(end_of_data())
    }
}

/// Reading one byte at position `p`.
pub open spec fn get_byte(d: Seq<u8>, p: int) -> Result<(u8, int), ErrorKind> {
    if p < d.len() {
        Ok((d[p], p + 1))
    } else {
        Err(end_of_data())
    }
}

/// Reading `n` bytes at position `p`.
pub open spec fn get_bytes(d: Seq<u8>, p: int, n: nat) -> Result<(Seq<u8>, int), ErrorKind> {
    if p + n <= d.len() {
        Ok((d.subrange(p, p + n), p + n))
    } else {
        Err(end_of_data())
    }
}

/// Reading `n` bytes of text at position `p`. Bytes that are no UTF-16 are an error.
pub open spec fn get_text(d: Seq<u8>, p: int, n: nat) -> Result<(Seq<char>, int), ErrorKind> {
    match get_bytes(d, p, n) {
        Err(k) => Err(k),
        Ok((b, q)) => if utf16_paired(units_of(b)) {
            Ok((utf16_decoded(units_of(b)), q))
        } else {
            Err(ErrorKind::Io(IoErrorKind::InvalidData))
        },
    }
}

/// The length that stands for a missing text.
pub const LENGTHNULL: u16 = 0xFFFF;

/// A position in the payload of a message. Where a payload comes in several packets, it is the
/// concatenation of theirs.
#[derive(Debug)]
pub struct ByteReader {
    data: Vec<u8>,
    pos: usize,
}

/// A position is not negative.
pub broadcast proof fn lemma_reader_position(r: ByteReader)
    ensures
        #[trigger] r.pos() >= 0,
{
}

/// The error of a stream that ends too early.
fn out_of_data() -> (e: Error)
    ensures
        e.kind() == end_of_data(),
{
    Error::Io(IoErrorKind::UnexpectedEof, String::from_str("End of data"))
}

impl ByteReader {
    /// The bytes that are read from.
    pub closed spec fn data(&self) -> Seq<u8> {
        self.data@
    }

    /// The position of the next byte.
    pub closed spec fn pos(&self) -> int {
        self.pos as int
    }

    /// The position is inside the data, or at its end.
    #[verifier::type_invariant]
    spec fn valid(&self) -> bool {
        self.pos <= self.data@.len()
    }

    /// A reader at the start of these bytes.
    pub fn new(data: Vec<u8>) -> (r: ByteReader)
        ensures
            r.data() == data@,
            r.pos() == 0,
    {
        ByteReader { data, pos: 0 }
    }

    /// Another reader of the same bytes, at the same position.
    pub fn duplicate(&self) -> (r: ByteReader)
        ensures
            r.data() == self.data(),
            r.pos() == self.pos(),
    {
        proof {
            use_type_invariant(self);
        }
        ByteReader { data: self.data.clone(), pos: self.pos }
    }

    /// The position of the next byte.
    pub fn position(&self) -> (p: usize)
        ensures
            p == self.pos(),
            p <= self.data().len(),
    {
        proof {
            use_type_invariant(self);
        }
        self.pos
    }

    /// How many bytes are left.
    pub fn remaining(&self) -> (n: usize)
        ensures
            n == self.data().len() - self.pos(),
            self.data().len() <= usize::MAX,
    {
        proof {
            use_type_invariant(self);
        }
        let len: usize = self.data.len();
        len - self.pos
    }

    /// Goes back to an earlier position.
    pub fn rewind(&mut self, position: usize)
        requires
            position <= old(self).pos(),
        ensures
            final(self).data() == old(self).data(),
            final(self).pos() == position,
    {
        proof {
            use_type_invariant(&*self);
        }
        self.pos = position;
    }

    /// Puts the payload of a further packet behind the bytes that are there.
    pub fn extend(&mut self, payload: &Vec<u8>)
        ensures
            final(self).data() == old(self).data() + payload@,
            final(self).pos() == old(self).pos(),
    {
        proof {
            use_type_invariant(&*self);
        }
        let mut data: Vec<u8> = Vec::new();
        let pos: usize = self.pos;
        self.pos = 0;
        std::mem::swap(&mut data, &mut self.data);
        data.extend_from_slice(payload.as_slice());
        assert(data@ =~= old(self).data() + payload@);
        self.data = data;
        self.pos = pos;
    }

    /// The byte at an index of the data.
    pub fn peek(&self, index: usize) -> (b: u8)
        requires
            index < self.data().len(),
        ensures
            b == self.data()[index as int],
    {
        self.data[index]
    }

    /// The 32-bit number, least significant byte first, at an index of the data.
    pub fn peek_uint32(&self, index: usize) -> (v: u32)
        requires
            index + 4 <= self.data().len(),
        ensures
            v == le_nat(self.data(), index as int, 4),
    {
        le_read_u32(self.data.as_slice(), index)
    }

    /// Reads one byte.
    pub fn read_byte(&mut self) -> (r: TdsResult<u8>)
        ensures
            final(self).data() == old(self).data(),
            match get_byte(old(self).data(), old(self).pos()) {
                Ok((v, p)) => r == Ok::<u8, Error>(v) && final(self).pos() == p,
                Err(k) => (r matches Err(e) && e.kind() == k) && final(self).pos() == old(self).pos(),
            },
    {
        proof {
            use_type_invariant(&*self);
        }
        if self.pos < self.data.len() {
            let v: u8 = self.data[self.pos];
            self.pos = self.pos + 1;
            Ok(v)
        } else {
            Err(out_of_data())
        }
    }


    /// Reads a 16-bit signed number, least significant byte first.
    pub fn read_int16(&mut self) -> (r: TdsResult<i16>)
        ensures
            final(self).data() == old(self).data(),
            match get_int(old(self).data(), old(self).pos(), 2) {
                Ok((v, p)) => (r matches Ok(x) && x == v) && final(self).pos() == p,
                Err(k) => (r matches Err(e) && e.kind() == k) && final(self).pos() == old(self).pos(),
            },
    {
        proof {
            use_type_invariant(&*self);
            lemma_pow256();
            lemma_le_nat_bound(self.data@, self.pos as int, 2);
        }
        if self.data.len() - self.pos >= 2 {
            let v: i16 = le_read_i16(self.data.as_slice(), self.pos);
            self.pos = self.pos + 2;
            Ok(v)
        } else {
            Err(out_of_data())
        }
    }

    /// Reads a 16-bit number, least significant byte first.
    pub fn read_uint16(&mut self) -> (r: TdsResult<u16>)
        ensures
            final(self).data() == old(self).data(),
            match get_uint(old(self).data(), old(self).pos(), 2) {
                Ok((v, p)) => (r matches Ok(x) && x == v) && final(self).pos() == p,
                Err(k) => (r matches Err(e) && e.kind() == k) && final(self).pos() == old(self).pos(),
            },
    {
        proof {
            use_type_invariant(&*self);
            lemma_pow256();
            lemma_le_nat_bound(self.data@, self.pos as int, 2);
        }
        if self.data.len() - self.pos >= 2 {
            let v: u16 = le_read_u16(self.data.as_slice(), self.pos);
            self.pos = self.pos + 2;
            Ok(v)
        } else {
            Err(out_of_data())
        }
    }

    /// Reads a 24-bit signed number, least significant byte first.
    pub fn read_int24(&mut self) -> (r: TdsResult<i32>)
        ensures
            final(self).data() == old(self).data(),
            match get_int(old(self).data(), old(self).pos(), 3) {
                Ok((v, p)) => (r matches Ok(x) && x == v) && final(self).pos() == p,
                Err(k) => (r matches Err(e) && e.kind() == k) && final(self).pos() == old(self).pos(),
            },
    {
        proof {
            use_type_invariant(&*self);
            lemma_pow256();
            lemma_le_nat_bound(self.data@, self.pos as int, 3);
        }
        if self.data.len() - self.pos >= 3 {
            let v: i32 = le_read_uint(self.data.as_slice(), self.pos, 3) as i32;
            self.pos = self.pos + 3;
            if v < 0x80_0000 {
                Ok(v)
            } else {
                Ok(v - 0x100_0000)
            }
        } else {
            Err(out_of_data())
        }
    }

    /// Reads a 24-bit number, least significant byte first.
    pub fn read_uint24(&mut self) -> (r: TdsResult<u32>)
        ensures
            final(self).data() == old(self).data(),
            match get_uint(old(self).data(), old(self).pos(), 3) {
                Ok((v, p)) => (r matches Ok(x) && x == v) && final(self).pos() == p,
                Err(k) => (r matches Err(e) && e.kind() == k) && final(self).pos() == old(self).pos(),
            },
    {
        proof {
            use_type_invariant(&*self);
            lemma_pow256();
            lemma_le_nat_bound(self.data@, self.pos as int, 3);
        }
        if self.data.len() - self.pos >= 3 {
            let v: u32 = le_read_uint(self.data.as_slice(), self.pos, 3) as u32;
            self.pos = self.pos + 3;
            Ok(v)
        } else {
            Err(out_of_data())
        }
    }

    /// Reads a 32-bit signed number, least significant byte first.
    pub fn read_int32(&mut self) -> (r: TdsResult<i32>)
        ensures
            final(self).data() == old(self).data(),
            match get_int(old(self).data(), old(self).pos(), 4) {
                Ok((v, p)) => (r matches Ok(x) && x == v) && final(self).pos() == p,
                Err(k) => (r matches Err(e) && e.kind() == k) && final(self).pos() == old(self).pos(),
            },
    {
        proof {
            use_type_invariant(&*self);
            lemma_pow256();
            lemma_le_nat_bound(self.data@, self.pos as int, 4);
        }
        if self.data.len() - self.pos >= 4 {
            let v: i32 = le_read_i32(self.data.as_slice(), self.pos);
            self.pos = self.pos + 4;
            Ok(v)
        } else {
            Err(out_of_data())
        }
    }

    /// Reads a 32-bit number, least significant byte first.
    pub fn read_uint32(&mut self) -> (r: TdsResult<u32>)
        ensures
            final(self).data() == old(self).data(),
            match get_uint(old(self).data(), old(self).pos(), 4) {
                Ok((v, p)) => (r matches Ok(x) && x == v) && final(self).pos() == p,
                Err(k) => (r matches Err(e) && e.kind() == k) && final(self).pos() == old(self).pos(),
            },
    {
        proof {
            use_type_invariant(&*self);
            lemma_pow256();
            lemma_le_nat_bound(self.data@, self.pos as int, 4);
        }
        if self.data.len() - self.pos >= 4 {
            let v: u32 = le_read_u32(self.data.as_slice(), self.pos);
            self.pos = self.pos + 4;
            Ok(v)
        } else {
            Err(out_of_data())
        }
    }

    /// Reads a 40-bit number, least significant byte first.
    pub fn read_uint40(&mut self) -> (r: TdsResult<u64>)
        ensures
            final(self).data() == old(self).data(),
            match get_uint(old(self).data(), old(self).pos(), 5) {
                Ok((v, p)) => (r matches Ok(x) && x == v) && final(self).pos() == p,
                Err(k) => (r matches Err(e) && e.kind() == k) && final(self).pos() == old(self).pos(),
            },
    {
        proof {
            use_type_invariant(&*self);
            lemma_pow256();
            lemma_le_nat_bound(self.data@, self.pos as int, 5);
        }
        if self.data.len() - self.pos >= 5 {
            let v: u64 = le_read_uint(self.data.as_slice(), self.pos, 5);
            self.pos = self.pos + 5;
            Ok(v)
        } else {
            Err(out_of_data())
        }
    }

    /// Reads a 64-bit signed number, least significant byte first.
    pub fn read_int64(&mut self) -> (r: TdsResult<i64>)
        ensures
            final(self).data() == old(self).data(),
            match get_int(old(self).data(), old(self).pos(), 8) {
                Ok((v, p)) => (r matches Ok(x) && x == v) && final(self).pos() == p,
                Err(k) => (r matches Err(e) && e.kind() == k) && final(self).pos() == old(self).pos(),
            },
    {
        proof {
            use_type_invariant(&*self);
            lemma_pow256();
            lemma_le_nat_bound(self.data@, self.pos as int, 8);
        }
        if self.data.len() - self.pos >= 8 {
            let v: i64 = le_read_i64(self.data.as_slice(), self.pos);
            self.pos = self.pos + 8;
            Ok(v)
        } else {
            Err(out_of_data())
        }
    }

    /// Reads a 64-bit number, least significant byte first.
    pub fn read_uint64(&mut self) -> (r: TdsResult<u64>)
        ensures
            final(self).data() == old(self).data(),
            match get_uint(old(self).data(), old(self).pos(), 8) {
                Ok((v, p)) => (r matches Ok(x) && x == v) && final(self).pos() == p,
                Err(k) => (r matches Err(e) && e.kind() == k) && final(self).pos() == old(self).pos(),
            },
    {
        proof {
            use_type_invariant(&*self);
            lemma_pow256();
            lemma_le_nat_bound(self.data@, self.pos as int, 8);
        }
        if self.data.len() - self.pos >= 8 {
            let v: u64 = le_read_u64(self.data.as_slice(), self.pos);
            self.pos = self.pos + 8;
            Ok(v)
        } else {
            Err(out_of_data())
        }
    }

    /// Reads the bit pattern of a single-precision number, least significant byte first.
    pub fn read_float32(&mut self) -> (r: TdsResult<u32>)
        ensures
            final(self).data() == old(self).data(),
            match get_uint(old(self).data(), old(self).pos(), 4) {
                Ok((v, p)) => (r matches Ok(x) && x == v) && final(self).pos() == p,
                Err(k) => (r matches Err(e) && e.kind() == k) && final(self).pos() == old(self).pos(),
            },
    {
        proof {
            use_type_invariant(&*self);
            lemma_pow256();
            lemma_le_nat_bound(self.data@, self.pos as int, 4);
        }
        if self.data.len() - self.pos >= 4 {
            let v: u32 = le_read_u32(self.data.as_slice(), self.pos);
            self.pos = self.pos + 4;
            Ok(v)
        } else {
            Err(out_of_data())
        }
    }

    /// Reads the bit pattern of a double-precision number, least significant byte first.
    pub fn read_float64(&mut self) -> (r: TdsResult<u64>)
        ensures
            final(self).data() == old(self).data(),
            match get_uint(old(self).data(), old(self).pos(), 8) {
                Ok((v, p)) => (r matches Ok(x) && x == v) && final(self).pos() == p,
                Err(k) => (r matches Err(e) && e.kind() == k) && final(self).pos() == old(self).pos(),
            },
    {
        proof {
            use_type_invariant(&*self);
            lemma_pow256();
            lemma_le_nat_bound(self.data@, self.pos as int, 8);
        }
        if self.data.len() - self.pos >= 8 {
            let v: u64 = le_read_u64(self.data.as_slice(), self.pos);
            self.pos = self.pos + 8;
            Ok(v)
        } else {
            Err(out_of_data())
        }
    }

    /// Reads a 16-bit signed number, most significant byte first.
    pub fn read_int16_big_endian(&mut self) -> (r: TdsResult<i16>)
        ensures
            final(self).data() == old(self).data(),
            match get_int_be(old(self).data(), old(self).pos(), 2) {
                Ok((v, p)) => (r matches Ok(x) && x == v) && final(self).pos() == p,
                Err(k) => (r matches Err(e) && e.kind() == k) && final(self).pos() == old(self).pos(),
            },
    {
        proof {
            use_type_invariant(&*self);
            lemma_pow256();
            lemma_le_nat_bound(self.data@, self.pos as int, 2);
        }
        if self.data.len() - self.pos >= 2 {
            let v: i16 = be_read_i16(self.data.as_slice(), self.pos);
            self.pos = self.pos + 2;
            Ok(v)
        } else {
            Err(out_of_data())
        }
    }

    /// Reads a 32-bit signed number, most significant byte first.
    pub fn read_int32_big_endian(&mut self) -> (r: TdsResult<i32>)
        ensures
            final(self).data() == old(self).data(),
            match get_int_be(old(self).data(), old(self).pos(), 4) {
                Ok((v, p)) => (r matches Ok(x) && x == v) && final(self).pos() == p,
                Err(k) => (r matches Err(e) && e.kind() == k) && final(self).pos() == old(self).pos(),
            },
    {
        proof {
            use_type_invariant(&*self);
            lemma_pow256();
            lemma_le_nat_bound(self.data@, self.pos as int, 4);
        }
        if self.data.len() - self.pos >= 4 {
            let v: i32 = be_read_i32(self.data.as_slice(), self.pos);
            self.pos = self.pos + 4;
            Ok(v)
        } else {
            Err(out_of_data())
        }
    }

    /// Reads a 64-bit signed number, most significant byte first.
    pub fn read_int64_big_endian(&mut self) -> (r: TdsResult<i64>)
        ensures
            final(self).data() == old(self).data(),
            match get_int_be(old(self).data(), old(self).pos(), 8) {
                Ok((v, p)) => (r matches Ok(x) && x == v) && final(self).pos() == p,
                Err(k) => (r matches Err(e) && e.kind() == k) && final(self).pos() == old(self).pos(),
            },
    {
        proof {
            use_type_invariant(&*self);
            lemma_pow256();
            lemma_le_nat_bound(self.data@, self.pos as int, 8);
        }
        if self.data.len() - self.pos >= 8 {
            let v: i64 = be_read_i64(self.data.as_slice(), self.pos);
            self.pos = self.pos + 8;
            Ok(v)
        } else {
            Err(out_of_data())
        }
    }

    /// Reads `n` bytes.
    pub fn read_bytes(&mut self, n: usize) -> (r: TdsResult<Vec<u8>>)
        ensures
            final(self).data() == old(self).data(),
            match get_bytes(old(self).data(), old(self).pos(), n as nat) {
                Ok((v, p)) => (r matches Ok(x) && x@ == v) && final(self).pos() == p,
                Err(k) => (r matches Err(e) && e.kind() == k) && final(self).pos() == old(self).pos(),
            },
    {
        proof {
            use_type_invariant(&*self);
        }
        if self.data.len() - self.pos >= n {
            let start: usize = self.pos;
            let v: Vec<u8> = vstd::slice::slice_to_vec(
                vstd::slice::slice_subrange(self.data.as_slice(), start, start + n),
            );
            self.pos = start + n;
            Ok(v)
        } else {
            Err(out_of_data())
        }
    }

    /// Passes over `n` bytes.
    pub fn skip_bytes(&mut self, n: usize) -> (r: TdsResult<()>)
        ensures
            final(self).data() == old(self).data(),
            match get_bytes(old(self).data(), old(self).pos(), n as nat) {
                Ok((v, p)) => r is Ok && final(self).pos() == p,
                Err(k) => (r matches Err(e) && e.kind() == k) && final(self).pos() == old(self).pos(),
            },
    {
        proof {
            use_type_invariant(&*self);
        }
        if self.data.len() - self.pos >= n {
            self.pos = self.pos + n;
            Ok(())
        } else {
            Err(out_of_data())
        }
    }

    /// Reads bytes behind their count, which is one byte.
    pub fn read_u8_varbyte(&mut self) -> (r: TdsResult<Vec<u8>>)
        ensures
            final(self).data() == old(self).data(),
            match get_byte(old(self).data(), old(self).pos()) {
                Err(k) => r matches Err(e) && e.kind() == k,
                Ok((n, p)) => match get_bytes(old(self).data(), p, n as nat) {
                    Ok((v, q)) => (r matches Ok(x) && x@ == v) && final(self).pos() == q,
                    Err(k) => r matches Err(e) && e.kind() == k,
                },
            },
    {
        let length: u8 = self.read_byte()?;
        self.read_bytes(length as usize)
    }

    /// Reads bytes behind their count, which is two bytes.
    pub fn read_u16_varbyte(&mut self) -> (r: TdsResult<Vec<u8>>)
        ensures
            final(self).data() == old(self).data(),
            match get_uint(old(self).data(), old(self).pos(), 2) {
                Err(k) => r matches Err(e) && e.kind() == k,
                Ok((n, p)) => match get_bytes(old(self).data(), p, n) {
                    Ok((v, q)) => (r matches Ok(x) && x@ == v) && final(self).pos() == q,
                    Err(k) => r matches Err(e) && e.kind() == k,
                },
            },
    {
        let length: u16 = self.read_uint16()?;
        self.read_bytes(length as usize)
    }

    /// Reads a text behind its count of units, which is two bytes; the largest count stands for a
    /// missing text. The count of bytes, twice that of units, is taken modulo 2^16.
    pub fn read_varchar_u16_length(&mut self) -> (r: TdsResult<Option<String>>)
        ensures
            final(self).data() == old(self).data(),
            match get_uint(old(self).data(), old(self).pos(), 2) {
                Err(k) => r matches Err(e) && e.kind() == k,
                Ok((n, p)) => if n == LENGTHNULL {
                    r == Ok::<Option<String>, Error>(None) && final(self).pos() == p
                } else {
                    match get_text(old(self).data(), p, (2 * n) % 0x1_0000) {
                        Ok((v, q)) => (r matches Ok(Some(x)) && x@ == v) && final(self).pos() == q,
                        Err(k) => r matches Err(e) && e.kind() == k,
                    }
                },
            },
    {
        let length: u16 = self.read_uint16()?;
        if length == LENGTHNULL {
            return Ok(None);
        }
        let bytes: usize = (2 * (length as usize)) % 0x1_0000;
        let string = self.read_unicode_with_byte_length(bytes)?;
        Ok(Some(string))
    }

    /// Reads a text behind its count of units, which is one byte. The count of bytes, twice that of
    /// units, is taken modulo 2^8.
    pub fn read_varchar_u8_length(&mut self) -> (r: TdsResult<String>)
        ensures
            final(self).data() == old(self).data(),
            match get_byte(old(self).data(), old(self).pos()) {
                Err(k) => r matches Err(e) && e.kind() == k,
                Ok((n, p)) => match get_text(old(self).data(), p, ((2 * n) % 0x100) as nat) {
                    Ok((v, q)) => (r matches Ok(x) && x@ == v) && final(self).pos() == q,
                    Err(k) => r matches Err(e) && e.kind() == k,
                },
            },
    {
        let length: u8 = self.read_byte()?;
        let bytes: usize = (2 * (length as usize)) % 0x100;
        self.read_unicode_with_byte_length(bytes)
    }

    /// Reads a text behind its count of bytes, which is two bytes. A text of an odd count has no
    /// meaning.
    pub fn read_varchar_byte_len(&mut self) -> (r: TdsResult<String>)
        requires
            get_uint(old(self).data(), old(self).pos(), 2) matches Ok((n, p)) ==> (p + n
                <= old(self).data().len() ==> n % 2 == 0),
        ensures
            final(self).data() == old(self).data(),
            match get_uint(old(self).data(), old(self).pos(), 2) {
                Err(k) => r matches Err(e) && e.kind() == k,
                Ok((n, p)) => match get_text(old(self).data(), p, n) {
                    Ok((v, q)) => (r matches Ok(x) && x@ == v) && final(self).pos() == q,
                    Err(k) => r matches Err(e) && e.kind() == k,
                },
            },
    {
        let length: u16 = self.read_uint16()?;
        self.read_unicode_with_byte_length(length as usize)
    }

    /// Reads a text of so many units.
    pub fn read_unicode(&mut self, string_length: usize) -> (r: TdsResult<String>)
        requires
            2 * string_length <= usize::MAX,
        ensures
            final(self).data() == old(self).data(),
            match get_text(old(self).data(), old(self).pos(), (2 * string_length) as nat) {
                Ok((v, q)) => (r matches Ok(x) && x@ == v) && final(self).pos() == q,
                Err(k) => r matches Err(e) && e.kind() == k,
            },
    {
        self.read_unicode_with_byte_length(string_length * 2)
    }

    /// Reads a text of so many bytes. A text of an odd count has no meaning.
    pub fn read_unicode_with_byte_length(&mut self, byte_length: usize) -> (r: TdsResult<String>)
        requires
            old(self).pos() + byte_length <= old(self).data().len() ==> byte_length % 2 == 0,
        ensures
            final(self).data() == old(self).data(),
            match get_text(old(self).data(), old(self).pos(), byte_length as nat) {
                Ok((v, q)) => (r matches Ok(x) && x@ == v) && final(self).pos() == q,
                Err(k) => r matches Err(e) && e.kind() == k,
            },
    {
        let bytes = self.read_bytes(byte_length)?;
        let units = units_from_bytes(&bytes);
        if is_utf16(&units) {
            Ok(decode_utf16_units(&units))
        } else {
            Err(
                Error::Io(
                    IoErrorKind::InvalidData,
                    String::from_str("invalid utf-16: lone surrogate found"),
                ),
            )
        }
    }
}

/// A text that was written as UTF-16 is read back, and leaves the position behind it.
pub proof fn law_text_is_read(before: Seq<u8>, t: Seq<char>, after: Seq<u8>)
    ensures
        ({
            let b = units_bytes(utf16_units(t));
            let d = before + b + after;
            get_text(d, before.len() as int, b.len()) == Ok::<(Seq<char>, int), ErrorKind>(
                (t, (before.len() + b.len()) as int),
            )
        }),
{
    let b = units_bytes(utf16_units(t));
    let d = before + b + after;
    let p = before.len() as int;
    assert(d.subrange(p, p + b.len()) =~= b);
    law_units_round_trip(utf16_units(t));
    law_utf16_round_trip(t);
    lemma_units_are_paired(t);
}

/// The units of a text are in pairs where they must be.
proof fn lemma_units_are_paired(t: Seq<char>)
    ensures
        utf16_paired(utf16_units(t)),
    decreases t.len(),
{
    if t.len() > 0 {
        let c = t[0];
        let rest = t.skip(1);
        lemma_units_are_paired(rest);
        lemma_utf16_first(c, rest);
        assert(seq![c] + rest =~= t);
        let u = utf16_units(t);
        assert(u.skip(char_units(c).len() as int) =~= utf16_units(rest));
        vstd::utf8::char_is_scalar(c);
    }
}

/// Reading needs all of its bytes: where they are not there it fails, and where they are it stands behind
/// them.
pub proof fn law_reading_needs_bytes(d: Seq<u8>, p: int, n: nat)
    requires
        0 <= p,
    ensures
        get_uint(d, p, n) is Ok == (p + n <= d.len()),
        get_int(d, p, n) is Ok == (p + n <= d.len()),
        get_int_be(d, p, n) is Ok == (p + n <= d.len()),
        get_bytes(d, p, n) is Ok == (p + n <= d.len()),
        get_byte(d, p) is Ok == (p < d.len()),
        get_uint(d, p, n) matches Ok((_, q)) ==> q == p + n,
        get_int(d, p, n) matches Ok((_, q)) ==> q == p + n,
        get_int_be(d, p, n) matches Ok((_, q)) ==> q == p + n,
        get_byte(d, p) matches Ok((b, q)) ==> b == d[p] && q == p + 1,
        get_bytes(d, p, n) matches Ok((b, q)) ==> q == p + n && b.len() == n && forall|i: int|
            0 <= i < n ==> #[trigger] b[i] == d[p + i],
        get_byte(d, p) matches Err(k) ==> k == ErrorKind::Io(IoErrorKind::UnexpectedEof),
        get_bytes(d, p, n) matches Err(k) ==> k == ErrorKind::Io(IoErrorKind::UnexpectedEof),
        get_uint(d, p, n) matches Err(k) ==> k == ErrorKind::Io(IoErrorKind::UnexpectedEof),
        get_int(d, p, n) matches Err(k) ==> k == ErrorKind::Io(IoErrorKind::UnexpectedEof),
        get_int_be(d, p, n) matches Err(k) ==> k == ErrorKind::Io(IoErrorKind::UnexpectedEof),
{
}

/// A number with its sign in the uppermost bit, the upper bytes first, is what it is with the lower bytes
/// first in the other order.
pub proof fn law_signed_big_endian(d: Seq<u8>, p: int, n: nat)
    requires
        0 <= p,
        0 < n,
        p + n <= d.len(),
    ensures
        get_int_be(d, p, n) == (match get_int(d.subrange(p, p + n).reverse(), 0, n) {
            Ok((v, _)) => Ok::<(int, int), ErrorKind>((v, p + n)),
            Err(k) => Err(k),
        }),
{
    let r = d.subrange(p, p + n).reverse();
    law_big_endian_number_is_read(d, p, n);
    law_number_is_read(r, 0, n);
    assert(part(r, 0, n as int) =~= r);
    assert(part(d, p, n as int) =~= d.subrange(p, p + n));
}

} // verus!

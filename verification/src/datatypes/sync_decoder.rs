//! Decoding of rows that lie complete in a buffer.

use crate::bytes::{
    le_nat, le_read_i16, le_read_i32, le_read_i64, le_read_u16, le_read_u32, le_read_u64,
    le_read_uint, lemma_le_nat_bound, lemma_pow256, signed,
};
use crate::datatypes::column_values::{
    SqlDate, SqlDateTime, SqlDateTime2, SqlDateTimeOffset, SqlFloat, SqlMoney, SqlReal,
    SqlSmallDateTime, SqlSmallMoney, SqlTime, Value,
};
use crate::datatypes::decimal::{DecimalParts, DecimalView};
use crate::datatypes::decoder::guid_from_slice_le;
use crate::datatypes::metadata::ColumnMetadata;
use crate::datatypes::row_writer::{accepts_all, lemma_wrote_all_push, wrote_all, RowWriter};
use crate::datatypes::sql_string::{get_encoding_type, EncodingType, SqlString};
use crate::datatypes::sqldatatypes::{TdsDataType, TypeInfoVariant};
use crate::datatypes::wire::{
    bytes_value, column_value, datetime2_at, datetimeoffset_at, get_decimal, get_short_or_null,
    get_time, int_parts_at, ticks_per_unit, time_at,
};
use crate::io::packet_reader::{get_byte, get_bytes, get_int, get_uint};
use vstd::arithmetic::power::pow;
use vstd::prelude::*;

verus! {

/// What was read, where it could be read.
pub open spec fn read_ok<T>(r: Result<(T, int), crate::error::ErrorKind>) -> Option<(T, int)> {
    match r {
        Ok(x) => Some(x),
        Err(_) => None,
    }
}

/// The buffer does not hold the value, or the value is one that is left to the other decoder.
#[derive(Clone, Copy, Debug, PartialEq, Eq, Structural)]
pub struct BufferExhausted;

/// A position in a buffer.
pub struct SyncReader<'a> {
    buf: &'a [u8],
    pos: usize,
}

impl<'a> SyncReader<'a> {
    /// The buffer.
    pub closed spec fn data(&self) -> Seq<u8> {
        self.buf@
    }

    /// The position of the next byte.
    pub closed spec fn pos(&self) -> int {
        self.pos as int
    }

    /// The position is inside the buffer, or at its end.
    #[verifier::type_invariant]
    spec fn valid(&self) -> bool {
        self.pos <= self.buf@.len()
    }

    /// A reader at the start of a buffer.
    pub fn new(buf: &'a [u8]) -> (r: SyncReader<'a>)
        ensures
            r.data() == buf@,
            r.pos() == 0,
    {
        SyncReader { buf, pos: 0 }
    }

    /// How many bytes have been read.
    pub fn consumed(&self) -> (n: usize)
        ensures
            n == self.pos(),
            n <= self.data().len(),
    {
        proof {
            use_type_invariant(self);
        }
        self.pos
    }

    /// How many bytes are left. With those that have been read they make up the buffer.
    pub fn remaining(&self) -> (n: usize)
        ensures
            self.pos() + n == self.data().len(),
    {
        proof {
            use_type_invariant(self);
        }
        self.buf.len() - self.pos
    }

    /// Fails where fewer than `n` bytes are left.
    pub fn ensure(&self, n: usize) -> (r: Result<(), BufferExhausted>)
        ensures
            r is Ok == (self.pos() + n <= self.data().len()),
            self.data().len() <= usize::MAX,
    {
        let _len: usize = self.buf.len();
        if self.remaining() >= n {
            Ok(())
        } else {
            Err(BufferExhausted)
        }
    }

    /// Reads one byte.
    pub fn read_byte(&mut self) -> (r: Result<u8, BufferExhausted>)
        ensures
            final(self).data() == old(self).data(),
            match get_byte(old(self).data(), old(self).pos()) {
                Ok((v, p)) => r == Ok::<u8, BufferExhausted>(v) && final(self).pos() == p,
                Err(_) => r is Err && final(self).pos() == old(self).pos(),
            },
    {
        proof {
            use_type_invariant(&*self);
        }
        self.ensure(1)?;
        let v: u8 = self.buf[self.pos];
        self.pos = self.pos + 1;
        Ok(v)
    }

    /// Reads a 16-bit signed number, least significant byte first.
    pub fn read_i16(&mut self) -> (r: Result<i16, BufferExhausted>)
        ensures
            final(self).data() == old(self).data(),
            match get_int(old(self).data(), old(self).pos(), 2) {
                Ok((v, p)) => (r matches Ok(x) && x == v) && final(self).pos() == p,
                Err(_) => r is Err && final(self).pos() == old(self).pos(),
            },
    {
        proof {
            use_type_invariant(&*self);
            lemma_pow256();
            lemma_le_nat_bound(self.buf@, self.pos as int, 2);
        }
        self.ensure(2)?;
        let v: i16 = le_read_i16(self.buf, self.pos);
        self.pos = self.pos + 2;
        Ok(v)
    }

    /// Reads a 16-bit number, least significant byte first.
    pub fn read_u16(&mut self) -> (r: Result<u16, BufferExhausted>)
        ensures
            final(self).data() == old(self).data(),
            match get_uint(old(self).data(), old(self).pos(), 2) {
                Ok((v, p)) => (r matches Ok(x) && x == v) && final(self).pos() == p,
                Err(_) => r is Err && final(self).pos() == old(self).pos(),
            },
    {
        proof {
            use_type_invariant(&*self);
            lemma_pow256();
            lemma_le_nat_bound(self.buf@, self.pos as int, 2);
        }
        self.ensure(2)?;
        let v: u16 = le_read_u16(self.buf, self.pos);
        self.pos = self.pos + 2;
        Ok(v)
    }

    /// Reads a 32-bit signed number, least significant byte first.
    pub fn read_i32(&mut self) -> (r: Result<i32, BufferExhausted>)
        ensures
            final(self).data() == old(self).data(),
            match get_int(old(self).data(), old(self).pos(), 4) {
                Ok((v, p)) => (r matches Ok(x) && x == v) && final(self).pos() == p,
                Err(_) => r is Err && final(self).pos() == old(self).pos(),
            },
    {
        proof {
            use_type_invariant(&*self);
            lemma_pow256();
            lemma_le_nat_bound(self.buf@, self.pos as int, 4);
        }
        self.ensure(4)?;
        let v: i32 = le_read_i32(self.buf, self.pos);
        self.pos = self.pos + 4;
        Ok(v)
    }

    /// Reads a 32-bit number, least significant byte first.
    pub fn read_u32(&mut self) -> (r: Result<u32, BufferExhausted>)
        ensures
            final(self).data() == old(self).data(),
            match get_uint(old(self).data(), old(self).pos(), 4) {
                Ok((v, p)) => (r matches Ok(x) && x == v) && final(self).pos() == p,
                Err(_) => r is Err && final(self).pos() == old(self).pos(),
            },
    {
        proof {
            use_type_invariant(&*self);
            lemma_pow256();
            lemma_le_nat_bound(self.buf@, self.pos as int, 4);
        }
        self.ensure(4)?;
        let v: u32 = le_read_u32(self.buf, self.pos);
        self.pos = self.pos + 4;
        Ok(v)
    }

    /// Reads a 64-bit signed number, least significant byte first.
    pub fn read_i64(&mut self) -> (r: Result<i64, BufferExhausted>)
        ensures
            final(self).data() == old(self).data(),
            match get_int(old(self).data(), old(self).pos(), 8) {
                Ok((v, p)) => (r matches Ok(x) && x == v) && final(self).pos() == p,
                Err(_) => r is Err && final(self).pos() == old(self).pos(),
            },
    {
        proof {
            use_type_invariant(&*self);
            lemma_pow256();
            lemma_le_nat_bound(self.buf@, self.pos as int, 8);
        }
        self.ensure(8)?;
        let v: i64 = le_read_i64(self.buf, self.pos);
        self.pos = self.pos + 8;
        Ok(v)
    }

    /// Reads the bit pattern of a single-precision number, least significant byte first.
    pub fn read_f32(&mut self) -> (r: Result<u32, BufferExhausted>)
        ensures
            final(self).data() == old(self).data(),
            match get_uint(old(self).data(), old(self).pos(), 4) {
                Ok((v, p)) => (r matches Ok(x) && x == v) && final(self).pos() == p,
                Err(_) => r is Err && final(self).pos() == old(self).pos(),
            },
    {
        proof {
            use_type_invariant(&*self);
            lemma_pow256();
            lemma_le_nat_bound(self.buf@, self.pos as int, 4);
        }
        self.ensure(4)?;
        let v: u32 = le_read_u32(self.buf, self.pos);
        self.pos = self.pos + 4;
        Ok(v)
    }

    /// Reads the bit pattern of a double-precision number, least significant byte first.
    pub fn read_f64(&mut self) -> (r: Result<u64, BufferExhausted>)
        ensures
            final(self).data() == old(self).data(),
            match get_uint(old(self).data(), old(self).pos(), 8) {
                Ok((v, p)) => (r matches Ok(x) && x == v) && final(self).pos() == p,
                Err(_) => r is Err && final(self).pos() == old(self).pos(),
            },
    {
        proof {
            use_type_invariant(&*self);
            lemma_pow256();
            lemma_le_nat_bound(self.buf@, self.pos as int, 8);
        }
        self.ensure(8)?;
        let v: u64 = le_read_u64(self.buf, self.pos);
        self.pos = self.pos + 8;
        Ok(v)
    }

    /// Reads a 24-bit number, least significant byte first.
    pub fn read_u24(&mut self) -> (r: Result<u32, BufferExhausted>)
        ensures
            final(self).data() == old(self).data(),
            match get_uint(old(self).data(), old(self).pos(), 3) {
                Ok((v, p)) => (r matches Ok(x) && x == v) && final(self).pos() == p,
                Err(_) => r is Err && final(self).pos() == old(self).pos(),
            },
    {
        proof {
            use_type_invariant(&*self);
            lemma_pow256();
            lemma_le_nat_bound(self.buf@, self.pos as int, 3);
        }
        self.ensure(3)?;
        let v: u32 = le_read_uint(self.buf, self.pos, 3) as u32;
        self.pos = self.pos + 3;
        Ok(v)
    }

    /// Reads a 40-bit number, least significant byte first.
    pub fn read_uint40(&mut self) -> (r: Result<u64, BufferExhausted>)
        ensures
            final(self).data() == old(self).data(),
            match get_uint(old(self).data(), old(self).pos(), 5) {
                Ok((v, p)) => (r matches Ok(x) && x == v) && final(self).pos() == p,
                Err(_) => r is Err && final(self).pos() == old(self).pos(),
            },
    {
        proof {
            use_type_invariant(&*self);
            lemma_pow256();
            lemma_le_nat_bound(self.buf@, self.pos as int, 5);
        }
        self.ensure(5)?;
        let v: u64 = le_read_uint(self.buf, self.pos, 5);
        self.pos = self.pos + 5;
        Ok(v)
    }

    /// Reads as many bytes as `dest` holds, into it; it stays as it is where they are too few.
    pub fn read_bytes_into(&mut self, dest: &mut Vec<u8>) -> (r: Result<(), BufferExhausted>)
        ensures
            final(self).data() == old(self).data(),
            match get_bytes(old(self).data(), old(self).pos(), old(dest)@.len()) {
                Ok((v, p)) => r is Ok && final(dest)@ == v && final(self).pos() == p,
                Err(_) => r is Err && final(self).pos() == old(self).pos() && final(dest)@ == old(dest)@,
            },
    {
        let n: usize = dest.len();
        let bytes = self.read_bytes_vec(n)?;
        *dest = bytes;
        Ok(())
    }

    /// Reads `n` bytes.
    pub fn read_bytes_vec(&mut self, n: usize) -> (r: Result<Vec<u8>, BufferExhausted>)
        ensures
            final(self).data() == old(self).data(),
            match get_bytes(old(self).data(), old(self).pos(), n as nat) {
                Ok((v, p)) => (r matches Ok(x) && x@ == v) && final(self).pos() == p,
                Err(_) => r is Err && final(self).pos() == old(self).pos(),
            },
    {
        proof {
            use_type_invariant(&*self);
        }
        self.ensure(n)?;
        let start: usize = self.pos;
        let v: Vec<u8> = vstd::slice::slice_to_vec(
            vstd::slice::slice_subrange(self.buf, start, start + n),
        );
        self.pos = start + n;
        Ok(v)
    }

    /// Passes over `n` bytes.
    pub fn skip(&mut self, n: usize) -> (r: Result<(), BufferExhausted>)
        ensures
            final(self).data() == old(self).data(),
            match get_bytes(old(self).data(), old(self).pos(), n as nat) {
                Ok((_, p)) => r is Ok && final(self).pos() == p,
                Err(_) => r is Err && final(self).pos() == old(self).pos(),
            },
    {
        proof {
            use_type_invariant(&*self);
        }
        self.ensure(n)?;
        self.pos = self.pos + n;
        Ok(())
    }
}

/// The time units of a time of `byte_len` bytes; only lengths of 3, 4 and 5 have a meaning.
pub fn read_time_ticks(reader: &mut SyncReader<'_>, byte_len: u8) -> (r: Result<
    u64,
    BufferExhausted,
>)
    ensures
        final(reader).data() == old(reader).data(),
        r is Ok == (3 <= byte_len <= 5 && old(reader).pos() + byte_len <= old(reader).data().len()),
        r is Err ==> final(reader).pos() == old(reader).pos(),
        r matches Ok(x) ==> x == le_nat(old(reader).data(), old(reader).pos(), byte_len as nat)
            && x < 0x100_0000_0000 && final(reader).pos() == old(reader).pos() + byte_len,
{
    proof {
        lemma_pow256();
        lemma_le_nat_bound(reader.data(), reader.pos(), 3);
        lemma_le_nat_bound(reader.data(), reader.pos(), 4);
        lemma_le_nat_bound(reader.data(), reader.pos(), 5);
    }
    match byte_len {
        3 => Ok(reader.read_u24()? as u64),
        4 => Ok(reader.read_u32()? as u64),
        5 => Ok(reader.read_uint40()?),
        _ => Err(BufferExhausted),
    }
}

/// A time of a scale, in units of 100 nanoseconds.
pub fn scale_to_100ns(scaled_value: u64, scale: u8) -> (t: u64)
    requires
        scaled_value * ticks_per_unit(scale) <= u64::MAX,
    ensures
        t == scaled_value * ticks_per_unit(scale),
{
    match scale {
        0 => scaled_value * 10_000_000,
        1 => scaled_value * 1_000_000,
        2 => scaled_value * 100_000,
        3 => scaled_value * 10_000,
        4 => scaled_value * 1_000,
        5 => scaled_value * 100,
        6 => scaled_value * 10,
        _ => scaled_value,
    }
}

/// The decimal number of a column, as the buffer decoder reads it: a missing value is found before
/// the column's type is looked at.
pub open spec fn sync_decimal(m: &ColumnMetadata, d: Seq<u8>, p: int) -> Option<
    (Option<DecimalView>, int),
> {
    match get_byte(d, p) {
        Err(_) => None,
        Ok((len, q)) => if len == 0 {
            Some((None, q))
        } else {
            match m.type_info.type_info_variant {
                TypeInfoVariant::VarLenPrecisionScale(_, _, precision, scale) => read_ok(
                    get_decimal(d, q, len, precision, scale),
                ),
                _ => None,
            }
        },
    }
}

/// Reads the decimal number of a column.
pub fn read_decimal_sync(reader: &mut SyncReader<'_>, metadata: &ColumnMetadata) -> (r: Result<
    Option<DecimalParts>,
    BufferExhausted,
>)
    ensures
        final(reader).data() == old(reader).data(),
        old(reader).pos() <= final(reader).pos(),
        match sync_decimal(metadata, old(reader).data(), old(reader).pos()) {
            Some((Some(v), p)) => (r matches Ok(Some(x)) && x@ == v) && final(reader).pos() == p,
            Some((None, p)) => (r matches Ok(None)) && final(reader).pos() == p,
            None => r is Err,
        },
{
    let byte_len: u8 = reader.read_byte()?;
    if byte_len == 0 {
        return Ok(None);
    }
    let (precision, scale): (u8, u8) = match metadata.type_info.type_info_variant {
        TypeInfoVariant::VarLenPrecisionScale(_, _, precision, scale) => (precision, scale),
        _ => {
            return Err(BufferExhausted);
        },
    };
    let sign: u8 = reader.read_byte()?;
    let is_positive: bool = sign == 1;
    let number_of_int_parts: usize = ((byte_len - 1) / 4) as usize;
    let ghost d = reader.data();
    let ghost q = reader.pos();
    let ghost start = old(reader).pos();
    let mut int_parts: Vec<i32> = Vec::new();
    let mut i: usize = 0;
    while i < number_of_int_parts
        invariant
            i <= number_of_int_parts,
            reader.data() == d,
            d == old(reader).data(),
            start == old(reader).pos(),
            reader.pos() == q + 4 * i,
            q + 4 * i <= d.len(),
            int_parts@ == int_parts_at(d, q, i as nat),
            byte_len > 0,
            number_of_int_parts == (byte_len - 1) / 4,
            get_byte(d, start) == Ok::<(u8, int), crate::error::ErrorKind>((byte_len, start + 1)),
            get_byte(d, start + 1) == Ok::<(u8, int), crate::error::ErrorKind>((sign, q)),
            metadata.type_info.type_info_variant matches TypeInfoVariant::VarLenPrecisionScale(
                _,
                _,
                pr,
                sc,
            ) && pr == precision && sc == scale,
        decreases number_of_int_parts - i,
    {
        let part: i32 = reader.read_i32()?;
        int_parts.push(part);
        assert(int_parts@ =~= int_parts_at(d, q, (i + 1) as nat));
        i += 1;
    }
    assert(int_parts@ =~= int_parts_at(d, q, number_of_int_parts as nat));
    Ok(Some(DecimalParts { is_positive, scale, precision, int_parts }))
}

/// What the buffer decoder makes of a column at position `p`. It leaves to the other decoder: values
/// in chunks, legacy large objects, variants, documents, vectors, and everything that is malformed.
#[verifier::opaque]
pub open spec fn sync_column(m: &ColumnMetadata, d: Seq<u8>, p: int) -> Option<(Value, int)> {
    match m.data_type {
        TdsDataType::DecimalN | TdsDataType::NumericN => match sync_decimal(m, d, p) {
            Some((Some(v), q)) => Some(
                (
                    if m.data_type == TdsDataType::NumericN {
                        Value::Numeric(v)
                    } else {
                        Value::Decimal(v)
                    },
                    q,
                ),
            ),
            Some((None, q)) => Some((Value::Null, q)),
            None => None,
        },
        TdsDataType::NChar
        | TdsDataType::NVarChar
        | TdsDataType::BigChar
        | TdsDataType::BigVarChar => if m.is_plp() {
            None
        } else {
            read_ok(column_value(m, d, p))
        },
        TdsDataType::BigVarBinary => if m.is_plp() {
            None
        } else {
            read_ok(bytes_value(get_short_or_null(d, p)))
        },
        TdsDataType::TimeN => match get_byte(d, p) {
            Err(_) => None,
            Ok((len, q)) => if len == 0 {
                Some((Value::Null, q))
            } else if 3 <= len <= 5 {
                read_ok(time_at(d, q, len, m.get_scale()))
            } else {
                None
            },
        },
        TdsDataType::DateTime2N => match get_byte(d, p) {
            Err(_) => None,
            Ok((len, q)) => if len == 0 {
                Some((Value::Null, q))
            } else if 6 <= len <= 8 {
                read_ok(datetime2_at(d, q, len, m.get_scale()))
            } else {
                None
            },
        },
        TdsDataType::DateTimeOffsetN => match get_byte(d, p) {
            Err(_) => None,
            Ok((len, q)) => if len == 0 {
                Some((Value::Null, q))
            } else if 8 <= len <= 10 {
                read_ok(datetimeoffset_at(d, q, len, m.get_scale()))
            } else {
                None
            },
        },
        TdsDataType::Int1
        | TdsDataType::Int2
        | TdsDataType::Int4
        | TdsDataType::Int8
        | TdsDataType::IntN
        | TdsDataType::Flt4
        | TdsDataType::Flt8
        | TdsDataType::FltN
        | TdsDataType::Bit
        | TdsDataType::BitN
        | TdsDataType::Money4
        | TdsDataType::Money
        | TdsDataType::MoneyN
        | TdsDataType::BigBinary
        | TdsDataType::DateTime
        | TdsDataType::DateTim4
        | TdsDataType::DateTimeN
        | TdsDataType::DateN
        | TdsDataType::Guid => read_ok(column_value(m, d, p)),
        _ => None,
    }
}

/// Where the buffer decoder gives a value, decoding gives the same, with one exception: a missing
/// decimal number of a column whose type carries no precision and scale.
pub proof fn law_sync_agrees(m: &ColumnMetadata, d: Seq<u8>, p: int)
    requires
        m.data_type == TdsDataType::DecimalN || m.data_type == TdsDataType::NumericN
            ==> m.type_info.type_info_variant is VarLenPrecisionScale,
    ensures
        sync_column(m, d, p) matches Some(x) ==> column_value(m, d, p) == Ok::<
            (Value, int),
            crate::error::ErrorKind,
        >(x),
{
    reveal(sync_column);
}

/// Decodes the value of a column into a sink.
#[verifier::rlimit(90)]
#[verifier::spinoff_prover]
pub fn decode_column_sync<W: RowWriter>(
    reader: &mut SyncReader<'_>,
    metadata: &ColumnMetadata,
    col: usize,
    writer: &mut W,
) -> (r: Result<(), BufferExhausted>)
    requires
        sync_column(metadata, old(reader).data(), old(reader).pos()) matches Some((v, _)) ==> old(
            writer).accepts(col, v),
    ensures
        final(reader).data() == old(reader).data(),
        old(reader).pos() <= final(reader).pos(),
        forall|c: usize, v: Value| #[trigger]
            old(writer).accepts(c, v) ==> final(writer).accepts(c, v),
        match sync_column(metadata, old(reader).data(), old(reader).pos()) {
            Some((v, p)) => r is Ok && final(reader).pos() == p && W::wrote(
                *old(writer),
                *final(writer),
                col,
                v,
            ),
            None => r is Err && *final(writer) == *old(writer),
        },
{
    reveal(sync_column);
    match metadata.data_type {
        TdsDataType::Int1 => {
            let v: u8 = reader.read_byte()?;
            writer.write_u8(col, v);
        },
        TdsDataType::Int2 => {
            let v: i16 = reader.read_i16()?;
            writer.write_i16(col, v);
        },
        TdsDataType::Int4 => {
            let v: i32 = reader.read_i32()?;
            writer.write_i32(col, v);
        },
        TdsDataType::Int8 => {
            let v: i64 = reader.read_i64()?;
            writer.write_i64(col, v);
        },
        TdsDataType::IntN => {
            let byte_len: u8 = reader.read_byte()?;
            match byte_len {
                1 => {
                    let v: u8 = reader.read_byte()?;
                    writer.write_u8(col, v);
                },
                2 => {
                    let v: i16 = reader.read_i16()?;
                    writer.write_i16(col, v);
                },
                4 => {
                    let v: i32 = reader.read_i32()?;
                    writer.write_i32(col, v);
                },
                8 => {
                    let v: i64 = reader.read_i64()?;
                    writer.write_i64(col, v);
                },
                0 => writer.write_null(col),
                _ => {
                    return Err(BufferExhausted);
                },
            }
        },
        TdsDataType::Flt4 => {
            let bits: u32 = reader.read_f32()?;
            writer.write_f32(col, SqlReal { bits });
        },
        TdsDataType::Flt8 => {
            let bits: u64 = reader.read_f64()?;
            writer.write_f64(col, SqlFloat { bits });
        },
        TdsDataType::FltN => {
            let length: u8 = reader.read_byte()?;
            match length {
                0 => writer.write_null(col),
                4 => {
                    let bits: u32 = reader.read_f32()?;
                    writer.write_f32(col, SqlReal { bits });
                },
                _ => {
                    let bits: u64 = reader.read_f64()?;
                    writer.write_f64(col, SqlFloat { bits });
                },
            }
        },
        TdsDataType::Bit => {
            let b: u8 = reader.read_byte()?;
            writer.write_bool(col, b == 1);
        },
        TdsDataType::BitN => {
            let byte_len: u8 = reader.read_byte()?;
            if byte_len > 0 {
                let b: u8 = reader.read_byte()?;
                writer.write_bool(col, b == 1);
            } else {
                writer.write_null(col);
            }
        },
        TdsDataType::Money4 => {
            let int_val: i32 = reader.read_i32()?;
            writer.write_smallmoney(col, SqlSmallMoney { int_val });
        },
        TdsDataType::Money => {
            let msb_part: i32 = reader.read_i32()?;
            let lsb_part: i32 = reader.read_i32()?;
            writer.write_money(col, SqlMoney { lsb_part, msb_part });
        },
        TdsDataType::MoneyN => {
            let byte_len: u8 = reader.read_byte()?;
            match byte_len {
                4 => {
                    let int_val: i32 = reader.read_i32()?;
                    writer.write_smallmoney(col, SqlSmallMoney { int_val });
                },
                8 => {
                    let msb_part: i32 = reader.read_i32()?;
                    let lsb_part: i32 = reader.read_i32()?;
                    writer.write_money(col, SqlMoney { lsb_part, msb_part });
                },
                0 => writer.write_null(col),
                _ => {
                    return Err(BufferExhausted);
                },
            }
        },
        TdsDataType::DecimalN => match read_decimal_sync(reader, metadata)? {
            Some(val) => writer.write_decimal(col, val),
            None => writer.write_null(col),
        },
        TdsDataType::NumericN => match read_decimal_sync(reader, metadata)? {
            Some(val) => writer.write_numeric(col, val),
            None => writer.write_null(col),
        },
        TdsDataType::NChar
        | TdsDataType::NVarChar
        | TdsDataType::BigChar
        | TdsDataType::BigVarChar => {
            if metadata.is_plp() {
                return Err(BufferExhausted);
            }
            let length: u16 = reader.read_u16()?;
            if length == 0xFFFF {
                writer.write_null(col);
            } else {
                let buffer = reader.read_bytes_vec(length as usize)?;
                match get_encoding_type(metadata) {
                    EncodingType::Utf16 => writer.write_string_raw(col, buffer, true),
                    EncodingType::Utf8 => writer.write_string_raw(col, buffer, false),
                    other => writer.write_string(col, SqlString::new(buffer, other)),
                }
            }
        },
        TdsDataType::BigBinary => {
            let length: u16 = reader.read_u16()?;
            if length == 0xFFFF {
                writer.write_null(col);
            } else {
                let bytes = reader.read_bytes_vec(length as usize)?;
                writer.write_bytes(col, bytes);
            }
        },
        TdsDataType::BigVarBinary => {
            if metadata.is_plp() {
                return Err(BufferExhausted);
            }
            let length: u16 = reader.read_u16()?;
            if length == 0xFFFF {
                writer.write_null(col);
            } else {
                let bytes = reader.read_bytes_vec(length as usize)?;
                writer.write_bytes(col, bytes);
            }
        },
        TdsDataType::DateTime
        | TdsDataType::DateTim4
        | TdsDataType::DateTimeN
        | TdsDataType::DateN
        | TdsDataType::TimeN
        | TdsDataType::DateTime2N
        | TdsDataType::DateTimeOffsetN => {
            return decode_date_sync(reader, metadata, col, writer);
        },
        TdsDataType::Guid => {
            let length: u8 = reader.read_byte()?;
            if length == 0 {
                writer.write_null(col);
            } else {
                if length != 16 {
                    return Err(BufferExhausted);
                }
                let bytes = reader.read_bytes_vec(16)?;
                match guid_from_slice_le(bytes.as_slice()) {
                    Some(g) => writer.write_uuid(col, g),
                    None => {
                        return Err(BufferExhausted);
                    },
                }
            }
        },
        _ => {
            return Err(BufferExhausted);
        },
    }
    Ok(())
}

/// Decodes the date or time of a column into a sink.
#[verifier::rlimit(60)]
#[verifier::spinoff_prover]
fn decode_date_sync<W: RowWriter>(
    reader: &mut SyncReader<'_>,
    metadata: &ColumnMetadata,
    col: usize,
    writer: &mut W,
) -> (r: Result<(), BufferExhausted>)
    requires
        match metadata.data_type {
            TdsDataType::DateTime
            | TdsDataType::DateTim4
            | TdsDataType::DateTimeN
            | TdsDataType::DateN
            | TdsDataType::TimeN
            | TdsDataType::DateTime2N
            | TdsDataType::DateTimeOffsetN => true,
            _ => false,
        },
        sync_column(metadata, old(reader).data(), old(reader).pos()) matches Some((v, _)) ==> old(
            writer).accepts(col, v),
    ensures
        final(reader).data() == old(reader).data(),
        old(reader).pos() <= final(reader).pos(),
        forall|c: usize, v: Value| #[trigger]
            old(writer).accepts(c, v) ==> final(writer).accepts(c, v),
        match sync_column(metadata, old(reader).data(), old(reader).pos()) {
            Some((v, p)) => r is Ok && final(reader).pos() == p && W::wrote(
                *old(writer),
                *final(writer),
                col,
                v,
            ),
            None => r is Err && *final(writer) == *old(writer),
        },
{
    reveal(sync_column);
    match metadata.data_type {
        TdsDataType::DateTime => {
            let days: i32 = reader.read_i32()?;
            let time: u32 = reader.read_u32()?;
            writer.write_datetime(col, SqlDateTime { days, time });
        },
        TdsDataType::DateTim4 => {
            let days: u16 = reader.read_u16()?;
            let time: u16 = reader.read_u16()?;
            writer.write_smalldatetime(col, SqlSmallDateTime { days, time });
        },
        TdsDataType::DateTimeN => {
            let length: u8 = reader.read_byte()?;
            match length {
                0 => writer.write_null(col),
                4 => {
                    let days: u16 = reader.read_u16()?;
                    let time: u16 = reader.read_u16()?;
                    writer.write_smalldatetime(col, SqlSmallDateTime { days, time });
                },
                _ => {
                    let days: i32 = reader.read_i32()?;
                    let time: u32 = reader.read_u32()?;
                    writer.write_datetime(col, SqlDateTime { days, time });
                },
            }
        },
        TdsDataType::DateN => {
            let length: u8 = reader.read_byte()?;
            if length == 0 {
                writer.write_null(col);
            } else {
                let days: u32 = reader.read_u24()?;
                writer.write_date(col, SqlDate::unchecked_create(days));
            }
        },
        TdsDataType::TimeN => {
            let length: u8 = reader.read_byte()?;
            if length == 0 {
                writer.write_null(col);
            } else {
                let scale: u8 = metadata.get_scale();
                let time = read_sync_time(reader, length, scale)?;
                writer.write_time(col, time);
            }
        },
        TdsDataType::DateTime2N => {
            let length: u8 = reader.read_byte()?;
            if length == 0 {
                writer.write_null(col);
            } else {
                let scale: u8 = metadata.get_scale();
                if length < 3 {
                    return Err(BufferExhausted);
                }
                let time = read_sync_time(reader, length - 3, scale)?;
                let days: u32 = reader.read_u24()?;
                writer.write_datetime2(col, SqlDateTime2 { days, time });
            }
        },
        TdsDataType::DateTimeOffsetN => {
            let length: u8 = reader.read_byte()?;
            if length == 0 {
                writer.write_null(col);
            } else {
                let scale: u8 = metadata.get_scale();
                if length < 5 {
                    return Err(BufferExhausted);
                }
                let time = read_sync_time(reader, length - 5, scale)?;
                let days: u32 = reader.read_u24()?;
                let offset: i16 = reader.read_i16()?;
                writer.write_datetimeoffset(
                    col,
                    SqlDateTimeOffset { datetime2: SqlDateTime2 { days, time }, offset },
                );
            }
        },
        _ => {
            return Err(BufferExhausted);
        },
    }
    Ok(())
}

/// Reads a time of day of `byte_len` bytes.
fn read_sync_time(reader: &mut SyncReader<'_>, byte_len: u8, scale: u8) -> (r: Result<
    SqlTime,
    BufferExhausted,
>)
    ensures
        final(reader).data() == old(reader).data(),
        match (if 3 <= byte_len <= 5 {
            read_ok(get_time(old(reader).data(), old(reader).pos(), byte_len, scale))
        } else {
            None
        }) {
            Some((t, p)) => r == Ok::<SqlTime, BufferExhausted>(t) && final(reader).pos() == p,
            None => r is Err && final(reader).pos() == old(reader).pos(),
        },
{
    let units: u64 = read_time_ticks(reader, byte_len)?;
    assert(units * ticks_per_unit(scale) <= u64::MAX) by {
        assert(units * ticks_per_unit(scale) <= 0x100_0000_0000 * 10_000_000) by (nonlinear_arith)
            requires
                units < 0x100_0000_0000,
                0 <= ticks_per_unit(scale) <= 10_000_000,
        ;
    }
    Ok(SqlTime { time_nanoseconds: scale_to_100ns(units, scale), scale })
}

/// Whether the bitmap of a row marks a column as missing.
pub open spec fn null_bit(bitmap: Seq<u8>, col: int) -> bool {
    bitmap[col / 8] & (1u8 << ((col % 8) as u8)) != 0
}

/// The bitmap of a row has a bit for every column, eight to a byte from the lowest on: column 0 is the bit
/// that counts 1 in the first byte, column 9 the one that counts 2 in the second.
pub proof fn law_null_bit(bitmap: Seq<u8>, col: int)
    requires
        0 <= col,
    ensures
        null_bit(bitmap, col) == ((bitmap[col / 8] as int / pow(2, (col % 8) as nat)) % 2 == 1),
{
    let b = bitmap[col / 8];
    let k = (col % 8) as u8;
    reveal_with_fuel(pow, 9);
    assert(k < 8 ==> ((b & (1u8 << k) != 0) == ((b / (1u8 << k)) % 2 == 1))) by (bit_vector);
    assert(1u8 << 0u8 == 1 && 1u8 << 1u8 == 2 && 1u8 << 2u8 == 4 && 1u8 << 3u8 == 8 && 1u8 << 4u8 == 16
        && 1u8 << 5u8 == 32 && 1u8 << 6u8 == 64 && 1u8 << 7u8 == 128) by (bit_vector);
}

/// The bitmap of a row is the shortest that has a bit for every column.
pub proof fn law_bitmap_len(n: nat)
    ensures
        8 * bitmap_len(n) >= n,
        8 * bitmap_len(n) < n + 8,
{
}

/// Whether the bitmap of a row marks a column as missing.
pub fn is_null_bit(bitmap: &Vec<u8>, col: usize) -> (b: bool)
    requires
        col / 8 < bitmap@.len(),
    ensures
        b == null_bit(bitmap@, col as int),
{
    bitmap[col / 8] & (1u8 << ((col % 8) as u8)) != 0
}

/// The size of the bitmap of a row with `n` columns.
pub open spec fn bitmap_len(n: nat) -> nat {
    (n + 7) / 8
}

/// The size of the bitmap of a row with `n` columns.
pub fn null_bitmap_len(n: usize) -> (len: usize)
    ensures
        len == bitmap_len(n as nat),
{
    if n % 8 == 0 {
        n / 8
    } else {
        n / 8 + 1
    }
}

/// The first `n` columns of a row at position `p`: the values that are written, and the position
/// after them unless decoding ended. Columns that the bitmap marks are missing and take no bytes.
pub open spec fn sync_row(
    cols: Seq<ColumnMetadata>,
    n: nat,
    bitmap: Option<Seq<u8>>,
    d: Seq<u8>,
    p: int,
) -> (Seq<(usize, Value)>, Option<int>)
    decreases n,
{
    if n == 0 {
        (Seq::empty(), Some(p))
    } else {
        let (cells, at) = sync_row(cols, (n - 1) as nat, bitmap, d, p);
        match at {
            None => (cells, None),
            Some(q) => if bitmap matches Some(b) && null_bit(b, n - 1) {
                (cells.push(((n - 1) as usize, Value::Null)), Some(q))
            } else {
                match sync_column(&cols[n - 1], d, q) {
                    Some((v, r)) => (cells.push(((n - 1) as usize, v)), Some(r)),
                    None => (cells, None),
                }
            },
        }
    }
}

/// Later columns only add to what the earlier ones gave, and add nothing once decoding ended.
pub proof fn lemma_sync_row_grows(
    cols: Seq<ColumnMetadata>,
    m: nat,
    n: nat,
    bitmap: Option<Seq<u8>>,
    d: Seq<u8>,
    p: int,
)
    requires
        m <= n,
    ensures
        sync_row(cols, m, bitmap, d, p).0.is_prefix_of(sync_row(cols, n, bitmap, d, p).0),
        sync_row(cols, m, bitmap, d, p).1 is None ==> sync_row(cols, n, bitmap, d, p) == sync_row(
            cols,
            m,
            bitmap,
            d,
            p,
        ),
    decreases n - m,
{
    if m < n {
        lemma_sync_row_grows(cols, m, (n - 1) as nat, bitmap, d, p);
    }
}

/// The contents of a bitmap, where there is one.
pub open spec fn bitmap_view(bitmap: &Option<Vec<u8>>) -> Option<Seq<u8>> {
    match bitmap {
        Some(b) => Some(b@),
        None => None,
    }
}

/// Decodes the columns of a row from the reader's position on.
fn decode_columns_sync<W: RowWriter>(
    reader: &mut SyncReader<'_>,
    columns: &[ColumnMetadata],
    bitmap: &Option<Vec<u8>>,
    writer: &mut W,
) -> (r: Result<(), BufferExhausted>)
    requires
        bitmap matches Some(b) ==> b@.len() == bitmap_len(columns@.len()),
        accepts_all(
            *old(writer),
            sync_row(
                columns@,
                columns@.len(),
                bitmap_view(bitmap),
                old(reader).data(),
                old(reader).pos(),
            ).0,
        ),
    ensures
        final(reader).data() == old(reader).data(),
        ({
            let (cells, at) = sync_row(
                columns@,
                columns@.len(),
                bitmap_view(bitmap),
                old(reader).data(),
                old(reader).pos(),
            );
            &&& wrote_all(*old(writer), *final(writer), cells)
            &&& match at {
                Some(p) => r is Ok && final(reader).pos() == p,
                None => r is Err,
            }
        }),
{
    let ghost d = reader.data();
    let ghost p = reader.pos();
    let ghost nulls: Option<Seq<u8>> = bitmap_view(bitmap);
    let ghost all = sync_row(columns@, columns@.len(), nulls, d, p);
    let mut col: usize = 0;
    while col < columns.len()
        invariant
            col <= columns@.len(),
            reader.data() == d,
            d == old(reader).data(),
            p == old(reader).pos(),
            nulls == bitmap_view(bitmap),
            bitmap matches Some(b) ==> b@.len() == bitmap_len(columns@.len()),
            all == sync_row(columns@, columns@.len(), nulls, d, p),
            accepts_all(*writer, all.0),
            sync_row(columns@, col as nat, nulls, d, p).1 == Some(reader.pos()),
            wrote_all(*old(writer), *writer, sync_row(columns@, col as nat, nulls, d, p).0),
        decreases columns@.len() - col,
    {
        let ghost before = sync_row(columns@, col as nat, nulls, d, p);
        let ghost after = sync_row(columns@, (col + 1) as nat, nulls, d, p);
        let ghost mid = *writer;
        proof {
            lemma_sync_row_grows(columns@, (col + 1) as nat, columns@.len(), nulls, d, p);
            if after.1 is Some {
                assert(after.0[before.0.len() as int] == all.0[before.0.len() as int]);
            }
        }
        let is_null: bool = match bitmap {
            Some(b) => is_null_bit(b, col),
            None => false,
        };
        if is_null {
            writer.write_null(col);
        } else {
            decode_column_sync(reader, &columns[col], col, writer)?;
        }
        proof {
            lemma_wrote_all_push(*old(writer), mid, *writer, before.0, after.0.last());
            assert(after.0 =~= before.0.push(after.0.last()));
        }
        col += 1;
    }
    Ok(())
}

/// Decodes a row that starts a buffer; gives the number of bytes that it takes. The end of the row
/// is left to the caller.
pub fn decode_row_sync<W: RowWriter>(
    buf: &[u8],
    columns: &[ColumnMetadata],
    writer: &mut W,
) -> (r: Result<usize, BufferExhausted>)
    requires
        accepts_all(*old(writer), sync_row(columns@, columns@.len(), None, buf@, 0).0),
    ensures
        ({
            let (cells, at) = sync_row(columns@, columns@.len(), None, buf@, 0);
            &&& wrote_all(*old(writer), *final(writer), cells)
            &&& match at {
                Some(p) => r matches Ok(n) && n == p,
                None => r is Err,
            }
        }),
{
    let mut reader = SyncReader::new(buf);
    decode_columns_sync(&mut reader, columns, &None, writer)?;
    Ok(reader.consumed())
}

/// Decodes a row whose missing values are marked in a bitmap, and which starts a buffer; gives the
/// number of bytes that it takes. The end of the row is left to the caller.
pub fn decode_nbcrow_sync<W: RowWriter>(
    buf: &[u8],
    columns: &[ColumnMetadata],
    writer: &mut W,
) -> (r: Result<usize, BufferExhausted>)
    requires
        buf@.len() >= bitmap_len(columns@.len()) ==> ({
            let n = bitmap_len(columns@.len()) as int;
            accepts_all(
                *old(writer),
                sync_row(columns@, columns@.len(), Some(buf@.take(n)), buf@, n).0,
            )
        }),
    ensures
        buf@.len() < bitmap_len(columns@.len()) ==> r is Err && *final(writer) == *old(writer),
        buf@.len() >= bitmap_len(columns@.len()) ==> ({
            let n = bitmap_len(columns@.len()) as int;
            let (cells, at) = sync_row(columns@, columns@.len(), Some(buf@.take(n)), buf@, n);
            &&& wrote_all(*old(writer), *final(writer), cells)
            &&& match at {
                Some(p) => r matches Ok(n) && n == p,
                None => r is Err,
            }
        }),
{
    let mut reader = SyncReader::new(buf);
    let bitmap_bytes: usize = null_bitmap_len(columns.len());
    let bitmap = reader.read_bytes_vec(bitmap_bytes)?;
    assert(bitmap@ =~= buf@.take(bitmap_bytes as int));
    decode_columns_sync(&mut reader, columns, &Some(bitmap), writer)?;
    Ok(reader.consumed())
}

} // verus!

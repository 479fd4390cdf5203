//! The form of values on the wire: what the bytes of a message stand for.

use crate::bytes::{le_nat, lemma_le_nat_bound, lemma_pow256, signed};
use crate::datatypes::column_values::{
    SqlDateTime, SqlDateTime2, SqlDateTimeOffset, SqlMoney, SqlSmallDateTime, SqlSmallMoney, SqlTime,
    Value,
};
use crate::datatypes::decimal::DecimalView;
use crate::datatypes::metadata::ColumnMetadata;
use crate::datatypes::sql_string::{spec_encoding_type, EncodingType};
use crate::datatypes::sql_vector::SqlVector;
use crate::datatypes::sqldatatypes::{
    FixedLengthTypes, SqlCollation, TdsDataType, TypeInfoVariant, VECTOR_BASE_TYPE_FLOAT32,
    VECTOR_HEADER_SIZE, VECTOR_LAYOUT_FORMAT_V1, VECTOR_LAYOUT_VERSION_V1, VECTOR_MAX_SIZE,
};
use crate::error::{ErrorKind, IoErrorKind};
use crate::io::packet_reader::{get_byte, get_bytes, get_int, get_uint};
use vstd::prelude::*;

verus! {

/// The largest value that is read in one piece, in bytes.
pub const MAX_ALLOC_SIZE: usize = 104857600;

/// The largest value that is read in chunks, in bytes.
pub const MAX_PLP_SIZE: usize = 2147483647;

/// The largest number of chunks of one value.
pub const MAX_PLP_CHUNKS: u32 = 100000;

/// The largest chunk, in bytes.
pub const MAX_CHUNK_SIZE: usize = 16777216;

/// The length that stands for a missing value that would come in chunks.
pub const SQL_PLP_NULL: u64 = 0xffff_ffff_ffff_ffff;

/// The length that stands for chunks of an unknown total length.
pub const SQL_PLP_UNKNOWNLEN: u64 = 0xffff_ffff_ffff_fffe;

/// What reading a column's value gives: the value and the position after it, or the error.
pub type Decoded = Result<(Value, int), ErrorKind>;

/// How many units of 100 nanoseconds a time of this scale counts in.
pub open spec fn ticks_per_unit(scale: u8) -> nat {
    match scale {
        0 => 10_000_000,
        1 => 1_000_000,
        2 => 100_000,
        3 => 10_000,
        4 => 1_000,
        5 => 100,
        6 => 10,
        _ => 1,
    }
}

/// A time of day of so many units of its scale.
pub open spec fn time_of(units: nat, scale: u8) -> SqlTime {
    SqlTime { time_nanoseconds: (units * ticks_per_unit(scale)) as u64, scale }
}

/// How many bytes a time takes whose length is given as `len`.
pub open spec fn time_width(len: u8) -> nat {
    match len {
        3 => 3,
        4 => 4,
        _ => 5,
    }
}

/// A time of day at position `p`.
pub open spec fn get_time(d: Seq<u8>, p: int, len: u8, scale: u8) -> Result<
    (SqlTime, int),
    ErrorKind,
> {
    match get_uint(d, p, time_width(len)) {
        Ok((units, q)) => Ok((time_of(units, scale), q)),
        Err(k) => Err(k),
    }
}

/// A date and time at position `p`: the time, then the days in three bytes.
pub open spec fn get_datetime2(d: Seq<u8>, p: int, len: u8, scale: u8) -> Result<
    (SqlDateTime2, int),
    ErrorKind,
> {
    if len < 3 {
        Err(ErrorKind::Protocol)
    } else {
        match get_time(d, p, (len - 3) as u8, scale) {
            Ok((time, q)) => match get_uint(d, q, 3) {
                Ok((days, r)) => Ok((SqlDateTime2 { days: days as u32, time }, r)),
                Err(k) => Err(k),
            },
            Err(k) => Err(k),
        }
    }
}

/// A date and time with an offset at position `p`: the date and time, then the offset.
pub open spec fn get_datetimeoffset(d: Seq<u8>, p: int, len: u8, scale: u8) -> Result<
    (SqlDateTimeOffset, int),
    ErrorKind,
> {
    if len < 2 {
        Err(ErrorKind::Protocol)
    } else {
        match get_datetime2(d, p, (len - 2) as u8, scale) {
            Ok((datetime2, q)) => match get_int(d, q, 2) {
                Ok((offset, r)) => Ok((SqlDateTimeOffset { datetime2, offset: offset as i16 }, r)),
                Err(k) => Err(k),
            },
            Err(k) => Err(k),
        }
    }
}

/// The 32-bit signed numbers at position `p`, `n` of them.
pub open spec fn int_parts_at(d: Seq<u8>, p: int, n: nat) -> Seq<i32> {
    Seq::new(n, |i: int| signed(le_nat(d, p + 4 * i, 4), 4) as i32)
}

/// The decimal number of `len` bytes at position `p`: a sign byte, then as many whole 32-bit parts
/// as the rest of the length holds. Length 0 stands for a missing value.
pub open spec fn get_decimal(d: Seq<u8>, p: int, len: u8, precision: u8, scale: u8) -> Result<
    (Option<DecimalView>, int),
    ErrorKind,
> {
    if len == 0 {
        Ok((None, p))
    } else {
        match get_byte(d, p) {
            Ok((sign, q)) => {
                let n = ((len - 1) / 4) as nat;
                match get_bytes(d, q, 4 * n) {
                    Ok((_, r)) => Ok(
                        (
                            Some(
                                DecimalView {
                                    is_positive: sign == 1,
                                    scale,
                                    precision,
                                    int_parts: int_parts_at(d, q, n),
                                },
                            ),
                            r,
                        ),
                    ),
                    Err(k) => Err(k),
                }
            },
            Err(k) => Err(k),
        }
    }
}

/// The order of a unique identifier's bytes on the wire, and back: the first four, the next two
/// and the two after them are reversed.
pub open spec fn guid_order(b: Seq<u8>) -> Seq<u8> {
    seq![
        b[3],
        b[2],
        b[1],
        b[0],
        b[5],
        b[4],
        b[7],
        b[6],
        b[8],
        b[9],
        b[10],
        b[11],
        b[12],
        b[13],
        b[14],
        b[15],
    ]
}

/// The two orders of a unique identifier's bytes undo each other.
pub proof fn law_guid_order_involution(b: Seq<u8>)
    requires
        b.len() == 16,
    ensures
        guid_order(guid_order(b)) == b,
{
    assert(guid_order(guid_order(b)) =~= b);
}

/// The bytes of a value that comes in chunks, from the length of the chunk at position `p` on:
/// `acc` is what came before, in `count` chunks. `declared` is the value's length, where it is
/// known.
pub open spec fn get_chunks(
    d: Seq<u8>,
    p: int,
    acc: Seq<u8>,
    count: nat,
    declared: Option<nat>,
) -> Result<(Seq<u8>, int), ErrorKind>
    decreases d.len() - p,
{
    match get_uint(d, p, 4) {
        Err(k) => Err(k),
        Ok((len, q)) => if len == 0 {
            Ok((acc, q))
        } else if count >= MAX_PLP_CHUNKS || len > MAX_CHUNK_SIZE {
            Err(ErrorKind::Protocol)
        } else if acc.len() + len > (match declared {
            Some(n) => n,
            None => MAX_PLP_SIZE as nat,
        }) {
            Err(ErrorKind::Protocol)
        } else {
            match get_bytes(d, q, len) {
                Err(k) => Err(k),
                Ok((chunk, r)) => get_chunks(d, r, acc + chunk, count + 1, declared),
            }
        },
    }
}

/// `b` and so many zero bytes behind it as bring it to `n` bytes.
pub open spec fn padded(b: Seq<u8>, n: nat) -> Seq<u8> {
    b + Seq::new((n - b.len()) as nat, |i: int| 0u8)
}

/// A value that comes in chunks at position `p`: eight bytes of total length, then the chunks, each
/// with a length of four bytes, up to a chunk of length 0. A value of known length has that length:
/// where its chunks are shorter, zero bytes make up the rest.
pub open spec fn get_plp(d: Seq<u8>, p: int) -> Result<(Option<Seq<u8>>, int), ErrorKind> {
    match get_uint(d, p, 8) {
        Err(k) => Err(k),
        Ok((len, q)) => if len == SQL_PLP_NULL {
            Ok((None, q))
        } else if len == SQL_PLP_UNKNOWNLEN {
            match get_chunks(d, q, Seq::empty(), 0, None) {
                Ok((b, r)) => Ok((Some(b), r)),
                Err(k) => Err(k),
            }
        } else if len > MAX_PLP_SIZE {
            Err(ErrorKind::Protocol)
        } else {
            match get_chunks(d, q, Seq::empty(), 0, Some(len)) {
                Ok((b, r)) => Ok((Some(padded(b, len)), r)),
                Err(k) => Err(k),
            }
        },
    }
}

/// The bytes of a legacy large object at position `p`: a text pointer with a one-byte length,
/// eight bytes of timestamp, four bytes of length, the bytes. A pointer of length 0 stands for a
/// missing value.
pub open spec fn get_long(d: Seq<u8>, p: int) -> Result<(Option<Seq<u8>>, int), ErrorKind> {
    match get_byte(d, p) {
        Err(k) => Err(k),
        Ok((pointer_len, q)) => if pointer_len == 0 {
            Ok((None, q))
        } else {
            match get_uint(d, q + pointer_len + 8, 4) {
                Err(k) => Err(k),
                Ok((len, r)) => if len > MAX_ALLOC_SIZE {
                    Err(ErrorKind::Protocol)
                } else {
                    match get_bytes(d, r, len) {
                        Err(k) => Err(k),
                        Ok((b, s)) => Ok((Some(b), s)),
                    }
                },
            }
        },
    }
}

/// The bytes of a value with a two-byte length at position `p`.
pub open spec fn get_short(d: Seq<u8>, p: int) -> Result<(Seq<u8>, int), ErrorKind> {
    match get_uint(d, p, 2) {
        Err(k) => Err(k),
        Ok((len, q)) => get_bytes(d, q, len),
    }
}

/// The bytes of a value with a two-byte length at position `p`, where one length stands for a
/// missing value.
pub open spec fn get_short_or_null(d: Seq<u8>, p: int) -> Result<
    (Option<Seq<u8>>, int),
    ErrorKind,
> {
    match get_uint(d, p, 2) {
        Err(k) => Err(k),
        Ok((len, q)) => if len == 0xFFFF {
            Ok((None, q))
        } else {
            match get_bytes(d, q, len) {
                Err(k) => Err(k),
                Ok((b, r)) => Ok((Some(b), r)),
            }
        },
    }
}

/// Whether a type's values are legacy large objects.
pub open spec fn spec_is_long_len_type(t: TdsDataType) -> bool {
    t == TdsDataType::NText || t == TdsDataType::Text
}

/// Whether a type's values are character data.
pub open spec fn is_string_type(t: TdsDataType) -> bool {
    match t {
        TdsDataType::NChar
        | TdsDataType::NVarChar
        | TdsDataType::BigChar
        | TdsDataType::BigVarChar
        | TdsDataType::Char
        | TdsDataType::VarChar
        | TdsDataType::NText
        | TdsDataType::Text => true,
        _ => false,
    }
}

/// The bytes of character data at position `p`.
pub open spec fn get_string(m: &ColumnMetadata, d: Seq<u8>, p: int) -> Result<
    (Option<Seq<u8>>, int),
    ErrorKind,
> {
    if m.is_plp() {
        get_plp(d, p)
    } else if spec_is_long_len_type(m.data_type) {
        get_long(d, p)
    } else {
        get_short_or_null(d, p)
    }
}

/// Character data in this encoding, or a missing value.
pub open spec fn string_value(
    r: Result<(Option<Seq<u8>>, int), ErrorKind>,
    encoding: EncodingType,
) -> Decoded {
    match r {
        Ok((Some(b), q)) => Ok((Value::String(b, encoding), q)),
        Ok((None, q)) => Ok((Value::Null, q)),
        Err(k) => Err(k),
    }
}

/// Binary data, or a missing value.
pub open spec fn bytes_value(r: Result<(Option<Seq<u8>>, int), ErrorKind>) -> Decoded {
    match r {
        Ok((Some(b), q)) => Ok((Value::Bytes(b), q)),
        Ok((None, q)) => Ok((Value::Null, q)),
        Err(k) => Err(k),
    }
}

/// A bit at position `p`: a byte that is 1 for true.
pub open spec fn bit_at(d: Seq<u8>, p: int) -> Decoded {
    match get_byte(d, p) {
        Ok((b, q)) => Ok((Value::Bit(b == 1), q)),
        Err(k) => Err(k),
    }
}

/// An integer of `n` bytes at position `p`.
pub open spec fn integer_at(d: Seq<u8>, p: int, n: u8) -> Decoded {
    match n {
        0 => Ok((Value::Null, p)),
        1 => match get_byte(d, p) {
            Ok((v, q)) => Ok((Value::TinyInt(v), q)),
            Err(k) => Err(k),
        },
        2 => match get_int(d, p, 2) {
            Ok((v, q)) => Ok((Value::SmallInt(v as i16), q)),
            Err(k) => Err(k),
        },
        4 => match get_int(d, p, 4) {
            Ok((v, q)) => Ok((Value::Int(v as i32), q)),
            Err(k) => Err(k),
        },
        8 => match get_int(d, p, 8) {
            Ok((v, q)) => Ok((Value::BigInt(v as i64), q)),
            Err(k) => Err(k),
        },
        _ => Err(ErrorKind::Io(IoErrorKind::InvalidData)),
    }
}

/// A single-precision number at position `p`.
pub open spec fn real_at(d: Seq<u8>, p: int) -> Decoded {
    match get_uint(d, p, 4) {
        Ok((v, q)) => Ok((Value::Real(v as u32), q)),
        Err(k) => Err(k),
    }
}

/// A double-precision number at position `p`.
pub open spec fn float_at(d: Seq<u8>, p: int) -> Decoded {
    match get_uint(d, p, 8) {
        Ok((v, q)) => Ok((Value::Float(v as u64), q)),
        Err(k) => Err(k),
    }
}

/// A four-byte amount of money at position `p`.
pub open spec fn smallmoney_at(d: Seq<u8>, p: int) -> Decoded {
    match get_int(d, p, 4) {
        Ok((v, q)) => Ok((Value::SmallMoney(SqlSmallMoney { int_val: v as i32 }), q)),
        Err(k) => Err(k),
    }
}

/// An eight-byte amount of money at position `p`: the more significant half comes first.
pub open spec fn money_at(d: Seq<u8>, p: int) -> Decoded {
    match get_int(d, p, 4) {
        Ok((msb, q)) => match get_int(d, q, 4) {
            Ok((lsb, r)) => Ok(
                (Value::Money(SqlMoney { lsb_part: lsb as i32, msb_part: msb as i32 }), r),
            ),
            Err(k) => Err(k),
        },
        Err(k) => Err(k),
    }
}

/// A legacy date and time of eight bytes at position `p`.
pub open spec fn datetime_at(d: Seq<u8>, p: int) -> Decoded {
    match get_int(d, p, 4) {
        Ok((days, q)) => match get_uint(d, q, 4) {
            Ok((time, r)) => Ok(
                (Value::DateTime(SqlDateTime { days: days as i32, time: time as u32 }), r),
            ),
            Err(k) => Err(k),
        },
        Err(k) => Err(k),
    }
}

/// A legacy date and time of four bytes at position `p`.
pub open spec fn smalldatetime_at(d: Seq<u8>, p: int) -> Decoded {
    match get_uint(d, p, 2) {
        Ok((days, q)) => match get_uint(d, q, 2) {
            Ok((time, r)) => Ok(
                (
                    Value::SmallDateTime(
                        SqlSmallDateTime { days: days as u16, time: time as u16 },
                    ),
                    r,
                ),
            ),
            Err(k) => Err(k),
        },
        Err(k) => Err(k),
    }
}

/// A date whose length is given as `len`, at position `p`.
pub open spec fn date_at(d: Seq<u8>, p: int, len: u8) -> Decoded {
    if len == 0 {
        Ok((Value::Null, p))
    } else {
        match get_uint(d, p, 3) {
            Ok((days, q)) => Ok((Value::Date(days as u32), q)),
            Err(k) => Err(k),
        }
    }
}

/// A unique identifier whose length is given as `len`, at position `p`.
pub open spec fn guid_at(d: Seq<u8>, p: int, len: u8) -> Decoded {
    if len == 0 {
        Ok((Value::Null, p))
    } else if len != 16 {
        Err(ErrorKind::Protocol)
    } else {
        match get_bytes(d, p, 16) {
            Ok((b, q)) => Ok((Value::Uuid(guid_order(b)), q)),
            Err(k) => Err(k),
        }
    }
}

/// A time of day whose length is given as `len`, at position `p`.
pub open spec fn time_at(d: Seq<u8>, p: int, len: u8, scale: u8) -> Decoded {
    match get_time(d, p, len, scale) {
        Ok((t, q)) => Ok((Value::Time(t), q)),
        Err(k) => Err(k),
    }
}

/// A date and time whose length is given as `len`, at position `p`.
pub open spec fn datetime2_at(d: Seq<u8>, p: int, len: u8, scale: u8) -> Decoded {
    match get_datetime2(d, p, len, scale) {
        Ok((t, q)) => Ok((Value::DateTime2(t), q)),
        Err(k) => Err(k),
    }
}

/// A date and time with an offset whose length is given as `len`, at position `p`.
pub open spec fn datetimeoffset_at(d: Seq<u8>, p: int, len: u8, scale: u8) -> Decoded {
    match get_datetimeoffset(d, p, len, scale) {
        Ok((t, q)) => Ok((Value::DateTimeOffset(t), q)),
        Err(k) => Err(k),
    }
}

/// A decimal value out of a decimal number that was read.
pub open spec fn decimal_value(
    r: Result<(Option<DecimalView>, int), ErrorKind>,
    numeric: bool,
) -> Decoded {
    match r {
        Ok((Some(v), q)) => Ok(
            (
                if numeric {
                    Value::Numeric(v)
                } else {
                    Value::Decimal(v)
                },
                q,
            ),
        ),
        Ok((None, q)) => Ok((Value::Null, q)),
        Err(k) => Err(k),
    }
}

/// The decimal number of a column at position `p`: its length in one byte, then the number, with
/// the precision and scale of the column's type.
pub open spec fn get_decimal_column(m: &ColumnMetadata, d: Seq<u8>, p: int) -> Result<
    (Option<DecimalView>, int),
    ErrorKind,
> {
    match get_byte(d, p) {
        Ok((len, q)) => match m.type_info.type_info_variant {
            TypeInfoVariant::VarLenPrecisionScale(_, _, precision, scale) => get_decimal(
                d,
                q,
                len,
                precision,
                scale,
            ),
            _ => Err(ErrorKind::Protocol),
        },
        Err(k) => Err(k),
    }
}

/// A vector at position `p`: a two-byte length, a header of eight bytes, the elements. The length,
/// the number of dimensions in the header and the column's type must agree.
pub open spec fn vector_at(m: &ColumnMetadata, d: Seq<u8>, p: int) -> Decoded {
    match get_uint(d, p, 2) {
        Err(k) => Err(k),
        Ok((len, q)) => if len == 0xFFFF {
            Ok((Value::Null, q))
        } else if len > VECTOR_MAX_SIZE || len < VECTOR_HEADER_SIZE {
            Err(ErrorKind::Protocol)
        } else {
            match get_bytes(d, q, 8) {
                Err(k) => Err(k),
                Ok((header, r)) => if vector_header_fits(m, header, len) {
                    match get_bytes(d, r, (len - 8) as nat) {
                        Err(k) => Err(k),
                        Ok((raw, s)) => match SqlVector::spec_from_raw(
                            header[0],
                            header[1],
                            header[4],
                            raw,
                        ) {
                            Some(elements) => Ok((Value::Vector(elements), s)),
                            None => Err(ErrorKind::Protocol),
                        },
                    }
                } else {
                    Err(ErrorKind::Protocol)
                },
            }
        },
    }
}

/// Whether a vector's header fits the length of the value and the column's type.
pub open spec fn vector_header_fits(m: &ColumnMetadata, header: Seq<u8>, len: nat) -> bool {
    &&& header[0] == VECTOR_LAYOUT_FORMAT_V1
    &&& header[1] == VECTOR_LAYOUT_VERSION_V1
    &&& m.type_info.type_info_variant matches TypeInfoVariant::VarLenScale(_, base_type)
        && base_type == header[4]
    &&& header[4] == VECTOR_BASE_TYPE_FLOAT32
    &&& len == VECTOR_HEADER_SIZE + 4 * le_nat(header, 2, 2)
    &&& len == m.type_info.length
}

/// A value of a type of fixed length at position `p`.
pub open spec fn fixed_at(t: TdsDataType, d: Seq<u8>, p: int) -> Decoded {
    match t {
        TdsDataType::Int1 => integer_at(d, p, 1),
        TdsDataType::Int2 => integer_at(d, p, 2),
        TdsDataType::Int4 => integer_at(d, p, 4),
        TdsDataType::Int8 => integer_at(d, p, 8),
        TdsDataType::Flt4 => real_at(d, p),
        TdsDataType::Flt8 => float_at(d, p),
        TdsDataType::Money4 => smallmoney_at(d, p),
        TdsDataType::Money => money_at(d, p),
        TdsDataType::Bit => bit_at(d, p),
        TdsDataType::DateTime => datetime_at(d, p),
        TdsDataType::DateTim4 => smalldatetime_at(d, p),
        _ => Err(ErrorKind::UnimplementedFeature),
    }
}

/// A variant's value without properties.
pub open spec fn variant_without_properties(t: TdsDataType, n: u32, d: Seq<u8>, p: int) -> Decoded {
    if FixedLengthTypes::of_type(t) is Some {
        fixed_at(t, d, p)
    } else {
        match t {
            TdsDataType::Guid => guid_at(d, p, n as u8),
            TdsDataType::DateN => date_at(d, p, n as u8),
            _ => Err(ErrorKind::Protocol),
        }
    }
}

/// A variant's value with a scale as its property.
pub open spec fn variant_with_scale(t: TdsDataType, n: u32, d: Seq<u8>, p: int) -> Decoded {
    match get_byte(d, p) {
        Err(k) => Err(k),
        Ok((scale, q)) => match t {
            TdsDataType::TimeN => time_at(d, q, n as u8, scale),
            TdsDataType::DateTime2N => datetime2_at(d, q, n as u8, scale),
            TdsDataType::DateTimeOffsetN => datetimeoffset_at(d, q, n as u8, scale),
            _ => Err(ErrorKind::Protocol),
        },
    }
}

/// A variant's value with two bytes of properties: the maximal length of binary data, or precision
/// and scale of a decimal number.
pub open spec fn variant_with_two_bytes(t: TdsDataType, n: u32, d: Seq<u8>, p: int) -> Decoded {
    match t {
        TdsDataType::BigVarBinary | TdsDataType::BigBinary => match get_uint(d, p, 2) {
            Err(k) => Err(k),
            Ok((_, q)) => if n > MAX_ALLOC_SIZE {
                Err(ErrorKind::Protocol)
            } else {
                match get_bytes(d, q, n as nat) {
                    Ok((b, r)) => Ok((Value::Bytes(b), r)),
                    Err(k) => Err(k),
                }
            },
        },
        TdsDataType::NumericN | TdsDataType::DecimalN => match get_byte(d, p) {
            Err(k) => Err(k),
            Ok((precision, q)) => match get_byte(d, q) {
                Err(k) => Err(k),
                Ok((scale, r)) => decimal_value(
                    get_decimal(d, r, n as u8, precision, scale),
                    t == TdsDataType::NumericN,
                ),
            },
        },
        _ => Err(ErrorKind::Protocol),
    }
}

/// The collation that five bytes describe.
pub open spec fn collation_of(b: Seq<u8>) -> SqlCollation {
    SqlCollation::spec_from_parts(le_nat(b, 0, 4) as u32, b[4])
}

/// The encoding of a variant's character data.
pub open spec fn variant_encoding(t: TdsDataType, collation: SqlCollation) -> EncodingType {
    if t == TdsDataType::NVarChar || t == TdsDataType::NChar {
        EncodingType::Utf16
    } else if collation.utf8() {
        EncodingType::Utf8
    } else {
        EncodingType::LcidBased(collation)
    }
}

/// A variant's character data, with seven bytes of properties: collation and maximal length.
pub open spec fn variant_with_collation(t: TdsDataType, n: u32, d: Seq<u8>, p: int) -> Decoded {
    match get_bytes(d, p, 5) {
        Err(k) => Err(k),
        Ok((c, q)) => match get_uint(d, q, 2) {
            Err(k) => Err(k),
            Ok((_, r)) => if n > MAX_ALLOC_SIZE {
                Err(ErrorKind::Protocol)
            } else {
                match get_bytes(d, r, n as nat) {
                    Ok((b, s)) => Ok((Value::String(b, variant_encoding(t, collation_of(c))), s)),
                    Err(k) => Err(k),
                }
            },
        },
    }
}

/// A variant's value with so many bytes of properties.
pub open spec fn variant_data(t: TdsDataType, properties: u8, n: u32, d: Seq<u8>, p: int) -> Decoded {
    match properties {
        0 => variant_without_properties(t, n, d, p),
        1 => variant_with_scale(t, n, d, p),
        2 => variant_with_two_bytes(t, n, d, p),
        7 => variant_with_collation(t, n, d, p),
        _ => Err(ErrorKind::Protocol),
    }
}

/// A variant at position `p`: four bytes of length, the type, the length of the properties, the
/// properties, the value. A length of 0 stands for a missing value, and nothing follows it.
pub open spec fn variant_at(d: Seq<u8>, p: int) -> Decoded {
    match get_uint(d, p, 4) {
        Err(k) => Err(k),
        Ok((len, q)) => if len == 0 {
            Ok((Value::Null, q))
        } else {
            match get_byte(d, q) {
                Err(k) => Err(k),
                Ok((code, r)) => match TdsDataType::of_code(code) {
                    None => Err(ErrorKind::Protocol),
                    Some(t) => match get_byte(d, r) {
                        Err(k) => Err(k),
                        Ok((properties, s)) => if len < 2 + properties {
                            Err(ErrorKind::Protocol)
                        } else {
                            variant_data(t, properties, (len - 2 - properties) as u32, d, s)
                        },
                    },
                },
            }
        },
    }
}

/// Whether a type can have seven bytes of properties in a variant.
pub open spec fn has_collation(t: TdsDataType) -> bool {
    match t {
        TdsDataType::BigVarChar
        | TdsDataType::BigChar
        | TdsDataType::NVarChar
        | TdsDataType::NChar => true,
        _ => false,
    }
}

/// Whether the column's value at position `p` is not a variant whose type contradicts its seven
/// bytes of properties. A value that is has no meaning.
pub open spec fn decodable(m: &ColumnMetadata, d: Seq<u8>, p: int) -> bool {
    m.data_type == TdsDataType::SsVariant && p + 6 <= d.len() && d[p + 5] == 7 && le_nat(d, p, 4)
        >= 9 ==> (TdsDataType::of_code(d[p + 4]) matches Some(t) ==> has_collation(t))
}

/// The value of a column at position `p`.
pub open spec fn column_value(m: &ColumnMetadata, d: Seq<u8>, p: int) -> Decoded {
    match m.data_type {
        TdsDataType::MoneyN => match get_byte(d, p) {
            Err(k) => Err(k),
            Ok((len, q)) => match len {
                4 => smallmoney_at(d, q),
                8 => money_at(d, q),
                0 => Ok((Value::Null, q)),
                _ => Err(ErrorKind::Protocol),
            },
        },
        TdsDataType::DecimalN => decimal_value(get_decimal_column(m, d, p), false),
        TdsDataType::NumericN => decimal_value(get_decimal_column(m, d, p), true),
        TdsDataType::IntN => match get_byte(d, p) {
            Err(k) => Err(k),
            Ok((len, q)) => integer_at(d, q, len),
        },
        TdsDataType::BigBinary => bytes_value(get_short_or_null(d, p)),
        TdsDataType::BigVarBinary => if m.is_plp() {
            bytes_value(get_plp(d, p))
        } else {
            bytes_value(get_short_or_null(d, p))
        },
        TdsDataType::Xml => match get_plp(d, p) {
            Ok((Some(b), q)) => Ok((Value::Xml(b), q)),
            Ok((None, q)) => Ok((Value::Null, q)),
            Err(k) => Err(k),
        },
        TdsDataType::Json => match get_plp(d, p) {
            Ok((Some(b), q)) => Ok((Value::Json(b), q)),
            Ok((None, q)) => Ok((Value::Null, q)),
            Err(k) => Err(k),
        },
        TdsDataType::Udt => bytes_value(get_plp(d, p)),
        TdsDataType::Vector => vector_at(m, d, p),
        TdsDataType::BitN => match get_byte(d, p) {
            Err(k) => Err(k),
            Ok((len, q)) => if len > 0 {
                bit_at(d, q)
            } else {
                Ok((Value::Null, q))
            },
        },
        TdsDataType::Guid => match get_byte(d, p) {
            Err(k) => Err(k),
            Ok((len, q)) => guid_at(d, q, len),
        },
        TdsDataType::FltN => match get_byte(d, p) {
            Err(k) => Err(k),
            Ok((len, q)) => match len {
                0 => Ok((Value::Null, q)),
                4 => real_at(d, q),
                _ => float_at(d, q),
            },
        },
        TdsDataType::DateTimeN => match get_byte(d, p) {
            Err(k) => Err(k),
            Ok((len, q)) => match len {
                0 => Ok((Value::Null, q)),
                4 => smalldatetime_at(d, q),
                _ => datetime_at(d, q),
            },
        },
        TdsDataType::DateN => match get_byte(d, p) {
            Err(k) => Err(k),
            Ok((len, q)) => date_at(d, q, len),
        },
        TdsDataType::TimeN => match get_byte(d, p) {
            Err(k) => Err(k),
            Ok((len, q)) => if len == 0 {
                Ok((Value::Null, q))
            } else {
                time_at(d, q, len, m.get_scale())
            },
        },
        TdsDataType::DateTime2N => match get_byte(d, p) {
            Err(k) => Err(k),
            Ok((len, q)) => if len == 0 {
                Ok((Value::Null, q))
            } else {
                datetime2_at(d, q, len, m.get_scale())
            },
        },
        TdsDataType::DateTimeOffsetN => match get_byte(d, p) {
            Err(k) => Err(k),
            Ok((len, q)) => if len == 0 {
                Ok((Value::Null, q))
            } else {
                datetimeoffset_at(d, q, len, m.get_scale())
            },
        },
        TdsDataType::Image => match get_long(d, p) {
            Ok((Some(b), q)) => Ok(
                (
                    if b.len() == 0 {
                        Value::Null
                    } else {
                        Value::Bytes(b)
                    },
                    q,
                ),
            ),
            Ok((None, q)) => Ok((Value::Null, q)),
            Err(k) => Err(k),
        },
        TdsDataType::SsVariant => variant_at(d, p),
        _ => if is_string_type(m.data_type) {
            string_value(get_string(m, d, p), spec_encoding_type(m))
        } else {
            fixed_at(m.data_type, d, p)
        },
    }
}

/// The chunks of a value end behind their start, inside the data.
proof fn lemma_chunks_end(d: Seq<u8>, p: int, acc: Seq<u8>, count: nat, declared: Option<nat>)
    requires
        p <= d.len(),
    ensures
        get_chunks(d, p, acc, count, declared) matches Ok((b, q)) ==> p <= q <= d.len(),
    decreases d.len() - p,
{
    if get_uint(d, p, 4) is Ok {
        let (len, q) = get_uint(d, p, 4)->Ok_0;
        if len > 0 && get_bytes(d, q, len) is Ok {
            let (chunk, r) = get_bytes(d, q, len)->Ok_0;
            lemma_chunks_end(d, r, acc + chunk, count + 1, declared);
        }
    }
}

/// A chunked value ends behind its start, inside the data.
proof fn lemma_plp_end(d: Seq<u8>, p: int)
    requires
        p <= d.len(),
    ensures
        get_plp(d, p) matches Ok((b, q)) ==> p <= q <= d.len(),
{
    if p + 8 <= d.len() {
        let (len, q) = get_uint(d, p, 8)->Ok_0;
        lemma_chunks_end(d, q, Seq::empty(), 0, None);
        lemma_chunks_end(d, q, Seq::empty(), 0, Some(len));
    }
}

/// Whether a value that was read at `p` ends behind its start, inside the data.
spec fn ends_within(r: Decoded, d: Seq<u8>, p: int) -> bool {
    r matches Ok((v, q)) ==> p <= q <= d.len()
}

/// The value of a variant ends behind its start, inside the data.
proof fn lemma_variant_data_end(t: TdsDataType, properties: u8, n: u32, d: Seq<u8>, p: int)
    requires
        p <= d.len(),
    ensures
        ends_within(variant_data(t, properties, n, d, p), d, p),
{
    assert(ends_within(variant_without_properties(t, n, d, p), d, p));
    assert(ends_within(variant_with_scale(t, n, d, p), d, p));
    assert(ends_within(variant_with_two_bytes(t, n, d, p), d, p));
    assert(ends_within(variant_with_collation(t, n, d, p), d, p));
}

/// A variant ends behind its start, inside the data.
proof fn lemma_variant_end(d: Seq<u8>, p: int)
    requires
        p <= d.len(),
    ensures
        ends_within(variant_at(d, p), d, p),
{
    if p + 6 <= d.len() {
        let len = le_nat(d, p, 4);
        if TdsDataType::of_code(d[p + 4]) is Some && len >= 2 + d[p + 5] {
            let t = TdsDataType::of_code(d[p + 4])->Some_0;
            lemma_variant_data_end(t, d[p + 5], (len - 2 - d[p + 5]) as u32, d, p + 6);
        }
    }
}

/// A value behind a byte that counts its bytes ends behind its start, inside the data.
proof fn lemma_counted_end(m: &ColumnMetadata, d: Seq<u8>, p: int)
    requires
        p <= d.len(),
        match m.data_type {
            TdsDataType::MoneyN
            | TdsDataType::IntN
            | TdsDataType::BitN
            | TdsDataType::Guid
            | TdsDataType::FltN
            | TdsDataType::DateTimeN
            | TdsDataType::DateN
            | TdsDataType::TimeN
            | TdsDataType::DateTime2N
            | TdsDataType::DateTimeOffsetN => true,
            _ => false,
        },
    ensures
        ends_within(column_value(m, d, p), d, p),
{
}

/// A decimal number or a vector ends behind its start, inside the data.
proof fn lemma_decimal_end(m: &ColumnMetadata, d: Seq<u8>, p: int)
    requires
        p <= d.len(),
        m.data_type == TdsDataType::DecimalN || m.data_type == TdsDataType::NumericN
            || m.data_type == TdsDataType::Vector,
    ensures
        ends_within(column_value(m, d, p), d, p),
{
}

/// A value of many bytes ends behind its start, inside the data.
proof fn lemma_long_end(m: &ColumnMetadata, d: Seq<u8>, p: int)
    requires
        p <= d.len(),
        match m.data_type {
            TdsDataType::BigBinary
            | TdsDataType::BigVarBinary
            | TdsDataType::Xml
            | TdsDataType::Json
            | TdsDataType::Udt
            | TdsDataType::Image => true,
            t => is_string_type(t),
        },
    ensures
        ends_within(column_value(m, d, p), d, p),
{
    lemma_plp_end(d, p);
}

/// A value of a fixed size ends behind its start, inside the data.
proof fn lemma_fixed_end(t: TdsDataType, d: Seq<u8>, p: int)
    requires
        p <= d.len(),
    ensures
        ends_within(fixed_at(t, d, p), d, p),
{
}

/// The value of a column ends behind its start, inside the data.
pub proof fn law_value_end(m: &ColumnMetadata, d: Seq<u8>, p: int)
    requires
        p <= d.len(),
    ensures
        column_value(m, d, p) matches Ok((v, q)) ==> p <= q <= d.len(),
{
    match m.data_type {
        TdsDataType::MoneyN
        | TdsDataType::IntN
        | TdsDataType::BitN
        | TdsDataType::Guid
        | TdsDataType::FltN
        | TdsDataType::DateTimeN
        | TdsDataType::DateN
        | TdsDataType::TimeN
        | TdsDataType::DateTime2N
        | TdsDataType::DateTimeOffsetN => {
            lemma_counted_end(m, d, p);
        },
        TdsDataType::DecimalN | TdsDataType::NumericN | TdsDataType::Vector => {
            lemma_decimal_end(m, d, p);
        },
        TdsDataType::BigBinary
        | TdsDataType::BigVarBinary
        | TdsDataType::Xml
        | TdsDataType::Json
        | TdsDataType::Udt
        | TdsDataType::Image => {
            lemma_long_end(m, d, p);
        },
        TdsDataType::SsVariant => {
            lemma_variant_end(d, p);
        },
        t => {
            if is_string_type(t) {
                lemma_long_end(m, d, p);
            } else {
                lemma_fixed_end(t, d, p);
            }
        },
    }
}

/// How many bytes of data a value holds: none where its type fixes its size.
pub open spec fn data_size(v: Value) -> nat {
    match v {
        Value::String(b, _) => b.len(),
        Value::Bytes(b) | Value::Xml(b) | Value::Json(b) => b.len(),
        Value::Vector(elements) => 4 * elements.len(),
        _ => 0,
    }
}

/// Whether a value that was read is not larger than any value may be.
spec fn is_bounded(r: Decoded) -> bool {
    r matches Ok((v, q)) ==> data_size(v) <= MAX_PLP_SIZE
}

/// The chunks of a value are together no longer than the value was said to be, or may be.
proof fn lemma_chunks_bounded(d: Seq<u8>, p: int, acc: Seq<u8>, count: nat, declared: Option<nat>)
    requires
        0 <= p,
        acc.len() <= (match declared {
            Some(n) => n,
            None => MAX_PLP_SIZE as nat,
        }),
    ensures
        get_chunks(d, p, acc, count, declared) matches Ok((b, q)) ==> b.len() <= (match declared {
            Some(n) => n,
            None => MAX_PLP_SIZE as nat,
        }),
    decreases d.len() - p,
{
    if get_uint(d, p, 4) is Ok {
        let (len, q) = get_uint(d, p, 4)->Ok_0;
        if len > 0 && get_bytes(d, q, len) is Ok {
            let (chunk, r) = get_bytes(d, q, len)->Ok_0;
            if !(count >= MAX_PLP_CHUNKS || len > MAX_CHUNK_SIZE || acc.len() + len > (match declared {
                Some(n) => n,
                None => MAX_PLP_SIZE as nat,
            })) {
                lemma_chunks_bounded(d, r, acc + chunk, count + 1, declared);
            }
        }
    }
}

/// A chunked value is not larger than any value may be.
proof fn lemma_plp_bounded(d: Seq<u8>, p: int)
    requires
        0 <= p,
    ensures
        get_plp(d, p) matches Ok((Some(b), q)) ==> b.len() <= MAX_PLP_SIZE,
{
    if get_uint(d, p, 8) is Ok {
        let (len, q) = get_uint(d, p, 8)->Ok_0;
        lemma_chunks_bounded(d, q, Seq::empty(), 0, None);
        lemma_chunks_bounded(d, q, Seq::empty(), 0, Some(len));
    }
}

/// The value of a variant is not larger than any value may be.
proof fn lemma_variant_bounded(t: TdsDataType, properties: u8, n: u32, d: Seq<u8>, p: int)
    requires
        0 <= p,
    ensures
        is_bounded(variant_data(t, properties, n, d, p)),
{
    assert(is_bounded(variant_without_properties(t, n, d, p)));
    assert(is_bounded(variant_with_scale(t, n, d, p)));
    assert(is_bounded(variant_with_two_bytes(t, n, d, p)));
    assert(is_bounded(variant_with_collation(t, n, d, p)));
}

/// A value of many bytes is not larger than any value may be.
proof fn lemma_long_bounded(m: &ColumnMetadata, d: Seq<u8>, p: int)
    requires
        0 <= p,
        match m.data_type {
            TdsDataType::BigBinary
            | TdsDataType::BigVarBinary
            | TdsDataType::Xml
            | TdsDataType::Json
            | TdsDataType::Udt
            | TdsDataType::Image => true,
            t => is_string_type(t),
        },
    ensures
        is_bounded(column_value(m, d, p)),
{
    lemma_plp_bounded(d, p);
    lemma_short_bounded(d, p);
}

/// A value behind two bytes of length is not larger than any value may be.
proof fn lemma_short_bounded(d: Seq<u8>, p: int)
    ensures
        get_uint(d, p, 2) matches Ok((n, q)) ==> n <= 0xFFFF,
{
    lemma_pow256();
    lemma_le_nat_bound(d, p, 2);
}

/// A value behind a byte that counts its bytes holds no data beyond what its type fixes.
proof fn lemma_counted_bounded(m: &ColumnMetadata, d: Seq<u8>, p: int)
    requires
        match m.data_type {
            TdsDataType::MoneyN
            | TdsDataType::IntN
            | TdsDataType::BitN
            | TdsDataType::Guid
            | TdsDataType::FltN
            | TdsDataType::DateTimeN
            | TdsDataType::DateN
            | TdsDataType::TimeN
            | TdsDataType::DateTime2N
            | TdsDataType::DateTimeOffsetN => true,
            _ => false,
        },
    ensures
        is_bounded(column_value(m, d, p)),
{
}

/// A decimal number holds no data beyond what its type fixes, and a vector little.
proof fn lemma_decimal_bounded(m: &ColumnMetadata, d: Seq<u8>, p: int)
    requires
        m.data_type == TdsDataType::DecimalN || m.data_type == TdsDataType::NumericN
            || m.data_type == TdsDataType::Vector,
    ensures
        is_bounded(column_value(m, d, p)),
{
}

/// A value of a fixed size holds no data beyond it.
proof fn lemma_fixed_bounded(t: TdsDataType, d: Seq<u8>, p: int)
    ensures
        is_bounded(fixed_at(t, d, p)),
{
}

/// A variant is not larger than any value may be.
proof fn lemma_variant_at_bounded(d: Seq<u8>, p: int)
    requires
        0 <= p,
    ensures
        is_bounded(variant_at(d, p)),
{
    if p + 6 <= d.len() {
        let len = le_nat(d, p, 4);
        if TdsDataType::of_code(d[p + 4]) is Some && len >= 2 + d[p + 5] {
            let t = TdsDataType::of_code(d[p + 4])->Some_0;
            lemma_variant_bounded(t, d[p + 5], (len - 2 - d[p + 5]) as u32, d, p + 6);
        }
    }
}

/// No value is larger than any value may be: two gigabytes.
pub proof fn law_value_size(m: &ColumnMetadata, d: Seq<u8>, p: int)
    requires
        0 <= p,
    ensures
        column_value(m, d, p) matches Ok((v, q)) ==> data_size(v) <= MAX_PLP_SIZE,
{
    match m.data_type {
        TdsDataType::MoneyN
        | TdsDataType::IntN
        | TdsDataType::BitN
        | TdsDataType::Guid
        | TdsDataType::FltN
        | TdsDataType::DateTimeN
        | TdsDataType::DateN
        | TdsDataType::TimeN
        | TdsDataType::DateTime2N
        | TdsDataType::DateTimeOffsetN => {
            lemma_counted_bounded(m, d, p);
        },
        TdsDataType::DecimalN | TdsDataType::NumericN | TdsDataType::Vector => {
            lemma_decimal_bounded(m, d, p);
        },
        TdsDataType::BigBinary
        | TdsDataType::BigVarBinary
        | TdsDataType::Xml
        | TdsDataType::Json
        | TdsDataType::Udt
        | TdsDataType::Image => {
            lemma_long_bounded(m, d, p);
        },
        TdsDataType::SsVariant => {
            lemma_variant_at_bounded(d, p);
        },
        t => {
            if is_string_type(t) {
                lemma_long_bounded(m, d, p);
            } else {
                lemma_fixed_bounded(t, d, p);
            }
        },
    }
}

} // verus!

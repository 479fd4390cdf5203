//! Writing values to a message, in the form in which a column's type takes them.

use crate::bytes::{
    le_bytes, le_push_i16, le_push_i32, le_push_i64, le_push_u16, le_push_u32, le_push_u64, lemma_le_bytes_len,
    lemma_le_bytes_prefix, unsigned,
};
use crate::datatypes::column_values::{
    ColumnValues, SqlDate, SqlDateTime, SqlDateTime2, SqlDateTimeOffset, SqlFloat, SqlGuid,
    SqlJson, SqlMoney, SqlReal, SqlSmallDateTime, SqlSmallMoney, SqlTime, SqlXml, Value,
};
use crate::datatypes::decimal::{part_or_zero, DecimalParts, DecimalView};
use crate::datatypes::lcid_encoding::{code_page_of, encoded_text, lcid_to_encoding};
use crate::datatypes::sql_string::{
    is_raw, text_from_utf8, text_of, EncodingType, SqlString,
};
use crate::datatypes::sql_vector::SqlVector;
use crate::datatypes::sqldatatypes::{
    get_time_length_from_scale, law_type_code_round_trip, spec_time_length, SqlCollation,
    TdsDataType,
};
use crate::datatypes::wire::{guid_order, ticks_per_unit};
use crate::error::{Error, ErrorKind, TdsResult};
use crate::io::packet_writer::{
    law_writes_add_up, lemma_grew_nothing, lemma_units_bytes_len, push_units, units_bytes,
    PacketWriter,
};
use crate::text::{chars_of, number_message, utf16_text, utf16_units};
use vstd::prelude::*;
use vstd::string::StringExecFns;
use vstd::utf8::{decode_utf8, valid_utf8};

verus! {

broadcast use lemma_le_bytes_len;

/// The length that stands for a missing value that would come in chunks.
pub const PLP_NULL: u64 = 0xFFFF_FFFF_FFFF_FFFF;

/// The length that stands for chunks of an unknown total length.
pub const PLP_UNKNOWN_LEN: u64 = 0xFFFF_FFFF_FFFF_FFFE;

/// The length of the chunk that ends a value that comes in chunks.
pub const PLP_TERMINATOR: u32 = 0;

/// The length that stands for a missing value of variable length.
pub const VARNULL: u16 = 0xFFFF;

/// The most data that a variant holds, in bytes.
pub const MAX_VARIANT_DATA_SIZE: u32 = 8000;

/// The most bytes that a variant takes, its description included.
pub const MAX_VARIANT_SIZE: u32 = 8016;

/// What a value's type says of how the value is written.
#[derive(Clone, Copy, Debug, PartialEq, Eq, Structural)]
pub struct TdsTypeContext {
    pub tds_type: u8,
    pub max_size: usize,
    pub is_plp: bool,
    pub is_fixed_length: bool,
    pub precision: Option<u8>,
    pub scale: Option<u8>,
    pub collation: Option<SqlCollation>,
    pub is_nullable: bool,
}

impl TdsTypeContext {
    /// Whether values of the type are written without their length.
    pub open spec fn spec_is_fixed_type(&self) -> bool {
        0x30 <= self.tds_type <= 0x3F || self.tds_type == 0x7A || self.tds_type == 0x7F
    }

    /// Whether values of the type are written without their length.
    #[verifier::when_used_as_spec(spec_is_fixed_type)]
    pub fn is_fixed_type(&self) -> (b: bool)
        ensures
            b == self.spec_is_fixed_type(),
    {
        (self.tds_type >= 0x30 && self.tds_type <= 0x3F) || self.tds_type == 0x7A || self.tds_type
            == 0x7F
    }
}

/// Bytes behind one byte of length, where there is to be one.
pub open spec fn counted(count: bool, b: Seq<u8>) -> Seq<u8> {
    if count {
        seq![b.len() as u8] + b
    } else {
        b
    }
}

/// The bytes of a signed number.
pub open spec fn int_bytes(v: int, n: nat) -> Seq<u8> {
    le_bytes(unsigned(v, n), n)
}

/// How a missing value is written: a usage error where the type has none.
pub open spec fn null_bytes(ctx: TdsTypeContext) -> Result<Seq<u8>, ErrorKind> {
    match ctx.tds_type {
        0x23 | 0x63 | 0x22 => Ok(seq![0u8]),
        0x26 | 0x6D | 0x68 | 0x6E | 0x6F | 0x6A | 0x6C | 0x24 | 0x28 | 0x29 | 0x2A | 0x2B => Ok(
            seq![0u8],
        ),
        0x32 => Err(ErrorKind::Usage),
        _ => if ctx.is_plp {
            Ok(le_bytes(PLP_NULL as nat, 8))
        } else if ctx.is_fixed_type() {
            Err(ErrorKind::Usage)
        } else {
            Ok(le_bytes(VARNULL as nat, 2))
        },
    }
}

/// How many bytes the magnitude of a decimal number of a precision takes.
pub open spec fn decimal_width(precision: u8) -> Option<nat> {
    if 1 <= precision <= 9 {
        Some(4)
    } else if 10 <= precision <= 19 {
        Some(8)
    } else if 20 <= precision <= 28 {
        Some(12)
    } else if 29 <= precision <= 38 {
        Some(16)
    } else {
        None
    }
}

/// The first `n` parts of a magnitude, as bytes; zeros past its end.
pub open spec fn parts_bytes(parts: Seq<i32>, n: nat) -> Seq<u8>
    decreases n,
{
    if n == 0 {
        Seq::empty()
    } else {
        parts_bytes(parts, (n - 1) as nat) + int_bytes(part_or_zero(parts, n - 1) as int, 4)
    }
}

/// How a decimal number is written: its sign, then its magnitude. The type's precision says how long
/// the magnitude is; a protocol error for a precision that no type has.
pub open spec fn decimal_bytes(v: DecimalView, ctx: TdsTypeContext) -> Result<
    Seq<u8>,
    ErrorKind,
> {
    let precision = match ctx.precision {
        Some(p) => p,
        None => 38,
    };
    match decimal_width(precision) {
        None => Err(ErrorKind::Protocol),
        Some(w) => Ok(
            counted(
                !ctx.is_fixed_length,
                seq![
                    if v.is_positive {
                        1u8
                    } else {
                        0u8
                    },
                ] + parts_bytes(v.int_parts, w / 4),
            ),
        ),
    }
}

/// How a time of day is written: counted in units of its scale.
pub open spec fn time_bytes(t: SqlTime, len: nat) -> Seq<u8> {
    le_bytes(t.time_nanoseconds as nat / ticks_per_unit(t.scale), len)
}

/// Whether dates, times and small amounts of money come with their length.
pub open spec fn counts(ctx: TdsTypeContext) -> bool {
    !ctx.is_fixed_type() && !ctx.is_fixed_length
}

/// Data in one chunk, between an unknown total length and the end of the chunks.
pub open spec fn chunked(data: Seq<u8>) -> Seq<u8> {
    le_bytes(PLP_UNKNOWN_LEN as nat, 8) + le_bytes(data.len() % 0x1_0000_0000, 4) + data + le_bytes(
        PLP_TERMINATOR as nat,
        4,
    )
}

/// What stands before the length of long data: a text pointer and a time stamp.
pub open spec fn long_header() -> Seq<u8> {
    seq![0x10u8] + Seq::new(24, |i: int| 0xFFu8)
}

/// Long data, behind its header and its length.
pub open spec fn long(data: Seq<u8>) -> Seq<u8> {
    long_header() + le_bytes(data.len() % 0x1_0000_0000, 4) + data
}

/// Data behind two bytes of length.
pub open spec fn short(data: Seq<u8>) -> Seq<u8> {
    le_bytes(data.len() % 0x1_0000, 2) + data
}

/// How binary data is written: a usage error where it is longer than the type says.
pub open spec fn binary_bytes(data: Seq<u8>, ctx: TdsTypeContext) -> Result<Seq<u8>, ErrorKind> {
    if !ctx.is_plp && ctx.tds_type != 0x22 && data.len() > ctx.max_size {
        Err(ErrorKind::Usage)
    } else if ctx.tds_type == 0x22 {
        Ok(long(data))
    } else if ctx.is_plp {
        Ok(chunked(data))
    } else if ctx.is_fixed_length {
        Ok(data + Seq::new((ctx.max_size - data.len()) as nat, |i: int| 0u8))
    } else {
        Ok(short(data))
    }
}

/// UTF-16 data that is filled up with spaces.
pub open spec fn wide_spaces(n: nat) -> Seq<u8> {
    units_bytes(Seq::new(n, |i: int| 0x20u16))
}

/// UTF-16 data behind two bytes that count its units.
pub open spec fn wide_short(data: Seq<u8>) -> Seq<u8> {
    le_bytes((data.len() / 2) % 0x1_0000, 2) + data
}

/// How UTF-16 data of so many units is written: a usage error where there are more than the type
/// says.
pub open spec fn wide_bytes(data: Seq<u8>, ctx: TdsTypeContext) -> Result<Seq<u8>, ErrorKind> {
    let units = data.len() / 2;
    if !ctx.is_plp && units > ctx.max_size {
        Err(ErrorKind::Usage)
    } else if ctx.is_plp {
        Ok(chunked(data))
    } else if ctx.is_fixed_length {
        Ok(data + wide_spaces((ctx.max_size - units) as nat))
    } else {
        Ok(wide_short(data))
    }
}

/// How data of a code page is written: a usage error where it is longer than the type says.
pub open spec fn narrow_bytes(data: Seq<u8>, ctx: TdsTypeContext) -> Result<Seq<u8>, ErrorKind> {
    if !ctx.is_plp && data.len() > ctx.max_size {
        Err(ErrorKind::Usage)
    } else if ctx.tds_type == 0x23 {
        Ok(long(data))
    } else if ctx.is_plp {
        Ok(chunked(data))
    } else if ctx.is_fixed_length {
        Ok(data + Seq::new((ctx.max_size - data.len()) as nat, |i: int| 0x20u8))
    } else {
        Ok(short(data))
    }
}

/// A text in Latin-1, with a question mark for a character that it does not have.
pub open spec fn latin1(text: Seq<char>) -> Seq<u8> {
    text.map_values(
        |c: char|
            if (c as u32) <= 0xFF {
                c as u32 as u8
            } else {
                0x3Fu8
            },
    )
}

/// A text in the code page of a collation; in Latin-1 where there is no collation, or none that is
/// known.
pub open spec fn narrowed(text: Seq<char>, collation: Option<SqlCollation>) -> Seq<u8> {
    match collation {
        Some(c) => match code_page_of(c.info & 0x000F_FFFF) {
            Some(page) => encoded_text(page.spec_label(), text).0,
            None => latin1(text),
        },
        None => latin1(text),
    }
}

/// Character data as the national types take it: UTF-16, and data that is already in the form of the
/// wire as it is.
pub open spec fn wide_data(data: Seq<u8>, encoding: EncodingType) -> Seq<u8> {
    if encoding is Utf16 || is_raw(encoding) {
        data
    } else {
        units_bytes(utf16_units(text_of(data, encoding)))
    }
}

/// How character data is written.
pub open spec fn string_bytes(data: Seq<u8>, encoding: EncodingType, ctx: TdsTypeContext) -> Result<
    Seq<u8>,
    ErrorKind,
> {
    match ctx.tds_type {
        0xE7 | 0xEF => if wide_data(data, encoding).len() % 2 != 0 {
            Err(ErrorKind::Usage)
        } else {
            wide_bytes(wide_data(data, encoding), ctx)
        },
        0x63 => if encoding is Utf16 {
            if data.len() % 2 != 0 || (!ctx.is_plp && data.len() / 2 > ctx.max_size) {
                Err(ErrorKind::Usage)
            } else {
                Ok(long(data))
            }
        } else if !ctx.is_plp && data.len() > ctx.max_size {
            Err(ErrorKind::Usage)
        } else {
            Ok(long(units_bytes(utf16_units(text_of(data, encoding)))))
        },
        0xA7 | 0xAF | 0x23 => if is_raw(encoding) {
            narrow_bytes(data, ctx)
        } else {
            narrow_bytes(narrowed(text_of(data, encoding), ctx.collation), ctx)
        },
        _ => Err(ErrorKind::Usage),
    }
}

/// Whether an XML document starts with a byte order mark.
pub open spec fn starts_with_mark(b: Seq<u8>) -> bool {
    b.len() >= 2 && b[0] == 0xFF && b[1] == 0xFE
}

/// An XML document behind a byte order mark.
pub open spec fn marked(b: Seq<u8>) -> Seq<u8> {
    if starts_with_mark(b) {
        b
    } else {
        seq![0xFFu8, 0xFEu8] + b
    }
}

/// The elements of a vector, as bytes.
pub open spec fn elements_bytes(v: Seq<u32>) -> Seq<u8>
    decreases v.len(),
{
    if v.len() == 0 {
        Seq::empty()
    } else {
        elements_bytes(v.drop_last()) + le_bytes(v.last() as nat, 4)
    }
}

/// How a vector is written: two bytes of length, a header of eight bytes, and the elements.
pub open spec fn vector_bytes(v: Seq<u32>) -> Seq<u8> {
    le_bytes((8 + 4 * v.len()) % 0x1_0000, 2) + seq![0xA9u8, 0x01u8] + le_bytes(
        v.len() % 0x1_0000,
        2,
    ) + seq![0x00u8, 0u8, 0u8, 0u8] + elements_bytes(v)
}

/// How a value is written, where its type is not a variant.
pub open spec fn value_bytes(v: Value, ctx: TdsTypeContext) -> Result<Seq<u8>, ErrorKind> {
    let count = !ctx.is_fixed_type();
    match v {
        Value::Null => null_bytes(ctx),
        Value::Bit(b) => Ok(
            counted(
                count,
                seq![
                    if b {
                        1u8
                    } else {
                        0u8
                    },
                ],
            ),
        ),
        Value::TinyInt(x) => Ok(counted(count, seq![x])),
        Value::SmallInt(x) => Ok(counted(count, int_bytes(x as int, 2))),
        Value::Int(x) => Ok(counted(count, int_bytes(x as int, 4))),
        Value::BigInt(x) => Ok(counted(count, int_bytes(x as int, 8))),
        Value::Real(bits) => Ok(counted(count, le_bytes(bits as nat, 4))),
        Value::Float(bits) => Ok(counted(count, le_bytes(bits as nat, 8))),
        Value::Decimal(d) | Value::Numeric(d) => decimal_bytes(d, ctx),
        Value::SmallMoney(m) => Ok(counted(counts(ctx), int_bytes(m.int_val as int, 4))),
        Value::Money(m) => Ok(
            counted(count, int_bytes(m.msb_part as int, 4) + int_bytes(m.lsb_part as int, 4)),
        ),
        Value::Date(days) => Ok(counted(counts(ctx), le_bytes(days as nat, 3))),
        Value::Time(t) => match spec_time_length(t.scale) {
            None => Err(ErrorKind::Usage),
            Some(n) => Ok(counted(counts(ctx), time_bytes(t, n as nat))),
        },
        Value::DateTime(t) => Ok(
            counted(count, int_bytes(t.days as int, 4) + le_bytes(t.time as nat, 4)),
        ),
        Value::SmallDateTime(t) => Ok(
            counted(count, le_bytes(t.days as nat, 2) + le_bytes(t.time as nat, 2)),
        ),
        Value::DateTime2(t) => match spec_time_length(t.time.scale) {
            None => Err(ErrorKind::Usage),
            Some(n) => Ok(
                counted(counts(ctx), time_bytes(t.time, n as nat) + le_bytes(t.days as nat, 3)),
            ),
        },
        Value::DateTimeOffset(t) => match spec_time_length(t.datetime2.time.scale) {
            None => Err(ErrorKind::Usage),
            Some(n) => Ok(
                counted(
                    counts(ctx),
                    time_bytes(t.datetime2.time, n as nat) + le_bytes(t.datetime2.days as nat, 3)
                        + int_bytes(t.offset as int, 2),
                ),
            ),
        },
        Value::Uuid(b) => Ok(counted(!ctx.is_fixed_length, guid_order(b))),
        Value::Bytes(b) => binary_bytes(b, ctx),
        Value::Json(b) => if valid_utf8(b) {
            Ok(chunked(b))
        } else {
            Err(ErrorKind::TypeConversion)
        },
        Value::Xml(b) => Ok(chunked(marked(b))),
        Value::String(b, e) => string_bytes(b, e, ctx),
        Value::Vector(x) => Ok(vector_bytes(x)),
    }
}

/// The type that a value has in a variant: a usage error where it can have none.
pub open spec fn variant_type(v: Value) -> Result<TdsDataType, ErrorKind> {
    match v {
        Value::Null => Err(ErrorKind::Protocol),
        Value::Bit(_) => Ok(TdsDataType::Bit),
        Value::TinyInt(_) => Ok(TdsDataType::Int1),
        Value::SmallInt(_) => Ok(TdsDataType::Int2),
        Value::Int(_) => Ok(TdsDataType::Int4),
        Value::BigInt(_) => Ok(TdsDataType::Int8),
        Value::Real(_) => Ok(TdsDataType::Flt4),
        Value::Float(_) => Ok(TdsDataType::Flt8),
        Value::Decimal(_) => Ok(TdsDataType::DecimalN),
        Value::Numeric(_) => Ok(TdsDataType::NumericN),
        Value::Money(_) => Ok(TdsDataType::Money),
        Value::SmallMoney(_) => Ok(TdsDataType::Money4),
        Value::Date(_) => Ok(TdsDataType::DateN),
        Value::Time(_) => Ok(TdsDataType::TimeN),
        Value::DateTime(_) => Ok(TdsDataType::DateTime),
        Value::DateTime2(_) => Ok(TdsDataType::DateTime2N),
        Value::DateTimeOffset(_) => Ok(TdsDataType::DateTimeOffsetN),
        Value::SmallDateTime(_) => Ok(TdsDataType::DateTim4),
        Value::Bytes(_) => Ok(TdsDataType::BigVarBinary),
        Value::String(_, _) => Ok(TdsDataType::NVarChar),
        Value::Uuid(_) => Ok(TdsDataType::Guid),
        Value::Xml(_) | Value::Json(_) | Value::Vector(_) => Err(ErrorKind::Usage),
    }
}

/// How many bytes describe a type in a variant, for the types that a variant can hold.
pub open spec fn type_info_length(tds_type: u8) -> Option<u8> {
    match TdsDataType::of_code(tds_type) {
        None => None,
        Some(t) => match t {
            TdsDataType::Int1 | TdsDataType::Int2 | TdsDataType::Int4 | TdsDataType::Int8
            | TdsDataType::Flt4 | TdsDataType::Flt8 | TdsDataType::Bit | TdsDataType::Money
            | TdsDataType::Money4 | TdsDataType::DateTime | TdsDataType::DateTim4
            | TdsDataType::DateN | TdsDataType::Guid => Some(0),
            TdsDataType::TimeN | TdsDataType::DateTime2N | TdsDataType::DateTimeOffsetN => Some(1),
            TdsDataType::DecimalN | TdsDataType::NumericN | TdsDataType::BigVarBinary
            | TdsDataType::BigBinary => Some(2),
            TdsDataType::NVarChar | TdsDataType::NChar | TdsDataType::BigChar
            | TdsDataType::BigVarChar => Some(7),
            _ => None,
        },
    }
}

/// A number of bytes, where 32 bits count it: a usage error where they do not.
pub open spec fn counted_size(n: nat) -> Result<nat, ErrorKind> {
    if n <= u32::MAX {
        Ok(n)
    } else {
        Err(ErrorKind::Usage)
    }
}

/// How many bytes of data a value takes in a variant: a usage error where it cannot be in one.
pub open spec fn value_size(v: Value) -> Result<nat, ErrorKind> {
    match v {
        Value::Null => Ok(0),
        Value::Bit(_) | Value::TinyInt(_) => Ok(1),
        Value::SmallInt(_) => Ok(2),
        Value::Int(_) | Value::Real(_) | Value::SmallMoney(_) | Value::SmallDateTime(_) => Ok(4),
        Value::BigInt(_) | Value::Float(_) | Value::Money(_) | Value::DateTime(_) => Ok(8),
        Value::Decimal(d) | Value::Numeric(d) => match decimal_width(d.precision) {
            Some(w) => Ok(1 + w),
            None => Ok(17),
        },
        Value::Date(_) => Ok(3),
        Value::Time(t) => match spec_time_length(t.scale) {
            Some(n) => Ok(n as nat),
            None => Err(ErrorKind::Usage),
        },
        Value::DateTime2(t) => match spec_time_length(t.time.scale) {
            Some(n) => Ok(n as nat + 3),
            None => Err(ErrorKind::Usage),
        },
        Value::DateTimeOffset(t) => match spec_time_length(t.datetime2.time.scale) {
            Some(n) => Ok(n as nat + 5),
            None => Err(ErrorKind::Usage),
        },
        Value::Bytes(b) => counted_size(b.len()),
        Value::String(b, e) => counted_size(wide_data(b, e).len()),
        Value::Uuid(_) => Ok(16),
        Value::Xml(_) | Value::Json(_) | Value::Vector(_) => Err(ErrorKind::Usage),
    }
}

/// The collation of character data in a variant whose column has none: that of American English.
pub open spec fn default_collation() -> SqlCollation {
    SqlCollation { info: 0x0000_0409, lcid_language_id: 0x0409, col_flags: 0, sort_id: 52 }
}

/// What describes a value's type in a variant.
pub open spec fn type_info_bytes(tds_type: u8, v: Value, ctx: TdsTypeContext) -> Seq<u8> {
    match (TdsDataType::of_code(tds_type), v) {
        (Some(TdsDataType::TimeN), Value::Time(t)) => seq![t.scale],
        (Some(TdsDataType::DateTime2N), Value::DateTime2(t)) => seq![t.time.scale],
        (Some(TdsDataType::DateTimeOffsetN), Value::DateTimeOffset(t)) => seq![
            t.datetime2.time.scale,
        ],
        (Some(TdsDataType::DecimalN), Value::Decimal(d)) => seq![d.precision, d.scale],
        (Some(TdsDataType::DecimalN), Value::Numeric(d)) => seq![d.precision, d.scale],
        (Some(TdsDataType::NumericN), Value::Decimal(d)) => seq![d.precision, d.scale],
        (Some(TdsDataType::NumericN), Value::Numeric(d)) => seq![d.precision, d.scale],
        (Some(TdsDataType::BigVarBinary), Value::Bytes(b)) => le_bytes(b.len() % 0x1_0000, 2),
        (Some(TdsDataType::NVarChar), _) => {
            let collation = match ctx.collation {
                Some(c) => c,
                None => default_collation(),
            };
            let length = match v {
                Value::String(b, e) => wide_data(b, e).len() % 0x1_0000,
                _ => 0,
            };
            le_bytes(collation.info as nat, 4) + seq![collation.sort_id] + le_bytes(length, 2)
        },
        _ => Seq::empty(),
    }
}

/// Whether a type's description in a variant can be written.
pub open spec fn has_type_info(tds_type: u8) -> bool {
    match TdsDataType::of_code(tds_type) {
        None => false,
        Some(t) => match t {
            TdsDataType::BigBinary | TdsDataType::NChar | TdsDataType::BigChar
            | TdsDataType::BigVarChar => false,
            _ => type_info_length(tds_type) is Some,
        },
    }
}

/// A type that is written without a length.
pub open spec fn plain_context(t: TdsDataType, max_size: nat, is_nullable: bool) -> TdsTypeContext {
    TdsTypeContext {
        tds_type: t.code(),
        max_size: max_size as usize,
        is_plp: false,
        is_fixed_length: true,
        precision: None,
        scale: None,
        collation: None,
        is_nullable,
    }
}

/// How a value's type is written in a variant.
pub open spec fn variant_context(v: Value, base_type: u8, ctx: TdsTypeContext) -> Result<
    TdsTypeContext,
    ErrorKind,
> {
    match v {
        Value::Null => Err(ErrorKind::Protocol),
        Value::Xml(_) | Value::Json(_) | Value::Vector(_) => Err(ErrorKind::Usage),
        Value::Bit(_) => Ok(plain_context(TdsDataType::Bit, 1, false)),
        Value::TinyInt(_) => Ok(plain_context(TdsDataType::Int1, 1, false)),
        Value::SmallInt(_) => Ok(plain_context(TdsDataType::Int2, 2, false)),
        Value::Int(_) => Ok(plain_context(TdsDataType::Int4, 4, false)),
        Value::BigInt(_) => Ok(plain_context(TdsDataType::Int8, 8, false)),
        Value::Real(_) => Ok(plain_context(TdsDataType::Flt4, 4, false)),
        Value::Float(_) => Ok(plain_context(TdsDataType::Flt8, 8, false)),
        Value::Money(_) => Ok(plain_context(TdsDataType::Money, 8, false)),
        Value::SmallMoney(_) => Ok(plain_context(TdsDataType::Money4, 4, false)),
        Value::DateTime(_) => Ok(plain_context(TdsDataType::DateTime, 8, false)),
        Value::SmallDateTime(_) => Ok(plain_context(TdsDataType::DateTim4, 4, false)),
        Value::Date(_) => Ok(plain_context(TdsDataType::DateN, 3, true)),
        Value::Uuid(_) => Ok(plain_context(TdsDataType::Guid, 16, true)),
        Value::Bytes(b) => Ok(plain_context(TdsDataType::BigVarBinary, b.len(), true)),
        Value::Time(t) => Ok(
            TdsTypeContext {
                scale: Some(t.scale),
                ..plain_context(TdsDataType::TimeN, 5, true)
            },
        ),
        Value::DateTime2(t) => Ok(
            TdsTypeContext {
                scale: Some(t.time.scale),
                ..plain_context(TdsDataType::DateTime2N, 8, true)
            },
        ),
        Value::DateTimeOffset(t) => Ok(
            TdsTypeContext {
                scale: Some(t.datetime2.time.scale),
                ..plain_context(TdsDataType::DateTimeOffsetN, 10, true)
            },
        ),
        Value::Decimal(d) | Value::Numeric(d) => Ok(
            TdsTypeContext {
                tds_type: base_type,
                precision: Some(d.precision),
                scale: Some(d.scale),
                ..plain_context(TdsDataType::DecimalN, 17, true)
            },
        ),
        Value::String(b, e) => Ok(
            TdsTypeContext {
                collation: ctx.collation,
                ..plain_context(TdsDataType::NVarChar, wide_data(b, e).len() / 2, true)
            },
        ),
    }
}

/// What is written of a value in a variant, and the error where there is one: the length of what
/// follows, the type, the length of its description, the description, and the value.
pub open spec fn variant_bytes(v: Value, ctx: TdsTypeContext) -> (Seq<u8>, Option<ErrorKind>) {
    match (variant_type(v), value_size(v)) {
        _ if v is Null => (le_bytes(0, 4), None),
        (Err(k), _) => (Seq::empty(), Some(k)),
        (_, Err(k)) => (Seq::empty(), Some(k)),
        (Ok(t), Ok(size)) => if size > MAX_VARIANT_DATA_SIZE {
            (Seq::empty(), Some(ErrorKind::Usage))
        } else {
            let described = type_info_length(t.code())->Some_0;
            let header = le_bytes(2 + described as nat + size, 4) + seq![t.code(), described]
                + type_info_bytes(t.code(), v, ctx);
            match value_bytes(v, variant_context(v, t.code(), ctx)->Ok_0) {
                Ok(b) => (header + b, None),
                Err(k) => (header, Some(k)),
            }
        },
    }
}

/// What is written of a value, and the error where there is one.
pub open spec fn serialized(v: Value, ctx: TdsTypeContext) -> (Seq<u8>, Option<ErrorKind>) {
    if ctx.tds_type == 0x62 {
        variant_bytes(v, ctx)
    } else {
        match value_bytes(v, ctx) {
            Ok(b) => (b, None),
            Err(k) => (Seq::empty(), Some(k)),
        }
    }
}

/// What is written of a value where all errors come before anything is written.
pub open spec fn all_or_nothing(expected: Result<Seq<u8>, ErrorKind>) -> (
    Seq<u8>,
    Option<ErrorKind>,
) {
    match expected {
        Ok(b) => (b, None),
        Err(k) => (Seq::empty(), Some(k)),
    }
}

/// Whether what was expected was written, and the error is the expected one.
pub open spec fn written_as(
    pre: PacketWriter,
    post: PacketWriter,
    expected: (Seq<u8>, Option<ErrorKind>),
    r: TdsResult<()>,
) -> bool {
    &&& post.ready()
    &&& post.timeout() == pre.timeout()
    &&& pre@.grew(expected.0, post@)
    &&& match expected.1 {
        None => r is Ok,
        Some(k) => r matches Err(e) && e.kind() == k,
    }
}

/// Calls `uuid::Uuid::to_bytes_le`: the bytes of an identifier, in the order of the wire.
#[verifier::external_body]
fn guid_to_bytes_le(guid: &SqlGuid) -> (b: [u8; 16])
    ensures
        b@ == guid_order(guid.bytes@),
{
    uuid::Uuid::from_bytes(guid.bytes).to_bytes_le()
}

/// Writes the `n` least significant bytes of a number to the end of a list, least significant first.
fn push_low(bytes: &mut Vec<u8>, v: u64, n: usize)
    requires
        n <= 8,
    ensures
        final(bytes)@ == old(bytes)@ + le_bytes(v as nat, n as nat),
{
    let mut all: Vec<u8> = Vec::new();
    le_push_u64(&mut all, v);
    assert(all@ =~= le_bytes(v as nat, 8));
    proof {
        lemma_le_bytes_prefix(v as nat, n as nat, 8);
    }
    bytes.extend_from_slice(vstd::slice::slice_subrange(all.as_slice(), 0, n));
    assert(bytes@ =~= old(bytes)@ + le_bytes(v as nat, n as nat));
}

/// A time of day, counted in units of its scale.
fn time_units(t: &SqlTime) -> (n: u64)
    ensures
        n == t.time_nanoseconds as nat / ticks_per_unit(t.scale),
{
    match t.scale {
        0 => t.time_nanoseconds / 10_000_000,
        1 => t.time_nanoseconds / 1_000_000,
        2 => t.time_nanoseconds / 100_000,
        3 => t.time_nanoseconds / 10_000,
        4 => t.time_nanoseconds / 1_000,
        5 => t.time_nanoseconds / 100,
        6 => t.time_nanoseconds / 10,
        _ => t.time_nanoseconds,
    }
}

/// Writes data with what stands before and behind it.
fn put_parts(writer: &mut PacketWriter, head: &Vec<u8>, data: &[u8], tail: &Vec<u8>)
    requires
        old(writer).ready(),
    ensures
        final(writer).ready(),
        final(writer).timeout() == old(writer).timeout(),
        old(writer)@.grew(head@ + data@ + tail@, final(writer)@),
{
    let ghost a = writer@;
    writer.write_few(head);
    let ghost b = writer@;
    writer.write(data);
    let ghost c = writer@;
    writer.write_few(tail);
    proof {
        law_writes_add_up(a, head@, b, data@, c);
        law_writes_add_up(a, head@ + data@, c, tail@, writer@);
    }
}

/// A list of one byte, repeated.
fn repeated(byte: u8, n: usize) -> (v: Vec<u8>)
    ensures
        v@ == Seq::new(n as nat, |i: int| byte),
{
    let mut v: Vec<u8> = Vec::new();
    v.resize(n, byte);
    assert(v@ =~= Seq::new(n as nat, |i: int| byte));
    v
}

/// What stands before long data of a length.
fn long_head(len: usize) -> (head: Vec<u8>)
    ensures
        head@ == long_header() + le_bytes(len as nat % 0x1_0000_0000, 4),
{
    let mut head: Vec<u8> = Vec::new();
    head.push(0x10);
    let mut ones = repeated(0xFF, 24);
    head.append(&mut ones);
    le_push_u32(&mut head, (len as u64 % 0x1_0000_0000) as u32);
    assert(head@ =~= long_header() + le_bytes(len as nat % 0x1_0000_0000, 4));
    head
}

/// What stands before data of a length that comes in one chunk.
fn chunk_head(len: usize) -> (head: Vec<u8>)
    ensures
        head@ == le_bytes(PLP_UNKNOWN_LEN as nat, 8) + le_bytes(len as nat % 0x1_0000_0000, 4),
{
    let mut head: Vec<u8> = Vec::new();
    le_push_u64(&mut head, PLP_UNKNOWN_LEN);
    le_push_u32(&mut head, (len as u64 % 0x1_0000_0000) as u32);
    assert(head@ =~= le_bytes(PLP_UNKNOWN_LEN as nat, 8) + le_bytes(
        len as nat % 0x1_0000_0000,
        4,
    ));
    head
}

/// Writes long data.
fn put_long(writer: &mut PacketWriter, data: &[u8])
    requires
        old(writer).ready(),
    ensures
        written_as(*old(writer), *final(writer), (long(data@), None), Ok(())),
{
    let head = long_head(data.len());
    let tail: Vec<u8> = Vec::new();
    put_parts(writer, &head, data, &tail);
    assert(head@ + data@ + tail@ =~= long(data@));
}

/// Writes data that comes in one chunk.
fn put_chunked(writer: &mut PacketWriter, data: &[u8])
    requires
        old(writer).ready(),
    ensures
        written_as(*old(writer), *final(writer), (chunked(data@), None), Ok(())),
{
    let head = chunk_head(data.len());
    let mut tail: Vec<u8> = Vec::new();
    le_push_u32(&mut tail, PLP_TERMINATOR);
    put_parts(writer, &head, data, &tail);
    assert(head@ + data@ + tail@ =~= chunked(data@));
}

/// Writes data behind two bytes of length.
fn put_short(writer: &mut PacketWriter, data: &[u8])
    requires
        old(writer).ready(),
    ensures
        written_as(*old(writer), *final(writer), (short(data@), None), Ok(())),
{
    let mut head: Vec<u8> = Vec::new();
    le_push_u16(&mut head, (data.len() % 0x1_0000) as u16);
    let tail: Vec<u8> = Vec::new();
    put_parts(writer, &head, data, &tail);
    assert(head@ + data@ + tail@ =~= short(data@));
}

/// Writes UTF-16 data behind two bytes that count its units.
fn put_wide_short(writer: &mut PacketWriter, data: &[u8])
    requires
        old(writer).ready(),
    ensures
        written_as(*old(writer), *final(writer), (wide_short(data@), None), Ok(())),
{
    let mut head: Vec<u8> = Vec::new();
    le_push_u16(&mut head, (data.len() / 2 % 0x1_0000) as u16);
    let tail: Vec<u8> = Vec::new();
    put_parts(writer, &head, data, &tail);
    assert(head@ + data@ + tail@ =~= wide_short(data@));
}

/// How many bytes character data takes as the national types take it.
fn wide_len(value: &SqlString) -> (n: usize)
    ensures
        n == wide_data(value.bytes@, value.encoding_type).len(),
{
    match value.encoding_type {
        EncodingType::Utf8 => {
            let text = value.to_utf8_string();
            utf16_bytes(text.as_str()).len()
        },
        _ => value.bytes.len(),
    }
}

/// A number of bytes, where 32 bits count it.
fn count_size(n: usize) -> (r: TdsResult<u32>)
    ensures
        match counted_size(n as nat) {
            Ok(c) => r matches Ok(x) && x == c,
            Err(k) => r matches Err(e) && e.kind() == k,
        },
{
    if n as u64 <= u32::MAX as u64 {
        Ok(n as u32)
    } else {
        Err(
            Error::UsageError(
                number_message(
                    "SQL_VARIANT data size (",
                    n as u128,
                    " bytes) exceeds maximum (8000 bytes)",
                ),
            ),
        )
    }
}

/// Writes data that is filled up.
fn put_filled(writer: &mut PacketWriter, data: &[u8], fill: &Vec<u8>)
    requires
        old(writer).ready(),
    ensures
        written_as(*old(writer), *final(writer), (data@ + fill@, None), Ok(())),
{
    let head: Vec<u8> = Vec::new();
    put_parts(writer, &head, data, fill);
    assert(head@ + data@ + fill@ =~= data@ + fill@);
}

/// UTF-16 spaces.
fn wide_fill(n: usize) -> (v: Vec<u8>)
    ensures
        v@ == wide_spaces(n as nat),
{
    let mut units: Vec<u16> = Vec::new();
    units.resize(n, 0x20);
    assert(units@ =~= Seq::new(n as nat, |i: int| 0x20u16));
    let mut v: Vec<u8> = Vec::new();
    push_units(&mut v, &units);
    assert(v@ =~= units_bytes(units@));
    v
}

/// The UTF-16 of a text, as bytes.
fn utf16_bytes(text: &str) -> (v: Vec<u8>)
    ensures
        v@ == units_bytes(utf16_units(text@)),
{
    let units = utf16_text(text);
    let mut v: Vec<u8> = Vec::new();
    push_units(&mut v, &units);
    assert(v@ =~= units_bytes(units@));
    v
}

/// A text in Latin-1, with a question mark for a character that it does not have.
fn to_latin1(text: &str) -> (v: Vec<u8>)
    ensures
        v@ == latin1(text@),
{
    let chars = chars_of(text);
    let mut v: Vec<u8> = Vec::new();
    let mut i: usize = 0;
    while i < chars.len()
        invariant
            i <= chars@.len(),
            chars@ == text@,
            v@ == latin1(text@).take(i as int),
        decreases chars@.len() - i,
    {
        let c: char = chars[i];
        let code: u32 = c as u32;
        if code <= 0xFF {
            v.push(code as u8);
        } else {
            v.push(0x3F);
        }
        assert(v@ =~= latin1(text@).take(i + 1));
        i += 1;
    }
    assert(v@ =~= latin1(text@));
    v
}

/// A text in the code page of a collation, or in Latin-1.
fn to_narrow(text: &str, collation: &Option<SqlCollation>) -> (v: Vec<u8>)
    ensures
        v@ == narrowed(text@, *collation),
{
    match collation {
        Some(c) => match lcid_to_encoding(c.info & 0x000F_FFFF) {
            Ok(page) => page.encode(text).0,
            Err(_) => to_latin1(text),
        },
        None => to_latin1(text),
    }
}

/// A usage error about a length that is too large.
fn too_long(what: &str, len: usize, max: usize) -> (e: Error)
    ensures
        e.kind() == ErrorKind::Usage,
{
    let s = number_message(what, len as u128, ") exceeds schema size (");
    Error::UsageError(number_message(s.as_str(), max as u128, ")"))
}

/// A usage error about a type.
fn wrong_type(what: &str, tds_type: u8) -> (e: Error)
    ensures
        e.kind() == ErrorKind::Usage,
{
    Error::UsageError(number_message(what, tds_type as u128, ""))
}

/// Writes values.
pub struct TdsValueSerializer;

impl TdsValueSerializer {
    /// Writes a value. Where the type is a variant, its own type goes before it.
    pub fn serialize_value(
        writer: &mut PacketWriter,
        value: &ColumnValues,
        ctx: &TdsTypeContext,
    ) -> (r: TdsResult<()>)
        requires
            old(writer).ready(),
        ensures
            written_as(*old(writer), *final(writer), serialized(value@, *ctx), r),
    {
        if ctx.tds_type == 0x62 {
            return Self::serialize_as_variant(writer, value, ctx);
        }
        Self::serialize_value_inner(writer, value, ctx)
    }

    /// Writes a missing value.
    pub fn serialize_null(writer: &mut PacketWriter, ctx: &TdsTypeContext) -> (r: TdsResult<()>)
        requires
            old(writer).ready(),
        ensures
            written_as(*old(writer), *final(writer), all_or_nothing(null_bytes(*ctx)), r),
    {
        proof {
            lemma_grew_nothing(writer@);
        }
        let mut b: Vec<u8> = Vec::new();
        match ctx.tds_type {
            0x23 | 0x63 | 0x22 => {
                b.push(0);
            },
            0x26 | 0x6D | 0x68 | 0x6E | 0x6F | 0x6A | 0x6C | 0x24 | 0x28 | 0x29 | 0x2A | 0x2B => {
                b.push(0);
            },
            0x32 => {
                return Err(
                    Error::UsageError(
                        String::from_str(
                            "Cannot serialize NULL for fixed BIT type 0x32. Use BitN (0x68) for nullable BIT columns.",
                        ),
                    ),
                );
            },
            _ => {
                if ctx.is_plp {
                    le_push_u64(&mut b, PLP_NULL);
                } else if ctx.is_fixed_type() {
                    return Err(
                        wrong_type("Cannot serialize NULL for fixed-length type ", ctx.tds_type),
                    );
                } else {
                    le_push_u16(&mut b, VARNULL);
                }
            },
        }
        assert(null_bytes(*ctx) is Ok && b@ =~= null_bytes(*ctx)->Ok_0);
        writer.write_few(&b);
        Ok(())
    }


    /// Writes a bit.
    pub fn serialize_bit(
        writer: &mut PacketWriter,
        value: bool,
        ctx: &TdsTypeContext,
    ) -> (r: TdsResult<()>)
        requires
            old(writer).ready(),
        ensures
            written_as(
                *old(writer),
                *final(writer),
                all_or_nothing(value_bytes(Value::Bit(value), *ctx)),
                r,
            ),
    {
        let mut b: Vec<u8> = Vec::new();
        if !ctx.is_fixed_type() {
            b.push(1);
        }
        b.push(if value {
            1
        } else {
            0
        });
        assert(b@ =~= value_bytes(Value::Bit(value), *ctx)->Ok_0);
        writer.write_few(&b);
        Ok(())
    }

    /// Writes an integer of one byte.
    pub fn serialize_tinyint(
        writer: &mut PacketWriter,
        value: u8,
        ctx: &TdsTypeContext,
    ) -> (r: TdsResult<()>)
        requires
            old(writer).ready(),
        ensures
            written_as(
                *old(writer),
                *final(writer),
                all_or_nothing(value_bytes(Value::TinyInt(value), *ctx)),
                r,
            ),
    {
        let mut b: Vec<u8> = Vec::new();
        if !ctx.is_fixed_type() {
            b.push(1);
        }
        b.push(value);
        assert(b@ =~= value_bytes(Value::TinyInt(value), *ctx)->Ok_0);
        writer.write_few(&b);
        Ok(())
    }

    /// Writes an integer of two bytes.
    pub fn serialize_smallint(
        writer: &mut PacketWriter,
        value: i16,
        ctx: &TdsTypeContext,
    ) -> (r: TdsResult<()>)
        requires
            old(writer).ready(),
        ensures
            written_as(
                *old(writer),
                *final(writer),
                all_or_nothing(value_bytes(Value::SmallInt(value), *ctx)),
                r,
            ),
    {
        let mut b: Vec<u8> = Vec::new();
        if !ctx.is_fixed_type() {
            b.push(2);
        }
        le_push_i16(&mut b, value);
        assert(b@ =~= value_bytes(Value::SmallInt(value), *ctx)->Ok_0);
        writer.write_few(&b);
        Ok(())
    }

    /// Writes an integer of four bytes.
    pub fn serialize_int(
        writer: &mut PacketWriter,
        value: i32,
        ctx: &TdsTypeContext,
    ) -> (r: TdsResult<()>)
        requires
            old(writer).ready(),
        ensures
            written_as(
                *old(writer),
                *final(writer),
                all_or_nothing(value_bytes(Value::Int(value), *ctx)),
                r,
            ),
    {
        let mut b: Vec<u8> = Vec::new();
        if !ctx.is_fixed_type() {
            b.push(4);
        }
        le_push_i32(&mut b, value);
        assert(b@ =~= value_bytes(Value::Int(value), *ctx)->Ok_0);
        writer.write_few(&b);
        Ok(())
    }

    /// Writes an integer of eight bytes.
    pub fn serialize_bigint(
        writer: &mut PacketWriter,
        value: i64,
        ctx: &TdsTypeContext,
    ) -> (r: TdsResult<()>)
        requires
            old(writer).ready(),
        ensures
            written_as(
                *old(writer),
                *final(writer),
                all_or_nothing(value_bytes(Value::BigInt(value), *ctx)),
                r,
            ),
    {
        let mut b: Vec<u8> = Vec::new();
        if !ctx.is_fixed_type() {
            b.push(8);
        }
        le_push_i64(&mut b, value);
        assert(b@ =~= value_bytes(Value::BigInt(value), *ctx)->Ok_0);
        writer.write_few(&b);
        Ok(())
    }

    /// Writes a single-precision number.
    pub fn serialize_real(
        writer: &mut PacketWriter,
        value: SqlReal,
        ctx: &TdsTypeContext,
    ) -> (r: TdsResult<()>)
        requires
            old(writer).ready(),
        ensures
            written_as(
                *old(writer),
                *final(writer),
                all_or_nothing(value_bytes(Value::Real(value.bits), *ctx)),
                r,
            ),
    {
        let mut b: Vec<u8> = Vec::new();
        if !ctx.is_fixed_type() {
            b.push(4);
        }
        le_push_u32(&mut b, value.bits);
        assert(b@ =~= value_bytes(Value::Real(value.bits), *ctx)->Ok_0);
        writer.write_few(&b);
        Ok(())
    }

    /// Writes a double-precision number.
    pub fn serialize_float(
        writer: &mut PacketWriter,
        value: SqlFloat,
        ctx: &TdsTypeContext,
    ) -> (r: TdsResult<()>)
        requires
            old(writer).ready(),
        ensures
            written_as(
                *old(writer),
                *final(writer),
                all_or_nothing(value_bytes(Value::Float(value.bits), *ctx)),
                r,
            ),
    {
        let mut b: Vec<u8> = Vec::new();
        if !ctx.is_fixed_type() {
            b.push(8);
        }
        le_push_u64(&mut b, value.bits);
        assert(b@ =~= value_bytes(Value::Float(value.bits), *ctx)->Ok_0);
        writer.write_few(&b);
        Ok(())
    }

    /// Writes a small amount of money.
    pub fn serialize_smallmoney(
        writer: &mut PacketWriter,
        value: &SqlSmallMoney,
        ctx: &TdsTypeContext,
    ) -> (r: TdsResult<()>)
        requires
            old(writer).ready(),
        ensures
            written_as(
                *old(writer),
                *final(writer),
                all_or_nothing(value_bytes(Value::SmallMoney(*value), *ctx)),
                r,
            ),
    {
        let mut b: Vec<u8> = Vec::new();
        if !ctx.is_fixed_type() && !ctx.is_fixed_length {
            b.push(4);
        }
        le_push_i32(&mut b, value.int_val);
        assert(b@ =~= value_bytes(Value::SmallMoney(*value), *ctx)->Ok_0);
        writer.write_few(&b);
        Ok(())
    }

    /// Writes an amount of money: its more significant half first.
    pub fn serialize_money(
        writer: &mut PacketWriter,
        value: &SqlMoney,
        ctx: &TdsTypeContext,
    ) -> (r: TdsResult<()>)
        requires
            old(writer).ready(),
        ensures
            written_as(
                *old(writer),
                *final(writer),
                all_or_nothing(value_bytes(Value::Money(*value), *ctx)),
                r,
            ),
    {
        let mut b: Vec<u8> = Vec::new();
        if !ctx.is_fixed_type() {
            b.push(8);
        }
        le_push_i32(&mut b, value.msb_part);
        le_push_i32(&mut b, value.lsb_part);
        assert(b@ =~= value_bytes(Value::Money(*value), *ctx)->Ok_0);
        writer.write_few(&b);
        Ok(())
    }

    /// Writes a date.
    pub fn serialize_date(
        writer: &mut PacketWriter,
        value: &SqlDate,
        ctx: &TdsTypeContext,
    ) -> (r: TdsResult<()>)
        requires
            old(writer).ready(),
        ensures
            written_as(
                *old(writer),
                *final(writer),
                all_or_nothing(value_bytes(Value::Date(value.days), *ctx)),
                r,
            ),
    {
        let mut b: Vec<u8> = Vec::new();
        if !ctx.is_fixed_type() && !ctx.is_fixed_length {
            b.push(3);
        }
        push_low(&mut b, value.get_days() as u64, 3);
        assert(b@ =~= value_bytes(Value::Date(value.days), *ctx)->Ok_0);
        writer.write_few(&b);
        Ok(())
    }

    /// Writes a legacy date and time.
    pub fn serialize_datetime(
        writer: &mut PacketWriter,
        value: &SqlDateTime,
        ctx: &TdsTypeContext,
    ) -> (r: TdsResult<()>)
        requires
            old(writer).ready(),
        ensures
            written_as(
                *old(writer),
                *final(writer),
                all_or_nothing(value_bytes(Value::DateTime(*value), *ctx)),
                r,
            ),
    {
        let mut b: Vec<u8> = Vec::new();
        if !ctx.is_fixed_type() {
            b.push(8);
        }
        le_push_i32(&mut b, value.days);
        le_push_u32(&mut b, value.time);
        assert(b@ =~= value_bytes(Value::DateTime(*value), *ctx)->Ok_0);
        writer.write_few(&b);
        Ok(())
    }

    /// Writes a legacy date and time.
    pub fn serialize_smalldatetime(
        writer: &mut PacketWriter,
        value: &SqlSmallDateTime,
        ctx: &TdsTypeContext,
    ) -> (r: TdsResult<()>)
        requires
            old(writer).ready(),
        ensures
            written_as(
                *old(writer),
                *final(writer),
                all_or_nothing(value_bytes(Value::SmallDateTime(*value), *ctx)),
                r,
            ),
    {
        let mut b: Vec<u8> = Vec::new();
        if !ctx.is_fixed_type() {
            b.push(4);
        }
        le_push_u16(&mut b, value.days);
        le_push_u16(&mut b, value.time);
        assert(b@ =~= value_bytes(Value::SmallDateTime(*value), *ctx)->Ok_0);
        writer.write_few(&b);
        Ok(())
    }

    /// Writes a unique identifier.
    pub fn serialize_uuid(
        writer: &mut PacketWriter,
        value: &SqlGuid,
        ctx: &TdsTypeContext,
    ) -> (r: TdsResult<()>)
        requires
            old(writer).ready(),
        ensures
            written_as(
                *old(writer),
                *final(writer),
                all_or_nothing(value_bytes(Value::Uuid(value.bytes@), *ctx)),
                r,
            ),
    {
        let mut b: Vec<u8> = Vec::new();
        if !ctx.is_fixed_length {
            b.push(16);
        }
        let guid_bytes: [u8; 16] = guid_to_bytes_le(value);
        b.extend_from_slice(vstd::array::array_as_slice(&guid_bytes));
        assert(b@ =~= value_bytes(Value::Uuid(value.bytes@), *ctx)->Ok_0);
        writer.write_few(&b);
        Ok(())
    }

    /// Writes a time of day; a usage error for a scale that no type has.
    pub fn serialize_time(
        writer: &mut PacketWriter,
        value: &SqlTime,
        ctx: &TdsTypeContext,
    ) -> (r: TdsResult<()>)
        requires
            old(writer).ready(),
        ensures
            written_as(
                *old(writer),
                *final(writer),
                all_or_nothing(value_bytes(Value::Time(*value), *ctx)),
                r,
            ),
    {
        proof {
            lemma_grew_nothing(writer@);
        }
        let time_length: u8 = get_time_length_from_scale(value.scale)?;
        let units: u64 = time_units(&value);
        let mut b: Vec<u8> = Vec::new();
        if !ctx.is_fixed_type() && !ctx.is_fixed_length {
            b.push(time_length);
        }
        push_low(&mut b, units, time_length as usize);
        assert(b@ =~= value_bytes(Value::Time(*value), *ctx)->Ok_0);
        writer.write_few(&b);
        Ok(())
    }

    /// Writes a date and a time of day; a usage error for a scale that no type has.
    pub fn serialize_datetime2(
        writer: &mut PacketWriter,
        value: &SqlDateTime2,
        ctx: &TdsTypeContext,
    ) -> (r: TdsResult<()>)
        requires
            old(writer).ready(),
        ensures
            written_as(
                *old(writer),
                *final(writer),
                all_or_nothing(value_bytes(Value::DateTime2(*value), *ctx)),
                r,
            ),
    {
        proof {
            lemma_grew_nothing(writer@);
        }
        let time_length: u8 = get_time_length_from_scale(value.time.scale)?;
        let units: u64 = time_units(&value.time);
        let mut b: Vec<u8> = Vec::new();
        if !ctx.is_fixed_type() && !ctx.is_fixed_length {
            b.push(time_length + 3);
        }
        push_low(&mut b, units, time_length as usize);
        push_low(&mut b, value.days as u64, 3);
        assert(b@ =~= value_bytes(Value::DateTime2(*value), *ctx)->Ok_0);
        writer.write_few(&b);
        Ok(())
    }

    /// Writes a date, a time of day and an offset; a usage error for a scale that no type has.
    pub fn serialize_datetimeoffset(
        writer: &mut PacketWriter,
        value: &SqlDateTimeOffset,
        ctx: &TdsTypeContext,
    ) -> (r: TdsResult<()>)
        requires
            old(writer).ready(),
        ensures
            written_as(
                *old(writer),
                *final(writer),
                all_or_nothing(value_bytes(Value::DateTimeOffset(*value), *ctx)),
                r,
            ),
    {
        proof {
            lemma_grew_nothing(writer@);
        }
        let time_length: u8 = get_time_length_from_scale(value.datetime2.time.scale)?;
        let units: u64 = time_units(&value.datetime2.time);
        let mut b: Vec<u8> = Vec::new();
        if !ctx.is_fixed_type() && !ctx.is_fixed_length {
            b.push(time_length + 5);
        }
        push_low(&mut b, units, time_length as usize);
        push_low(&mut b, value.datetime2.days as u64, 3);
        le_push_i16(&mut b, value.offset);
        assert(b@ =~= value_bytes(Value::DateTimeOffset(*value), *ctx)->Ok_0);
        writer.write_few(&b);
        Ok(())
    }

    /// Writes a decimal number, in as many bytes as the type's precision says.
    pub fn serialize_decimal(
        writer: &mut PacketWriter,
        value: &DecimalParts,
        ctx: &TdsTypeContext,
    ) -> (r: TdsResult<()>)
        requires
            old(writer).ready(),
        ensures
            written_as(*old(writer), *final(writer), all_or_nothing(decimal_bytes(value@, *ctx)), r),
    {
        proof {
            lemma_grew_nothing(writer@);
        }
        let precision: u8 = match ctx.precision {
            Some(p) => p,
            None => 38,
        };
        let value_bytes: u8 = match precision {
            1..=9 => 4,
            10..=19 => 8,
            20..=28 => 12,
            29..=38 => 16,
            _ => {
                return Err(
                    Error::ProtocolError(
                        number_message(
                            "Invalid precision ",
                            precision as u128,
                            " for DECIMAL/NUMERIC type",
                        ),
                    ),
                );
            },
        };
        let mut b: Vec<u8> = Vec::new();
        if !ctx.is_fixed_length {
            b.push(1 + value_bytes);
        }
        b.push(if value.is_positive {
            1
        } else {
            0
        });
        let ghost start = b@;
        let chunks_needed: usize = value_bytes as usize / 4;
        let mut i: usize = 0;
        while i < chunks_needed
            invariant
                i <= chunks_needed,
                b@ =~= start + parts_bytes(value.int_parts@, i as nat),
            decreases chunks_needed - i,
        {
            let chunk: i32 = if i < value.int_parts.len() {
                value.int_parts[i]
            } else {
                0
            };
            le_push_i32(&mut b, chunk);
            i += 1;
        }
        proof {
            lemma_parts_bytes_len(value.int_parts@, chunks_needed as nat);
            assert(b@ =~= decimal_bytes(value@, *ctx)->Ok_0);
        }
        writer.write_few(&b);
        Ok(())
    }

    /// Writes binary data.
    pub fn serialize_bytes(
        writer: &mut PacketWriter,
        value: &[u8],
        ctx: &TdsTypeContext,
    ) -> (r: TdsResult<()>)
        requires
            old(writer).ready(),
        ensures
            written_as(*old(writer), *final(writer), all_or_nothing(binary_bytes(value@, *ctx)), r),
    {
        proof {
            lemma_grew_nothing(writer@);
        }
        let data_len: usize = value.len();
        let schema_size: usize = ctx.max_size;
        if !ctx.is_plp && ctx.tds_type != 0x22 && data_len > schema_size {
            return Err(too_long("Binary data length (", data_len, schema_size));
        }
        if ctx.tds_type == 0x22 {
            put_long(writer, value);
        } else if ctx.is_plp {
            put_chunked(writer, value);
        } else if ctx.is_fixed_length {
            let fill = repeated(0, schema_size - data_len);
            put_filled(writer, value, &fill);
        } else {
            put_short(writer, value);
        }
        Ok(())
    }

    /// Writes a JSON document: as UTF-8, in one chunk.
    pub fn serialize_json(
        writer: &mut PacketWriter,
        value: &SqlJson,
        _ctx: &TdsTypeContext,
    ) -> (r: TdsResult<()>)
        requires
            old(writer).ready(),
        ensures
            written_as(
                *old(writer),
                *final(writer),
                all_or_nothing(value_bytes(Value::Json(value.bytes@), *_ctx)),
                r,
            ),
    {
        proof {
            lemma_grew_nothing(writer@);
        }
        match text_from_utf8(value.bytes.as_slice()) {
            Some(_) => {
                put_chunked(writer, value.bytes.as_slice());
                Ok(())
            },
            None => Err(Error::TypeConversionError(String::from_str("Invalid UTF-8 in JSON data"))),
        }
    }

    /// Writes an XML document: behind a byte order mark, in one chunk.
    pub fn serialize_xml(
        writer: &mut PacketWriter,
        value: &SqlXml,
        _ctx: &TdsTypeContext,
    ) -> (r: TdsResult<()>)
        requires
            old(writer).ready(),
        ensures
            written_as(*old(writer), *final(writer), (chunked(marked(value.bytes@)), None), r),
    {
        if value.has_bom() {
            put_chunked(writer, value.bytes.as_slice());
        } else {
            let mut data: Vec<u8> = Vec::new();
            data.push(0xFF);
            data.push(0xFE);
            data.extend_from_slice(value.bytes.as_slice());
            assert(data@ =~= marked(value.bytes@));
            put_chunked(writer, data.as_slice());
        }
        Ok(())
    }

    /// Writes UTF-16 data of an even length.
    fn serialize_wide(
        writer: &mut PacketWriter,
        data: &[u8],
        ctx: &TdsTypeContext,
    ) -> (r: TdsResult<()>)
        requires
            old(writer).ready(),
        ensures
            written_as(*old(writer), *final(writer), all_or_nothing(wide_bytes(data@, *ctx)), r),
    {
        proof {
            lemma_grew_nothing(writer@);
        }
        let char_count: usize = data.len() / 2;
        let schema_char_count: usize = ctx.max_size;
        if !ctx.is_plp && char_count > schema_char_count {
            return Err(too_long("String length (", char_count, schema_char_count));
        }
        if ctx.is_plp {
            put_chunked(writer, data);
        } else if ctx.is_fixed_length {
            let fill = wide_fill(schema_char_count - char_count);
            put_filled(writer, data, &fill);
        } else {
            put_wide_short(writer, data);
        }
        Ok(())
    }

    /// Writes a text as UTF-16.
    pub fn serialize_string_utf16(
        writer: &mut PacketWriter,
        utf8_str: &str,
        ctx: &TdsTypeContext,
    ) -> (r: TdsResult<()>)
        requires
            old(writer).ready(),
        ensures
            written_as(
                *old(writer),
                *final(writer),
                all_or_nothing(wide_bytes(units_bytes(utf16_units(utf8_str@)), *ctx)),
                r,
            ),
    {
        let data = utf16_bytes(utf8_str);
        Self::serialize_wide(writer, data.as_slice(), ctx)
    }

    /// Writes data of a code page.
    pub fn serialize_char_varchar_direct(
        writer: &mut PacketWriter,
        single_byte_data: &[u8],
        ctx: &TdsTypeContext,
    ) -> (r: TdsResult<()>)
        requires
            old(writer).ready(),
        ensures
            written_as(
                *old(writer),
                *final(writer),
                all_or_nothing(narrow_bytes(single_byte_data@, *ctx)),
                r,
            ),
    {
        proof {
            lemma_grew_nothing(writer@);
        }
        let char_count: usize = single_byte_data.len();
        let schema_char_count: usize = ctx.max_size;
        if !ctx.is_plp && char_count > schema_char_count {
            return Err(too_long("String length (", char_count, schema_char_count));
        }
        if ctx.tds_type == 0x23 {
            put_long(writer, single_byte_data);
        } else if ctx.is_plp {
            put_chunked(writer, single_byte_data);
        } else if ctx.is_fixed_length {
            let fill = repeated(0x20, schema_char_count - char_count);
            put_filled(writer, single_byte_data, &fill);
        } else {
            put_short(writer, single_byte_data);
        }
        Ok(())
    }

    /// Writes character data. The national types take UTF-16, the others the code page of the
    /// collation; data that is already in the form of the wire goes out as it is.
    pub fn serialize_string(
        writer: &mut PacketWriter,
        value: &SqlString,
        ctx: &TdsTypeContext,
    ) -> (r: TdsResult<()>)
        requires
            old(writer).ready(),
        ensures
            written_as(
                *old(writer),
                *final(writer),
                all_or_nothing(string_bytes(value.bytes@, value.encoding_type, *ctx)),
                r,
            ),
    {
        proof {
            lemma_grew_nothing(writer@);
        }
        match ctx.tds_type {
            0xE7 | 0xEF => {
                let data: &[u8] = match value.as_utf16_bytes() {
                    Some(b) => b,
                    None => match value.as_raw_wire_bytes() {
                        Some(b) => b,
                        None => {
                            let text = value.to_utf8_string();
                            proof {
                                lemma_units_bytes_len(utf16_units(text@));
                            }
                            return Self::serialize_string_utf16(writer, text.as_str(), ctx);
                        },
                    },
                };
                if data.len() % 2 != 0 {
                    return Err(odd_length(data.len()));
                }
                Self::serialize_wide(writer, data, ctx)
            },
            0x63 => {
                let schema_char_count: usize = ctx.max_size;
                match value.as_utf16_bytes() {
                    Some(data) => {
                        if data.len() % 2 != 0 {
                            return Err(odd_length(data.len()));
                        }
                        if !ctx.is_plp && data.len() / 2 > schema_char_count {
                            return Err(
                                too_long("String length (", data.len() / 2, schema_char_count),
                            );
                        }
                        put_long(writer, data);
                    },
                    None => {
                        if !ctx.is_plp && value.bytes.len() > schema_char_count {
                            return Err(
                                too_long("String length (", value.bytes.len(), schema_char_count),
                            );
                        }
                        let text = value.to_utf8_string();
                        let data = utf16_bytes(text.as_str());
                        put_long(writer, data.as_slice());
                    },
                }
                Ok(())
            },
            0xA7 | 0xAF | 0x23 => match value.as_raw_wire_bytes() {
                Some(data) => Self::serialize_char_varchar_direct(writer, data, ctx),
                None => {
                    let text = value.to_utf8_string();
                    let data = to_narrow(text.as_str(), &ctx.collation);
                    Self::serialize_char_varchar_direct(writer, data.as_slice(), ctx)
                },
            },
            _ => Err(wrong_type("Unsupported TDS type for string serialization: ", ctx.tds_type)),
        }
    }

    /// Writes a vector.
    pub fn serialize_vector(
        writer: &mut PacketWriter,
        value: &SqlVector,
        _ctx: &TdsTypeContext,
    ) -> (r: TdsResult<()>)
        requires
            old(writer).ready(),
        ensures
            written_as(*old(writer), *final(writer), (vector_bytes(value@), None), r),
    {
        let dims: usize = value.dimension_count();
        let total_size: usize = value.total_size();
        let mut head: Vec<u8> = Vec::new();
        le_push_u16(&mut head, (total_size % 0x1_0000) as u16);
        head.push(0xA9);
        head.push(0x01);
        le_push_u16(&mut head, (dims % 0x1_0000) as u16);
        head.push(0x00);
        head.push(0);
        head.push(0);
        head.push(0);
        let mut data: Vec<u8> = Vec::new();
        let mut i: usize = 0;
        assert(value@.take(0) =~= Seq::<u32>::empty());
        while i < dims
            invariant
                i <= dims,
                dims == value@.len(),
                data@ =~= elements_bytes(value@.take(i as int)),
            decreases dims - i,
        {
            le_push_u32(&mut data, value.element(i));
            assert(value@.take(i + 1).drop_last() =~= value@.take(i as int));
            i += 1;
        }
        assert(value@.take(i as int) =~= value@);
        let tail: Vec<u8> = Vec::new();
        put_parts(writer, &head, data.as_slice(), &tail);
        assert(head@ + data@ + tail@ =~= vector_bytes(value@));
        Ok(())
    }

    /// Writes a value in a variant: the length of what follows, the value's type with its
    /// description, and the value.
    pub fn serialize_as_variant(
        writer: &mut PacketWriter,
        value: &ColumnValues,
        ctx: &TdsTypeContext,
    ) -> (r: TdsResult<()>)
        requires
            old(writer).ready(),
        ensures
            written_as(*old(writer), *final(writer), variant_bytes(value@, *ctx), r),
    {
        proof {
            lemma_grew_nothing(writer@);
        }
        let ghost before = writer@;
        let mut b: Vec<u8> = Vec::new();
        if let ColumnValues::Null = value {
            le_push_u32(&mut b, 0);
            assert(b@ =~= le_bytes(0, 4));
            writer.write_few(&b);
            return Ok(());
        }
        let base_type: u8 = Self::get_variant_base_type(value)?;
        proof {
            law_type_code_round_trip(variant_type(value@)->Ok_0);
        }
        let prop_len: u8 = Self::calculate_type_info_length(base_type, value);
        let data_size: u32 = Self::calculate_value_size(value)?;
        if data_size > MAX_VARIANT_DATA_SIZE {
            return Err(
                Error::UsageError(
                    number_message(
                        "SQL_VARIANT data size (",
                        data_size as u128,
                        " bytes) exceeds maximum (8000 bytes)",
                    ),
                ),
            );
        }
        let total_length: u32 = 2 + prop_len as u32 + data_size;
        if total_length > MAX_VARIANT_SIZE {
            return Err(
                Error::UsageError(
                    number_message(
                        "SQL_VARIANT total size (",
                        total_length as u128,
                        " bytes) exceeds maximum size (8016 bytes)",
                    ),
                ),
            );
        }
        le_push_u32(&mut b, total_length);
        b.push(base_type);
        b.push(prop_len);
        let ghost head = b@;
        writer.write_few(&b);
        let ghost headed = writer@;
        Self::write_type_info_bytes(writer, base_type, value, ctx);
        let ghost described = writer@;
        proof {
            let info = type_info_bytes(base_type, value@, *ctx);
            law_writes_add_up(before, head, headed, info, described);
            assert(head =~= le_bytes(total_length as nat, 4) + seq![base_type, prop_len]);
        }
        let temp_ctx: TdsTypeContext = Self::create_variant_inner_context(value, base_type, ctx)?;
        let r = Self::serialize_value_inner(writer, value, &temp_ctx);
        proof {
            let info = type_info_bytes(base_type, value@, *ctx);
            let inner = all_or_nothing(value_bytes(value@, temp_ctx)).0;
            law_writes_add_up(before, head + info, described, inner, writer@);
            assert(head + info + Seq::<u8>::empty() =~= head + info);
        }
        r
    }

    /// How many bytes of data a value takes in a variant.
    pub fn calculate_value_size(value: &ColumnValues) -> (r: TdsResult<u32>)
        ensures
            match value_size(value@) {
                Ok(n) => r matches Ok(x) && x == n,
                Err(k) => r matches Err(e) && e.kind() == k,
            },
    {
        let size: u32 = match value {
            ColumnValues::TinyInt(_) | ColumnValues::Bit(_) => 1,
            ColumnValues::SmallInt(_) => 2,
            ColumnValues::Int(_) | ColumnValues::Real(_) => 4,
            ColumnValues::BigInt(_) | ColumnValues::Float(_) => 8,
            ColumnValues::Decimal(v) | ColumnValues::Numeric(v) => {
                let value_bytes: u32 = match v.precision {
                    1..=9 => 4,
                    10..=19 => 8,
                    20..=28 => 12,
                    _ => 16,
                };
                1 + value_bytes
            },
            ColumnValues::Money(_) | ColumnValues::DateTime(_) => 8,
            ColumnValues::SmallMoney(_) | ColumnValues::SmallDateTime(_) => 4,
            ColumnValues::Date(_) => 3,
            ColumnValues::Time(v) => get_time_length_from_scale(v.scale)? as u32,
            ColumnValues::DateTime2(v) => get_time_length_from_scale(v.time.scale)? as u32 + 3,
            ColumnValues::DateTimeOffset(v) => {
                get_time_length_from_scale(v.datetime2.time.scale)? as u32 + 5
            },
            ColumnValues::Bytes(v) => count_size(v.len())?,
            ColumnValues::String(s) => count_size(wide_len(s))?,
            ColumnValues::Uuid(_) => 16,
            ColumnValues::Vector(_) | ColumnValues::Xml(_) | ColumnValues::Json(_) => {
                return Err(
                    Error::UsageError(String::from_str("Unsupported data type in sql_variant")),
                );
            },
            ColumnValues::Null => 0,
        };
        Ok(size)
    }

    /// How many bytes describe a type in a variant.
    pub fn calculate_type_info_length(tds_type: u8, _value: &ColumnValues) -> (n: u8)
        requires
            type_info_length(tds_type) is Some,
        ensures
            Some(n) == type_info_length(tds_type),
    {
        match tds_type {
            0x30 | 0x34 | 0x38 | 0x7F | 0x3B | 0x3E | 0x32 | 0x3C | 0x7A | 0x3D | 0x3A => 0,
            0x28 | 0x24 => 0,
            0x29 | 0x2A | 0x2B => 1,
            0x6A | 0x6C => 2,
            0xA5 | 0xAD => 2,
            _ => 7,
        }
    }

    /// Writes what describes a value's type in a variant.
    pub fn write_type_info_bytes(
        writer: &mut PacketWriter,
        tds_type: u8,
        value: &ColumnValues,
        ctx: &TdsTypeContext,
    )
        requires
            old(writer).ready(),
            has_type_info(tds_type),
        ensures
            written_as(
                *old(writer),
                *final(writer),
                (type_info_bytes(tds_type, value@, *ctx), None),
                Ok(()),
            ),
    {
        let mut b: Vec<u8> = Vec::new();
        match tds_type {
            0x29 => {
                if let ColumnValues::Time(v) = value {
                    b.push(v.scale);
                }
            },
            0x2A => {
                if let ColumnValues::DateTime2(v) = value {
                    b.push(v.time.scale);
                }
            },
            0x2B => {
                if let ColumnValues::DateTimeOffset(v) = value {
                    b.push(v.datetime2.time.scale);
                }
            },
            0x6A | 0x6C => match value {
                ColumnValues::Decimal(v) | ColumnValues::Numeric(v) => {
                    b.push(v.precision);
                    b.push(v.scale);
                },
                _ => {},
            },
            0xA5 => {
                if let ColumnValues::Bytes(v) = value {
                    le_push_u16(&mut b, (v.len() % 0x1_0000) as u16);
                }
            },
            0xE7 => {
                let collation: SqlCollation = match ctx.collation {
                    Some(c) => c,
                    None => SqlCollation {
                        info: 0x0000_0409,
                        lcid_language_id: 0x0409,
                        col_flags: 0,
                        sort_id: 52,
                    },
                };
                le_push_u32(&mut b, collation.info);
                b.push(collation.sort_id);
                let max_length: u16 = match value {
                    ColumnValues::String(s) => (wide_len(s) % 0x1_0000) as u16,
                    _ => 0,
                };
                le_push_u16(&mut b, max_length);
            },
            _ => {},
        }
        assert(b@ =~= type_info_bytes(tds_type, value@, *ctx));
        writer.write_few(&b);
    }

    /// The type that a value has in a variant.
    pub fn get_variant_base_type(value: &ColumnValues) -> (r: TdsResult<u8>)
        ensures
            match variant_type(value@) {
                Ok(t) => r == Ok::<u8, Error>(t.code()),
                Err(k) => r matches Err(e) && e.kind() == k,
            },
    {
        let tds_type: TdsDataType = match value {
            ColumnValues::TinyInt(_) => TdsDataType::Int1,
            ColumnValues::SmallInt(_) => TdsDataType::Int2,
            ColumnValues::Int(_) => TdsDataType::Int4,
            ColumnValues::BigInt(_) => TdsDataType::Int8,
            ColumnValues::Real(_) => TdsDataType::Flt4,
            ColumnValues::Float(_) => TdsDataType::Flt8,
            ColumnValues::Bit(_) => TdsDataType::Bit,
            ColumnValues::Decimal(_) => TdsDataType::DecimalN,
            ColumnValues::Numeric(_) => TdsDataType::NumericN,
            ColumnValues::Money(_) => TdsDataType::Money,
            ColumnValues::SmallMoney(_) => TdsDataType::Money4,
            ColumnValues::Date(_) => TdsDataType::DateN,
            ColumnValues::Time(_) => TdsDataType::TimeN,
            ColumnValues::DateTime(_) => TdsDataType::DateTime,
            ColumnValues::DateTime2(_) => TdsDataType::DateTime2N,
            ColumnValues::DateTimeOffset(_) => TdsDataType::DateTimeOffsetN,
            ColumnValues::SmallDateTime(_) => TdsDataType::DateTim4,
            ColumnValues::Bytes(_) => TdsDataType::BigVarBinary,
            ColumnValues::String(_) => TdsDataType::NVarChar,
            ColumnValues::Uuid(_) => TdsDataType::Guid,
            ColumnValues::Null => {
                return Err(
                    Error::ProtocolError(
                        String::from_str("NULL should be handled before get_variant_base_type"),
                    ),
                );
            },
            ColumnValues::Vector(_) | ColumnValues::Xml(_) | ColumnValues::Json(_) => {
                return Err(
                    Error::UsageError(
                        String::from_str("Unsupported data type in sql_variant columns"),
                    ),
                );
            },
        };
        Ok(tds_type.code())
    }

    /// How a value's type is written in a variant: without a length before the value.
    pub fn create_variant_inner_context(
        value: &ColumnValues,
        base_type: u8,
        original_ctx: &TdsTypeContext,
    ) -> (r: TdsResult<TdsTypeContext>)
        ensures
            match variant_context(value@, base_type, *original_ctx) {
                Ok(c) => r == Ok::<TdsTypeContext, Error>(c),
                Err(k) => r matches Err(e) && e.kind() == k,
            },
    {

        let ctx: TdsTypeContext = match value {
            ColumnValues::TinyInt(_) => TdsTypeContext {
                tds_type: TdsDataType::Int1.code(),
                max_size: 1,
                is_nullable: false,
                is_plp: false,
                is_fixed_length: true,
                precision: None,
                scale: None,
                collation: None,
            },
            ColumnValues::SmallInt(_) => TdsTypeContext {
                tds_type: TdsDataType::Int2.code(),
                max_size: 2,
                is_nullable: false,
                is_plp: false,
                is_fixed_length: true,
                precision: None,
                scale: None,
                collation: None,
            },
            ColumnValues::Int(_) => TdsTypeContext {
                tds_type: TdsDataType::Int4.code(),
                max_size: 4,
                is_nullable: false,
                is_plp: false,
                is_fixed_length: true,
                precision: None,
                scale: None,
                collation: None,
            },
            ColumnValues::BigInt(_) => TdsTypeContext {
                tds_type: TdsDataType::Int8.code(),
                max_size: 8,
                is_nullable: false,
                is_plp: false,
                is_fixed_length: true,
                precision: None,
                scale: None,
                collation: None,
            },
            ColumnValues::Real(_) => TdsTypeContext {
                tds_type: TdsDataType::Flt4.code(),
                max_size: 4,
                is_nullable: false,
                is_plp: false,
                is_fixed_length: true,
                precision: None,
                scale: None,
                collation: None,
            },
            ColumnValues::Float(_) => TdsTypeContext {
                tds_type: TdsDataType::Flt8.code(),
                max_size: 8,
                is_nullable: false,
                is_plp: false,
                is_fixed_length: true,
                precision: None,
                scale: None,
                collation: None,
            },
            ColumnValues::Bit(_) => TdsTypeContext {
                tds_type: TdsDataType::Bit.code(),
                max_size: 1,
                is_nullable: false,
                is_plp: false,
                is_fixed_length: true,
                precision: None,
                scale: None,
                collation: None,
            },
            ColumnValues::Decimal(v) | ColumnValues::Numeric(v) => TdsTypeContext {
                tds_type: base_type,
                max_size: 17,
                is_nullable: true,
                is_plp: false,
                is_fixed_length: true,
                precision: Some(v.precision),
                scale: Some(v.scale),
                collation: None,
            },
            ColumnValues::Money(_) => TdsTypeContext {
                tds_type: TdsDataType::Money.code(),
                max_size: 8,
                is_nullable: false,
                is_plp: false,
                is_fixed_length: true,
                precision: None,
                scale: None,
                collation: None,
            },
            ColumnValues::SmallMoney(_) => TdsTypeContext {
                tds_type: TdsDataType::Money4.code(),
                max_size: 4,
                is_nullable: false,
                is_plp: false,
                is_fixed_length: true,
                precision: None,
                scale: None,
                collation: None,
            },
            ColumnValues::Date(_) => TdsTypeContext {
                tds_type: TdsDataType::DateN.code(),
                max_size: 3,
                is_nullable: true,
                is_plp: false,
                is_fixed_length: true,
                precision: None,
                scale: None,
                collation: None,
            },
            ColumnValues::Time(v) => TdsTypeContext {
                tds_type: TdsDataType::TimeN.code(),
                max_size: 5,
                is_nullable: true,
                is_plp: false,
                is_fixed_length: true,
                precision: None,
                scale: Some(v.scale),
                collation: None,
            },
            ColumnValues::DateTime(_) => TdsTypeContext {
                tds_type: TdsDataType::DateTime.code(),
                max_size: 8,
                is_nullable: false,
                is_plp: false,
                is_fixed_length: true,
                precision: None,
                scale: None,
                collation: None,
            },
            ColumnValues::DateTime2(v) => TdsTypeContext {
                tds_type: TdsDataType::DateTime2N.code(),
                max_size: 8,
                is_nullable: true,
                is_plp: false,
                is_fixed_length: true,
                precision: None,
                scale: Some(v.time.scale),
                collation: None,
            },
            ColumnValues::DateTimeOffset(v) => TdsTypeContext {
                tds_type: TdsDataType::DateTimeOffsetN.code(),
                max_size: 10,
                is_nullable: true,
                is_plp: false,
                is_fixed_length: true,
                precision: None,
                scale: Some(v.datetime2.time.scale),
                collation: None,
            },
            ColumnValues::SmallDateTime(_) => TdsTypeContext {
                tds_type: TdsDataType::DateTim4.code(),
                max_size: 4,
                is_nullable: false,
                is_plp: false,
                is_fixed_length: true,
                precision: None,
                scale: None,
                collation: None,
            },
            ColumnValues::Bytes(v) => TdsTypeContext {
                tds_type: TdsDataType::BigVarBinary.code(),
                max_size: v.len(),
                is_nullable: true,
                is_plp: false,
                is_fixed_length: true,
                precision: None,
                scale: None,
                collation: None,
            },
            ColumnValues::String(s) => TdsTypeContext {
                tds_type: TdsDataType::NVarChar.code(),
                max_size: wide_len(s) / 2,
                is_nullable: true,
                is_plp: false,
                is_fixed_length: true,
                precision: None,
                scale: None,
                collation: original_ctx.collation,
            },
            ColumnValues::Uuid(_) => TdsTypeContext {
                tds_type: TdsDataType::Guid.code(),
                max_size: 16,
                is_nullable: true,
                is_plp: false,
                is_fixed_length: true,
                precision: None,
                scale: None,
                collation: None,
            },
            ColumnValues::Vector(_) | ColumnValues::Xml(_) | ColumnValues::Json(_) => {
                return Err(
                    Error::UsageError(String::from_str("Unsupported data type in sql_variant")),
                );
            },
            ColumnValues::Null => {
                return Err(
                    Error::ProtocolError(
                        String::from_str(
                            "NULL should be handled before create_variant_inner_context",
                        ),
                    ),
                );
            },
        };
        Ok(ctx)
    }

    /// Writes a value, where its type is not a variant.
    fn serialize_value_inner(
        writer: &mut PacketWriter,
        value: &ColumnValues,
        ctx: &TdsTypeContext,
    ) -> (r: TdsResult<()>)
        requires
            old(writer).ready(),
        ensures
            written_as(*old(writer), *final(writer), all_or_nothing(value_bytes(value@, *ctx)), r),
    {
        match value {
            ColumnValues::Null => Self::serialize_null(writer, ctx),
            ColumnValues::Bit(v) => Self::serialize_bit(writer, *v, ctx),
            ColumnValues::TinyInt(v) => Self::serialize_tinyint(writer, *v, ctx),
            ColumnValues::SmallInt(v) => Self::serialize_smallint(writer, *v, ctx),
            ColumnValues::Int(v) => Self::serialize_int(writer, *v, ctx),
            ColumnValues::BigInt(v) => Self::serialize_bigint(writer, *v, ctx),
            ColumnValues::Real(v) => Self::serialize_real(writer, *v, ctx),
            ColumnValues::Float(v) => Self::serialize_float(writer, *v, ctx),
            ColumnValues::Decimal(v) | ColumnValues::Numeric(v) => Self::serialize_decimal(
                writer,
                v,
                ctx,
            ),
            ColumnValues::SmallMoney(v) => Self::serialize_smallmoney(writer, v, ctx),
            ColumnValues::Money(v) => Self::serialize_money(writer, v, ctx),
            ColumnValues::Date(v) => Self::serialize_date(writer, v, ctx),
            ColumnValues::Time(v) => Self::serialize_time(writer, v, ctx),
            ColumnValues::DateTime(v) => Self::serialize_datetime(writer, v, ctx),
            ColumnValues::DateTime2(v) => Self::serialize_datetime2(writer, v, ctx),
            ColumnValues::DateTimeOffset(v) => Self::serialize_datetimeoffset(writer, v, ctx),
            ColumnValues::SmallDateTime(v) => Self::serialize_smalldatetime(writer, v, ctx),
            ColumnValues::Bytes(v) => Self::serialize_bytes(writer, v.as_slice(), ctx),
            ColumnValues::Json(v) => Self::serialize_json(writer, v, ctx),
            ColumnValues::String(v) => Self::serialize_string(writer, v, ctx),
            ColumnValues::Vector(v) => Self::serialize_vector(writer, v, ctx),
            ColumnValues::Xml(v) => Self::serialize_xml(writer, v, ctx),
            ColumnValues::Uuid(v) => Self::serialize_uuid(writer, v, ctx),
        }
    }
}

/// A usage error about UTF-16 data of an odd length.
fn odd_length(len: usize) -> (e: Error)
    ensures
        e.kind() == ErrorKind::Usage,
{
    Error::UsageError(
        number_message("Invalid UTF-16 data: byte length ", len as u128, " is odd"),
    )
}

/// Each part of a magnitude takes four bytes.
pub proof fn lemma_parts_bytes_len(parts: Seq<i32>, n: nat)
    ensures
        parts_bytes(parts, n).len() == 4 * n,
    decreases n,
{
    if n > 0 {
        lemma_parts_bytes_len(parts, (n - 1) as nat);
    }
}

} // verus!

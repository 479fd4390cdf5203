//! A sink that collects rows as columns of one type each, for Arrow record batches.

use crate::datatypes::arrow_columns::{
    append_boolean, append_date32, append_decimal128, append_guid, append_guid_null, append_int16,
    append_int32, append_int64, append_time64, append_timestamp, append_uint8, array_cells,
    array_type, binary_array, boolean_column, column_cells, column_type, date32_column,
    decimal128_column, finish_column, guid_column, int16_column, int32_column, int64_column,
    null_array, string_array, time64_column, timestamp_column, timestamp_utc_column, total_bytes,
    total_text_bytes, uint8_column, ArrowArray, ArrowColumn,
};
use crate::datatypes::column_values::{
    ColumnValues, SqlDate, SqlDateTime, SqlDateTime2, SqlDateTimeOffset, SqlFloat, SqlGuid, SqlJson,
    SqlMoney, SqlReal, SqlSmallDateTime, SqlSmallMoney, SqlTime, SqlXml, Value,
};
use crate::datatypes::decimal::{magnitude, DecimalParts, DecimalView};
use crate::datatypes::row_writer::RowWriter;
use crate::datatypes::sql_string::{text_of, SqlString};
use crate::datatypes::sql_vector::SqlVector;
use vstd::prelude::*;
use vstd::utf8::encode_utf8;

verus! {

/// Days from the first of January of the year 1 to the start of the Unix epoch.
pub const DAYS_0001_TO_UNIX: i32 = 719_162;

/// Days from the first of January 1900 to the start of the Unix epoch.
pub const DAYS_1900_TO_UNIX: i32 = 25_567;

/// Microseconds in a day.
pub const MICROS_PER_DAY: i64 = 86_400_000_000;

/// Microseconds in a minute.
pub const MICROS_PER_MINUTE: i64 = 60_000_000;

/// The type of a column, known from the first value that is not missing.
#[derive(Clone, Copy, Debug, PartialEq, Eq, Structural)]
pub enum ColumnKind {
    Boolean,
    UInt8,
    Int16,
    Int32,
    Int64,
    Float32,
    Float64,
    Decimal128 { precision: u8, scale: i8 },
    Utf8,
    Binary,
    Date32,
    Time64Microsecond,
    TimestampMicrosecond,
    TimestampMicrosecondUtc,
    FixedSizeBinary16,
}

impl ColumnKind {
    /// Whether a value of kind `other` goes into a column of this kind. A column of decimal numbers
    /// keeps the precision and scale of its first one.
    pub open spec fn spec_takes(self, other: ColumnKind) -> bool {
        ||| self == other
        ||| self is Decimal128 && other is Decimal128
    }

    /// Whether a value of kind `other` goes into a column of this kind.
    #[verifier::when_used_as_spec(spec_takes)]
    pub fn takes(self, other: ColumnKind) -> (b: bool)
        ensures
            b == self.spec_takes(other),
    {
        match (self, other) {
            (ColumnKind::Decimal128 { .. }, ColumnKind::Decimal128 { .. }) => true,
            _ => self == other,
        }
    }
}

/// A value of a column. Floating-point numbers are bit patterns; an amount of money stands in a
/// column of floating-point numbers, as its ten-thousandths.
#[derive(Clone, Debug, PartialEq)]
pub enum ArrowValue {
    Boolean(bool),
    UInt8(u8),
    Int16(i16),
    Int32(i32),
    Int64(i64),
    Float32(u32),
    Float64(u64),
    Money(i64),
    Decimal128(i128),
    Text(String),
    Xml(SqlXml),
    Json(SqlJson),
    Vector(SqlVector),
    Binary(Vec<u8>),
    Date32(i32),
    Time64Microsecond(i64),
    TimestampMicrosecond(i64),
    FixedSizeBinary16(SqlGuid),
}

/// The mathematical value of a column's value.
#[verifier::ext_equal]
pub enum ArrowItem {
    Boolean(bool),
    UInt8(u8),
    Int16(i16),
    Int32(i32),
    Int64(i64),
    Float32(u32),
    Float64(u64),
    Money(i64),
    Decimal128(i128),
    Text(Seq<char>),
    Xml(Seq<u8>),
    Json(Seq<u8>),
    Vector(Seq<u32>),
    Binary(Seq<u8>),
    Date32(i32),
    Time64Microsecond(i64),
    TimestampMicrosecond(i64),
    FixedSizeBinary16(Seq<u8>),
}

impl View for ArrowValue {
    type V = ArrowItem;

    open spec fn view(&self) -> ArrowItem {
        match self {
            ArrowValue::Boolean(v) => ArrowItem::Boolean(*v),
            ArrowValue::UInt8(v) => ArrowItem::UInt8(*v),
            ArrowValue::Int16(v) => ArrowItem::Int16(*v),
            ArrowValue::Int32(v) => ArrowItem::Int32(*v),
            ArrowValue::Int64(v) => ArrowItem::Int64(*v),
            ArrowValue::Float32(v) => ArrowItem::Float32(*v),
            ArrowValue::Float64(v) => ArrowItem::Float64(*v),
            ArrowValue::Money(v) => ArrowItem::Money(*v),
            ArrowValue::Decimal128(v) => ArrowItem::Decimal128(*v),
            ArrowValue::Text(v) => ArrowItem::Text(v@),
            ArrowValue::Xml(v) => ArrowItem::Xml(v.bytes@),
            ArrowValue::Json(v) => ArrowItem::Json(v.bytes@),
            ArrowValue::Vector(v) => ArrowItem::Vector(v@),
            ArrowValue::Binary(v) => ArrowItem::Binary(v@),
            ArrowValue::Date32(v) => ArrowItem::Date32(*v),
            ArrowValue::Time64Microsecond(v) => ArrowItem::Time64Microsecond(*v),
            ArrowValue::TimestampMicrosecond(v) => ArrowItem::TimestampMicrosecond(*v),
            ArrowValue::FixedSizeBinary16(v) => ArrowItem::FixedSizeBinary16(v.bytes@),
        }
    }
}

/// A decimal number's magnitude and sign as one number of 128 bits; a magnitude from `2^127` on
/// wraps around.
pub open spec fn spec_decimal_to_i128(d: DecimalView) -> int {
    let wrapped = (magnitude(d.int_parts) as u128) as i128;
    if d.is_positive {
        wrapped as int
    } else {
        -wrapped
    }
}

/// Whether a decimal number has at most 128 bits, and its number with its sign too.
pub open spec fn decimal_fits(d: DecimalView) -> bool {
    d.int_parts.len() <= 4 && spec_decimal_to_i128(d) <= i128::MAX
}

/// A decimal number as one number of 128 bits.
pub fn decimal_parts_to_i128(parts: &DecimalParts) -> (v: i128)
    requires
        decimal_fits(parts@),
    ensures
        v == spec_decimal_to_i128(parts@),
{
    let value: i128 = parts.to_u128() as i128;
    if parts.is_positive {
        value
    } else {
        -value
    }
}

/// A date in days since the year 1, as days since the start of the Unix epoch.
pub fn tds_date_to_arrow_date32(days_since_0001: u32) -> (d: i32)
    requires
        days_since_0001 as i32 - DAYS_0001_TO_UNIX >= i32::MIN,
    ensures
        d == days_since_0001 as i32 - DAYS_0001_TO_UNIX,
{
    days_since_0001 as i32 - DAYS_0001_TO_UNIX
}

/// A time's count divided by 1000.
pub open spec fn time_micros(time: SqlTime) -> int {
    time.time_nanoseconds as int / 1000
}

/// A time's count divided by 1000: microseconds since midnight, where it counts nanoseconds.
pub fn sql_time_to_micros(time: &SqlTime) -> (m: i64)
    ensures
        m == time_micros(*time),
{
    (time.time_nanoseconds / 1000) as i64
}

/// Microseconds since the start of the Unix epoch, of a date in days since the year 1 and a time.
pub open spec fn datetime2_micros(days: u32, time: SqlTime) -> int {
    (days - DAYS_0001_TO_UNIX) * MICROS_PER_DAY + time_micros(time)
}

/// Microseconds since the start of the Unix epoch, of a date in days since the year 1 and a time.
pub fn datetime2_to_epoch_micros(days: u32, time: &SqlTime) -> (m: i64)
    requires
        i64::MIN <= (days - DAYS_0001_TO_UNIX) * MICROS_PER_DAY <= i64::MAX,
        datetime2_micros(days, *time) <= i64::MAX,
    ensures
        m == datetime2_micros(days, *time),
{
    let day_offset: i64 = days as i64 - DAYS_0001_TO_UNIX as i64;
    day_offset * MICROS_PER_DAY + sql_time_to_micros(time)
}

/// Microseconds since the start of the Unix epoch, of a date in days since 1900 and a time in ticks
/// of 1/300 second; a fraction of a microsecond is cut off.
pub open spec fn datetime_micros(days: i32, ticks_300: u32) -> int {
    (days - DAYS_1900_TO_UNIX) * MICROS_PER_DAY + (ticks_300 * 1_000_000) / 300
}

/// Microseconds since the start of the Unix epoch, of a date in days since 1900 and a time in ticks
/// of 1/300 second.
pub fn datetime_to_epoch_micros(days: i32, ticks_300: u32) -> (m: i64)
    requires
        i64::MIN <= (days - DAYS_1900_TO_UNIX) * MICROS_PER_DAY <= i64::MAX,
        datetime_micros(days, ticks_300) <= i64::MAX,
    ensures
        m == datetime_micros(days, ticks_300),
{
    let day_offset: i64 = days as i64 - DAYS_1900_TO_UNIX as i64;
    let ticks: u64 = ticks_300 as u64 * 1_000_000;
    let micros: i64 = (ticks / 300) as i64;
    day_offset * MICROS_PER_DAY + micros
}

/// Microseconds since the start of the Unix epoch, of a date in days since 1900 and minutes.
pub open spec fn smalldatetime_micros(days: u16, minutes: u16) -> int {
    (days - DAYS_1900_TO_UNIX) * MICROS_PER_DAY + minutes * MICROS_PER_MINUTE
}

/// Microseconds since the start of the Unix epoch, of a date in days since 1900 and minutes.
pub fn smalldatetime_to_epoch_micros(days: u16, minutes: u16) -> (m: i64)
    ensures
        m == smalldatetime_micros(days, minutes),
{
    let day_offset: i64 = days as i64 - DAYS_1900_TO_UNIX as i64;
    day_offset * MICROS_PER_DAY + minutes as i64 * MICROS_PER_MINUTE
}

/// Microseconds since the start of the Unix epoch, in UTC, of a local date and time with an offset.
pub open spec fn datetimeoffset_micros(v: SqlDateTimeOffset) -> int {
    datetime2_micros(v.datetime2.days, v.datetime2.time) - v.offset * MICROS_PER_MINUTE
}

/// The ten-thousandths of an amount of money: its two halves as one number.
pub open spec fn money_ten_thousandths(m: SqlMoney) -> i64 {
    ((m.lsb_part as i64) & 0xFFFF_FFFFi64) | ((m.msb_part as i64) << 32)
}

/// The ten-thousandths of an amount of money.
pub fn sql_money_to_ten_thousandths(money: &SqlMoney) -> (v: i64)
    ensures
        v == money_ten_thousandths(*money),
{
    ((money.lsb_part as i64) & 0xFFFF_FFFFi64) | ((money.msb_part as i64) << 32)
}

/// Whether a column can be made for decimal numbers of this precision and scale.
pub open spec fn valid_decimal_type(precision: u8, scale: u8) -> bool {
    let s = scale as i8;
    1 <= precision <= 38 && s <= 38 && (s > 0 ==> scale <= precision)
}

/// The kind of column that a value makes, and the value in it. A missing value makes none.
pub open spec fn arrow_item(v: Value) -> Option<(ColumnKind, ArrowItem)> {
    match v {
        Value::Null => None,
        Value::Bit(v) => Some((ColumnKind::Boolean, ArrowItem::Boolean(v))),
        Value::TinyInt(v) => Some((ColumnKind::UInt8, ArrowItem::UInt8(v))),
        Value::SmallInt(v) => Some((ColumnKind::Int16, ArrowItem::Int16(v))),
        Value::Int(v) => Some((ColumnKind::Int32, ArrowItem::Int32(v))),
        Value::BigInt(v) => Some((ColumnKind::Int64, ArrowItem::Int64(v))),
        Value::Real(v) => Some((ColumnKind::Float32, ArrowItem::Float32(v))),
        Value::Float(v) => Some((ColumnKind::Float64, ArrowItem::Float64(v))),
        Value::String(b, e) => Some((ColumnKind::Utf8, ArrowItem::Text(text_of(b, e)))),
        Value::Bytes(b) => Some((ColumnKind::Binary, ArrowItem::Binary(b))),
        Value::Decimal(d) | Value::Numeric(d) => Some(
            (
                ColumnKind::Decimal128 { precision: d.precision, scale: d.scale as i8 },
                ArrowItem::Decimal128(spec_decimal_to_i128(d) as i128),
            ),
        ),
        Value::Date(d) => Some(
            (ColumnKind::Date32, ArrowItem::Date32((d as i32 - DAYS_0001_TO_UNIX) as i32)),
        ),
        Value::Time(t) => Some(
            (ColumnKind::Time64Microsecond, ArrowItem::Time64Microsecond(time_micros(t) as i64)),
        ),
        Value::DateTime(t) => Some(
            (
                ColumnKind::TimestampMicrosecond,
                ArrowItem::TimestampMicrosecond(datetime_micros(t.days, t.time) as i64),
            ),
        ),
        Value::SmallDateTime(t) => Some(
            (
                ColumnKind::TimestampMicrosecond,
                ArrowItem::TimestampMicrosecond(smalldatetime_micros(t.days, t.time) as i64),
            ),
        ),
        Value::DateTime2(t) => Some(
            (
                ColumnKind::TimestampMicrosecond,
                ArrowItem::TimestampMicrosecond(datetime2_micros(t.days, t.time) as i64),
            ),
        ),
        Value::DateTimeOffset(t) => Some(
            (
                ColumnKind::TimestampMicrosecondUtc,
                ArrowItem::TimestampMicrosecond(datetimeoffset_micros(t) as i64),
            ),
        ),
        Value::Money(m) => Some((ColumnKind::Float64, ArrowItem::Money(money_ten_thousandths(m)))),
        Value::SmallMoney(m) => Some((ColumnKind::Float64, ArrowItem::Money(m.int_val as i64))),
        Value::Uuid(b) => Some((ColumnKind::FixedSizeBinary16, ArrowItem::FixedSizeBinary16(b))),
        Value::Xml(b) => Some((ColumnKind::Utf8, ArrowItem::Xml(b))),
        Value::Json(b) => Some((ColumnKind::Utf8, ArrowItem::Json(b))),
        Value::Vector(b) => Some((ColumnKind::Utf8, ArrowItem::Vector(b))),
    }
}

/// Whether a value can be turned into a column's value: dates, times and decimal numbers that fit.
pub open spec fn convertible(v: Value) -> bool {
    match v {
        Value::Decimal(d) | Value::Numeric(d) => decimal_fits(d),
        Value::Date(d) => d as i32 - DAYS_0001_TO_UNIX >= i32::MIN,
        Value::DateTime(t) => i64::MIN <= (t.days - DAYS_1900_TO_UNIX) * MICROS_PER_DAY
            <= i64::MAX && datetime_micros(t.days, t.time) <= i64::MAX,
        Value::DateTime2(t) => i64::MIN <= (t.days - DAYS_0001_TO_UNIX) * MICROS_PER_DAY
            <= i64::MAX && datetime2_micros(t.days, t.time) <= i64::MAX,
        Value::DateTimeOffset(t) => i64::MIN <= (t.datetime2.days - DAYS_0001_TO_UNIX)
            * MICROS_PER_DAY <= i64::MAX && datetime2_micros(t.datetime2.days, t.datetime2.time)
            <= i64::MAX && i64::MIN <= datetimeoffset_micros(t) <= i64::MAX,
        _ => true,
    }
}

/// Whether a decimal number has at most 128 bits, and its number with its sign too.
fn decimal_is_convertible(parts: &DecimalParts) -> (b: bool)
    ensures
        b == decimal_fits(parts@),
{
    if parts.int_parts.len() > 4 {
        return false;
    }
    let wrapped: i128 = parts.to_u128() as i128;
    parts.is_positive || wrapped != i128::MIN
}

/// Whether a date in days since the year 1, and a time, can be counted in microseconds.
fn datetime2_is_convertible(days: u32, time: &SqlTime) -> (b: bool)
    ensures
        b == (i64::MIN <= (days - DAYS_0001_TO_UNIX) * MICROS_PER_DAY <= i64::MAX && datetime2_micros(
            days,
            *time,
        ) <= i64::MAX),
{
    let whole: i128 = (days as i128 - DAYS_0001_TO_UNIX as i128) * MICROS_PER_DAY as i128;
    let micros: i128 = whole + sql_time_to_micros(time) as i128;
    i64::MIN as i128 <= whole && whole <= i64::MAX as i128 && micros <= i64::MAX as i128
}

/// Whether a value can be turned into a column's value.
fn is_convertible(value: &ColumnValues) -> (b: bool)
    ensures
        b == convertible(value@),
{
    match value {
        ColumnValues::Decimal(d) => decimal_is_convertible(d),
        ColumnValues::Numeric(d) => decimal_is_convertible(d),
        ColumnValues::Date(d) => d.days as i32 as i64 - DAYS_0001_TO_UNIX as i64 >= i32::MIN as i64,
        ColumnValues::DateTime(t) => {
            let whole: i128 = (t.days as i128 - DAYS_1900_TO_UNIX as i128) * MICROS_PER_DAY as i128;
            let ticks: u64 = t.time as u64 * 1_000_000;
            let micros: i128 = whole + (ticks / 300) as i128;
            i64::MIN as i128 <= whole && whole <= i64::MAX as i128 && micros <= i64::MAX as i128
        },
        ColumnValues::DateTime2(t) => datetime2_is_convertible(t.days, &t.time),
        ColumnValues::DateTimeOffset(t) => {
            if !datetime2_is_convertible(t.datetime2.days, &t.datetime2.time) {
                return false;
            }
            let local: i128 = datetime2_to_epoch_micros(t.datetime2.days, &t.datetime2.time) as i128;
            let micros: i128 = local - t.offset as i128 * MICROS_PER_MINUTE as i128;
            i64::MIN as i128 <= micros && micros <= i64::MAX as i128
        },
        _ => true,
    }
}

/// Whether a column can be made for decimal numbers of this precision and scale.
fn is_decimal_type(precision: u8, scale: u8) -> (b: bool)
    ensures
        b == valid_decimal_type(precision, scale),
{
    let s: i8 = scale as i8;
    1 <= precision && precision <= 38 && s <= 38 && (s <= 0 || scale <= precision)
}

/// A column while it is filled. Its kind is known from the first value that is not missing; columns of
/// some kinds are kept as values until they are finished.
#[allow(inconsistent_fields)]
pub enum ColumnBuilder {
    Held { kind: Option<ColumnKind>, cells: Vec<Option<ArrowValue>> },
    Built { kind: ColumnKind, column: ArrowColumn },
}

impl ColumnKind {
    /// Whether the values of a column of this kind are kept until it is finished: floating-point numbers,
    /// of which the caller makes arrays, and text and bytes, of which an array holds a limited number.
    pub open spec fn spec_is_held(self) -> bool {
        match self {
            ColumnKind::Float32
            | ColumnKind::Float64
            | ColumnKind::Utf8
            | ColumnKind::Binary => true,
            _ => false,
        }
    }

    /// Whether the values of a column of this kind are kept until it is finished.
    #[verifier::when_used_as_spec(spec_is_held)]
    pub fn is_held(self) -> (b: bool)
        ensures
            b == self.spec_is_held(),
    {
        match self {
            ColumnKind::Float32
            | ColumnKind::Float64
            | ColumnKind::Utf8
            | ColumnKind::Binary => true,
            _ => false,
        }
    }

    /// Whether a value is one of a column of this kind.
    pub open spec fn has(self, item: ArrowItem) -> bool {
        match self {
            ColumnKind::Boolean => item is Boolean,
            ColumnKind::UInt8 => item is UInt8,
            ColumnKind::Int16 => item is Int16,
            ColumnKind::Int32 => item is Int32,
            ColumnKind::Int64 => item is Int64,
            ColumnKind::Float32 => item is Float32,
            ColumnKind::Float64 => item is Float64 || item is Money,
            ColumnKind::Decimal128 { .. } => item is Decimal128,
            ColumnKind::Utf8 => item is Text || item is Xml || item is Json || item is Vector,
            ColumnKind::Binary => item is Binary,
            ColumnKind::Date32 => item is Date32,
            ColumnKind::Time64Microsecond => item is Time64Microsecond,
            ColumnKind::TimestampMicrosecond
            | ColumnKind::TimestampMicrosecondUtc => item is TimestampMicrosecond,
            ColumnKind::FixedSizeBinary16 => item matches ArrowItem::FixedSizeBinary16(b) && b.len()
                == 16,
        }
    }
}

/// The contents of a column.
#[verifier::ext_equal]
pub struct ColumnView {
    pub kind: Option<ColumnKind>,
    pub cells: Seq<Option<ArrowItem>>,
}

/// The mathematical values of a column's values.
pub open spec fn items_of(cells: Seq<Option<ArrowValue>>) -> Seq<Option<ArrowItem>> {
    cells.map_values(
        |c: Option<ArrowValue>|
            match c {
                Some(v) => Some(v@),
                None => None::<ArrowItem>,
            },
    )
}

impl ColumnView {
    /// The column after `n` more missing values.
    pub open spec fn after_nulls(self, n: nat) -> ColumnView {
        ColumnView {
            cells: self.cells + Seq::new(n, |i: int| None::<ArrowItem>),
            ..self
        }
    }

    /// The column after a value: the first value that is not missing fixes the kind, and a value of
    /// another kind is dropped.
    pub open spec fn after(self, v: Value) -> ColumnView {
        match arrow_item(v) {
            None => ColumnView { cells: self.cells.push(None), ..self },
            Some((kind, item)) => match self.kind {
                None => ColumnView { kind: Some(kind), cells: self.cells.push(Some(item)) },
                Some(k) => if k.takes(kind) {
                    ColumnView { cells: self.cells.push(Some(item)), ..self }
                } else {
                    self
                },
            },
        }
    }
}

impl View for ColumnBuilder {
    type V = ColumnView;

    open spec fn view(&self) -> ColumnView {
        match self {
            ColumnBuilder::Held { kind, cells } => ColumnView { kind: *kind, cells: items_of(cells@) },
            ColumnBuilder::Built { kind, column } => ColumnView {
                kind: Some(*kind),
                cells: column_cells(*column),
            },
        }
    }
}

/// The type of a finished column.
#[derive(Clone, Copy, Debug, PartialEq, Eq, Structural)]
pub enum ArrowDataType {
    Null,
    Boolean,
    UInt8,
    Int16,
    Int32,
    Int64,
    Float32,
    Float64,
    Decimal128(u8, i8),
    Utf8,
    Binary,
    Date32,
    Time64Microsecond,
    /// Without a time zone.
    TimestampMicrosecond,
    /// With the time zone `+00:00`.
    TimestampMicrosecondUtc,
    FixedSizeBinary(i32),
}

/// The type of a finished column of this kind.
pub open spec fn data_type_of(kind: Option<ColumnKind>) -> ArrowDataType {
    match kind {
        None => ArrowDataType::Null,
        Some(ColumnKind::Boolean) => ArrowDataType::Boolean,
        Some(ColumnKind::UInt8) => ArrowDataType::UInt8,
        Some(ColumnKind::Int16) => ArrowDataType::Int16,
        Some(ColumnKind::Int32) => ArrowDataType::Int32,
        Some(ColumnKind::Int64) => ArrowDataType::Int64,
        Some(ColumnKind::Float32) => ArrowDataType::Float32,
        Some(ColumnKind::Float64) => ArrowDataType::Float64,
        Some(ColumnKind::Decimal128 { precision, scale }) => ArrowDataType::Decimal128(
            precision,
            scale,
        ),
        Some(ColumnKind::Utf8) => ArrowDataType::Utf8,
        Some(ColumnKind::Binary) => ArrowDataType::Binary,
        Some(ColumnKind::Date32) => ArrowDataType::Date32,
        Some(ColumnKind::Time64Microsecond) => ArrowDataType::Time64Microsecond,
        Some(ColumnKind::TimestampMicrosecond) => ArrowDataType::TimestampMicrosecond,
        Some(ColumnKind::TimestampMicrosecondUtc) => ArrowDataType::TimestampMicrosecondUtc,
        Some(ColumnKind::FixedSizeBinary16) => ArrowDataType::FixedSizeBinary(16),
    }
}

/// The name and type of a finished column. Every column may hold missing values.
#[derive(Debug)]
pub struct ArrowField {
    pub name: String,
    pub data_type: ArrowDataType,
    pub nullable: bool,
}

/// A scale keeps its bits as a signed number.
proof fn lemma_scale_bits(scale: u8)
    ensures
        scale as i8 as u8 == scale,
{
    assert(scale as i8 as u8 == scale) by (bit_vector);
}

/// A builder without values, for a column of a kind.
fn new_column(kind: ColumnKind) -> (c: ArrowColumn)
    requires
        !kind.is_held(),
        kind matches ColumnKind::Decimal128 { precision, scale } ==> valid_decimal_type(
            precision,
            scale as u8,
        ),
    ensures
        column_cells(c) == Seq::<Option<ArrowItem>>::empty(),
        column_type(c) == data_type_of(Some(kind)),
{
    match kind {
        ColumnKind::Boolean => boolean_column(),
        ColumnKind::UInt8 => uint8_column(),
        ColumnKind::Int16 => int16_column(),
        ColumnKind::Int32 => int32_column(),
        ColumnKind::Int64 => int64_column(),
        ColumnKind::Decimal128 { precision, scale } => {
            assert(scale as u8 as i8 == scale) by (bit_vector);
            decimal128_column(precision, scale as u8)
        },
        ColumnKind::Date32 => date32_column(),
        ColumnKind::Time64Microsecond => time64_column(),
        ColumnKind::TimestampMicrosecond => timestamp_column(),
        ColumnKind::TimestampMicrosecondUtc => timestamp_utc_column(),
        _ => guid_column(),
    }
}

/// Puts a missing value at the end of a column of a kind.
fn append_missing(c: &mut ArrowColumn, kind: ColumnKind)
    requires
        !kind.is_held(),
        column_type(*old(c)) == data_type_of(Some(kind)),
    ensures
        column_type(*final(c)) == column_type(*old(c)),
        column_cells(*final(c)) == column_cells(*old(c)).push(None),
{
    match kind {
        ColumnKind::Boolean => append_boolean(c, None),
        ColumnKind::UInt8 => append_uint8(c, None),
        ColumnKind::Int16 => append_int16(c, None),
        ColumnKind::Int32 => append_int32(c, None),
        ColumnKind::Int64 => append_int64(c, None),
        ColumnKind::Decimal128 { .. } => append_decimal128(c, None),
        ColumnKind::Date32 => append_date32(c, None),
        ColumnKind::Time64Microsecond => append_time64(c, None),
        ColumnKind::TimestampMicrosecond
        | ColumnKind::TimestampMicrosecondUtc => append_timestamp(c, None),
        _ => append_guid_null(c),
    }
}

/// Puts a value at the end of a column of a kind that has it.
fn append_present(c: &mut ArrowColumn, Ghost(kind): Ghost<ColumnKind>, value: ArrowValue)
    requires
        !kind.is_held(),
        kind.has(value@),
        column_type(*old(c)) == data_type_of(Some(kind)),
    ensures
        column_type(*final(c)) == column_type(*old(c)),
        column_cells(*final(c)) == column_cells(*old(c)).push(Some(value@)),
{
    match value {
        ArrowValue::Boolean(v) => append_boolean(c, Some(v)),
        ArrowValue::UInt8(v) => append_uint8(c, Some(v)),
        ArrowValue::Int16(v) => append_int16(c, Some(v)),
        ArrowValue::Int32(v) => append_int32(c, Some(v)),
        ArrowValue::Int64(v) => append_int64(c, Some(v)),
        ArrowValue::Decimal128(v) => append_decimal128(c, Some(v)),
        ArrowValue::Date32(v) => append_date32(c, Some(v)),
        ArrowValue::Time64Microsecond(v) => append_time64(c, Some(v)),
        ArrowValue::TimestampMicrosecond(v) => append_timestamp(c, Some(v)),
        ArrowValue::FixedSizeBinary16(v) => append_guid(c, v.bytes.as_slice()),
        _ => {
            assert(false);
        },
    }
}

/// The values of a finished column: an array, or the values of which the caller makes one.
pub enum ArrowContents {
    Array(ArrowArray),
    Cells(Vec<Option<ArrowValue>>),
}

impl View for ArrowContents {
    type V = Seq<Option<ArrowItem>>;

    open spec fn view(&self) -> Seq<Option<ArrowItem>> {
        match self {
            ArrowContents::Array(a) => array_cells(*a),
            ArrowContents::Cells(cells) => items_of(cells@),
        }
    }
}

impl ArrowContents {
    /// Whether a column of a kind is finished like this: an array of its type, or values where the caller
    /// makes the array, of floating-point numbers, and of documents and vectors among text.
    pub open spec fn finishes(self, kind: Option<ColumnKind>) -> bool {
        match self {
            ArrowContents::Array(a) => array_type(a) == data_type_of(kind),
            ArrowContents::Cells(cells) => match kind {
                Some(ColumnKind::Float32) | Some(ColumnKind::Float64) => true,
                Some(ColumnKind::Utf8) => !is_all_text(items_of(cells@)),
                _ => false,
            },
        }
    }
}

/// How many bytes the values of a column have in all.
pub open spec fn byte_count(cells: Seq<Option<ArrowItem>>) -> nat
    decreases cells.len(),
{
    if cells.len() == 0 {
        0
    } else {
        byte_count(cells.drop_last()) + (match cells.last() {
            Some(ArrowItem::Binary(b)) => b.len(),
            Some(ArrowItem::Text(t)) => encode_utf8(t).len(),
            _ => 0,
        })
    }
}

/// Whether the values of a column are all texts, or missing.
pub open spec fn is_all_text(cells: Seq<Option<ArrowItem>>) -> bool {
    forall|i: int| 0 <= i < cells.len() ==> (#[trigger] cells[i] matches Some(x) ==> x is Text)
}

/// The first values of a column do not have more bytes than all of them.
proof fn lemma_byte_count_grows(cells: Seq<Option<ArrowItem>>, n: int)
    requires
        0 <= n <= cells.len(),
    ensures
        byte_count(cells.take(n)) <= byte_count(cells),
    decreases cells.len() - n,
{
    if n < cells.len() {
        assert(cells.take(n + 1).drop_last() =~= cells.take(n));
        lemma_byte_count_grows(cells, n + 1);
    } else {
        assert(cells.take(n) =~= cells);
    }
}

/// Whether the bytes of a column's values fit an array.
fn fits_array(cells: &Vec<Option<ArrowValue>>) -> (b: bool)
    ensures
        b == (byte_count(items_of(cells@)) <= i32::MAX),
{
    let ghost items = items_of(cells@);
    let limit: usize = 0x7fff_ffff;
    let mut total: usize = 0;
    let mut i: usize = 0;
    assert(items.take(0) =~= Seq::<Option<ArrowItem>>::empty());
    while i < cells.len()
        invariant
            i <= cells@.len(),
            items == items_of(cells@),
            limit == i32::MAX,
            total <= limit,
            total == byte_count(items.take(i as int)),
        decreases cells@.len() - i,
    {
        let n: usize = match &cells[i] {
            Some(ArrowValue::Binary(b)) => b.len(),
            Some(ArrowValue::Text(t)) => t.as_str().as_bytes().len(),
            _ => 0,
        };
        proof {
            let longer = items.take(i + 1);
            assert(longer.drop_last() =~= items.take(i as int));
            assert(longer.last() == items[i as int]);
            lemma_byte_count_grows(items, i + 1);
        }
        if n > limit - total {
            return false;
        }
        total = total + n;
        i += 1;
    }
    assert(items.take(i as int) =~= items);
    true
}

/// The texts of a column, where its values are all texts.
fn texts_of(cells: &Vec<Option<ArrowValue>>) -> (v: Option<Vec<Option<String>>>)
    ensures
        v is Some == is_all_text(items_of(cells@)),
        v matches Some(texts) ==> texts@.map_values(
            |c: Option<String>|
                match c {
                    Some(t) => Some(ArrowItem::Text(t@)),
                    None => None::<ArrowItem>,
                },
        ) == items_of(cells@) && total_text_bytes(texts@) == byte_count(items_of(cells@)),
{
    let ghost items = items_of(cells@);
    let mut v: Vec<Option<String>> = Vec::new();
    let mut i: usize = 0;
    assert(items.take(0) =~= Seq::<Option<ArrowItem>>::empty());
    while i < cells.len()
        invariant
            i <= cells@.len(),
            items == items_of(cells@),
            v@.len() == i,
            forall|k: int| 0 <= k < i ==> (#[trigger] items[k] matches Some(x) ==> x is Text),
            forall|k: int|
                0 <= k < i ==> (match #[trigger] v@[k] {
                    Some(t) => Some(ArrowItem::Text(t@)),
                    None => None::<ArrowItem>,
                }) == items[k],
            total_text_bytes(v@) == byte_count(items.take(i as int)),
        decreases cells@.len() - i,
    {
        let ghost before = v@;
        let text: Option<String> = match &cells[i] {
            Some(ArrowValue::Text(t)) => Some(t.clone()),
            None => None,
            _ => {
                assert(items[i as int] is Some && !(items[i as int]->Some_0 is Text));
                return None;
            },
        };
        v.push(text);
        proof {
            assert(v@.drop_last() =~= before);
            let longer = items.take(i + 1);
            assert(longer.drop_last() =~= items.take(i as int));
            assert(longer.last() == items[i as int]);
        }
        i += 1;
    }
    proof {
        assert(items.take(i as int) =~= items);
        assert(v@.map_values(
            |c: Option<String>|
                match c {
                    Some(t) => Some(ArrowItem::Text(t@)),
                    None => None::<ArrowItem>,
                },
        ) =~= items);
    }
    Some(v)
}

impl ColumnView {
    /// Whether a column can be finished: an array holds a limited number of bytes.
    pub open spec fn finishable(self) -> bool {
        (self.kind == Some(ColumnKind::Binary) || self.kind == Some(ColumnKind::Utf8)) ==> byte_count(
            self.cells,
        ) <= i32::MAX
    }
}

/// The bytes of the values of a column.
fn bytes_of(cells: &Vec<Option<ArrowValue>>) -> (v: Vec<Option<Vec<u8>>>)
    requires
        forall|i: int|
            0 <= i < cells@.len() ==> (#[trigger] cells@[i] matches Some(x) ==> x is Binary),
    ensures
        v@.map_values(
            |c: Option<Vec<u8>>|
                match c {
                    Some(b) => Some(ArrowItem::Binary(b@)),
                    None => None::<ArrowItem>,
                },
        ) == items_of(cells@),
        total_bytes(v@) == byte_count(items_of(cells@)),
{
    let ghost items = items_of(cells@);
    let mut v: Vec<Option<Vec<u8>>> = Vec::new();
    let mut i: usize = 0;
    assert(items.take(0) =~= Seq::<Option<ArrowItem>>::empty());
    while i < cells.len()
        invariant
            i <= cells@.len(),
            items == items_of(cells@),
            v@.len() == i,
            forall|k: int|
                0 <= k < cells@.len() ==> (#[trigger] cells@[k] matches Some(x) ==> x is Binary),
            forall|k: int|
                0 <= k < i ==> (match #[trigger] v@[k] {
                    Some(b) => Some(ArrowItem::Binary(b@)),
                    None => None::<ArrowItem>,
                }) == items[k],
            total_bytes(v@) == byte_count(items.take(i as int)),
        decreases cells@.len() - i,
    {
        let ghost before = v@;
        assert(cells@[i as int] matches Some(x) ==> x is Binary);
        let bytes: Option<Vec<u8>> = match &cells[i] {
            Some(ArrowValue::Binary(b)) => Some(b.clone()),
            _ => None,
        };
        v.push(bytes);
        proof {
            assert(v@.drop_last() =~= before);
            let longer = items.take(i + 1);
            assert(longer.drop_last() =~= items.take(i as int));
            assert(longer.last() == items[i as int]);
        }
        i += 1;
    }
    proof {
        assert(items.take(i as int) =~= items);
        assert(v@.map_values(
            |c: Option<Vec<u8>>|
                match c {
                    Some(b) => Some(ArrowItem::Binary(b@)),
                    None => None::<ArrowItem>,
                },
        ) =~= items);
    }
    v
}

impl ColumnBuilder {
    /// A column without values, of a kind that is not yet known.
    pub fn new() -> (c: ColumnBuilder)
        ensures
            c@ == (ColumnView { kind: None, cells: Seq::empty() }),
            c.sound(),
    {
        let c = ColumnBuilder::Held { kind: None, cells: Vec::new() };
        assert(c@.cells =~= Seq::<Option<ArrowItem>>::empty());
        c
    }

    /// Whether the values fit the kind, and are kept where those of the kind are.
    pub open spec fn sound(self) -> bool {
        match self {
            ColumnBuilder::Held { kind, cells } => {
                &&& kind matches Some(k) ==> k.is_held()
                &&& forall|i: int|
                    0 <= i < cells@.len() ==> (#[trigger] cells@[i] matches Some(x) ==> kind matches Some(
                        k,
                    ) && k.has(x@))
            },
            ColumnBuilder::Built { kind, column } => !kind.is_held() && column_type(column)
                == data_type_of(Some(kind)),
        }
    }

    /// Puts `n` missing values at the end.
    pub fn append_nulls(&mut self, n: usize)
        requires
            old(self).sound(),
        ensures
            final(self).sound(),
            final(self)@ == old(self)@.after_nulls(n as nat),
    {
        let mut taken = ColumnBuilder::new();
        std::mem::swap(&mut taken, self);
        let ghost start = taken;
        match taken {
            ColumnBuilder::Held { kind, cells: kept } => {
                let mut cells = kept;
                let mut i: usize = 0;
                assert(items_of(cells@) =~= start@.after_nulls(0).cells);
                while i < n
                    invariant
                        i <= n,
                        items_of(cells@) == start@.after_nulls(i as nat).cells,
                        kind matches Some(k) ==> k.is_held(),
                        forall|j: int|
                            0 <= j < cells@.len() ==> (#[trigger] cells@[j] matches Some(x) ==> kind
                                matches Some(k) && k.has(x@)),
                    decreases n - i,
                {
                    let ghost before = cells@;
                    cells.push(None);
                    assert(items_of(cells@) =~= items_of(before).push(None));
                    assert(items_of(cells@) =~= start@.after_nulls((i + 1) as nat).cells);
                    i += 1;
                }
                *self = ColumnBuilder::Held { kind, cells };
            },
            ColumnBuilder::Built { kind, column: filled } => {
                let mut column = filled;
                let mut i: usize = 0;
                assert(column_cells(column) =~= start@.after_nulls(0).cells);
                while i < n
                    invariant
                        i <= n,
                        !kind.is_held(),
                        column_type(column) == data_type_of(Some(kind)),
                        column_cells(column) == start@.after_nulls(i as nat).cells,
                    decreases n - i,
                {
                    append_missing(&mut column, kind);
                    assert(column_cells(column) =~= start@.after_nulls((i + 1) as nat).cells);
                    i += 1;
                }
                *self = ColumnBuilder::Built { kind, column };
            },
        }
    }

    /// Puts a value at the end, where the column's kind takes it. The first value that is not missing fixes
    /// the kind; where Arrow's builder of the kind is filled, the missing values before it come first.
    fn append_value(&mut self, kind: ColumnKind, value: ArrowValue)
        requires
            old(self).sound(),
            kind.has(value@),
            old(self)@.kind is None ==> (kind matches ColumnKind::Decimal128 { precision, scale }
                ==> valid_decimal_type(precision, scale as u8)),
        ensures
            final(self).sound(),
            final(self)@ == (match old(self)@.kind {
                None => ColumnView {
                    kind: Some(kind),
                    cells: old(self)@.cells.push(Some(value@)),
                },
                Some(k) => if k.takes(kind) {
                    ColumnView { cells: old(self)@.cells.push(Some(value@)), ..old(self)@ }
                } else {
                    old(self)@
                },
            }),
    {
        let mut taken = ColumnBuilder::new();
        std::mem::swap(&mut taken, self);
        let ghost start = taken;
        match taken {
            ColumnBuilder::Held { kind: known, cells: kept } => {
                let mut cells = kept;
                match known {
                    Some(k) => {
                        if k.takes(kind) {
                            cells.push(Some(value));
                            assert(items_of(cells@) =~= start@.cells.push(Some(value@)));
                        }
                        *self = ColumnBuilder::Held { kind: known, cells };
                    },
                    None => {
                        if kind.is_held() {
                            cells.push(Some(value));
                            assert(items_of(cells@) =~= start@.cells.push(Some(value@)));
                            *self = ColumnBuilder::Held { kind: Some(kind), cells };
                        } else {
                            let n: usize = cells.len();
                            let mut column = new_column(kind);
                            let mut i: usize = 0;
                            assert(column_cells(column) =~= start@.cells.take(0));
                            while i < n
                                invariant
                                    i <= n,
                                    n == start@.cells.len(),
                                    !kind.is_held(),
                                    column_type(column) == data_type_of(Some(kind)),
                                    column_cells(column) == start@.cells.take(i as int),
                                    forall|j: int|
                                        0 <= j < start@.cells.len() ==> #[trigger] start@.cells[j] is None,
                                decreases n - i,
                            {
                                append_missing(&mut column, kind);
                                assert(start@.cells[i as int] is None);
                                assert(column_cells(column) =~= start@.cells.take(i + 1));
                                i += 1;
                            }
                            assert(start@.cells.take(n as int) =~= start@.cells);
                            append_present(&mut column, Ghost(kind), value);
                            *self = ColumnBuilder::Built { kind, column };
                        }
                    },
                }
            },
            ColumnBuilder::Built { kind: known, column: filled } => {
                let mut column = filled;
                if known.takes(kind) {
                    append_present(&mut column, Ghost(known), value);
                }
                *self = ColumnBuilder::Built { kind: known, column };
            },
        }
    }

    /// Whether the column can be finished.
    pub fn can_finish(&self) -> (b: bool)
        requires
            self.sound(),
        ensures
            b == self@.finishable(),
    {
        match self {
            ColumnBuilder::Held { kind: Some(ColumnKind::Binary), cells } => fits_array(cells),
            ColumnBuilder::Held { kind: Some(ColumnKind::Utf8), cells } => fits_array(cells),
            _ => true,
        }
    }

    /// The finished column: its name and type, and its values.
    pub fn into_field_and_array(self, name: &String) -> (r: (ArrowField, ArrowContents))
        requires
            self.sound(),
            self@.finishable(),
        ensures
            r.0.name@ == name@,
            r.0.data_type == data_type_of(self@.kind),
            r.0.nullable,
            r.1@ == self@.cells,
            r.1.finishes(self@.kind),
    {
        let ghost view = self@;
        match self {
            ColumnBuilder::Built { kind, column } => {
                let data_type = data_type(Some(kind));
                let array = finish_column(column);
                (ArrowField { name: name.clone(), data_type, nullable: true }, ArrowContents::Array(array))
            },
            ColumnBuilder::Held { kind, cells } => {
                let data_type = data_type(kind);
                let field = ArrowField { name: name.clone(), data_type, nullable: true };
                match kind {
                    None => {
                        let array = null_array(cells.len());
                        assert(array_cells(array) =~= view.cells);
                        (field, ArrowContents::Array(array))
                    },
                    Some(ColumnKind::Binary) => {
                        let bytes = bytes_of(&cells);
                        (field, ArrowContents::Array(binary_array(&bytes)))
                    },
                    Some(ColumnKind::Utf8) => match texts_of(&cells) {
                        Some(texts) => (field, ArrowContents::Array(string_array(texts))),
                        None => (field, ArrowContents::Cells(cells)),
                    },
                    Some(_) => (field, ArrowContents::Cells(cells)),
                }
            },
        }
    }
}

/// The type of a finished column of this kind.
fn data_type(kind: Option<ColumnKind>) -> (t: ArrowDataType)
    ensures
        t == data_type_of(kind),
{
    match kind {
        None => ArrowDataType::Null,
        Some(ColumnKind::Boolean) => ArrowDataType::Boolean,
        Some(ColumnKind::UInt8) => ArrowDataType::UInt8,
        Some(ColumnKind::Int16) => ArrowDataType::Int16,
        Some(ColumnKind::Int32) => ArrowDataType::Int32,
        Some(ColumnKind::Int64) => ArrowDataType::Int64,
        Some(ColumnKind::Float32) => ArrowDataType::Float32,
        Some(ColumnKind::Float64) => ArrowDataType::Float64,
        Some(ColumnKind::Decimal128 { precision, scale }) => ArrowDataType::Decimal128(
            precision,
            scale,
        ),
        Some(ColumnKind::Utf8) => ArrowDataType::Utf8,
        Some(ColumnKind::Binary) => ArrowDataType::Binary,
        Some(ColumnKind::Date32) => ArrowDataType::Date32,
        Some(ColumnKind::Time64Microsecond) => ArrowDataType::Time64Microsecond,
        Some(ColumnKind::TimestampMicrosecond) => ArrowDataType::TimestampMicrosecond,
        Some(ColumnKind::TimestampMicrosecondUtc) => ArrowDataType::TimestampMicrosecondUtc,
        Some(ColumnKind::FixedSizeBinary16) => ArrowDataType::FixedSizeBinary(16),
    }
}

/// The finished columns of a sink: the name and type of each, and its values.
pub struct ArrowBatch {
    pub fields: Vec<ArrowField>,
    pub columns: Vec<ArrowContents>,
}

/// A column with its name.
struct NamedColumn {
    name: String,
    builder: ColumnBuilder,
}

/// A sink that collects the values of each column. A column's kind is known from the first value
/// that is not missing.
pub struct ArrowRowWriter {
    columns: Vec<NamedColumn>,
}

impl View for ArrowRowWriter {
    type V = Seq<ColumnView>;

    /// The contents of the columns.
    closed spec fn view(&self) -> Seq<ColumnView> {
        self.columns@.map_values(|c: NamedColumn| c.builder@)
    }
}

impl ArrowRowWriter {
    /// Whether the values of each column fit its kind.
    pub closed spec fn sound(&self) -> bool {
        forall|i: int| 0 <= i < self.columns@.len() ==> (#[trigger] self.columns@[i]).builder.sound()
    }

    /// The names of the columns.
    pub closed spec fn names(&self) -> Seq<Seq<char>> {
        self.columns@.map_values(|c: NamedColumn| c.name@)
    }

    /// A sink with an empty column for each name.
    pub fn new(names: Vec<String>) -> (w: ArrowRowWriter)
        ensures
            w.sound(),
            w.names() == names@.map_values(|n: String| n@),
            w@ == Seq::new(names@.len(), |i: int| ColumnView { kind: None, cells: Seq::empty() }),
    {
        let mut columns: Vec<NamedColumn> = Vec::new();
        let mut i: usize = 0;
        while i < names.len()
            invariant
                i <= names@.len(),
                columns@.len() == i,
                forall|j: int|
                    0 <= j < i ==> (#[trigger] columns@[j]).builder@ == (ColumnView {
                        kind: None,
                        cells: Seq::empty(),
                    }) && columns@[j].name@ == names@[j]@ && columns@[j].builder.sound(),
            decreases names@.len() - i,
        {
            columns.push(NamedColumn { name: names[i].clone(), builder: ColumnBuilder::new() });
            i += 1;
        }
        let w = ArrowRowWriter { columns };
        assert(w@ =~= Seq::new(
            names@.len(),
            |i: int| ColumnView { kind: None, cells: Seq::empty() },
        ));
        assert(w.names() =~= names@.map_values(|n: String| n@));
        w
    }

    /// Whether a value can be written to a column.
    pub fn can_take(&self, col: usize, value: &ColumnValues) -> (b: bool)
        requires
            self.sound(),
        ensures
            b == self.accepts(col, value@),
    {
        if col >= self.columns.len() || !is_convertible(value) {
            return false;
        }
        assert(self@[col as int] == self.columns@[col as int].builder@);
        match &self.columns[col].builder {
            ColumnBuilder::Held { kind: None, .. } => match value {
                ColumnValues::Decimal(d) => is_decimal_type(d.precision, d.scale),
                ColumnValues::Numeric(d) => is_decimal_type(d.precision, d.scale),
                _ => true,
            },
            _ => true,
        }
    }

    /// Whether each column can be finished.
    pub fn can_finish(&self) -> (b: bool)
        requires
            self.sound(),
        ensures
            b == (forall|i: int| 0 <= i < self@.len() ==> (#[trigger] self@[i]).finishable()),
    {
        let mut i: usize = 0;
        while i < self.columns.len()
            invariant
                i <= self.columns@.len(),
                self.sound(),
                self@.len() == self.columns@.len(),
                forall|j: int| 0 <= j < i ==> (#[trigger] self@[j]).finishable(),
            decreases self.columns@.len() - i,
        {
            assert(self@[i as int] == self.columns@[i as int].builder@);
            if !self.columns[i].builder.can_finish() {
                return false;
            }
            i += 1;
        }
        true
    }

    /// The finished columns.
    pub fn finish(self) -> (b: ArrowBatch)
        requires
            self.sound(),
            forall|i: int| 0 <= i < self@.len() ==> (#[trigger] self@[i]).finishable(),
        ensures
            b.fields@.len() == self@.len(),
            b.columns@.len() == self@.len(),
            forall|i: int|
                0 <= i < self@.len() ==> {
                    &&& (#[trigger] b.fields@[i]).name@ == self.names()[i]
                    &&& b.fields@[i].data_type == data_type_of(self@[i].kind)
                    &&& b.fields@[i].nullable
                    &&& b.columns@[i]@ == self@[i].cells
                    &&& b.columns@[i].finishes(self@[i].kind)
                },
    {
        let ghost view = self@;
        let ghost names = self.names();
        let mut columns = self.columns;
        let ghost start = columns@;
        let mut fields: Vec<ArrowField> = Vec::new();
        let mut arrays: Vec<ArrowContents> = Vec::new();
        let mut i: usize = 0;
        let n: usize = columns.len();
        assert(columns@ =~= start.skip(0));
        while i < n
            invariant
                i <= n,
                n == start.len(),
                columns@ == start.skip(i as int),
                fields@.len() == i,
                arrays@.len() == i,
                view == start.map_values(|c: NamedColumn| c.builder@),
                names == start.map_values(|c: NamedColumn| c.name@),
                forall|j: int|
                    0 <= j < i ==> {
                        &&& (#[trigger] fields@[j]).name@ == names[j]
                        &&& fields@[j].data_type == data_type_of(view[j].kind)
                        &&& fields@[j].nullable
                        &&& arrays@[j]@ == view[j].cells
                        &&& arrays@[j].finishes(view[j].kind)
                    },
                forall|j: int| 0 <= j < start.len() ==> (#[trigger] start[j]).builder.sound(),
                forall|j: int| 0 <= j < view.len() ==> (#[trigger] view[j]).finishable(),
            decreases n - i,
        {
            let column = columns.remove(0);
            assert(columns@ =~= start.skip(i + 1));
            assert(column == start[i as int]);
            assert(column.builder@ == view[i as int]);
            assert(column.name@ == names[i as int]);
            let (field, array) = column.builder.into_field_and_array(&column.name);
            fields.push(field);
            arrays.push(array);
            i += 1;
        }
        ArrowBatch { fields, columns: arrays }
    }

    /// Puts a value at the end of a column, where the column's kind takes it.
    fn append(&mut self, col: usize, kind: ColumnKind, value: ArrowValue, v: Ghost<Value>)
        requires
            old(self).accepts(col, v@),
            arrow_item(v@) == Some((kind, value@)),
            kind.has(value@),
        ensures
            Self::wrote(*old(self), *final(self), col, v@),
            forall|c: usize, w: Value| #[trigger]
                old(self).accepts(c, w) ==> final(self).accepts(c, w),
    {
        assert(old(self).columns@[col as int].builder@ == old(self)@[col as int]);
        proof {
            if let Value::Decimal(d) | Value::Numeric(d) = v@ {
                lemma_scale_bits(d.scale);
            }
        }
        self.columns[col].builder.append_value(kind, value);
        proof {
            assert(self@ =~= old(self)@.update(col as int, old(self)@[col as int].after(v@)));
            assert(self.names() =~= old(self).names());
        }
    }
}

impl RowWriter for ArrowRowWriter {
    /// The column exists, the value can be converted, and a column can be made for it where there
    /// is none yet.
    open spec fn accepts(&self, col: usize, value: Value) -> bool {
        &&& self.sound()
        &&& col < self@.len()
        &&& convertible(value)
        &&& self@[col as int].kind is None ==> match value {
            Value::Decimal(d) | Value::Numeric(d) => valid_decimal_type(d.precision, d.scale),
            _ => true,
        }
    }

    /// The value goes to the end of the column; all else stays.
    open spec fn wrote(pre: ArrowRowWriter, post: ArrowRowWriter, col: usize, value: Value) -> bool {
        &&& post.sound()
        &&& post.names() == pre.names()
        &&& post@ == pre@.update(col as int, pre@[col as int].after(value))
    }

    /// Nothing is held back until the end of a row.
    open spec fn ended(pre: ArrowRowWriter, post: ArrowRowWriter) -> bool {
        post == pre
    }

    /// Values that were written stay.
    open spec fn cancelled(pre: ArrowRowWriter, post: ArrowRowWriter) -> bool {
        post == pre
    }

    fn write_null(&mut self, col: usize) {
        assert(old(self).columns@[col as int].builder.sound());
        self.columns[col].builder.append_nulls(1);
        proof {
            let c = old(self)@[col as int];
            assert(c.after_nulls(1).cells =~= c.after(Value::Null).cells);
            assert(self@ =~= old(self)@.update(col as int, c.after(Value::Null)));
            assert(self.names() =~= old(self).names());
        }
    }

    fn write_bool(&mut self, col: usize, val: bool) {
        let ghost v = Value::Bit(val);
        self.append(col, ColumnKind::Boolean, ArrowValue::Boolean(val), Ghost(v));
    }

    fn write_u8(&mut self, col: usize, val: u8) {
        let ghost v = Value::TinyInt(val);
        self.append(col, ColumnKind::UInt8, ArrowValue::UInt8(val), Ghost(v));
    }

    fn write_i16(&mut self, col: usize, val: i16) {
        let ghost v = Value::SmallInt(val);
        self.append(col, ColumnKind::Int16, ArrowValue::Int16(val), Ghost(v));
    }

    fn write_i32(&mut self, col: usize, val: i32) {
        let ghost v = Value::Int(val);
        self.append(col, ColumnKind::Int32, ArrowValue::Int32(val), Ghost(v));
    }

    fn write_i64(&mut self, col: usize, val: i64) {
        let ghost v = Value::BigInt(val);
        self.append(col, ColumnKind::Int64, ArrowValue::Int64(val), Ghost(v));
    }

    fn write_f32(&mut self, col: usize, val: SqlReal) {
        let ghost v = Value::Real(val.bits);
        self.append(col, ColumnKind::Float32, ArrowValue::Float32(val.bits), Ghost(v));
    }

    fn write_f64(&mut self, col: usize, val: SqlFloat) {
        let ghost v = Value::Float(val.bits);
        self.append(col, ColumnKind::Float64, ArrowValue::Float64(val.bits), Ghost(v));
    }

    fn write_string(&mut self, col: usize, val: SqlString) {
        let ghost v = Value::String(val.bytes@, val.encoding_type);
        self.append(col, ColumnKind::Utf8, ArrowValue::Text(val.to_utf8_string()), Ghost(v));
    }

    fn write_bytes(&mut self, col: usize, val: Vec<u8>) {
        let ghost v = Value::Bytes(val@);
        self.append(col, ColumnKind::Binary, ArrowValue::Binary(val), Ghost(v));
    }

    fn write_date(&mut self, col: usize, val: SqlDate) {
        let ghost v = Value::Date(val.days);
        self.append(
            col,
            ColumnKind::Date32,
            ArrowValue::Date32(tds_date_to_arrow_date32(val.get_days())),
            Ghost(v),
        );
    }

    fn write_time(&mut self, col: usize, val: SqlTime) {
        let ghost v = Value::Time(val);
        self.append(
            col,
            ColumnKind::Time64Microsecond,
            ArrowValue::Time64Microsecond(sql_time_to_micros(&val)),
            Ghost(v),
        );
    }

    fn write_datetime(&mut self, col: usize, val: SqlDateTime) {
        let ghost v = Value::DateTime(val);
        self.append(
            col,
            ColumnKind::TimestampMicrosecond,
            ArrowValue::TimestampMicrosecond(datetime_to_epoch_micros(val.days, val.time)),
            Ghost(v),
        );
    }

    fn write_smalldatetime(&mut self, col: usize, val: SqlSmallDateTime) {
        let ghost v = Value::SmallDateTime(val);
        self.append(
            col,
            ColumnKind::TimestampMicrosecond,
            ArrowValue::TimestampMicrosecond(smalldatetime_to_epoch_micros(val.days, val.time)),
            Ghost(v),
        );
    }

    fn write_datetime2(&mut self, col: usize, val: SqlDateTime2) {
        let ghost v = Value::DateTime2(val);
        self.append(
            col,
            ColumnKind::TimestampMicrosecond,
            ArrowValue::TimestampMicrosecond(datetime2_to_epoch_micros(val.days, &val.time)),
            Ghost(v),
        );
    }

    fn write_money(&mut self, col: usize, val: SqlMoney) {
        let ghost v = Value::Money(val);
        self.append(
            col,
            ColumnKind::Float64,
            ArrowValue::Money(sql_money_to_ten_thousandths(&val)),
            Ghost(v),
        );
    }

    fn write_smallmoney(&mut self, col: usize, val: SqlSmallMoney) {
        let ghost v = Value::SmallMoney(val);
        self.append(col, ColumnKind::Float64, ArrowValue::Money(val.int_val as i64), Ghost(v));
    }

    fn write_uuid(&mut self, col: usize, val: SqlGuid) {
        let ghost v = Value::Uuid(val.bytes@);
        self.append(
            col,
            ColumnKind::FixedSizeBinary16,
            ArrowValue::FixedSizeBinary16(val),
            Ghost(v),
        );
    }

    fn write_xml(&mut self, col: usize, val: SqlXml) {
        let ghost v = Value::Xml(val.bytes@);
        self.append(col, ColumnKind::Utf8, ArrowValue::Xml(val), Ghost(v));
    }

    fn write_json(&mut self, col: usize, val: SqlJson) {
        let ghost v = Value::Json(val.bytes@);
        self.append(col, ColumnKind::Utf8, ArrowValue::Json(val), Ghost(v));
    }

    fn write_vector(&mut self, col: usize, val: SqlVector) {
        let ghost v = Value::Vector(val@);
        self.append(col, ColumnKind::Utf8, ArrowValue::Vector(val), Ghost(v));
    }

    fn write_datetimeoffset(&mut self, col: usize, val: SqlDateTimeOffset) {
        let local_micros: i64 = datetime2_to_epoch_micros(val.datetime2.days, &val.datetime2.time);
        let offset_micros: i64 = val.offset as i64 * MICROS_PER_MINUTE;
        self.append(
            col,
            ColumnKind::TimestampMicrosecondUtc,
            ArrowValue::TimestampMicrosecond(local_micros - offset_micros),
            Ghost(Value::DateTimeOffset(val)),
        );
    }

    fn write_decimal(&mut self, col: usize, val: DecimalParts) {
        let kind = ColumnKind::Decimal128 { precision: val.precision, scale: val.scale as i8 };
        let number: i128 = decimal_parts_to_i128(&val);
        self.append(col, kind, ArrowValue::Decimal128(number), Ghost(Value::Decimal(val@)));
    }

    fn write_numeric(&mut self, col: usize, val: DecimalParts) {
        let kind = ColumnKind::Decimal128 { precision: val.precision, scale: val.scale as i8 };
        let number: i128 = decimal_parts_to_i128(&val);
        self.append(col, kind, ArrowValue::Decimal128(number), Ghost(Value::Numeric(val@)));
    }

    fn end_row(&mut self) {
    }

    fn cancel_row(&mut self) {
    }
}

/// Missing values before the first value do not fix a column's kind, and stay in front of it.
pub proof fn law_leading_nulls_kept(n: nat, v: Value)
    requires
        arrow_item(v) is Some,
    ensures
        ({
            let c = ColumnView { kind: None, cells: Seq::empty() }.after_nulls(n);
            let d = c.after(v);
            &&& c.kind is None
            &&& d.kind == Some(arrow_item(v)->Some_0.0)
            &&& d.cells == Seq::new(n, |i: int| None::<ArrowItem>).push(
                Some(arrow_item(v)->Some_0.1),
            )
        }),
{
    let e = Seq::<Option<ArrowItem>>::empty();
    assert(e + Seq::new(n, |i: int| None::<ArrowItem>) =~= Seq::new(n, |i: int| None::<ArrowItem>));
}

/// Once a column's kind is known it never changes.
pub proof fn law_kind_is_stable(c: ColumnView, v: Value)
    ensures
        c.kind is Some ==> c.after(v).kind == c.kind,
{
}

/// An amount of money counts ten-thousandths: its upper half counts 2^32, and its lower half is taken
/// without a sign.
pub proof fn law_money_item(m: SqlMoney)
    ensures
        arrow_item(Value::Money(m)) matches Some((kind, ArrowItem::Money(x))) && kind
            == ColumnKind::Float64 && x == m.msb_part * 0x1_0000_0000 + (if m.lsb_part >= 0 {
            m.lsb_part as int
        } else {
            m.lsb_part + 0x1_0000_0000
        }),
        forall|s: SqlSmallMoney|
            (#[trigger] arrow_item(Value::SmallMoney(s)) matches Some((kind, ArrowItem::Money(x))) && kind
                == ColumnKind::Float64 && x == s.int_val),
{
    let l = m.lsb_part;
    let h = m.msb_part;
    assert(((l as i64) & 0xFFFF_FFFFi64) | ((h as i64) << 32) == h * 0x1_0000_0000 + (if l >= 0 {
        l as int
    } else {
        l + 0x1_0000_0000
    })) by (bit_vector);
}

/// A decimal number is its magnitude, with its sign: in units of `10^-scale`, with the precision and the
/// scale as those of the column.
pub proof fn law_decimal_item(d: DecimalView, numeric: bool)
    requires
        d.int_parts.len() <= 4,
        magnitude(d.int_parts) <= i128::MAX,
        d.scale <= 127,
    ensures
        ({
            let v = if numeric {
                Value::Numeric(d)
            } else {
                Value::Decimal(d)
            };
            arrow_item(v) matches Some((ColumnKind::Decimal128 { precision, scale }, ArrowItem::Decimal128(x)))
                && precision == d.precision && scale == d.scale && x == (if d.is_positive {
                magnitude(d.int_parts) as int
            } else {
                -magnitude(d.int_parts)
            })
        }),
{
    let u = magnitude(d.int_parts) as u128;
    assert(u <= 0x7FFF_FFFF_FFFF_FFFF_FFFF_FFFF_FFFF_FFFFu128 ==> u as i128 == u) by (bit_vector);
    let s = d.scale;
    assert(s <= 127 ==> s as i8 == s) by (bit_vector);
}

/// Days count from 1970 in a column of dates, and from the year 1 or from 1900 in a value: 1969 years
/// with 477 leap days, or 70 years with 17.
pub proof fn law_date_items(days: u32, old: SqlDateTime, small: SqlSmallDateTime)
    requires
        days < 0x100_0000,
    ensures
        arrow_item(Value::Date(days)) matches Some((ColumnKind::Date32, ArrowItem::Date32(x))) && x
            == days - (1969 * 365 + 1969int / 4 - 1969int / 100 + 1969int / 400),
        convertible(Value::DateTime(old)) ==> (arrow_item(Value::DateTime(old)) matches Some(
            (ColumnKind::TimestampMicrosecond, ArrowItem::TimestampMicrosecond(x)),
        ) && ({
            let rest = x - (old.days - (70 * 365 + 17)) * (24 * 60 * 60 * 1_000_000);
            3 * rest <= old.time * 10_000 < 3 * rest + 3
        })),
        arrow_item(Value::SmallDateTime(small)) matches Some(
            (ColumnKind::TimestampMicrosecond, ArrowItem::TimestampMicrosecond(x)),
        ) && x == ((small.days - (70 * 365 + 17)) * (24 * 60) + small.time) * (60 * 1_000_000),
{
    assert(days < 0x100_0000u32 ==> days as i32 == days) by (bit_vector);
    let x = smalldatetime_micros(small.days, small.time);
    assert(x == (small.days - 25_567) * 86_400_000_000 + small.time * 60_000_000);
    assert(i64::MIN <= x <= i64::MAX);
    assert(x == ((small.days - 25_567) * 1_440 + small.time) * 60_000_000) by (nonlinear_arith)
        requires
            x == (small.days - 25_567) * 86_400_000_000 + small.time * 60_000_000,
    ;
    assert((old.time * 1_000_000) / 300 * 3 <= old.time * 10_000 < (old.time * 1_000_000) / 300 * 3 + 3);
}

/// A time of day is cut to microseconds; a date and time counts microseconds from 1970, and one with an
/// offset in minutes those of the time at the offset 0.
pub proof fn law_time_items(t: SqlTime, v: SqlDateTime2, z: SqlDateTimeOffset)
    ensures
        arrow_item(Value::Time(t)) matches Some(
            (ColumnKind::Time64Microsecond, ArrowItem::Time64Microsecond(x)),
        ) && x * 1000 <= t.time_nanoseconds < (x + 1) * 1000,
        convertible(Value::DateTime2(v)) ==> (arrow_item(Value::DateTime2(v)) matches Some(
            (ColumnKind::TimestampMicrosecond, ArrowItem::TimestampMicrosecond(x)),
        ) && ({
            let rest = x - (v.days - 719_162) * (24 * 60 * 60 * 1_000_000);
            rest * 1000 <= v.time.time_nanoseconds < (rest + 1) * 1000
        })),
        convertible(Value::DateTimeOffset(z)) ==> (arrow_item(Value::DateTimeOffset(z)) matches Some(
            (ColumnKind::TimestampMicrosecondUtc, ArrowItem::TimestampMicrosecond(x)),
        ) && ({
            let rest = x + z.offset * (60 * 1_000_000) - (z.datetime2.days - 719_162) * (24 * 60 * 60
                * 1_000_000);
            rest * 1000 <= z.datetime2.time.time_nanoseconds < (rest + 1) * 1000
        })),
{
}

/// The other values stand in their column as they are: numbers and bits in one of their own size, text as
/// text, documents and vectors in columns of text, and unique identifiers in sixteen bytes.
pub proof fn law_plain_items(v: Value)
    ensures
        v is Null == arrow_item(v) is None,
        v matches Value::Bit(x) ==> arrow_item(v) == Some((ColumnKind::Boolean, ArrowItem::Boolean(x))),
        v matches Value::TinyInt(x) ==> arrow_item(v) == Some((ColumnKind::UInt8, ArrowItem::UInt8(x))),
        v matches Value::SmallInt(x) ==> arrow_item(v) == Some((ColumnKind::Int16, ArrowItem::Int16(x))),
        v matches Value::Int(x) ==> arrow_item(v) == Some((ColumnKind::Int32, ArrowItem::Int32(x))),
        v matches Value::BigInt(x) ==> arrow_item(v) == Some((ColumnKind::Int64, ArrowItem::Int64(x))),
        v matches Value::Real(x) ==> arrow_item(v) == Some((ColumnKind::Float32, ArrowItem::Float32(x))),
        v matches Value::Float(x) ==> arrow_item(v) == Some((ColumnKind::Float64, ArrowItem::Float64(x))),
        v matches Value::String(b, e) ==> arrow_item(v) == Some(
            (ColumnKind::Utf8, ArrowItem::Text(text_of(b, e))),
        ),
        v matches Value::Bytes(b) ==> arrow_item(v) == Some((ColumnKind::Binary, ArrowItem::Binary(b))),
        v matches Value::Uuid(b) ==> arrow_item(v) == Some(
            (ColumnKind::FixedSizeBinary16, ArrowItem::FixedSizeBinary16(b)),
        ),
        v matches Value::Xml(b) ==> arrow_item(v) == Some((ColumnKind::Utf8, ArrowItem::Xml(b))),
        v matches Value::Json(b) ==> arrow_item(v) == Some((ColumnKind::Utf8, ArrowItem::Json(b))),
        v matches Value::Vector(b) ==> arrow_item(v) == Some((ColumnKind::Utf8, ArrowItem::Vector(b))),
{
}

/// A column takes one cell for every value of its kind and for every missing one, and stays as it is where
/// the value is of another kind. The first value that is not missing says what kind that is; of decimal
/// columns precision and scale do not count.
pub proof fn law_column_takes(c: ColumnView, v: Value)
    ensures
        v is Null ==> c.after(v).kind == c.kind && c.after(v).cells == c.cells.push(None),
        arrow_item(v) matches Some((kind, item)) ==> ({
            let fits = c.kind is None || c.kind == Some(kind) || (c.kind matches Some(
                ColumnKind::Decimal128 { .. },
            ) && kind is Decimal128);
            &&& fits ==> c.after(v).cells == c.cells.push(Some(item))
            &&& !fits ==> c.after(v) == c
            &&& c.kind is None ==> c.after(v).kind == Some(kind)
            &&& c.kind is Some ==> c.after(v).kind == c.kind
        }),
{
}

/// The type of a finished column is that of its kind: fractions of a second are microseconds, times with an
/// offset are at the offset 0, unique identifiers have sixteen bytes, and a column without a value has none.
pub proof fn law_column_types(kind: ColumnKind)
    ensures
        data_type_of(None) == ArrowDataType::Null,
        ({
            let t = data_type_of(Some(kind));
            &&& kind is Boolean == t is Boolean
            &&& kind is UInt8 == t is UInt8
            &&& kind is Int16 == t is Int16
            &&& kind is Int32 == t is Int32
            &&& kind is Int64 == t is Int64
            &&& kind is Float32 == t is Float32
            &&& kind is Float64 == t is Float64
            &&& kind is Utf8 == t is Utf8
            &&& kind is Binary == t is Binary
            &&& kind is Date32 == t is Date32
            &&& kind is Time64Microsecond == t is Time64Microsecond
            &&& kind is TimestampMicrosecond == t is TimestampMicrosecond
            &&& kind is TimestampMicrosecondUtc == t is TimestampMicrosecondUtc
            &&& kind is FixedSizeBinary16 == (t == ArrowDataType::FixedSizeBinary(16))
            &&& kind matches ColumnKind::Decimal128 { precision, scale } ==> t
                == ArrowDataType::Decimal128(precision, scale)
        }),
{
}

/// The bytes of a column's data and text add up, and other values have none of them.
pub proof fn law_byte_count(a: Seq<Option<ArrowItem>>, b: Seq<Option<ArrowItem>>)
    ensures
        byte_count(a + b) == byte_count(a) + byte_count(b),
    decreases b.len(),
{
    if b.len() == 0 {
        assert(a + b =~= a);
    } else {
        law_byte_count(a, b.drop_last());
        assert((a + b).drop_last() =~= a + b.drop_last());
    }
}

/// One value counts the bytes that it holds, and text those of its UTF-8. No more than 2147483647 bytes go
/// into a column.
pub proof fn law_bytes_of_one(b: Seq<u8>, t: Seq<char>, x: Option<ArrowItem>)
    ensures
        byte_count(seq![Some(ArrowItem::Binary(b))]) == b.len(),
        byte_count(seq![Some(ArrowItem::Text(t))]) == encode_utf8(t).len(),
        !(x matches Some(ArrowItem::Binary(_))) && !(x matches Some(ArrowItem::Text(_))) ==> byte_count(
            seq![x],
        ) == 0,
        ({
            let c = ColumnView {
                kind: Some(ColumnKind::Binary),
                cells: seq![Some(ArrowItem::Binary(b))],
            };
            c.finishable() == (b.len() <= 2147483647)
        }),
{
    reveal_with_fuel(byte_count, 2);
    assert(seq![Some(ArrowItem::Binary(b))].drop_last() =~= Seq::<Option<ArrowItem>>::empty());
    assert(seq![Some(ArrowItem::Text(t))].drop_last() =~= Seq::<Option<ArrowItem>>::empty());
    assert(seq![x].drop_last() =~= Seq::<Option<ArrowItem>>::empty());
}

/// A column is made for decimal numbers of one to 38 digits, no more of them behind the point than there are.
pub proof fn law_decimal_types(precision: u8, scale: u8)
    requires
        scale < 128,
    ensures
        valid_decimal_type(precision, scale) == (0 < precision < 39 && scale <= precision),
{
}

/// Every value of a calendar goes into a column, up to the year 9999 and in any time of a day, and so does
/// every decimal number of four parts that is below `2^127`, and every value that is neither.
pub proof fn law_values_fit(v: Value)
    requires
        v matches Value::Date(d) ==> d <= 3_652_058,
        v matches Value::DateTime(t) ==> -53_690 <= t.days <= 2_958_463,
        v matches Value::DateTime2(t) ==> t.days <= 3_652_058 && t.time.time_nanoseconds
            < 86_400_000_000_000,
        v matches Value::DateTimeOffset(t) ==> t.datetime2.days <= 3_652_058
            && t.datetime2.time.time_nanoseconds < 86_400_000_000_000,
        v matches Value::Decimal(d) ==> d.int_parts.len() <= 4 && magnitude(d.int_parts) <= i128::MAX,
        v matches Value::Numeric(d) ==> d.int_parts.len() <= 4 && magnitude(d.int_parts) <= i128::MAX,
    ensures
        convertible(v),
{
    match v {
        Value::Decimal(d) => {
            let u = magnitude(d.int_parts) as u128;
            assert(u <= 0x7FFF_FFFF_FFFF_FFFF_FFFF_FFFF_FFFF_FFFFu128 ==> u as i128 == u) by (bit_vector);
        },
        Value::Numeric(d) => {
            let u = magnitude(d.int_parts) as u128;
            assert(u <= 0x7FFF_FFFF_FFFF_FFFF_FFFF_FFFF_FFFF_FFFFu128 ==> u as i128 == u) by (bit_vector);
        },
        _ => {},
    }
}

/// A value that is written to a column changes that column alone: it goes to the end where the column takes
/// it, and the values before it stay. The end of a row and giving one up change nothing.
pub proof fn law_cells_go_to_their_column(
    pre: ArrowRowWriter,
    post: ArrowRowWriter,
    col: usize,
    value: Value,
    other: int,
)
    requires
        ArrowRowWriter::wrote(pre, post, col, value),
        col < pre@.len(),
        0 <= other < pre@.len(),
    ensures
        post@.len() == pre@.len(),
        other != col ==> post@[other] == pre@[other],
        pre@[col as int].cells.is_prefix_of(post@[col as int].cells),
        pre@[col as int].kind is None || value is Null ==> post@[col as int].cells.len() == pre@[col as int].cells.len()
            + 1,
        value is Null ==> post@[col as int].cells.last() is None,
        !(value is Null) && pre@[col as int].kind is None ==> post@[col as int].cells.last() == Some(
            arrow_item(value)->Some_0.1,
        ),
        ArrowRowWriter::ended(post, pre) ==> pre == post,
        ArrowRowWriter::cancelled(post, pre) ==> pre == post,
{
    let a = pre@[col as int];
    let b = post@[col as int];
    assert(b == a.after(value));
    assert(a.cells =~= b.cells.take(a.cells.len() as int));
}

/// A sound writer takes every value that can be turned into one of a column's, to each of its columns; the
/// first decimal number of a column must be of a type that a column can be made for.
pub proof fn law_writer_takes_values(w: ArrowRowWriter, col: usize, v: Value)
    requires
        w.sound(),
        col < w@.len(),
        convertible(v),
    ensures
        !(v is Decimal) && !(v is Numeric) ==> w.accepts(col, v),
        w@[col as int].kind is Some ==> w.accepts(col, v),
        v matches Value::Decimal(d) ==> (0 < d.precision < 39 && d.scale <= d.precision ==> w.accepts(col, v)),
        v matches Value::Numeric(d) ==> (0 < d.precision < 39 && d.scale <= d.precision ==> w.accepts(col, v)),
{
    match v {
        Value::Decimal(d) => {
            if d.scale < 128 {
                law_decimal_types(d.precision, d.scale);
            }
        },
        Value::Numeric(d) => {
            if d.scale < 128 {
                law_decimal_types(d.precision, d.scale);
            }
        },
        _ => {},
    }
}

/// A column is finished as an array of its type, or as values where they are floating-point numbers, or text
/// among which there are documents or vectors.
pub proof fn law_finished_columns(c: ArrowContents, kind: Option<ColumnKind>)
    requires
        c.finishes(kind),
    ensures
        c matches ArrowContents::Array(a) ==> array_type(a) == data_type_of(kind),
        c matches ArrowContents::Cells(cells) ==> kind == Some(ColumnKind::Float32) || kind == Some(
            ColumnKind::Float64,
        ) || (kind == Some(ColumnKind::Utf8) && exists|i: int|
            0 <= i < cells@.len() && (#[trigger] cells@[i] matches Some(x) && !(x@ is Text))),
{
    if let ArrowContents::Cells(cells) = c {
        if kind == Some(ColumnKind::Utf8) {
            let items = items_of(cells@);
            let i = choose|i: int|
                0 <= i < items.len() && !(#[trigger] items[i] matches Some(x) ==> x is Text);
            assert(cells@[i] is Some);
        }
    }
}

} // verus!

//! The values of a row's columns.

use crate::datatypes::decimal::{DecimalParts, DecimalView};
use crate::datatypes::sql_string::{EncodingType, SqlString};
use crate::datatypes::sql_vector::SqlVector;
use crate::error::{Error, ErrorKind, TdsResult};
use crate::text::number_message;
use vstd::prelude::*;

verus! {

/// A single-precision number, as its IEEE 754 bit pattern.
#[derive(Clone, Copy, Debug, PartialEq, Eq, Structural)]
pub struct SqlReal {
    pub bits: u32,
}

/// A double-precision number, as its IEEE 754 bit pattern.
#[derive(Clone, Copy, Debug, PartialEq, Eq, Structural)]
pub struct SqlFloat {
    pub bits: u64,
}

/// A date, as days since the first of January of the year 1.
#[derive(Clone, Copy, Debug, PartialEq, Eq, Structural)]
pub struct SqlDate {
    pub days: u32,
}

/// The last date: the 31st of December of the year 9999.
pub const MAX_DATE_DAYS: u32 = 3652058;

impl SqlDate {
    /// The date so many days after the first; a usage error past the last date.
    pub fn create(days: u32) -> (r: TdsResult<SqlDate>)
        ensures
            days <= MAX_DATE_DAYS ==> r == Ok::<SqlDate, Error>(SqlDate { days }),
            days > MAX_DATE_DAYS ==> (r matches Err(e) && e.kind() == ErrorKind::Usage),
    {
        if days > MAX_DATE_DAYS {
            Err(Error::UsageError(number_message("Date out of range: ", days as u128, " days")))
        } else {
            Ok(SqlDate { days })
        }
    }

    /// The date so many days after the first, unchecked.
    pub fn unchecked_create(days: u32) -> (d: SqlDate)
        ensures
            d == (SqlDate { days }),
    {
        SqlDate { days }
    }

    /// Days since the first date.
    pub fn get_days(&self) -> (days: u32)
        ensures
            days == self.days,
    {
        self.days
    }
}

/// A time of day as a count from midnight on, with the scale of its column. In messages it counts units of
/// 100 nanoseconds; in columns for Arrow it is taken to count nanoseconds.
#[derive(Clone, Copy, Debug, PartialEq, Eq, Structural)]
pub struct SqlTime {
    pub time_nanoseconds: u64,
    pub scale: u8,
}

/// A legacy date and time: days since 1900 and ticks of 1/300 second.
#[derive(Clone, Copy, Debug, PartialEq, Eq, Structural)]
pub struct SqlDateTime {
    pub days: i32,
    pub time: u32,
}

/// A legacy date and time: days since 1900 and minutes.
#[derive(Clone, Copy, Debug, PartialEq, Eq, Structural)]
pub struct SqlSmallDateTime {
    pub days: u16,
    pub time: u16,
}

/// A date and a time of day.
#[derive(Clone, Copy, Debug, PartialEq, Eq, Structural)]
pub struct SqlDateTime2 {
    pub days: u32,
    pub time: SqlTime,
}

/// A date, a time of day, and an offset from UTC in minutes.
#[derive(Clone, Copy, Debug, PartialEq, Eq, Structural)]
pub struct SqlDateTimeOffset {
    pub datetime2: SqlDateTime2,
    pub offset: i16,
}

/// An amount of money, in ten-thousandths: the two halves of a 64-bit number.
#[derive(Clone, Copy, Debug, PartialEq, Eq, Structural)]
pub struct SqlMoney {
    pub lsb_part: i32,
    pub msb_part: i32,
}

impl From<(i32, i32)> for SqlMoney {
    fn from(parts: (i32, i32)) -> (m: SqlMoney) {
        SqlMoney { lsb_part: parts.0, msb_part: parts.1 }
    }
}

impl vstd::std_specs::convert::FromSpecImpl<(i32, i32)> for SqlMoney {
    open spec fn obeys_from_spec() -> bool {
        true
    }

    open spec fn from_spec(parts: (i32, i32)) -> SqlMoney {
        SqlMoney { lsb_part: parts.0, msb_part: parts.1 }
    }
}

/// An amount of money, in ten-thousandths.
#[derive(Clone, Copy, Debug, PartialEq, Eq, Structural)]
pub struct SqlSmallMoney {
    pub int_val: i32,
}

impl From<i32> for SqlSmallMoney {
    fn from(int_val: i32) -> (m: SqlSmallMoney) {
        SqlSmallMoney { int_val }
    }
}

impl vstd::std_specs::convert::FromSpecImpl<i32> for SqlSmallMoney {
    open spec fn obeys_from_spec() -> bool {
        true
    }

    open spec fn from_spec(int_val: i32) -> SqlSmallMoney {
        SqlSmallMoney { int_val }
    }
}

/// A unique identifier: its 16 bytes in the order in which it is written down.
#[derive(Clone, Copy, Debug, PartialEq, Eq)]
pub struct SqlGuid {
    pub bytes: [u8; 16],
}

/// An XML document, as the server sends it.
#[derive(Clone, Debug, PartialEq, Eq)]
pub struct SqlXml {
    pub bytes: Vec<u8>,
}

impl SqlXml {
    /// Whether the document starts with the byte order mark of UTF-16.
    pub fn has_bom(&self) -> (b: bool)
        ensures
            b == (self.bytes@.len() >= 2 && self.bytes@[0] == 0xFF && self.bytes@[1] == 0xFE),
    {
        self.bytes.len() >= 2 && self.bytes[0] == 0xFF && self.bytes[1] == 0xFE
    }
}

/// A JSON document, as the server sends it.
#[derive(Clone, Debug, PartialEq, Eq)]
pub struct SqlJson {
    pub bytes: Vec<u8>,
}

impl SqlJson {
    /// A document made of these bytes.
    pub fn new(bytes: Vec<u8>) -> (j: SqlJson)
        ensures
            j == (SqlJson { bytes }),
    {
        SqlJson { bytes }
    }
}

/// The value of a column.
#[derive(Clone, Debug, PartialEq)]
pub enum ColumnValues {
    Null,
    Bit(bool),
    TinyInt(u8),
    SmallInt(i16),
    Int(i32),
    BigInt(i64),
    Real(SqlReal),
    Float(SqlFloat),
    String(SqlString),
    Bytes(Vec<u8>),
    Decimal(DecimalParts),
    Numeric(DecimalParts),
    Date(SqlDate),
    Time(SqlTime),
    DateTime(SqlDateTime),
    SmallDateTime(SqlSmallDateTime),
    DateTime2(SqlDateTime2),
    DateTimeOffset(SqlDateTimeOffset),
    Money(SqlMoney),
    SmallMoney(SqlSmallMoney),
    Uuid(SqlGuid),
    Xml(SqlXml),
    Json(SqlJson),
    Vector(SqlVector),
}

/// The mathematical value of a column.
#[verifier::ext_equal]
pub enum Value {
    Null,
    Bit(bool),
    TinyInt(u8),
    SmallInt(i16),
    Int(i32),
    BigInt(i64),
    Real(u32),
    Float(u64),
    String(Seq<u8>, EncodingType),
    Bytes(Seq<u8>),
    Decimal(DecimalView),
    Numeric(DecimalView),
    Date(u32),
    Time(SqlTime),
    DateTime(SqlDateTime),
    SmallDateTime(SqlSmallDateTime),
    DateTime2(SqlDateTime2),
    DateTimeOffset(SqlDateTimeOffset),
    Money(SqlMoney),
    SmallMoney(SqlSmallMoney),
    Uuid(Seq<u8>),
    Xml(Seq<u8>),
    Json(Seq<u8>),
    Vector(Seq<u32>),
}

impl View for ColumnValues {
    type V = Value;

    open spec fn view(&self) -> Value {
        match self {
            ColumnValues::Null => Value::Null,
            ColumnValues::Bit(v) => Value::Bit(*v),
            ColumnValues::TinyInt(v) => Value::TinyInt(*v),
            ColumnValues::SmallInt(v) => Value::SmallInt(*v),
            ColumnValues::Int(v) => Value::Int(*v),
            ColumnValues::BigInt(v) => Value::BigInt(*v),
            ColumnValues::Real(v) => Value::Real(v.bits),
            ColumnValues::Float(v) => Value::Float(v.bits),
            ColumnValues::String(v) => Value::String(v.bytes@, v.encoding_type),
            ColumnValues::Bytes(v) => Value::Bytes(v@),
            ColumnValues::Decimal(v) => Value::Decimal(v@),
            ColumnValues::Numeric(v) => Value::Numeric(v@),
            ColumnValues::Date(v) => Value::Date(v.days),
            ColumnValues::Time(v) => Value::Time(*v),
            ColumnValues::DateTime(v) => Value::DateTime(*v),
            ColumnValues::SmallDateTime(v) => Value::SmallDateTime(*v),
            ColumnValues::DateTime2(v) => Value::DateTime2(*v),
            ColumnValues::DateTimeOffset(v) => Value::DateTimeOffset(*v),
            ColumnValues::Money(v) => Value::Money(*v),
            ColumnValues::SmallMoney(v) => Value::SmallMoney(*v),
            ColumnValues::Uuid(v) => Value::Uuid(v.bytes@),
            ColumnValues::Xml(v) => Value::Xml(v.bytes@),
            ColumnValues::Json(v) => Value::Json(v.bytes@),
            ColumnValues::Vector(v) => Value::Vector(v@),
        }
    }
}

impl From<u8> for ColumnValues {
    fn from(value: u8) -> (v: ColumnValues) {
        ColumnValues::TinyInt(value)
    }
}

impl vstd::std_specs::convert::FromSpecImpl<u8> for ColumnValues {
    open spec fn obeys_from_spec() -> bool {
        true
    }

    open spec fn from_spec(value: u8) -> ColumnValues {
        ColumnValues::TinyInt(value)
    }
}

impl From<i32> for ColumnValues {
    fn from(value: i32) -> (v: ColumnValues) {
        ColumnValues::Int(value)
    }
}

impl vstd::std_specs::convert::FromSpecImpl<i32> for ColumnValues {
    open spec fn obeys_from_spec() -> bool {
        true
    }

    open spec fn from_spec(value: i32) -> ColumnValues {
        ColumnValues::Int(value)
    }
}

} // verus!

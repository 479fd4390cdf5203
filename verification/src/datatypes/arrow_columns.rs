//! Columns that are filled with the builders of the `arrow_array` crate.

use crate::datatypes::arrow_writer::{valid_decimal_type, ArrowDataType, ArrowItem};
use arrow_array::builder::{
    ArrayBuilder, BooleanBuilder, Date32Builder, Decimal128Builder, FixedSizeBinaryBuilder,
    Int16Builder, Int32Builder, Int64Builder, Time64MicrosecondBuilder,
    TimestampMicrosecondBuilder, UInt8Builder,
};
use arrow_array::{new_null_array, ArrayRef, BinaryArray, StringArray};
use arrow_schema::DataType;
use std::sync::Arc;
use vstd::prelude::*;
use vstd::utf8::encode_utf8;

verus! {

/// A column that is filled: one of the builders of `arrow_array`.
#[verifier::external_body]
pub struct ArrowColumn {
    builder: Box<dyn ArrayBuilder>,
}

/// A finished column: an array of `arrow_array`.
#[verifier::external_body]
pub struct ArrowArray {
    pub array: ArrayRef,
}

/// The values that a builder holds, in order; some are missing.
pub uninterp spec fn column_cells(c: ArrowColumn) -> Seq<Option<ArrowItem>>;

/// The type of the array that a builder makes.
pub uninterp spec fn column_type(c: ArrowColumn) -> ArrowDataType;

/// The values of an array, in order; some are missing.
pub uninterp spec fn array_cells(a: ArrowArray) -> Seq<Option<ArrowItem>>;

/// The type of an array.
pub uninterp spec fn array_type(a: ArrowArray) -> ArrowDataType;

/// Calls `BooleanBuilder::new`: an empty builder.
#[verifier::external_body]
pub(crate) fn boolean_column() -> (c: ArrowColumn)
    ensures
        column_cells(c) == Seq::<Option<ArrowItem>>::empty(),
        column_type(c) == ArrowDataType::Boolean,
{
    ArrowColumn { builder: Box::new(BooleanBuilder::new()) }
}

/// Calls `UInt8Builder::new`: an empty builder.
#[verifier::external_body]
pub(crate) fn uint8_column() -> (c: ArrowColumn)
    ensures
        column_cells(c) == Seq::<Option<ArrowItem>>::empty(),
        column_type(c) == ArrowDataType::UInt8,
{
    ArrowColumn { builder: Box::new(UInt8Builder::new()) }
}

/// Calls `Int16Builder::new`: an empty builder.
#[verifier::external_body]
pub(crate) fn int16_column() -> (c: ArrowColumn)
    ensures
        column_cells(c) == Seq::<Option<ArrowItem>>::empty(),
        column_type(c) == ArrowDataType::Int16,
{
    ArrowColumn { builder: Box::new(Int16Builder::new()) }
}

/// Calls `Int32Builder::new`: an empty builder.
#[verifier::external_body]
pub(crate) fn int32_column() -> (c: ArrowColumn)
    ensures
        column_cells(c) == Seq::<Option<ArrowItem>>::empty(),
        column_type(c) == ArrowDataType::Int32,
{
    ArrowColumn { builder: Box::new(Int32Builder::new()) }
}

/// Calls `Int64Builder::new`: an empty builder.
#[verifier::external_body]
pub(crate) fn int64_column() -> (c: ArrowColumn)
    ensures
        column_cells(c) == Seq::<Option<ArrowItem>>::empty(),
        column_type(c) == ArrowDataType::Int64,
{
    ArrowColumn { builder: Box::new(Int64Builder::new()) }
}

/// Calls `Date32Builder::new`: an empty builder.
#[verifier::external_body]
pub(crate) fn date32_column() -> (c: ArrowColumn)
    ensures
        column_cells(c) == Seq::<Option<ArrowItem>>::empty(),
        column_type(c) == ArrowDataType::Date32,
{
    ArrowColumn { builder: Box::new(Date32Builder::new()) }
}

/// Calls `Time64MicrosecondBuilder::new`: an empty builder.
#[verifier::external_body]
pub(crate) fn time64_column() -> (c: ArrowColumn)
    ensures
        column_cells(c) == Seq::<Option<ArrowItem>>::empty(),
        column_type(c) == ArrowDataType::Time64Microsecond,
{
    ArrowColumn { builder: Box::new(Time64MicrosecondBuilder::new()) }
}

/// Calls `Decimal128Builder::new` and `with_precision_and_scale`, which accepts the precisions and scales
/// that a number of 128 bits can have: an empty builder.
#[verifier::external_body]
pub(crate) fn decimal128_column(precision: u8, scale: u8) -> (c: ArrowColumn)
    requires
        valid_decimal_type(precision, scale),
    ensures
        column_cells(c) == Seq::<Option<ArrowItem>>::empty(),
        column_type(c) == ArrowDataType::Decimal128(precision, scale as i8),
{
    let builder = Decimal128Builder::new().with_precision_and_scale(precision, scale as i8);
    ArrowColumn { builder: Box::new(builder.unwrap()) }
}

/// Calls `TimestampMicrosecondBuilder::new`: an empty builder, for times without a zone.
#[verifier::external_body]
pub(crate) fn timestamp_column() -> (c: ArrowColumn)
    ensures
        column_cells(c) == Seq::<Option<ArrowItem>>::empty(),
        column_type(c) == ArrowDataType::TimestampMicrosecond,
{
    ArrowColumn { builder: Box::new(TimestampMicrosecondBuilder::new()) }
}

/// Calls `TimestampMicrosecondBuilder::new` and `with_timezone`: an empty builder, for times with the zone
/// `+00:00`.
#[verifier::external_body]
pub(crate) fn timestamp_utc_column() -> (c: ArrowColumn)
    ensures
        column_cells(c) == Seq::<Option<ArrowItem>>::empty(),
        column_type(c) == ArrowDataType::TimestampMicrosecondUtc,
{
    ArrowColumn { builder: Box::new(TimestampMicrosecondBuilder::new().with_timezone("+00:00")) }
}

/// Calls `FixedSizeBinaryBuilder::new`: an empty builder, for values of 16 bytes.
#[verifier::external_body]
pub(crate) fn guid_column() -> (c: ArrowColumn)
    ensures
        column_cells(c) == Seq::<Option<ArrowItem>>::empty(),
        column_type(c) == ArrowDataType::FixedSizeBinary(16),
{
    ArrowColumn { builder: Box::new(FixedSizeBinaryBuilder::new(16)) }
}

/// Calls `BooleanBuilder::append_option`: puts a value, or a missing one, at the end.
#[verifier::external_body]
pub(crate) fn append_boolean(c: &mut ArrowColumn, value: Option<bool>)
    requires
        column_type(*old(c)) == ArrowDataType::Boolean,
    ensures
        column_type(*final(c)) == column_type(*old(c)),
        column_cells(*final(c)) == column_cells(*old(c)).push(
            match value {
                Some(v) => Some(ArrowItem::Boolean(v)),
                None => None,
            },
        ),
{
    c.builder.as_any_mut().downcast_mut::<BooleanBuilder>().unwrap().append_option(value)
}

/// Calls `UInt8Builder::append_option`: puts a value, or a missing one, at the end.
#[verifier::external_body]
pub(crate) fn append_uint8(c: &mut ArrowColumn, value: Option<u8>)
    requires
        column_type(*old(c)) == ArrowDataType::UInt8,
    ensures
        column_type(*final(c)) == column_type(*old(c)),
        column_cells(*final(c)) == column_cells(*old(c)).push(
            match value {
                Some(v) => Some(ArrowItem::UInt8(v)),
                None => None,
            },
        ),
{
    c.builder.as_any_mut().downcast_mut::<UInt8Builder>().unwrap().append_option(value)
}

/// Calls `Int16Builder::append_option`: puts a value, or a missing one, at the end.
#[verifier::external_body]
pub(crate) fn append_int16(c: &mut ArrowColumn, value: Option<i16>)
    requires
        column_type(*old(c)) == ArrowDataType::Int16,
    ensures
        column_type(*final(c)) == column_type(*old(c)),
        column_cells(*final(c)) == column_cells(*old(c)).push(
            match value {
                Some(v) => Some(ArrowItem::Int16(v)),
                None => None,
            },
        ),
{
    c.builder.as_any_mut().downcast_mut::<Int16Builder>().unwrap().append_option(value)
}

/// Calls `Int32Builder::append_option`: puts a value, or a missing one, at the end.
#[verifier::external_body]
pub(crate) fn append_int32(c: &mut ArrowColumn, value: Option<i32>)
    requires
        column_type(*old(c)) == ArrowDataType::Int32,
    ensures
        column_type(*final(c)) == column_type(*old(c)),
        column_cells(*final(c)) == column_cells(*old(c)).push(
            match value {
                Some(v) => Some(ArrowItem::Int32(v)),
                None => None,
            },
        ),
{
    c.builder.as_any_mut().downcast_mut::<Int32Builder>().unwrap().append_option(value)
}

/// Calls `Int64Builder::append_option`: puts a value, or a missing one, at the end.
#[verifier::external_body]
pub(crate) fn append_int64(c: &mut ArrowColumn, value: Option<i64>)
    requires
        column_type(*old(c)) == ArrowDataType::Int64,
    ensures
        column_type(*final(c)) == column_type(*old(c)),
        column_cells(*final(c)) == column_cells(*old(c)).push(
            match value {
                Some(v) => Some(ArrowItem::Int64(v)),
                None => None,
            },
        ),
{
    c.builder.as_any_mut().downcast_mut::<Int64Builder>().unwrap().append_option(value)
}

/// Calls `Date32Builder::append_option`: puts a value, or a missing one, at the end.
#[verifier::external_body]
pub(crate) fn append_date32(c: &mut ArrowColumn, value: Option<i32>)
    requires
        column_type(*old(c)) == ArrowDataType::Date32,
    ensures
        column_type(*final(c)) == column_type(*old(c)),
        column_cells(*final(c)) == column_cells(*old(c)).push(
            match value {
                Some(v) => Some(ArrowItem::Date32(v)),
                None => None,
            },
        ),
{
    c.builder.as_any_mut().downcast_mut::<Date32Builder>().unwrap().append_option(value)
}

/// Calls `Time64MicrosecondBuilder::append_option`: puts a value, or a missing one, at the end.
#[verifier::external_body]
pub(crate) fn append_time64(c: &mut ArrowColumn, value: Option<i64>)
    requires
        column_type(*old(c)) == ArrowDataType::Time64Microsecond,
    ensures
        column_type(*final(c)) == column_type(*old(c)),
        column_cells(*final(c)) == column_cells(*old(c)).push(
            match value {
                Some(v) => Some(ArrowItem::Time64Microsecond(v)),
                None => None,
            },
        ),
{
    c.builder.as_any_mut().downcast_mut::<Time64MicrosecondBuilder>().unwrap().append_option(value)
}

/// Calls `Decimal128Builder::append_option`: puts a value, or a missing one, at the end.
#[verifier::external_body]
pub(crate) fn append_decimal128(c: &mut ArrowColumn, value: Option<i128>)
    requires
        column_type(*old(c)) is Decimal128,
    ensures
        column_type(*final(c)) == column_type(*old(c)),
        column_cells(*final(c)) == column_cells(*old(c)).push(
            match value {
                Some(v) => Some(ArrowItem::Decimal128(v)),
                None => None,
            },
        ),
{
    c.builder.as_any_mut().downcast_mut::<Decimal128Builder>().unwrap().append_option(value)
}

/// Calls `TimestampMicrosecondBuilder::append_option`: puts a value, or a missing one, at the end.
#[verifier::external_body]
pub(crate) fn append_timestamp(c: &mut ArrowColumn, value: Option<i64>)
    requires
        column_type(*old(c)) == ArrowDataType::TimestampMicrosecond || column_type(*old(c))
            == ArrowDataType::TimestampMicrosecondUtc,
    ensures
        column_type(*final(c)) == column_type(*old(c)),
        column_cells(*final(c)) == column_cells(*old(c)).push(
            match value {
                Some(v) => Some(ArrowItem::TimestampMicrosecond(v)),
                None => None,
            },
        ),
{
    c.builder.as_any_mut().downcast_mut::<TimestampMicrosecondBuilder>().unwrap().append_option(value)
}

/// Calls `FixedSizeBinaryBuilder::append_value`, which accepts values of the builder's width: puts a value
/// at the end.
#[verifier::external_body]
pub(crate) fn append_guid(c: &mut ArrowColumn, value: &[u8])
    requires
        column_type(*old(c)) == ArrowDataType::FixedSizeBinary(16),
        value@.len() == 16,
    ensures
        column_type(*final(c)) == column_type(*old(c)),
        column_cells(*final(c)) == column_cells(*old(c)).push(
            Some(ArrowItem::FixedSizeBinary16(value@)),
        ),
{
    c.builder.as_any_mut().downcast_mut::<FixedSizeBinaryBuilder>().unwrap().append_value(value).unwrap()
}

/// Calls `FixedSizeBinaryBuilder::append_null`: puts a missing value at the end.
#[verifier::external_body]
pub(crate) fn append_guid_null(c: &mut ArrowColumn)
    requires
        column_type(*old(c)) == ArrowDataType::FixedSizeBinary(16),
    ensures
        column_type(*final(c)) == column_type(*old(c)),
        column_cells(*final(c)) == column_cells(*old(c)).push(None),
{
    c.builder.as_any_mut().downcast_mut::<FixedSizeBinaryBuilder>().unwrap().append_null()
}

/// Calls `ArrayBuilder::finish`: the array of the values that a builder holds.
#[verifier::external_body]
pub(crate) fn finish_column(c: ArrowColumn) -> (a: ArrowArray)
    ensures
        array_cells(a) == column_cells(c),
        array_type(a) == column_type(c),
{
    let mut column = c;
    ArrowArray { array: column.builder.finish() }
}

/// Calls `arrow_array::new_null_array`: an array without a type, of so many missing values.
#[verifier::external_body]
pub(crate) fn null_array(length: usize) -> (a: ArrowArray)
    ensures
        array_cells(a) == Seq::new(length as nat, |i: int| None::<ArrowItem>),
        array_type(a) == ArrowDataType::Null,
{
    ArrowArray { array: new_null_array(&DataType::Null, length) }
}

/// How many bytes values have in all.
pub open spec fn total_bytes(cells: Seq<Option<Vec<u8>>>) -> nat
    decreases cells.len(),
{
    if cells.len() == 0 {
        0
    } else {
        total_bytes(cells.drop_last()) + (match cells.last() {
            Some(b) => b@.len(),
            None => 0,
        })
    }
}

/// Calls `BinaryArray::from_opt_vec`: an array of these values. Its offsets have 32 bits, so there is no
/// array for more bytes.
#[verifier::external_body]
pub(crate) fn binary_array(cells: &Vec<Option<Vec<u8>>>) -> (a: ArrowArray)
    requires
        total_bytes(cells@) <= i32::MAX,
    ensures
        array_cells(a) == cells@.map_values(
            |c: Option<Vec<u8>>|
                match c {
                    Some(b) => Some(ArrowItem::Binary(b@)),
                    None => None::<ArrowItem>,
                },
        ),
        array_type(a) == ArrowDataType::Binary,
{
    ArrowArray {
        array: Arc::new(BinaryArray::from_opt_vec(cells.iter().map(|c| c.as_deref()).collect())),
    }
}

/// How many bytes texts have in all, in UTF-8.
pub open spec fn total_text_bytes(cells: Seq<Option<String>>) -> nat
    decreases cells.len(),
{
    if cells.len() == 0 {
        0
    } else {
        total_text_bytes(cells.drop_last()) + (match cells.last() {
            Some(t) => encode_utf8(t@).len(),
            None => 0,
        })
    }
}

/// Calls `StringArray::from`: an array of these texts. Its offsets have 32 bits, so there is no array for
/// more bytes.
#[verifier::external_body]
pub(crate) fn string_array(cells: Vec<Option<String>>) -> (a: ArrowArray)
    requires
        total_text_bytes(cells@) <= i32::MAX,
    ensures
        array_cells(a) == cells@.map_values(
            |c: Option<String>|
                match c {
                    Some(t) => Some(ArrowItem::Text(t@)),
                    None => None::<ArrowItem>,
                },
        ),
        array_type(a) == ArrowDataType::Utf8,
{
    ArrowArray { array: Arc::new(StringArray::from(cells)) }
}

} // verus!

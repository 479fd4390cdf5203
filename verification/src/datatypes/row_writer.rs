//! Sinks for decoded rows.

use crate::datatypes::column_values::{
    ColumnValues, SqlDate, SqlDateTime, SqlDateTime2, SqlDateTimeOffset, SqlFloat, SqlGuid, SqlJson,
    SqlMoney, SqlReal, SqlSmallDateTime, SqlSmallMoney, SqlTime, SqlXml, Value,
};
use crate::datatypes::decimal::DecimalParts;
use crate::datatypes::sql_string::{EncodingType, SqlString};
use crate::datatypes::sql_vector::SqlVector;
use vstd::prelude::*;

verus! {

/// The encoding that raw character data is taken to have.
pub open spec fn raw_encoding(is_utf16: bool) -> EncodingType {
    if is_utf16 {
        EncodingType::Utf16
    } else {
        EncodingType::Utf8
    }
}

/// A sink for the values of rows. The decoder hands it each value by the method of its type.
pub trait RowWriter: Sized {
    /// Whether this value may be written to this column.
    spec fn accepts(&self, col: usize, value: Value) -> bool;

    /// What writing a value to a column makes of the sink.
    spec fn wrote(pre: Self, post: Self, col: usize, value: Value) -> bool;

    /// What the end of a row makes of the sink.
    spec fn ended(pre: Self, post: Self) -> bool;

    /// What giving up a row makes of the sink.
    spec fn cancelled(pre: Self, post: Self) -> bool;

    /// Writes a missing value.
    fn write_null(&mut self, col: usize)
        requires
            old(self).accepts(col, Value::Null),
        ensures
            Self::wrote(*old(self), *final(self), col, Value::Null),
            forall|c: usize, v: Value| #[trigger]
                old(self).accepts(c, v) ==> final(self).accepts(c, v),
    ;


    fn write_bool(&mut self, col: usize, val: bool)
        requires
            old(self).accepts(col, Value::Bit(val)),
        ensures
            Self::wrote(*old(self), *final(self), col, Value::Bit(val)),
            forall|c: usize, v: Value| #[trigger]
                old(self).accepts(c, v) ==> final(self).accepts(c, v),
    ;

    fn write_u8(&mut self, col: usize, val: u8)
        requires
            old(self).accepts(col, Value::TinyInt(val)),
        ensures
            Self::wrote(*old(self), *final(self), col, Value::TinyInt(val)),
            forall|c: usize, v: Value| #[trigger]
                old(self).accepts(c, v) ==> final(self).accepts(c, v),
    ;

    fn write_i16(&mut self, col: usize, val: i16)
        requires
            old(self).accepts(col, Value::SmallInt(val)),
        ensures
            Self::wrote(*old(self), *final(self), col, Value::SmallInt(val)),
            forall|c: usize, v: Value| #[trigger]
                old(self).accepts(c, v) ==> final(self).accepts(c, v),
    ;

    fn write_i32(&mut self, col: usize, val: i32)
        requires
            old(self).accepts(col, Value::Int(val)),
        ensures
            Self::wrote(*old(self), *final(self), col, Value::Int(val)),
            forall|c: usize, v: Value| #[trigger]
                old(self).accepts(c, v) ==> final(self).accepts(c, v),
    ;

    fn write_i64(&mut self, col: usize, val: i64)
        requires
            old(self).accepts(col, Value::BigInt(val)),
        ensures
            Self::wrote(*old(self), *final(self), col, Value::BigInt(val)),
            forall|c: usize, v: Value| #[trigger]
                old(self).accepts(c, v) ==> final(self).accepts(c, v),
    ;

    fn write_f32(&mut self, col: usize, val: SqlReal)
        requires
            old(self).accepts(col, Value::Real(val.bits)),
        ensures
            Self::wrote(*old(self), *final(self), col, Value::Real(val.bits)),
            forall|c: usize, v: Value| #[trigger]
                old(self).accepts(c, v) ==> final(self).accepts(c, v),
    ;

    fn write_f64(&mut self, col: usize, val: SqlFloat)
        requires
            old(self).accepts(col, Value::Float(val.bits)),
        ensures
            Self::wrote(*old(self), *final(self), col, Value::Float(val.bits)),
            forall|c: usize, v: Value| #[trigger]
                old(self).accepts(c, v) ==> final(self).accepts(c, v),
    ;

    fn write_string(&mut self, col: usize, val: SqlString)
        requires
            old(self).accepts(col, Value::String(val.bytes@, val.encoding_type)),
        ensures
            Self::wrote(*old(self), *final(self), col, Value::String(val.bytes@, val.encoding_type)),
            forall|c: usize, v: Value| #[trigger]
                old(self).accepts(c, v) ==> final(self).accepts(c, v),
    ;

    fn write_bytes(&mut self, col: usize, val: Vec<u8>)
        requires
            old(self).accepts(col, Value::Bytes(val@)),
        ensures
            Self::wrote(*old(self), *final(self), col, Value::Bytes(val@)),
            forall|c: usize, v: Value| #[trigger]
                old(self).accepts(c, v) ==> final(self).accepts(c, v),
    ;

    fn write_decimal(&mut self, col: usize, val: DecimalParts)
        requires
            old(self).accepts(col, Value::Decimal(val@)),
        ensures
            Self::wrote(*old(self), *final(self), col, Value::Decimal(val@)),
            forall|c: usize, v: Value| #[trigger]
                old(self).accepts(c, v) ==> final(self).accepts(c, v),
    ;

    fn write_numeric(&mut self, col: usize, val: DecimalParts)
        requires
            old(self).accepts(col, Value::Numeric(val@)),
        ensures
            Self::wrote(*old(self), *final(self), col, Value::Numeric(val@)),
            forall|c: usize, v: Value| #[trigger]
                old(self).accepts(c, v) ==> final(self).accepts(c, v),
    ;

    fn write_date(&mut self, col: usize, val: SqlDate)
        requires
            old(self).accepts(col, Value::Date(val.days)),
        ensures
            Self::wrote(*old(self), *final(self), col, Value::Date(val.days)),
            forall|c: usize, v: Value| #[trigger]
                old(self).accepts(c, v) ==> final(self).accepts(c, v),
    ;

    fn write_time(&mut self, col: usize, val: SqlTime)
        requires
            old(self).accepts(col, Value::Time(val)),
        ensures
            Self::wrote(*old(self), *final(self), col, Value::Time(val)),
            forall|c: usize, v: Value| #[trigger]
                old(self).accepts(c, v) ==> final(self).accepts(c, v),
    ;

    fn write_datetime(&mut self, col: usize, val: SqlDateTime)
        requires
            old(self).accepts(col, Value::DateTime(val)),
        ensures
            Self::wrote(*old(self), *final(self), col, Value::DateTime(val)),
            forall|c: usize, v: Value| #[trigger]
                old(self).accepts(c, v) ==> final(self).accepts(c, v),
    ;

    fn write_smalldatetime(&mut self, col: usize, val: SqlSmallDateTime)
        requires
            old(self).accepts(col, Value::SmallDateTime(val)),
        ensures
            Self::wrote(*old(self), *final(self), col, Value::SmallDateTime(val)),
            forall|c: usize, v: Value| #[trigger]
                old(self).accepts(c, v) ==> final(self).accepts(c, v),
    ;

    fn write_datetime2(&mut self, col: usize, val: SqlDateTime2)
        requires
            old(self).accepts(col, Value::DateTime2(val)),
        ensures
            Self::wrote(*old(self), *final(self), col, Value::DateTime2(val)),
            forall|c: usize, v: Value| #[trigger]
                old(self).accepts(c, v) ==> final(self).accepts(c, v),
    ;

    fn write_datetimeoffset(&mut self, col: usize, val: SqlDateTimeOffset)
        requires
            old(self).accepts(col, Value::DateTimeOffset(val)),
        ensures
            Self::wrote(*old(self), *final(self), col, Value::DateTimeOffset(val)),
            forall|c: usize, v: Value| #[trigger]
                old(self).accepts(c, v) ==> final(self).accepts(c, v),
    ;

    fn write_money(&mut self, col: usize, val: SqlMoney)
        requires
            old(self).accepts(col, Value::Money(val)),
        ensures
            Self::wrote(*old(self), *final(self), col, Value::Money(val)),
            forall|c: usize, v: Value| #[trigger]
                old(self).accepts(c, v) ==> final(self).accepts(c, v),
    ;

    fn write_smallmoney(&mut self, col: usize, val: SqlSmallMoney)
        requires
            old(self).accepts(col, Value::SmallMoney(val)),
        ensures
            Self::wrote(*old(self), *final(self), col, Value::SmallMoney(val)),
            forall|c: usize, v: Value| #[trigger]
                old(self).accepts(c, v) ==> final(self).accepts(c, v),
    ;

    fn write_uuid(&mut self, col: usize, val: SqlGuid)
        requires
            old(self).accepts(col, Value::Uuid(val.bytes@)),
        ensures
            Self::wrote(*old(self), *final(self), col, Value::Uuid(val.bytes@)),
            forall|c: usize, v: Value| #[trigger]
                old(self).accepts(c, v) ==> final(self).accepts(c, v),
    ;

    fn write_xml(&mut self, col: usize, val: SqlXml)
        requires
            old(self).accepts(col, Value::Xml(val.bytes@)),
        ensures
            Self::wrote(*old(self), *final(self), col, Value::Xml(val.bytes@)),
            forall|c: usize, v: Value| #[trigger]
                old(self).accepts(c, v) ==> final(self).accepts(c, v),
    ;

    fn write_json(&mut self, col: usize, val: SqlJson)
        requires
            old(self).accepts(col, Value::Json(val.bytes@)),
        ensures
            Self::wrote(*old(self), *final(self), col, Value::Json(val.bytes@)),
            forall|c: usize, v: Value| #[trigger]
                old(self).accepts(c, v) ==> final(self).accepts(c, v),
    ;

    fn write_vector(&mut self, col: usize, val: SqlVector)
        requires
            old(self).accepts(col, Value::Vector(val@)),
        ensures
            Self::wrote(*old(self), *final(self), col, Value::Vector(val@)),
            forall|c: usize, v: Value| #[trigger]
                old(self).accepts(c, v) ==> final(self).accepts(c, v),
    ;

    /// Writes character data given as bytes: UTF-16 of little-endian units, or UTF-8.
    fn write_string_raw(&mut self, col: usize, bytes: Vec<u8>, is_utf16: bool)
        requires
            old(self).accepts(col, Value::String(bytes@, raw_encoding(is_utf16))),
        ensures
            Self::wrote(
                *old(self),
                *final(self),
                col,
                Value::String(bytes@, raw_encoding(is_utf16)),
            ),
            forall|c: usize, v: Value| #[trigger]
                old(self).accepts(c, v) ==> final(self).accepts(c, v),
    {
        let encoding: EncodingType = if is_utf16 {
            EncodingType::Utf16
        } else {
            EncodingType::Utf8
        };
        self.write_string(col, SqlString::new(bytes, encoding));
    }

    /// Ends the current row.
    fn end_row(&mut self)
        ensures
            Self::ended(*old(self), *final(self)),
            forall|c: usize, v: Value| #[trigger]
                old(self).accepts(c, v) ==> final(self).accepts(c, v),
    ;

    /// Gives up what has been written of the current row, where the sink can.
    fn cancel_row(&mut self)
        ensures
            Self::cancelled(*old(self), *final(self)),
            forall|c: usize, v: Value| #[trigger]
                old(self).accepts(c, v) ==> final(self).accepts(c, v),
    ;

    /// The number of bytes of row data held so far, 0 where the sink keeps no count.
    fn row_data_len(&self) -> (n: usize)
        default_ensures
            n == 0,
    {
        0
    }
}

/// Whether writing these values to these columns, one after the other, leads from one state of a
/// sink to another.
pub open spec fn wrote_all<W: RowWriter>(pre: W, post: W, cells: Seq<(usize, Value)>) -> bool
    decreases cells.len(),
{
    if cells.len() == 0 {
        pre == post
    } else {
        exists|mid: W|
            wrote_all(pre, mid, cells.drop_last()) && #[trigger] W::wrote(
                mid,
                post,
                cells.last().0,
                cells.last().1,
            )
    }
}

/// Whether these values may all be written to these columns.
pub open spec fn accepts_all<W: RowWriter>(writer: W, cells: Seq<(usize, Value)>) -> bool {
    forall|i: int|
        0 <= i < cells.len() ==> writer.accepts((#[trigger] cells[i]).0, cells[i].1)
}

/// Writing one more value extends what was written.
pub proof fn lemma_wrote_all_push<W: RowWriter>(
    pre: W,
    mid: W,
    post: W,
    cells: Seq<(usize, Value)>,
    cell: (usize, Value),
)
    requires
        wrote_all(pre, mid, cells),
        W::wrote(mid, post, cell.0, cell.1),
    ensures
        wrote_all(pre, post, cells.push(cell)),
{
    assert(cells.push(cell).drop_last() =~= cells);
    assert(cells.push(cell).last() == cell);
}

/// The sink that assembles a row as a list of values.
pub struct DefaultRowWriter {
    row: Vec<ColumnValues>,
}

/// The mathematical values of a list of values.
pub open spec fn values_of(row: Seq<ColumnValues>) -> Seq<Value> {
    row.map_values(|v: ColumnValues| v@)
}

impl View for DefaultRowWriter {
    type V = Seq<Value>;

    /// The values of the row so far.
    closed spec fn view(&self) -> Seq<Value> {
        values_of(self.row@)
    }
}

impl DefaultRowWriter {
    /// A sink with an empty row and room for `col_count` values.
    pub fn new(col_count: usize) -> (w: DefaultRowWriter)
        ensures
            w@ == Seq::<Value>::empty(),
    {
        let w = DefaultRowWriter { row: Vec::with_capacity(col_count) };
        assert(w@ =~= Seq::<Value>::empty());
        w
    }

    /// Takes the row; the sink is empty afterwards.
    pub fn take_row(&mut self) -> (row: Vec<ColumnValues>)
        ensures
            values_of(row@) == old(self)@,
            final(self)@ == Seq::<Value>::empty(),
    {
        let mut row: Vec<ColumnValues> = Vec::new();
        std::mem::swap(&mut row, &mut self.row);
        assert(self@ =~= Seq::<Value>::empty());
        row
    }

    /// Puts a value at the end of the row.
    fn push(&mut self, value: ColumnValues)
        ensures
            final(self)@ == old(self)@.push(value@),
    {
        self.row.push(value);
        assert(self@ =~= old(self)@.push(value@));
    }
}

impl RowWriter for DefaultRowWriter {
    /// Every value may be written, to every column.
    open spec fn accepts(&self, col: usize, value: Value) -> bool {
        true
    }

    /// The value is put at the end of the row, whatever the column's number.
    open spec fn wrote(pre: DefaultRowWriter, post: DefaultRowWriter, col: usize, value: Value) -> bool {
        post@ == pre@.push(value)
    }

    /// The row stays until it is taken.
    open spec fn ended(pre: DefaultRowWriter, post: DefaultRowWriter) -> bool {
        post@ == pre@
    }

    /// The row is emptied.
    open spec fn cancelled(pre: DefaultRowWriter, post: DefaultRowWriter) -> bool {
        post@ == Seq::<Value>::empty()
    }

    fn write_null(&mut self, col: usize) {
        self.push(ColumnValues::Null);
    }


    fn write_bool(&mut self, col: usize, val: bool) {
        self.push(ColumnValues::Bit(val));
    }

    fn write_u8(&mut self, col: usize, val: u8) {
        self.push(ColumnValues::TinyInt(val));
    }

    fn write_i16(&mut self, col: usize, val: i16) {
        self.push(ColumnValues::SmallInt(val));
    }

    fn write_i32(&mut self, col: usize, val: i32) {
        self.push(ColumnValues::Int(val));
    }

    fn write_i64(&mut self, col: usize, val: i64) {
        self.push(ColumnValues::BigInt(val));
    }

    fn write_f32(&mut self, col: usize, val: SqlReal) {
        self.push(ColumnValues::Real(val));
    }

    fn write_f64(&mut self, col: usize, val: SqlFloat) {
        self.push(ColumnValues::Float(val));
    }

    fn write_string(&mut self, col: usize, val: SqlString) {
        self.push(ColumnValues::String(val));
    }

    fn write_bytes(&mut self, col: usize, val: Vec<u8>) {
        self.push(ColumnValues::Bytes(val));
    }

    fn write_decimal(&mut self, col: usize, val: DecimalParts) {
        self.push(ColumnValues::Decimal(val));
    }

    fn write_numeric(&mut self, col: usize, val: DecimalParts) {
        self.push(ColumnValues::Numeric(val));
    }

    fn write_date(&mut self, col: usize, val: SqlDate) {
        self.push(ColumnValues::Date(val));
    }

    fn write_time(&mut self, col: usize, val: SqlTime) {
        self.push(ColumnValues::Time(val));
    }

    fn write_datetime(&mut self, col: usize, val: SqlDateTime) {
        self.push(ColumnValues::DateTime(val));
    }

    fn write_smalldatetime(&mut self, col: usize, val: SqlSmallDateTime) {
        self.push(ColumnValues::SmallDateTime(val));
    }

    fn write_datetime2(&mut self, col: usize, val: SqlDateTime2) {
        self.push(ColumnValues::DateTime2(val));
    }

    fn write_datetimeoffset(&mut self, col: usize, val: SqlDateTimeOffset) {
        self.push(ColumnValues::DateTimeOffset(val));
    }

    fn write_money(&mut self, col: usize, val: SqlMoney) {
        self.push(ColumnValues::Money(val));
    }

    fn write_smallmoney(&mut self, col: usize, val: SqlSmallMoney) {
        self.push(ColumnValues::SmallMoney(val));
    }

    fn write_uuid(&mut self, col: usize, val: SqlGuid) {
        self.push(ColumnValues::Uuid(val));
    }

    fn write_xml(&mut self, col: usize, val: SqlXml) {
        self.push(ColumnValues::Xml(val));
    }

    fn write_json(&mut self, col: usize, val: SqlJson) {
        self.push(ColumnValues::Json(val));
    }

    fn write_vector(&mut self, col: usize, val: SqlVector) {
        self.push(ColumnValues::Vector(val));
    }

    fn end_row(&mut self) {
    }

    fn cancel_row(&mut self) {
        self.row.clear();
        assert(self@ =~= Seq::<Value>::empty());
    }
}

/// Hands a value to a sink by the method of its type.
pub fn write_column_value<W: RowWriter>(writer: &mut W, col: usize, value: ColumnValues)
    requires
        old(writer).accepts(col, value@),
    ensures
        W::wrote(*old(writer), *final(writer), col, value@),
        forall|c: usize, v: Value| #[trigger]
            old(writer).accepts(c, v) ==> final(writer).accepts(c, v),
{
    match value {
        ColumnValues::Null => writer.write_null(col),
        ColumnValues::Bit(v) => writer.write_bool(col, v),
        ColumnValues::TinyInt(v) => writer.write_u8(col, v),
        ColumnValues::SmallInt(v) => writer.write_i16(col, v),
        ColumnValues::Int(v) => writer.write_i32(col, v),
        ColumnValues::BigInt(v) => writer.write_i64(col, v),
        ColumnValues::Real(v) => writer.write_f32(col, v),
        ColumnValues::Float(v) => writer.write_f64(col, v),
        ColumnValues::String(v) => writer.write_string(col, v),
        ColumnValues::Bytes(v) => writer.write_bytes(col, v),
        ColumnValues::Decimal(v) => writer.write_decimal(col, v),
        ColumnValues::Numeric(v) => writer.write_numeric(col, v),
        ColumnValues::Date(v) => writer.write_date(col, v),
        ColumnValues::Time(v) => writer.write_time(col, v),
        ColumnValues::DateTime(v) => writer.write_datetime(col, v),
        ColumnValues::SmallDateTime(v) => writer.write_smalldatetime(col, v),
        ColumnValues::DateTime2(v) => writer.write_datetime2(col, v),
        ColumnValues::DateTimeOffset(v) => writer.write_datetimeoffset(col, v),
        ColumnValues::Money(v) => writer.write_money(col, v),
        ColumnValues::SmallMoney(v) => writer.write_smallmoney(col, v),
        ColumnValues::Uuid(v) => writer.write_uuid(col, v),
        ColumnValues::Xml(v) => writer.write_xml(col, v),
        ColumnValues::Json(v) => writer.write_json(col, v),
        ColumnValues::Vector(v) => writer.write_vector(col, v),
    }
}

/// Writing values one after the other to the default sink puts them, in that order, at the end of
/// its row.
pub proof fn law_default_writer_keeps_order(
    pre: DefaultRowWriter,
    post: DefaultRowWriter,
    cells: Seq<(usize, Value)>,
)
    requires
        wrote_all(pre, post, cells),
    ensures
        post@ == pre@ + cells.map_values(|c: (usize, Value)| c.1),
    decreases cells.len(),
{
    if cells.len() > 0 {
        let mid = choose|mid: DefaultRowWriter|
            wrote_all(pre, mid, cells.drop_last()) && #[trigger] DefaultRowWriter::wrote(
                mid,
                post,
                cells.last().0,
                cells.last().1,
            );
        law_default_writer_keeps_order(pre, mid, cells.drop_last());
    }
    assert(post@ =~= pre@ + cells.map_values(|c: (usize, Value)| c.1));
}

/// Text that is written as it came is UTF-16 where that is said, and UTF-8 otherwise.
pub proof fn law_raw_encoding(is_utf16: bool)
    ensures
        raw_encoding(is_utf16) is Utf16 == is_utf16,
        raw_encoding(is_utf16) is Utf8 == !is_utf16,
{
}

} // verus!

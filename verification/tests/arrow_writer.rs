//! Rows as columns for Arrow.

use arrow_array::{Array, ArrayRef};
use arrow_schema::{DataType, TimeUnit};
use mssql_tds::datatypes::arrow_writer::{
    ArrowBatch, ArrowContents, ArrowDataType, ArrowRowWriter, ArrowValue, DAYS_0001_TO_UNIX,
    MICROS_PER_DAY,
};
use mssql_tds::datatypes::column_values::{
    ColumnValues, SqlDate, SqlDateTime, SqlDateTime2, SqlDateTimeOffset, SqlFloat, SqlGuid, SqlJson,
    SqlMoney, SqlSmallDateTime, SqlTime,
};
use mssql_tds::datatypes::decimal::DecimalParts;
use mssql_tds::datatypes::row_writer::RowWriter;
use mssql_tds::datatypes::sql_string::{EncodingType, SqlString};

/// The array of a finished column.
fn array(batch: &ArrowBatch, column: usize) -> ArrayRef {
    match &batch.columns[column] {
        ArrowContents::Array(a) => a.array.clone(),
        ArrowContents::Cells(_) => panic!("Expected an array"),
    }
}

#[test]
fn basic_int_columns() {
    let mut w = ArrowRowWriter::new(vec!["a".into(), "b".into()]);
    w.write_i32(0, 1);
    w.write_i64(1, 100);
    w.end_row();
    w.write_i32(0, 2);
    w.write_i64(1, 200);
    w.end_row();

    let batch = w.finish();
    assert_eq!(array(&batch, 0).len(), 2);
    assert_eq!(batch.columns.len(), 2);
    assert_eq!(*array(&batch, 0).data_type(), DataType::Int32);
    assert_eq!(*array(&batch, 1).data_type(), DataType::Int64);
}

#[test]
fn nullable_column_with_leading_nulls() {
    let mut w = ArrowRowWriter::new(vec!["x".into()]);
    w.write_null(0);
    w.write_null(0);
    w.write_i32(0, 42);
    w.end_row();

    let batch = w.finish();
    assert_eq!(array(&batch, 0).len(), 3);
    let column = array(&batch, 0);
    let arr = column.as_any().downcast_ref::<arrow_array::Int32Array>().unwrap();
    assert!(arr.is_null(0));
    assert!(arr.is_null(1));
    assert_eq!(arr.value(2), 42);
}

#[test]
fn all_null_column_produces_null_array() {
    let mut w = ArrowRowWriter::new(vec!["n".into()]);
    w.write_null(0);
    w.write_null(0);
    w.end_row();

    let batch = w.finish();
    assert_eq!(array(&batch, 0).len(), 2);
    assert_eq!(*array(&batch, 0).data_type(), DataType::Null);
}

#[test]
fn string_column() {
    let mut w = ArrowRowWriter::new(vec!["s".into()]);
    w.write_string(0, SqlString::new(b"hello".to_vec(), EncodingType::Utf16));
    w.end_row();

    let batch = w.finish();
    assert_eq!(*array(&batch, 0).data_type(), DataType::Utf8);
}

#[test]
fn bool_and_f64_columns() {
    let mut w = ArrowRowWriter::new(vec!["flag".into(), "val".into()]);
    w.write_bool(0, true);
    w.write_f64(1, SqlFloat { bits: 99.5f64.to_bits() });
    w.end_row();

    let batch = w.finish();
    assert_eq!(*array(&batch, 0).data_type(), DataType::Boolean);
    assert_eq!(batch.fields[1].data_type, ArrowDataType::Float64);
}

#[test]
fn date_and_time_columns() {
    let mut w = ArrowRowWriter::new(vec!["d".into(), "t".into()]);
    let date = SqlDate::create(DAYS_0001_TO_UNIX as u32).unwrap(); // Unix epoch
    let time = SqlTime {
        time_nanoseconds: 1_000_000, // 1ms = 1000μs
        scale: 7,
    };
    w.write_date(0, date);
    w.write_time(1, time);
    w.end_row();

    let batch = w.finish();
    let column = array(&batch, 0);
    let date_arr = column.as_any().downcast_ref::<arrow_array::Date32Array>().unwrap();
    assert_eq!(date_arr.value(0), 0); // Unix epoch → 0

    let column = array(&batch, 1);
    let time_arr = column.as_any().downcast_ref::<arrow_array::Time64MicrosecondArray>().unwrap();
    assert_eq!(time_arr.value(0), 1000); // 1ms = 1000μs
}

#[test]
fn uuid_column() {
    let mut w = ArrowRowWriter::new(vec!["id".into()]);
    let uuid = SqlGuid { bytes: [0; 16] };
    w.write_uuid(0, uuid);
    w.end_row();

    let batch = w.finish();
    assert_eq!(
        *array(&batch, 0).data_type(),
        DataType::FixedSizeBinary(16)
    );
}

#[test]
fn decimal_column() {
    let mut w = ArrowRowWriter::new(vec!["d".into()]);
    let parts = DecimalParts::from_i64(12345, 10, 2).unwrap();
    w.write_decimal(0, parts);
    w.end_row();

    let batch = w.finish();
    assert!(matches!(
        array(&batch, 0).data_type(),
        DataType::Decimal128(10, 2)
    ));
}

#[test]
fn datetime2_to_timestamp() {
    let mut w = ArrowRowWriter::new(vec!["ts".into()]);
    // 2000-01-01 00:00:00 UTC → days since 0001-01-01 = 730_119
    let dt2 = SqlDateTime2 {
        days: 730_119,
        time: SqlTime {
            time_nanoseconds: 0,
            scale: 7,
        },
    };
    w.write_datetime2(0, dt2);
    w.end_row();

    let batch = w.finish();
    assert_eq!(
        *array(&batch, 0).data_type(),
        DataType::Timestamp(TimeUnit::Microsecond, None)
    );
    let column = array(&batch, 0);
    let arr = column.as_any().downcast_ref::<arrow_array::TimestampMicrosecondArray>().unwrap();
    // 2000-01-01 = 10_957 days since epoch → 10957 * 86400 * 1_000_000 μs
    let expected = 10_957i64 * MICROS_PER_DAY;
    assert_eq!(arr.value(0), expected);
}

#[test]
fn datetimeoffset_converts_to_utc() {
    let mut w = ArrowRowWriter::new(vec!["ts".into()]);
    // 2000-01-01 05:30:00 +05:30 → should be 2000-01-01 00:00:00 UTC
    let dt2 = SqlDateTime2 {
        days: 730_119,
        time: SqlTime {
            time_nanoseconds: 5 * 3_600_000_000_000u64 + 30 * 60_000_000_000, // 5h30m
            scale: 7,
        },
    };
    let dto = SqlDateTimeOffset {
        datetime2: dt2,
        offset: 330, // +5:30 in minutes
    };
    w.write_datetimeoffset(0, dto);
    w.end_row();

    let batch = w.finish();
    assert_eq!(
        *array(&batch, 0).data_type(),
        DataType::Timestamp(TimeUnit::Microsecond, Some("+00:00".into()))
    );
    let column = array(&batch, 0);
    let arr = column.as_any().downcast_ref::<arrow_array::TimestampMicrosecondArray>().unwrap();
    let expected = 10_957i64 * MICROS_PER_DAY; // midnight UTC on 2000-01-01
    assert_eq!(arr.value(0), expected);
}

#[test]
fn money_column() {
    let mut w = ArrowRowWriter::new(vec!["m".into()]);
    // $1.00 → raw TDS value 10000 (value × 10^4)
    let money = SqlMoney {
        lsb_part: 10000,
        msb_part: 0,
    };
    w.write_money(0, money);
    w.end_row();

    let batch = w.finish();
    let cells = match &batch.columns[0] {
        ArrowContents::Cells(cells) => cells,
        ArrowContents::Array(_) => panic!("Expected values"),
    };
    let value = match cells[0] {
        Some(ArrowValue::Money(ten_thousandths)) => ten_thousandths as f64 / 10_000.0,
        _ => panic!("Expected an amount of money"),
    };
    assert!((value - 1.0).abs() < f64::EPSILON);
}

#[test]
fn integers_of_each_width_are_kept() {
    let mut w = ArrowRowWriter::new(vec!["a".into(), "b".into()]);
    w.write_u8(0, 200);
    w.write_i16(1, -7);
    w.end_row();
    w.write_null(0);
    w.write_null(1);
    w.end_row();

    let batch = w.finish();
    let a = array(&batch, 0);
    let a = a.as_any().downcast_ref::<arrow_array::UInt8Array>().unwrap();
    assert_eq!(a.value(0), 200);
    assert!(a.is_null(1));
    let b = array(&batch, 1);
    let b = b.as_any().downcast_ref::<arrow_array::Int16Array>().unwrap();
    assert_eq!(b.value(0), -7);
    assert!(b.is_null(1));
}

#[test]
fn int64_and_boolean_values_are_kept() {
    let mut w = ArrowRowWriter::new(vec!["a".into(), "b".into()]);
    w.write_i64(0, i64::MIN);
    w.write_null(1);
    w.end_row();
    w.write_null(0);
    w.write_bool(1, true);
    w.end_row();

    let batch = w.finish();
    let a = array(&batch, 0);
    let a = a.as_any().downcast_ref::<arrow_array::Int64Array>().unwrap();
    assert_eq!(a.value(0), i64::MIN);
    assert!(a.is_null(1));
    let b = array(&batch, 1);
    let b = b.as_any().downcast_ref::<arrow_array::BooleanArray>().unwrap();
    assert!(b.is_null(0));
    assert!(b.value(1));
}

#[test]
fn decimal_values_are_kept() {
    let mut w = ArrowRowWriter::new(vec!["d".into()]);
    w.write_null(0);
    w.write_decimal(0, DecimalParts::from_string("-123.45", 10, 2).unwrap());
    w.write_numeric(0, DecimalParts::from_string("0.01", 10, 2).unwrap());
    let batch = w.finish();
    let d = array(&batch, 0);
    let d = d.as_any().downcast_ref::<arrow_array::Decimal128Array>().unwrap();
    assert!(d.is_null(0));
    assert_eq!(d.value(1), -12345);
    assert_eq!(d.value(2), 1);
}

#[test]
fn identifiers_are_kept() {
    let mut w = ArrowRowWriter::new(vec!["id".into()]);
    w.write_null(0);
    w.write_uuid(0, SqlGuid { bytes: [7; 16] });
    w.write_null(0);
    let batch = w.finish();
    let id = array(&batch, 0);
    let id = id.as_any().downcast_ref::<arrow_array::FixedSizeBinaryArray>().unwrap();
    assert!(id.is_null(0));
    assert_eq!(id.value(1), &[7u8; 16]);
    assert!(id.is_null(2));
}

#[test]
fn bytes_are_kept() {
    let mut w = ArrowRowWriter::new(vec!["b".into()]);
    w.write_null(0);
    w.write_bytes(0, vec![1, 2, 3]);
    w.write_bytes(0, vec![]);
    let batch = w.finish();
    assert_eq!(batch.fields[0].data_type, ArrowDataType::Binary);
    let b = array(&batch, 0);
    let b = b.as_any().downcast_ref::<arrow_array::BinaryArray>().unwrap();
    assert!(b.is_null(0));
    assert_eq!(b.value(1), &[1u8, 2, 3]);
    assert_eq!(b.value(2), &[] as &[u8]);
}

#[test]
fn legacy_times_become_timestamps() {
    let mut w = ArrowRowWriter::new(vec!["t".into()]);
    // The first of January 1970 is day 25,567 after the first of January 1900.
    w.write_datetime(0, SqlDateTime { days: 25_567, time: 300 });
    w.write_smalldatetime(0, SqlSmallDateTime { days: 25_568, time: 2 });
    let batch = w.finish();
    let t = array(&batch, 0);
    let t = t.as_any().downcast_ref::<arrow_array::TimestampMicrosecondArray>().unwrap();
    assert_eq!(t.value(0), 1_000_000);
    assert_eq!(t.value(1), MICROS_PER_DAY + 120_000_000);
}

#[test]
fn a_value_of_another_kind_is_dropped() {
    let mut w = ArrowRowWriter::new(vec!["x".into()]);
    w.write_i32(0, 1);
    w.write_bool(0, true);
    w.write_i32(0, 2);
    let batch = w.finish();
    let x = array(&batch, 0);
    let x = x.as_any().downcast_ref::<arrow_array::Int32Array>().unwrap();
    assert_eq!(x.len(), 2);
    assert_eq!(x.value(1), 2);
}

#[test]
fn each_column_has_its_name() {
    let w = ArrowRowWriter::new(vec!["first".into(), "second".into()]);
    let batch = w.finish();
    assert_eq!(batch.fields[0].name, "first");
    assert_eq!(batch.fields[1].name, "second");
    assert!(batch.fields[1].nullable);
    assert_eq!(batch.fields[1].data_type, ArrowDataType::Null);
}

#[test]
fn texts_are_kept() {
    let mut w = ArrowRowWriter::new(vec!["t".into()]);
    w.write_null(0);
    w.write_string(0, SqlString::from_utf8_string("Grüße".to_string()));
    w.write_string(0, SqlString::new(b"abc".to_vec(), EncodingType::Utf8));
    assert!(w.can_finish());
    let batch = w.finish();
    let t = array(&batch, 0);
    let t = t.as_any().downcast_ref::<arrow_array::StringArray>().unwrap();
    assert!(t.is_null(0));
    assert_eq!(t.value(1), "Grüße");
    assert_eq!(t.value(2), "abc");
}

#[test]
fn documents_are_left_to_the_caller() {
    let mut w = ArrowRowWriter::new(vec!["t".into()]);
    w.write_string(0, SqlString::from_utf8_string("a".to_string()));
    w.write_json(0, SqlJson::new(b"{}".to_vec()));
    let batch = w.finish();
    assert_eq!(batch.fields[0].data_type, ArrowDataType::Utf8);
    match &batch.columns[0] {
        ArrowContents::Cells(cells) => assert_eq!(
            *cells,
            vec![
                Some(ArrowValue::Text("a".to_string())),
                Some(ArrowValue::Json(SqlJson::new(b"{}".to_vec()))),
            ]
        ),
        ArrowContents::Array(_) => panic!("Expected values"),
    }
}

#[test]
fn values_that_do_not_fit_are_found() {
    let mut w = ArrowRowWriter::new(vec!["d".into()]);
    let number = |precision: u8, int_parts: Vec<i32>| {
        ColumnValues::Decimal(DecimalParts { is_positive: true, scale: 2, precision, int_parts })
    };
    assert!(w.can_take(0, &ColumnValues::Int(1)));
    assert!(!w.can_take(1, &ColumnValues::Int(1)));
    assert!(w.can_take(0, &number(38, vec![1, 2, 3, 4])));
    assert!(!w.can_take(0, &number(38, vec![1, 2, 3, 4, 5])));
    assert!(!w.can_take(0, &number(0, vec![1])));
    assert!(!w.can_take(0, &number(39, vec![1])));
    // The type of the column is that of its first value
    w.write_i32(0, 7);
    assert!(w.can_take(0, &number(39, vec![1])));
    assert!(!w.can_take(0, &number(38, vec![1, 2, 3, 4, 5])));
}

//! Sinks for rows.

use mssql_tds::datatypes::column_values::{
    ColumnValues, SqlDate, SqlDateTime2, SqlDateTimeOffset, SqlFloat, SqlMoney, SqlReal,
    SqlSmallMoney, SqlTime,
};
use mssql_tds::datatypes::decimal::DecimalParts;
use mssql_tds::datatypes::row_writer::{write_column_value, DefaultRowWriter, RowWriter};
use mssql_tds::datatypes::sql_string::{EncodingType, SqlString};

fn single(value: f32) -> SqlReal {
    SqlReal { bits: value.to_bits() }
}

fn double(value: f64) -> SqlFloat {
    SqlFloat { bits: value.to_bits() }
}

#[test]
fn default_row_writer_assembles_column_values() {
    let mut writer = DefaultRowWriter::new(5);

    writer.write_i32(0, 42);
    writer.write_null(1);
    writer.write_bool(2, true);
    writer.write_f64(3, double(99.5));
    writer.write_string(4, SqlString::new(b"hello".to_vec(), EncodingType::Utf16));
    writer.end_row();

    let row = writer.take_row();
    assert_eq!(row.len(), 5);
    assert_eq!(row[0], ColumnValues::Int(42));
    assert_eq!(row[1], ColumnValues::Null);
    assert_eq!(row[2], ColumnValues::Bit(true));
    assert_eq!(row[3], ColumnValues::Float(double(99.5)));
    assert!(matches!(row[4], ColumnValues::String(_)));
}

#[test]
fn default_row_writer_take_row_resets() {
    let mut writer = DefaultRowWriter::new(2);
    writer.write_i32(0, 1);
    writer.write_i32(1, 2);
    let row1 = writer.take_row();
    assert_eq!(row1.len(), 2);

    // After take, writer is empty and reusable
    writer.write_i64(0, 100);
    let row2 = writer.take_row();
    assert_eq!(row2.len(), 1);
    assert_eq!(row2[0], ColumnValues::BigInt(100));
}

#[test]
fn write_column_value_bridges_all_types() {
    let mut writer = DefaultRowWriter::new(3);

    write_column_value(&mut writer, 0, ColumnValues::Int(99));
    write_column_value(&mut writer, 1, ColumnValues::Null);
    write_column_value(&mut writer, 2, ColumnValues::Bit(false));

    let row = writer.take_row();
    assert_eq!(row[0], ColumnValues::Int(99));
    assert_eq!(row[1], ColumnValues::Null);
    assert_eq!(row[2], ColumnValues::Bit(false));
}

#[test]
fn write_column_value_bridges_numeric() {
    let mut writer = DefaultRowWriter::new(1);
    let parts = DecimalParts::from_i64(12345, 5, 0).unwrap();
    write_column_value(&mut writer, 0, ColumnValues::Numeric(parts.clone()));
    let row = writer.take_row();
    assert_eq!(row[0], ColumnValues::Numeric(parts));
}

#[test]
fn write_column_value_bridges_temporal_types() {
    let mut writer = DefaultRowWriter::new(4);

    let date = SqlDate::create(100).unwrap();
    write_column_value(&mut writer, 0, ColumnValues::Date(date.clone()));

    let time = SqlTime {
        time_nanoseconds: 123456789,
        scale: 7,
    };
    write_column_value(&mut writer, 1, ColumnValues::Time(time.clone()));

    let dt2 = SqlDateTime2 {
        days: 50000,
        time: SqlTime {
            time_nanoseconds: 0,
            scale: 0,
        },
    };
    write_column_value(&mut writer, 2, ColumnValues::DateTime2(dt2.clone()));

    let dto = SqlDateTimeOffset {
        datetime2: dt2.clone(),
        offset: -300,
    };
    write_column_value(&mut writer, 3, ColumnValues::DateTimeOffset(dto.clone()));

    let row = writer.take_row();
    assert_eq!(row[0], ColumnValues::Date(date));
    assert_eq!(row[1], ColumnValues::Time(time));
    assert_eq!(row[2], ColumnValues::DateTime2(dt2));
    assert_eq!(row[3], ColumnValues::DateTimeOffset(dto));
}

#[test]
fn write_column_value_bridges_money_types() {
    let mut writer = DefaultRowWriter::new(2);

    let money = SqlMoney::from((100, 200));
    write_column_value(&mut writer, 0, ColumnValues::Money(money.clone()));

    let small_money = SqlSmallMoney::from(42);
    write_column_value(
        &mut writer,
        1,
        ColumnValues::SmallMoney(small_money.clone()),
    );

    let row = writer.take_row();
    assert_eq!(row[0], ColumnValues::Money(money));
    assert_eq!(row[1], ColumnValues::SmallMoney(small_money));
}

#[test]
fn write_all_primitive_types() {
    let mut writer = DefaultRowWriter::new(8);

    writer.write_u8(0, 255);
    writer.write_i16(1, -1000);
    writer.write_i32(2, 42);
    writer.write_i64(3, i64::MAX);
    writer.write_f32(4, single(1.5));
    writer.write_f64(5, double(2.5));
    writer.write_bool(6, false);
    writer.write_null(7);

    let row = writer.take_row();
    assert_eq!(row[0], ColumnValues::TinyInt(255));
    assert_eq!(row[1], ColumnValues::SmallInt(-1000));
    assert_eq!(row[2], ColumnValues::Int(42));
    assert_eq!(row[3], ColumnValues::BigInt(i64::MAX));
    assert_eq!(row[4], ColumnValues::Real(single(1.5)));
    assert_eq!(row[5], ColumnValues::Float(double(2.5)));
    assert_eq!(row[6], ColumnValues::Bit(false));
    assert_eq!(row[7], ColumnValues::Null);
}

//! Decoding the values of columns.

use byteorder::{ByteOrder, LittleEndian};
use mssql_tds::datatypes::column_values::{
    ColumnValues, SqlDateTime, SqlFloat, SqlReal, SqlSmallDateTime,
};
use mssql_tds::datatypes::decimal::DecimalParts;
use mssql_tds::datatypes::decoder::{validate_alloc_size, GenericDecoder, StringDecoder};
use mssql_tds::datatypes::metadata::ColumnMetadata;
use mssql_tds::datatypes::row_writer::DefaultRowWriter;
use mssql_tds::datatypes::sql_vector::SqlVector;
use mssql_tds::datatypes::sqldatatypes::{
    FixedLengthTypes, TdsDataType, TypeInfo, TypeInfoVariant, VariableLengthTypes, VectorBaseType,
    VectorLayoutFormat, VectorLayoutVersion, VECTOR_MAX_DIMENSIONS,
};
use mssql_tds::datatypes::wire::{
    MAX_ALLOC_SIZE, MAX_CHUNK_SIZE, MAX_PLP_SIZE, SQL_PLP_UNKNOWNLEN,
};
use mssql_tds::error::ErrorKind;
use mssql_tds::io::packet_reader::ByteReader;

/// The bit patterns of single-precision numbers.
fn bits(values: &[f32]) -> Vec<u32> {
    values.iter().map(|v| v.to_bits()).collect()
}

/// The description of a number, with its value as a double-precision number.
fn debug(parts: &DecimalParts) -> String {
    let magnitude = parts.to_u128() as f64 / 10f64.powi(parts.scale as i32);
    let value = if parts.is_positive { magnitude } else { -magnitude };
    parts.debug_string(&format!("{}", value))
}

#[test]
fn test_u8_to_column_values() {
    let value: u8 = 123;
    let col_val: ColumnValues = value.into();
    match col_val {
        ColumnValues::TinyInt(v) => assert_eq!(v, 123),
        _ => panic!("Expected TinyInt variant"),
    }
}

#[test]
fn test_i32_to_column_values() {
    let value: i32 = 12345;
    let col_val: ColumnValues = value.into();
    match col_val {
        ColumnValues::Int(v) => assert_eq!(v, 12345),
        _ => panic!("Expected Int variant"),
    }
}

#[test]
fn test_i32_negative_to_column_values() {
    let value: i32 = -12345;
    let col_val: ColumnValues = value.into();
    match col_val {
        ColumnValues::Int(v) => assert_eq!(v, -12345),
        _ => panic!("Expected Int variant"),
    }
}

#[test]
fn test_generic_decoder_default() {
    let decoder = GenericDecoder::default();
    // Just verify it can be created
    assert!(std::mem::size_of_val(&decoder) > 0);
}

#[test]
fn test_string_decoder_default() {
    let decoder = StringDecoder::default();
    // Just verify it can be created
    assert!(std::mem::size_of_val(&decoder) > 0);
}

#[test]
fn test_decimal_parts_debug() {
    let parts = DecimalParts {
        is_positive: true,
        scale: 2,
        precision: 10,
        int_parts: vec![123, 456],
    };
    let debug_str = debug(&parts);
    // Just verify the debug trait works - don't assert on exact format
    assert!(!debug_str.is_empty());
}

#[test]
fn test_generic_decoder_constants() {
    assert_eq!(GenericDecoder::SHORTLEN_MAXVALUE, 65535);
    assert_eq!(GenericDecoder::SQL_PLP_NULL, 0xffffffffffffffff);
    assert_eq!(GenericDecoder::SQL_PLP_UNKNOWNLEN, 0xfffffffffffffffe);
}

#[test]
fn test_column_values_from_u8_zero() {
    let value: u8 = 0;
    let col_val: ColumnValues = value.into();
    match col_val {
        ColumnValues::TinyInt(v) => assert_eq!(v, 0),
        _ => panic!("Expected TinyInt variant"),
    }
}

#[test]
fn test_column_values_from_u8_max() {
    let value: u8 = 255;
    let col_val: ColumnValues = value.into();
    match col_val {
        ColumnValues::TinyInt(v) => assert_eq!(v, 255),
        _ => panic!("Expected TinyInt variant"),
    }
}

#[test]
fn test_column_values_from_i32_zero() {
    let value: i32 = 0;
    let col_val: ColumnValues = value.into();
    match col_val {
        ColumnValues::Int(v) => assert_eq!(v, 0),
        _ => panic!("Expected Int variant"),
    }
}

#[test]
fn test_column_values_from_i32_max() {
    let value: i32 = i32::MAX;
    let col_val: ColumnValues = value.into();
    match col_val {
        ColumnValues::Int(v) => assert_eq!(v, i32::MAX),
        _ => panic!("Expected Int variant"),
    }
}

#[test]
fn test_column_values_from_i32_min() {
    let value: i32 = i32::MIN;
    let col_val: ColumnValues = value.into();
    match col_val {
        ColumnValues::Int(v) => assert_eq!(v, i32::MIN),
        _ => panic!("Expected Int variant"),
    }
}

#[test]
fn test_validate_alloc_size_within_limit() {
    let result = validate_alloc_size(1024, "test_allocation");
    assert!(result.is_ok());
}

#[test]
fn test_validate_alloc_size_at_limit() {
    let result = validate_alloc_size(MAX_ALLOC_SIZE, "test_at_limit");
    assert!(result.is_ok());
}

#[test]
fn test_validate_alloc_size_exceeds_limit() {
    let result = validate_alloc_size(MAX_ALLOC_SIZE + 1, "test_exceeds");
    assert!(result.is_err());
    if let Err(e) = result {
        let error_msg = format!("{e:?}");
        assert!(error_msg.contains("exceeds maximum allowed"));
    }
}

#[test]
fn test_validate_alloc_size_zero() {
    let result = validate_alloc_size(0, "test_zero");
    assert!(result.is_ok());
}

#[test]
fn test_decimal_parts_equality_same() {
    let parts1 = DecimalParts {
        is_positive: true,
        scale: 2,
        precision: 10,
        int_parts: vec![100, 200],
    };
    let parts2 = DecimalParts {
        is_positive: true,
        scale: 2,
        precision: 10,
        int_parts: vec![100, 200],
    };
    assert_eq!(parts1, parts2);
}

#[test]
fn test_decimal_parts_equality_different_sign() {
    let parts1 = DecimalParts {
        is_positive: true,
        scale: 2,
        precision: 10,
        int_parts: vec![100],
    };
    let parts2 = DecimalParts {
        is_positive: false,
        scale: 2,
        precision: 10,
        int_parts: vec![100],
    };
    assert_ne!(parts1, parts2);
}

#[test]
fn test_decimal_parts_equality_different_scale() {
    let parts1 = DecimalParts {
        is_positive: true,
        scale: 2,
        precision: 10,
        int_parts: vec![100],
    };
    let parts2 = DecimalParts {
        is_positive: true,
        scale: 3,
        precision: 10,
        int_parts: vec![100],
    };
    assert_ne!(parts1, parts2);
}

#[test]
fn test_decimal_parts_equality_different_precision() {
    let parts1 = DecimalParts {
        is_positive: true,
        scale: 2,
        precision: 10,
        int_parts: vec![100],
    };
    let parts2 = DecimalParts {
        is_positive: true,
        scale: 2,
        precision: 12,
        int_parts: vec![100],
    };
    assert_ne!(parts1, parts2);
}

#[test]
fn test_decimal_parts_equality_different_length_with_zeros() {
    let parts1 = DecimalParts {
        is_positive: true,
        scale: 2,
        precision: 10,
        int_parts: vec![100, 0, 0],
    };
    let parts2 = DecimalParts {
        is_positive: true,
        scale: 2,
        precision: 10,
        int_parts: vec![100],
    };
    assert_eq!(parts1, parts2);
}

#[test]
fn test_decimal_parts_equality_different_length_with_nonzeros() {
    let parts1 = DecimalParts {
        is_positive: true,
        scale: 2,
        precision: 10,
        int_parts: vec![100, 200],
    };
    let parts2 = DecimalParts {
        is_positive: true,
        scale: 2,
        precision: 10,
        int_parts: vec![100],
    };
    assert_ne!(parts1, parts2);
}

#[test]
fn test_decimal_parts_debug_format_positive() {
    let parts = DecimalParts {
        is_positive: true,
        scale: 2,
        precision: 10,
        int_parts: vec![12345],
    };
    let debug_str = debug(&parts);
    assert!(debug_str.contains("Decimal:"));
    assert!(debug_str.contains("12345"));
    assert!(debug_str.contains("Precision 10"));
    assert!(debug_str.contains("Scale 2"));
    assert!(!debug_str.starts_with("Decimal: -"));
}

#[test]
fn test_decimal_parts_debug_format_negative() {
    let parts = DecimalParts {
        is_positive: false,
        scale: 3,
        precision: 15,
        int_parts: vec![54321],
    };
    let debug_str = debug(&parts);
    assert!(debug_str.contains("Decimal: -"));
    assert!(debug_str.contains("54321"));
    assert!(debug_str.contains("Precision 15"));
    assert!(debug_str.contains("Scale 3"));
}

#[test]
fn test_decimal_parts_debug_format_multiple_parts() {
    let parts = DecimalParts {
        is_positive: true,
        scale: 0,
        precision: 20,
        int_parts: vec![100, 200, 300],
    };
    let debug_str = debug(&parts);
    assert!(debug_str.contains("100"));
    assert!(debug_str.contains("200"));
    assert!(debug_str.contains("300"));
}

#[test]
fn test_string_decoder_new() {
    let decoder = StringDecoder::new();
    assert!(decoder.db_collation.is_none());
}

#[test]
fn test_string_decoder_is_long_len_type_ntext() {
    assert!(StringDecoder::is_long_len_type(TdsDataType::NText));
}

#[test]
fn test_string_decoder_is_long_len_type_text() {
    assert!(StringDecoder::is_long_len_type(TdsDataType::Text));
}

#[test]
fn test_string_decoder_is_long_len_type_not_long() {
    assert!(!StringDecoder::is_long_len_type(TdsDataType::NVarChar));
    assert!(!StringDecoder::is_long_len_type(TdsDataType::BigVarChar));
    assert!(!StringDecoder::is_long_len_type(TdsDataType::Int4));
}

#[test]
fn test_decimal_parts_equality_reversed_order() {
    // Test that order matters for trailing zeros
    let parts1 = DecimalParts {
        is_positive: true,
        scale: 2,
        precision: 10,
        int_parts: vec![100],
    };
    let parts2 = DecimalParts {
        is_positive: true,
        scale: 2,
        precision: 10,
        int_parts: vec![0, 100],
    };
    // These should not be equal as trailing zeros are in different positions
    assert_ne!(parts1, parts2);
}

#[test]
fn test_decimal_parts_equality_both_empty() {
    let parts1 = DecimalParts {
        is_positive: true,
        scale: 0,
        precision: 1,
        int_parts: vec![],
    };
    let parts2 = DecimalParts {
        is_positive: true,
        scale: 0,
        precision: 1,
        int_parts: vec![],
    };
    assert_eq!(parts1, parts2);
}

#[test]
fn test_validate_alloc_size_mid_range() {
    // Test allocation in the middle range
    let result = validate_alloc_size(MAX_ALLOC_SIZE / 2, "test_mid_range");
    assert!(result.is_ok());
}

#[test]
fn test_decimal_parts_equality_one_empty_one_zero() {
    // Test equality between empty vec and vec with zero
    let parts1 = DecimalParts {
        is_positive: true,
        scale: 0,
        precision: 1,
        int_parts: vec![],
    };
    let parts2 = DecimalParts {
        is_positive: true,
        scale: 0,
        precision: 1,
        int_parts: vec![0],
    };
    // Empty should equal to [0]
    assert_eq!(parts1, parts2);
}

#[test]
fn test_decimal_parts_debug_with_zero() {
    // Test Debug formatting with zero value
    let parts = DecimalParts {
        is_positive: true,
        scale: 0,
        precision: 1,
        int_parts: vec![0],
    };
    let debug_str = debug(&parts);
    assert!(debug_str.contains("0"));
    assert!(debug_str.contains("F64 value: 0"));
}

// Tests for DecimalParts::from_string

#[test]
fn test_from_string_positive_decimal() {
    let result = DecimalParts::from_string("123.45", 10, 2);
    assert!(result.is_ok());
    let parts = result.unwrap();
    assert!(parts.is_positive);
    assert_eq!(parts.scale, 2);
    assert_eq!(parts.precision, 10);
    assert_eq!(parts.to_decimal_string(), "123.45");
}

#[test]
fn test_from_string_negative_decimal() {
    let result = DecimalParts::from_string("-123.45", 10, 2);
    assert!(result.is_ok());
    let parts = result.unwrap();
    assert!(!parts.is_positive);
    assert_eq!(parts.scale, 2);
    assert_eq!(parts.precision, 10);
    assert_eq!(parts.to_decimal_string(), "-123.45");
}

#[test]
fn test_from_string_integer_no_decimal_point() {
    let result = DecimalParts::from_string("12345", 10, 0);
    assert!(result.is_ok());
    let parts = result.unwrap();
    assert!(parts.is_positive);
    assert_eq!(parts.scale, 0);
    assert_eq!(parts.to_decimal_string(), "12345");
}

#[test]
fn test_from_string_with_leading_zeros() {
    let result = DecimalParts::from_string("00123.45", 10, 2);
    assert!(result.is_ok());
    let parts = result.unwrap();
    assert_eq!(parts.to_decimal_string(), "123.45");
}

#[test]
fn test_from_string_small_fractional_value() {
    let result = DecimalParts::from_string("0.01", 10, 2);
    assert!(result.is_ok());
    let parts = result.unwrap();
    assert_eq!(parts.to_decimal_string(), "0.01");
}

#[test]
fn test_from_string_zero() {
    let result = DecimalParts::from_string("0", 10, 0);
    assert!(result.is_ok());
    let parts = result.unwrap();
    assert_eq!(parts.to_decimal_string(), "0");
}

#[test]
fn test_from_string_zero_with_scale() {
    let result = DecimalParts::from_string("0.00", 10, 2);
    assert!(result.is_ok());
    let parts = result.unwrap();
    assert_eq!(parts.to_decimal_string(), "0.00");
}

#[test]
fn test_from_string_fractional_padding() {
    // "1.5" with scale 3 should be treated as "1.500"
    let result = DecimalParts::from_string("1.5", 10, 3);
    assert!(result.is_ok());
    let parts = result.unwrap();
    assert_eq!(parts.to_decimal_string(), "1.500");
}

#[test]
fn test_from_string_max_precision_38_digits() {
    let value = "12345678901234567890123456789012345678";
    let result = DecimalParts::from_string(value, 38, 0);
    assert!(result.is_ok());
    let parts = result.unwrap();
    assert_eq!(parts.to_decimal_string(), value);
}

#[test]
fn test_from_string_high_scale() {
    let result = DecimalParts::from_string("123.456789", 10, 6);
    assert!(result.is_ok());
    let parts = result.unwrap();
    assert_eq!(parts.to_decimal_string(), "123.456789");
}

#[test]
fn test_from_string_leading_zeros_precision_check() {
    // "00001.00" should have precision of 3 (1 significant digit + 2 scale)
    let result = DecimalParts::from_string("00001.00", 5, 2);
    assert!(result.is_ok());
    let parts = result.unwrap();
    assert_eq!(parts.to_decimal_string(), "1.00");
}

#[test]
fn test_from_string_with_positive_sign() {
    let result = DecimalParts::from_string("+123.45", 10, 2);
    assert!(result.is_ok());
    let parts = result.unwrap();
    assert!(parts.is_positive);
    assert_eq!(parts.to_decimal_string(), "123.45");
}

// Error cases

#[test]
fn test_from_string_invalid_characters() {
    let result = DecimalParts::from_string("not_a_number", 10, 2);
    assert!(result.is_err());
    let error_msg = format!("{:?}", result.unwrap_err());
    assert!(error_msg.contains("invalid digit"));
}

#[test]
fn test_from_string_multiple_decimal_points() {
    let result = DecimalParts::from_string("123.45.67", 10, 2);
    assert!(result.is_err());
    let error_msg = format!("{:?}", result.unwrap_err());
    assert!(error_msg.contains("Invalid decimal string"));
}

#[test]
fn test_from_string_scale_exceeded() {
    // Trying to parse "123.456" with scale 2 should fail
    let result = DecimalParts::from_string("123.456", 10, 2);
    assert!(result.is_err());
    let error_msg = format!("{:?}", result.unwrap_err());
    assert!(error_msg.contains("scale") && error_msg.contains("exceeds"));
}

#[test]
fn test_from_string_precision_exceeded() {
    // "12345" has 5 significant digits, should fail with precision 4
    let result = DecimalParts::from_string("12345", 4, 0);
    assert!(result.is_err());
    let error_msg = format!("{:?}", result.unwrap_err());
    assert!(error_msg.contains("precision") && error_msg.contains("exceeds"));
}

#[test]
fn test_from_string_precision_exceeded_with_decimal() {
    // "123.45" has 5 significant digits total, should fail with precision 4
    let result = DecimalParts::from_string("123.45", 4, 2);
    assert!(result.is_err());
    let error_msg = format!("{:?}", result.unwrap_err());
    assert!(error_msg.contains("precision") && error_msg.contains("exceeds"));
}

#[test]
fn test_from_string_invalid_digit_in_integer_part() {
    let result = DecimalParts::from_string("12a34", 10, 0);
    assert!(result.is_err());
    let error_msg = format!("{:?}", result.unwrap_err());
    assert!(error_msg.contains("invalid digit"));
}

#[test]
fn test_from_string_invalid_digit_in_fractional_part() {
    let result = DecimalParts::from_string("123.4x5", 10, 2);
    assert!(result.is_err());
    let error_msg = format!("{:?}", result.unwrap_err());
    assert!(error_msg.contains("invalid digit"));
}

#[test]
fn test_from_string_leading_zeros_not_counted_in_precision() {
    // "0000123" should be treated as precision 3, not 7
    let result = DecimalParts::from_string("0000123", 3, 0);
    assert!(result.is_ok());
    let parts = result.unwrap();
    assert_eq!(parts.to_decimal_string(), "123");
}

#[test]
fn test_from_string_whitespace_trimmed() {
    let result = DecimalParts::from_string("  123.45  ", 10, 2);
    assert!(result.is_ok());
    let parts = result.unwrap();
    assert_eq!(parts.to_decimal_string(), "123.45");
}

#[test]
fn test_from_string_negative_zero() {
    let result = DecimalParts::from_string("-0", 10, 0);
    assert!(result.is_ok());
    let parts = result.unwrap();
    assert!(!parts.is_positive);
    assert_eq!(parts.to_decimal_string(), "-0");
}

#[test]
fn test_from_string_only_zeros_with_decimal() {
    let result = DecimalParts::from_string("0.0", 10, 1);
    assert!(result.is_ok());
    let parts = result.unwrap();
    assert_eq!(parts.to_decimal_string(), "0.0");
}

#[test]
fn test_from_string_exact_precision_match() {
    // Test when actual precision exactly matches target precision
    let result = DecimalParts::from_string("12345", 5, 0);
    assert!(result.is_ok());
    let parts = result.unwrap();
    assert_eq!(parts.to_decimal_string(), "12345");
}

#[test]
fn test_from_string_exact_scale_match() {
    // Test when fractional digits exactly match scale
    let result = DecimalParts::from_string("123.45", 5, 2);
    assert!(result.is_ok());
    let parts = result.unwrap();
    assert_eq!(parts.to_decimal_string(), "123.45");
}

#[test]
fn test_vector_creation_and_validation() {
    // Test that SqlVector::try_from_f32 creates valid vectors
    let dimensions = vec![1.0, 2.0, 3.0];
    let vector = SqlVector::try_from_f32(bits(&dimensions)).unwrap();

    // Only check semantic data - TDS header fields are not stored
    assert_eq!(vector.as_f32(), Some(bits(&dimensions).as_slice()));
    assert_eq!(vector.dimension_count(), 3);
}

#[test]
fn test_vector_single_dimension() {
    let vector = SqlVector::try_from_f32(bits(&[42.5])).unwrap();
    assert_eq!(vector.as_f32(), Some(&bits(&[42.5])[..]));
    assert_eq!(vector.dimension_count(), 1);
}

#[test]
fn test_vector_max_dimensions() {
    let dimensions: Vec<f32> = (0..VECTOR_MAX_DIMENSIONS).map(|i| i as f32).collect();
    let vector = SqlVector::try_from_f32(bits(&dimensions)).unwrap();
    assert_eq!(vector.dimension_count(), VECTOR_MAX_DIMENSIONS);
}

#[test]
fn test_vector_from_raw_valid() {
    let values = vec![1.0_f32, 2.0, 3.0];
    // Convert f32 values to raw bytes
    let mut raw_bytes = Vec::new();
    for val in &values {
        raw_bytes.extend_from_slice(&val.to_le_bytes());
    }

    let vector = SqlVector::try_from_raw(
        VectorLayoutFormat::V1.code(),
        VectorLayoutVersion::V1.code(),
        VectorBaseType::Float32.code(),
        raw_bytes,
    );

    // try_from_raw validates during construction
    assert!(vector.is_ok());
    let vector = vector.unwrap();
    assert_eq!(vector.as_f32(), Some(bits(&values).as_slice()));
}

#[test]
fn test_vector_from_raw_invalid_layout_format() {
    let values = vec![1.0_f32, 2.0];
    let mut raw_bytes = Vec::new();
    for val in &values {
        raw_bytes.extend_from_slice(&val.to_le_bytes());
    }

    let result = SqlVector::try_from_raw(
        0x00, // Invalid format
        VectorLayoutVersion::V1.code(),
        VectorBaseType::Float32.code(),
        raw_bytes,
    );

    assert!(result.is_err());
    assert!(result.unwrap_err().message().contains("layout format"));
}

#[test]
fn test_vector_from_raw_invalid_layout_version() {
    let values = vec![1.0_f32, 2.0];
    let mut raw_bytes = Vec::new();
    for val in &values {
        raw_bytes.extend_from_slice(&val.to_le_bytes());
    }

    let result = SqlVector::try_from_raw(
        VectorLayoutFormat::V1.code(),
        0x99, // Invalid version
        VectorBaseType::Float32.code(),
        raw_bytes,
    );

    assert!(result.is_err());
    assert!(result.unwrap_err().message().contains("layout version"));
}

#[test]
fn test_vector_from_raw_invalid_base_type() {
    let values = vec![1.0_f32, 2.0];
    let mut raw_bytes = Vec::new();
    for val in &values {
        raw_bytes.extend_from_slice(&val.to_le_bytes());
    }

    let result = SqlVector::try_from_raw(
        VectorLayoutFormat::V1.code(),
        VectorLayoutVersion::V1.code(),
        0x99, // Invalid base type
        raw_bytes,
    );

    assert!(result.is_err());
    assert!(result.unwrap_err().message().contains("base type"));
}

#[test]
fn test_vector_empty_dimensions() {
    let result = SqlVector::try_from_f32(vec![]);
    assert!(result.is_err());
    assert!(
        result
            .unwrap_err()
            .message()
            .contains("at least one dimension")
    );
}

#[test]
fn test_vector_too_many_dimensions() {
    let dimensions: Vec<f32> = (0..(VECTOR_MAX_DIMENSIONS + 1)).map(|i| i as f32).collect();
    let result = SqlVector::try_from_f32(bits(&dimensions));
    assert!(result.is_err());
    assert!(result.unwrap_err().message().contains("exceeds maximum"));
}

#[test]
fn test_vector_total_size() {
    let vector = SqlVector::try_from_f32(bits(&[1.0, 2.0, 3.0])).unwrap();
    assert_eq!(vector.total_size(), 8 + 3 * 4); // 8 byte header + 3 floats * 4 bytes
}

#[test]
fn test_column_values_vector_variant() {
    let vector = SqlVector::try_from_f32(bits(&[1.0, 2.0, 3.0])).unwrap();
    let col_val = ColumnValues::Vector(vector);

    match col_val {
        ColumnValues::Vector(v) => {
            assert_eq!(v.dimension_count(), 3);
            assert_eq!(v.as_f32(), Some(&bits(&[1.0, 2.0, 3.0])[..]));
        }
        _ => panic!("Expected Vector variant"),
    }
}

fn fixed_metadata(data_type: TdsDataType, length: usize) -> ColumnMetadata {
    ColumnMetadata {
        user_type: 0,
        flags: 0,
        data_type,
        type_info: TypeInfo {
            tds_type: data_type,
            length,
            type_info_variant: TypeInfoVariant::FixedLen(
                FixedLengthTypes::from_type(data_type)
                    .unwrap_or(FixedLengthTypes::Int4),
            ),
        },
        column_name: String::new(),
        multi_part_name: None,
    }
}

fn varlen_metadata(data_type: TdsDataType, length: usize) -> ColumnMetadata {
    ColumnMetadata {
        user_type: 0,
        flags: 0,
        data_type,
        type_info: TypeInfo {
            tds_type: data_type,
            length,
            type_info_variant: TypeInfoVariant::VarLen(
                VariableLengthTypes::from_type(data_type)
                    .unwrap_or(VariableLengthTypes::IntN),
                length,
            ),
        },
        column_name: String::new(),
        multi_part_name: None,
    }
}

/// Runs both decode() and decode_into() on the same bytes and asserts
/// that decode_into via DefaultRowWriter produces the same ColumnValues
/// as decode().
fn assert_decode_equivalence(
    bytes: Vec<u8>,
    metadata: &ColumnMetadata,
) -> ColumnValues {
    let decoder = GenericDecoder::default();

    // Run decode()
    let mut reader1 = ByteReader::new(bytes.clone());
    let expected = decoder.decode(&mut reader1, metadata).unwrap();

    // Run decode_into()
    let mut reader2 = ByteReader::new(bytes);
    let mut writer = DefaultRowWriter::new(1);
    decoder
        .decode_into(&mut reader2, metadata, 0, &mut writer)
        .unwrap();
    let row = writer.take_row();
    assert_eq!(row.len(), 1);
    assert_eq!(
        row[0], expected,
        "decode_into mismatch for {:?}",
        metadata.data_type
    );
    expected
}

#[test]
fn decode_into_int1() {
    let md = fixed_metadata(TdsDataType::Int1, 1);
    let val = assert_decode_equivalence(vec![42], &md);
    assert_eq!(val, ColumnValues::TinyInt(42));
}

#[test]
fn decode_into_int2() {
    let md = fixed_metadata(TdsDataType::Int2, 2);
    let mut buf = [0u8; 2];
    LittleEndian::write_i16(&mut buf, -1234);
    let val = assert_decode_equivalence(buf.to_vec(), &md);
    assert_eq!(val, ColumnValues::SmallInt(-1234));
}

#[test]
fn decode_into_int4() {
    let md = fixed_metadata(TdsDataType::Int4, 4);
    let mut buf = [0u8; 4];
    LittleEndian::write_i32(&mut buf, 99999);
    let val = assert_decode_equivalence(buf.to_vec(), &md);
    assert_eq!(val, ColumnValues::Int(99999));
}

#[test]
fn decode_into_int8() {
    let md = fixed_metadata(TdsDataType::Int8, 8);
    let mut buf = [0u8; 8];
    LittleEndian::write_i64(&mut buf, i64::MAX);
    let val = assert_decode_equivalence(buf.to_vec(), &md);
    assert_eq!(val, ColumnValues::BigInt(i64::MAX));
}

#[test]
fn decode_into_intn_null() {
    let md = varlen_metadata(TdsDataType::IntN, 4);
    // length byte = 0 → null
    let val = assert_decode_equivalence(vec![0], &md);
    assert_eq!(val, ColumnValues::Null);
}

#[test]
fn decode_into_intn_i32() {
    let md = varlen_metadata(TdsDataType::IntN, 4);
    let mut buf = vec![4u8]; // length = 4
    let mut i32_buf = [0u8; 4];
    LittleEndian::write_i32(&mut i32_buf, 777);
    buf.extend_from_slice(&i32_buf);
    let val = assert_decode_equivalence(buf, &md);
    assert_eq!(val, ColumnValues::Int(777));
}

#[test]
fn decode_into_flt4() {
    let md = fixed_metadata(TdsDataType::Flt4, 4);
    let mut buf = [0u8; 4];
    LittleEndian::write_f32(&mut buf, 1.5);
    let val = assert_decode_equivalence(buf.to_vec(), &md);
    assert_eq!(val, ColumnValues::Real(SqlReal { bits: 1.5_f32.to_bits() }));
}

#[test]
fn decode_into_flt8() {
    let md = fixed_metadata(TdsDataType::Flt8, 8);
    let mut buf = [0u8; 8];
    LittleEndian::write_f64(&mut buf, 99.25);
    let val = assert_decode_equivalence(buf.to_vec(), &md);
    assert_eq!(val, ColumnValues::Float(SqlFloat { bits: 99.25_f64.to_bits() }));
}

#[test]
fn decode_into_fltn_null() {
    let md = varlen_metadata(TdsDataType::FltN, 8);
    let val = assert_decode_equivalence(vec![0], &md);
    assert_eq!(val, ColumnValues::Null);
}

#[test]
fn decode_into_fltn_f32() {
    let md = varlen_metadata(TdsDataType::FltN, 4);
    let mut buf = vec![4u8];
    let mut f32_buf = [0u8; 4];
    LittleEndian::write_f32(&mut f32_buf, 2.5);
    buf.extend_from_slice(&f32_buf);
    let val = assert_decode_equivalence(buf, &md);
    assert_eq!(val, ColumnValues::Real(SqlReal { bits: 2.5_f32.to_bits() }));
}

#[test]
fn decode_into_bit() {
    let md = fixed_metadata(TdsDataType::Bit, 1);
    let val = assert_decode_equivalence(vec![1], &md);
    assert_eq!(val, ColumnValues::Bit(true));
}

#[test]
fn decode_into_bitn_null() {
    let md = varlen_metadata(TdsDataType::BitN, 1);
    let val = assert_decode_equivalence(vec![0], &md);
    assert_eq!(val, ColumnValues::Null);
}

#[test]
fn decode_into_bitn_true() {
    let md = varlen_metadata(TdsDataType::BitN, 1);
    let val = assert_decode_equivalence(vec![1, 1], &md);
    assert_eq!(val, ColumnValues::Bit(true));
}

#[test]
fn decode_into_money4() {
    let md = fixed_metadata(TdsDataType::Money4, 4);
    let mut buf = [0u8; 4];
    LittleEndian::write_i32(&mut buf, 10000); // $1.00
    let val = assert_decode_equivalence(buf.to_vec(), &md);
    assert!(matches!(val, ColumnValues::SmallMoney(_)));
}

#[test]
fn decode_into_money8() {
    let md = fixed_metadata(TdsDataType::Money, 8);
    let mut buf = [0u8; 8];
    // money is stored as msb + lsb i32 pair
    LittleEndian::write_i32(&mut buf[0..4], 0); // msb
    LittleEndian::write_i32(&mut buf[4..8], 10000); // lsb
    let val = assert_decode_equivalence(buf.to_vec(), &md);
    assert!(matches!(val, ColumnValues::Money(_)));
}

#[test]
fn decode_into_moneyn_null() {
    let md = varlen_metadata(TdsDataType::MoneyN, 8);
    let val = assert_decode_equivalence(vec![0], &md);
    assert_eq!(val, ColumnValues::Null);
}

#[test]
fn decode_into_datetime() {
    let md = fixed_metadata(TdsDataType::DateTime, 8);
    let mut buf = [0u8; 8];
    LittleEndian::write_i32(&mut buf[0..4], 43000); // days
    LittleEndian::write_u32(&mut buf[4..8], 100); // ticks
    let val = assert_decode_equivalence(buf.to_vec(), &md);
    assert!(matches!(
        val,
        ColumnValues::DateTime(SqlDateTime {
            days: 43000,
            time: 100
        })
    ));
}

#[test]
fn decode_into_smalldatetime() {
    let md = fixed_metadata(TdsDataType::DateTim4, 4);
    let mut buf = [0u8; 4];
    LittleEndian::write_u16(&mut buf[0..2], 1000); // days
    LittleEndian::write_u16(&mut buf[2..4], 60); // minutes
    let val = assert_decode_equivalence(buf.to_vec(), &md);
    assert!(matches!(
        val,
        ColumnValues::SmallDateTime(SqlSmallDateTime {
            days: 1000,
            time: 60
        })
    ));
}

#[test]
fn decode_into_datetimen_null() {
    let md = varlen_metadata(TdsDataType::DateTimeN, 8);
    let val = assert_decode_equivalence(vec![0], &md);
    assert_eq!(val, ColumnValues::Null);
}

#[test]
fn decode_into_daten() {
    let md = varlen_metadata(TdsDataType::DateN, 3);
    // length=3, then 3 bytes for date (uint24 days)
    let val = assert_decode_equivalence(vec![3, 0x01, 0x00, 0x00], &md);
    assert!(matches!(val, ColumnValues::Date(_)));
}

#[test]
fn decode_into_daten_null() {
    let md = varlen_metadata(TdsDataType::DateN, 3);
    let val = assert_decode_equivalence(vec![0], &md);
    assert_eq!(val, ColumnValues::Null);
}

#[test]
fn decode_into_guid() {
    let md = varlen_metadata(TdsDataType::Guid, 16);
    let mut buf = vec![16u8]; // length
    buf.extend_from_slice(&[1u8; 16]); // 16 bytes
    let val = assert_decode_equivalence(buf, &md);
    assert!(matches!(val, ColumnValues::Uuid(_)));
}

#[test]
fn decode_into_guid_null() {
    let md = varlen_metadata(TdsDataType::Guid, 16);
    let val = assert_decode_equivalence(vec![0], &md);
    assert_eq!(val, ColumnValues::Null);
}

#[test]
fn decode_into_bigbinary() {
    let md = varlen_metadata(TdsDataType::BigBinary, 4);
    let mut buf = Vec::new();
    // u16 length = 4
    buf.extend_from_slice(&[4, 0]);
    buf.extend_from_slice(&[0xDE, 0xAD, 0xBE, 0xEF]);
    let val = assert_decode_equivalence(buf, &md);
    assert_eq!(val, ColumnValues::Bytes(vec![0xDE, 0xAD, 0xBE, 0xEF]));
}

#[test]
fn decode_into_nvarchar() {
    // non-PLP, non-LOB: u16 length + bytes
    let md = varlen_metadata(TdsDataType::NVarChar, 100);
    let text_bytes = b"hi";
    let mut buf = Vec::new();
    // u16 length = 2
    buf.extend_from_slice(&[2, 0]);
    buf.extend_from_slice(text_bytes);
    let val = assert_decode_equivalence(buf, &md);
    assert!(matches!(val, ColumnValues::String(_)));
}

#[test]
fn decode_into_nvarchar_null() {
    let md = varlen_metadata(TdsDataType::NVarChar, 100);
    // 0xFFFF = NULL
    let val = assert_decode_equivalence(vec![0xFF, 0xFF], &md);
    assert_eq!(val, ColumnValues::Null);
}

#[test]
fn decode_into_decimaln_null() {
    let md = ColumnMetadata {
        user_type: 0,
        flags: 0,
        data_type: TdsDataType::DecimalN,
        type_info: TypeInfo {
            tds_type: TdsDataType::DecimalN,
            length: 9,
            type_info_variant: TypeInfoVariant::VarLenPrecisionScale(
                VariableLengthTypes::DecimalN,
                9,
                18,
                5,
            ),
        },
        column_name: String::new(),
        multi_part_name: None,
    };
    // length byte = 0 → NULL
    let val = assert_decode_equivalence(vec![0], &md);
    assert_eq!(val, ColumnValues::Null);
}

#[test]
fn decode_into_decimaln_value() {
    let md = ColumnMetadata {
        user_type: 0,
        flags: 0,
        data_type: TdsDataType::DecimalN,
        type_info: TypeInfo {
            tds_type: TdsDataType::DecimalN,
            length: 9,
            type_info_variant: TypeInfoVariant::VarLenPrecisionScale(
                VariableLengthTypes::DecimalN,
                9,
                18,
                2,
            ),
        },
        column_name: String::new(),
        multi_part_name: None,
    };
    // length=5, sign=1 (positive), one i32 part = 12345
    let mut buf = vec![5u8, 1u8];
    let mut part = [0u8; 4];
    LittleEndian::write_i32(&mut part, 12345);
    buf.extend_from_slice(&part);
    let val = assert_decode_equivalence(buf, &md);
    assert!(matches!(val, ColumnValues::Decimal(_)));
}

/// Chunked data: its length, the lengths of its chunks with their bytes, the end.
fn chunked(length: u64, chunks: &[(u32, &[u8])]) -> Vec<u8> {
    let mut bytes = length.to_le_bytes().to_vec();
    for (len, chunk) in chunks {
        bytes.extend_from_slice(&len.to_le_bytes());
        bytes.extend_from_slice(chunk);
    }
    bytes.extend_from_slice(&[0, 0, 0, 0]);
    bytes
}

#[test]
fn values_are_bounded() {
    let decoder = GenericDecoder::default();
    let read = |bytes: Vec<u8>, data_type: TdsDataType| {
        decoder.decode(&mut ByteReader::new(bytes), &varlen_metadata(data_type, 0xFFFF))
    };
    let kind = |bytes: Vec<u8>, data_type: TdsDataType| read(bytes, data_type).unwrap_err().kind();

    assert_eq!(
        read(chunked(3, &[(1, &[7]), (2, &[8, 9])]), TdsDataType::Udt),
        Ok(ColumnValues::Bytes(vec![7, 8, 9]))
    );
    // A value of known length has it, though its chunks are shorter
    assert_eq!(
        read(chunked(3, &[(1, &[7])]), TdsDataType::Udt),
        Ok(ColumnValues::Bytes(vec![7, 0, 0]))
    );
    assert_eq!(kind(chunked(1, &[(2, &[8, 9])]), TdsDataType::Udt), ErrorKind::Protocol);
    assert_eq!(
        kind(chunked(MAX_PLP_SIZE as u64 + 1, &[]), TdsDataType::Udt),
        ErrorKind::Protocol
    );
    let too_long = MAX_CHUNK_SIZE as u32 + 1;
    assert_eq!(
        kind(chunked(SQL_PLP_UNKNOWNLEN, &[(too_long, &[])]), TdsDataType::Udt),
        ErrorKind::Protocol
    );

    // A pointer of one byte, a timestamp, and the length
    let mut image = vec![1, 0, 0, 0, 0, 0, 0, 0, 0, 0];
    image.extend_from_slice(&(MAX_ALLOC_SIZE as u32 + 1).to_le_bytes());
    assert_eq!(kind(image, TdsDataType::Image), ErrorKind::Protocol);
}

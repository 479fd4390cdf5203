//! Values that are written, sent in packets, received and decoded.

use mssql_tds::connection::transport::buffers::PacketStep;
use mssql_tds::connection::transport::network_transport::NetworkTransport;
use mssql_tds::datatypes::column_values::{
    ColumnValues, SqlDate, SqlDateTime, SqlDateTime2, SqlDateTimeOffset, SqlFloat, SqlGuid, SqlJson,
    SqlMoney, SqlReal, SqlSmallDateTime, SqlSmallMoney, SqlTime, SqlXml,
};
use mssql_tds::datatypes::decimal::DecimalParts;
use mssql_tds::datatypes::decoder::GenericDecoder;
use mssql_tds::datatypes::metadata::ColumnMetadata;
use mssql_tds::datatypes::row_writer::DefaultRowWriter;
use mssql_tds::datatypes::sql_string::{EncodingType, SqlString};
use mssql_tds::datatypes::sql_vector::SqlVector;
use mssql_tds::datatypes::sqldatatypes::{
    FixedLengthTypes, SqlCollation, TdsDataType, TypeInfo, TypeInfoVariant, VariableLengthTypes,
};
use mssql_tds::datatypes::sync_decoder::{decode_column_sync, SyncReader};
use mssql_tds::datatypes::tds_value_serializer::{TdsTypeContext, TdsValueSerializer};
use mssql_tds::error::ErrorKind;
use mssql_tds::io::packet_reader::ByteReader;
use mssql_tds::io::packet_writer::PacketWriter;
use mssql_tds::message::PacketType;
use mssql_tds::settings::EncryptionSetting;

fn column(data_type: TdsDataType, length: usize, variant: TypeInfoVariant) -> ColumnMetadata {
    ColumnMetadata {
        user_type: 0,
        flags: 0,
        data_type,
        type_info: TypeInfo { tds_type: data_type, length, type_info_variant: variant },
        column_name: "c".to_string(),
        multi_part_name: None,
    }
}

fn fixed(data_type: TdsDataType) -> ColumnMetadata {
    let t = FixedLengthTypes::from_type(data_type).unwrap();
    column(data_type, 0, TypeInfoVariant::FixedLen(t))
}

fn varlen(data_type: TdsDataType, length: usize) -> ColumnMetadata {
    let t = VariableLengthTypes::from_type(data_type).unwrap();
    column(data_type, length, TypeInfoVariant::VarLen(t, length))
}

fn scaled(data_type: TdsDataType, scale: u8) -> ColumnMetadata {
    let t = VariableLengthTypes::from_type(data_type).unwrap();
    column(data_type, 0, TypeInfoVariant::VarLenScale(t, scale))
}

fn characters(
    data_type: TdsDataType,
    length: usize,
    collation: Option<SqlCollation>,
) -> ColumnMetadata {
    let t = VariableLengthTypes::from_type(data_type).unwrap();
    column(data_type, length, TypeInfoVariant::VarLenString(t, length, collation))
}

/// How values of a column are written.
fn context(m: &ColumnMetadata) -> TdsTypeContext {
    TdsTypeContext {
        tds_type: m.data_type.code(),
        max_size: m.type_info.length,
        is_plp: m.is_plp(),
        is_fixed_length: false,
        precision: match m.type_info.type_info_variant {
            TypeInfoVariant::VarLenPrecisionScale(_, _, p, _) => Some(p),
            _ => None,
        },
        scale: Some(m.get_scale()),
        collation: match m.type_info.type_info_variant {
            TypeInfoVariant::VarLenString(_, _, c) => c,
            _ => None,
        },
        is_nullable: true,
    }
}

/// The packets of a message that holds one value.
fn packets(value: &ColumnValues, ctx: &TdsTypeContext, packet_size: u32) -> Vec<u8> {
    let mut writer = PacketWriter::new(PacketType::BulkLoad, packet_size, None);
    TdsValueSerializer::serialize_value(&mut writer, value, ctx).unwrap();
    writer.finalize();
    let mut bytes = Vec::new();
    for packet in writer.take_packets() {
        bytes.extend_from_slice(&packet.bytes);
    }
    bytes
}

/// The payload of the packets.
fn payload(bytes: &[u8], packet_size: u32) -> Vec<u8> {
    let mut transport = NetworkTransport::new(packet_size, EncryptionSetting::On, false);
    let mut at = 0;
    let mut payload = Vec::new();
    while payload.is_empty() || at < bytes.len() || transport.tds_read_buffer.pending_bytes > 0 {
        let mut assembly = transport.begin_tds_packet().unwrap();
        loop {
            match transport.read_tds_packet(&assembly).unwrap() {
                PacketStep::Complete(_) => break,
                PacketStep::Read(room) => {
                    let n = room.min(bytes.len() - at);
                    transport
                        .tds_read_buffer
                        .receive(&mut assembly, &bytes[at..at + n])
                        .unwrap();
                    at += n;
                }
            }
        }
        payload.extend(transport.take_payload());
    }
    payload
}

/// What is written for a column, and what the column then holds.
fn read_back(value: &ColumnValues, m: &ColumnMetadata, packet_size: u32) -> ColumnValues {
    let ctx = context(m);
    let bytes = payload(&packets(value, &ctx, packet_size), packet_size);
    let length = bytes.len();
    let mut reader = ByteReader::new(bytes.clone());
    let decoder = GenericDecoder::default();
    assert!(decoder.is_decodable(&reader, m));
    let back = decoder.decode(&mut reader, m).unwrap();
    assert_eq!(reader.position(), length);
    // The value is handed to a sink as well
    let mut reader = ByteReader::new(bytes);
    let mut writer = DefaultRowWriter::new(1);
    decoder.decode_into(&mut reader, m, 0, &mut writer).unwrap();
    assert_eq!(writer.take_row(), vec![back.clone()]);
    back
}

fn keeps(value: ColumnValues, m: ColumnMetadata) {
    for packet_size in [16, 24, 512, 4096] {
        assert_eq!(read_back(&value, &m, packet_size), value);
    }
}

fn latin() -> SqlCollation {
    SqlCollation::from_parts(0x0409, 0)
}

fn utf8() -> SqlCollation {
    SqlCollation::from_parts(0x0400_0409, 0)
}

#[test]
fn numbers_are_kept() {
    keeps(ColumnValues::Bit(true), varlen(TdsDataType::BitN, 1));
    keeps(ColumnValues::Bit(false), fixed(TdsDataType::Bit));
    keeps(ColumnValues::TinyInt(200), varlen(TdsDataType::IntN, 1));
    keeps(ColumnValues::TinyInt(201), fixed(TdsDataType::Int1));
    keeps(ColumnValues::SmallInt(-2), varlen(TdsDataType::IntN, 2));
    keeps(ColumnValues::SmallInt(i16::MIN), fixed(TdsDataType::Int2));
    keeps(ColumnValues::Int(-3), varlen(TdsDataType::IntN, 4));
    keeps(ColumnValues::Int(i32::MAX), fixed(TdsDataType::Int4));
    keeps(ColumnValues::BigInt(i64::MIN), varlen(TdsDataType::IntN, 8));
    keeps(ColumnValues::BigInt(0x0102_0304_0506_0708), fixed(TdsDataType::Int8));
    let real = SqlReal { bits: 1.5f32.to_bits() };
    keeps(ColumnValues::Real(real), varlen(TdsDataType::FltN, 4));
    keeps(ColumnValues::Real(real), fixed(TdsDataType::Flt4));
    let float = SqlFloat { bits: (-2.25f64).to_bits() };
    keeps(ColumnValues::Float(float), varlen(TdsDataType::FltN, 8));
    keeps(ColumnValues::Float(float), fixed(TdsDataType::Flt8));
    let money = SqlMoney { lsb_part: -5, msb_part: 7 };
    keeps(ColumnValues::Money(money), varlen(TdsDataType::MoneyN, 8));
    keeps(ColumnValues::Money(money), fixed(TdsDataType::Money));
    let small = SqlSmallMoney { int_val: -12345 };
    keeps(ColumnValues::SmallMoney(small), varlen(TdsDataType::MoneyN, 4));
    keeps(ColumnValues::SmallMoney(small), fixed(TdsDataType::Money4));
    let datetime = SqlDateTime { days: -10, time: 300 };
    keeps(ColumnValues::DateTime(datetime), varlen(TdsDataType::DateTimeN, 8));
    keeps(ColumnValues::DateTime(datetime), fixed(TdsDataType::DateTime));
    let small = SqlSmallDateTime { days: 65000, time: 1439 };
    keeps(ColumnValues::SmallDateTime(small), varlen(TdsDataType::DateTimeN, 4));
    keeps(ColumnValues::SmallDateTime(small), fixed(TdsDataType::DateTim4));
}

#[test]
fn money_is_written_high_half_first() {
    let m = fixed(TdsDataType::Money);
    let value = ColumnValues::Money(SqlMoney { lsb_part: 1, msb_part: 2 });
    assert_eq!(
        payload(&packets(&value, &context(&m), 512), 512),
        vec![2, 0, 0, 0, 1, 0, 0, 0]
    );
}

#[test]
fn times_are_kept() {
    keeps(ColumnValues::Date(SqlDate { days: 738000 }), varlen(TdsDataType::DateN, 3));
    for scale in 0..=7u8 {
        // 12:34:56, in units of 100 nanoseconds
        let time = SqlTime { time_nanoseconds: 452_960_000_000, scale };
        keeps(ColumnValues::Time(time), scaled(TdsDataType::TimeN, scale));
        let datetime2 = SqlDateTime2 { days: 738000, time };
        keeps(ColumnValues::DateTime2(datetime2), scaled(TdsDataType::DateTime2N, scale));
        let offset = SqlDateTimeOffset { datetime2, offset: -120 };
        keeps(
            ColumnValues::DateTimeOffset(offset),
            scaled(TdsDataType::DateTimeOffsetN, scale),
        );
    }
}

#[test]
fn a_scale_past_seven_is_refused() {
    let m = scaled(TdsDataType::TimeN, 7);
    let value = ColumnValues::Time(SqlTime { time_nanoseconds: 0, scale: 8 });
    let mut writer = PacketWriter::new(PacketType::BulkLoad, 512, None);
    let err = TdsValueSerializer::serialize_value(&mut writer, &value, &context(&m)).unwrap_err();
    assert_eq!(err.kind(), ErrorKind::Usage);
}

#[test]
fn unique_identifiers_are_kept() {
    let uuid = uuid::Uuid::parse_str("00112233-4455-6677-8899-aabbccddeeff").unwrap();
    let value = ColumnValues::Uuid(SqlGuid { bytes: *uuid.as_bytes() });
    let m = varlen(TdsDataType::Guid, 16);
    // On the wire the first three groups are reversed
    assert_eq!(
        payload(&packets(&value, &context(&m), 512), 512),
        vec![
            16, 0x33, 0x22, 0x11, 0x00, 0x55, 0x44, 0x77, 0x66, 0x88, 0x99, 0xAA, 0xBB, 0xCC, 0xDD,
            0xEE, 0xFF
        ]
    );
    keeps(value, m);
}

#[test]
fn decimals_are_kept() {
    for (precision, scale, text) in [
        (9, 2, "1234567.89"),
        (18, 5, "-1234567890123.45678"),
        (28, 0, "1234567890123456789012345678"),
        (38, 10, "-1234567890123456789012345678.0123456789"),
    ] {
        let parts = DecimalParts::from_string(text, precision, scale).unwrap();
        assert_eq!(parts.to_decimal_string(), text);
        let m = |t, v| column(t, 17, TypeInfoVariant::VarLenPrecisionScale(v, 17, precision, scale));
        keeps(
            ColumnValues::Decimal(parts.clone()),
            m(TdsDataType::DecimalN, VariableLengthTypes::DecimalN),
        );
        keeps(
            ColumnValues::Numeric(parts),
            m(TdsDataType::NumericN, VariableLengthTypes::NumericN),
        );
    }
}

#[test]
fn decimals_are_read_back_with_the_parts_of_their_precision() {
    for (parts, precision, count) in [
        // Fewer parts than the precision asks for
        (DecimalParts::from_i64(5, 38, 0).unwrap(), 38, 4),
        (DecimalParts::from_i64(-5, 18, 0).unwrap(), 18, 2),
        // As many, and one more that holds nothing
        (DecimalParts::from_string("9999999999999999999", 19, 0).unwrap(), 19, 2),
    ] {
        let m = column(
            TdsDataType::DecimalN,
            17,
            TypeInfoVariant::VarLenPrecisionScale(VariableLengthTypes::DecimalN, 17, precision, 0),
        );
        let variant = varlen(TdsDataType::SsVariant, 8016);
        for m in [m, variant] {
            match read_back(&ColumnValues::Decimal(parts.clone()), &m, 512) {
                ColumnValues::Decimal(back) => {
                    assert_eq!(back.int_parts.len(), count);
                    assert_eq!(back, parts);
                    assert_eq!(back.to_decimal_string(), parts.to_decimal_string());
                }
                other => panic!("{:?}", other),
            }
        }
    }
}

#[test]
fn decimals_that_do_not_fit_are_refused() {
    assert!(DecimalParts::from_string("1000", 3, 0).is_err());
    assert!(DecimalParts::from_string("0.00001", 3, 5).is_err());
    assert!(DecimalParts::from_string("0", 0, 0).is_err());
    assert!(DecimalParts::from_string("1", 39, 0).is_err());
    assert!(DecimalParts::from_string("no number", 10, 0).is_err());
}

#[test]
fn binary_data_is_kept() {
    let data: Vec<u8> = (0..300).map(|i| i as u8).collect();
    keeps(ColumnValues::Bytes(data.clone()), varlen(TdsDataType::BigVarBinary, 8000));
    keeps(ColumnValues::Bytes(vec![]), varlen(TdsDataType::BigVarBinary, 8000));
    keeps(ColumnValues::Bytes(data.clone()), varlen(TdsDataType::BigVarBinary, 65535));
    keeps(ColumnValues::Bytes(data), varlen(TdsDataType::Image, 8000));
}

#[test]
fn empty_data_in_chunks_ends_early() {
    let m = varlen(TdsDataType::BigVarBinary, 65535);
    let empty = ColumnValues::Bytes(vec![]);
    let bytes = payload(&packets(&empty, &context(&m), 512), 512);
    let mut expected = vec![0xFE];
    expected.extend([0xFF; 7]);
    expected.extend([0; 8]);
    assert_eq!(bytes, expected);
    let mut reader = ByteReader::new(bytes);
    assert_eq!(GenericDecoder::default().decode(&mut reader, &m).unwrap(), empty);
    assert_eq!(reader.position(), 12);
}

#[test]
fn text_is_kept() {
    let text = "Grüße, \u{1F600}";
    let wide = SqlString::from_utf8_string(text.to_string());
    assert_eq!(wide.to_utf8_string(), text);
    keeps(ColumnValues::String(wide.clone()), characters(TdsDataType::NVarChar, 65535, None));
    keeps(ColumnValues::String(wide), characters(TdsDataType::NText, 100, None));
    let narrow = SqlString::new(text.as_bytes().to_vec(), EncodingType::Utf8);
    assert_eq!(narrow.to_utf8_string(), text);
    // Text is written in the code page of the locale, whatever else the collation says
    let m = characters(TdsDataType::BigVarChar, 100, Some(utf8()));
    assert_eq!(
        read_back(&ColumnValues::String(narrow), &m, 512),
        ColumnValues::String(SqlString::new(
            b"Gr\xFC\xDFe, &#128512;".to_vec(),
            EncodingType::Utf8
        ))
    );
    let local = SqlString::new(vec![0x47, 0x72, 0xFC], EncodingType::LcidBased(latin()));
    assert_eq!(local.to_utf8_string(), "Grü");
    let m = characters(TdsDataType::BigVarChar, 100, Some(latin()));
    let value = ColumnValues::String(local);
    let bytes = payload(&packets(&value, &context(&m), 512), 512);
    let decoder = GenericDecoder::default();
    assert_eq!(decoder.decode(&mut ByteReader::new(bytes.clone()), &m), Ok(value.clone()));
    let mut writer = DefaultRowWriter::new(1);
    decoder.decode_into(&mut ByteReader::new(bytes.clone()), &m, 0, &mut writer).unwrap();
    assert_eq!(writer.take_row(), vec![value.clone()]);
    assert!(decode_column_sync(&mut SyncReader::new(&bytes), &m, 0, &mut writer).is_ok());
    assert_eq!(writer.take_row(), vec![value]);
}

#[test]
fn text_is_encoded_for_its_column() {
    let wide = SqlString::from_utf8_string("Grü".to_string());
    let m = characters(TdsDataType::BigVarChar, 100, Some(latin()));
    assert_eq!(
        payload(&packets(&ColumnValues::String(wide), &context(&m), 512), 512),
        vec![3, 0, 0x47, 0x72, 0xFC]
    );
    // The national types count characters
    let hi = SqlString::new(vec![0x68, 0, 0x69, 0], EncodingType::Utf16);
    let m = characters(TdsDataType::NVarChar, 20, None);
    assert_eq!(
        payload(&packets(&ColumnValues::String(hi), &context(&m), 512), 512),
        vec![2, 0, 0x68, 0, 0x69, 0]
    );
}

#[test]
fn missing_values_are_kept() {
    keeps(ColumnValues::Null, varlen(TdsDataType::IntN, 4));
    keeps(ColumnValues::Null, varlen(TdsDataType::BitN, 1));
    keeps(ColumnValues::Null, varlen(TdsDataType::Guid, 16));
    keeps(ColumnValues::Null, scaled(TdsDataType::TimeN, 7));
    keeps(ColumnValues::Null, characters(TdsDataType::NVarChar, 100, None));
    keeps(ColumnValues::Null, characters(TdsDataType::NVarChar, 65535, None));
    keeps(ColumnValues::Null, varlen(TdsDataType::BigVarBinary, 100));
    let mut writer = PacketWriter::new(PacketType::BulkLoad, 512, None);
    let ctx = context(&fixed(TdsDataType::Int4));
    let err = TdsValueSerializer::serialize_null(&mut writer, &ctx).unwrap_err();
    assert_eq!(err.kind(), ErrorKind::Usage);
    let ctx = context(&fixed(TdsDataType::Bit));
    let err = TdsValueSerializer::serialize_null(&mut writer, &ctx).unwrap_err();
    assert_eq!(err.kind(), ErrorKind::Usage);
}

#[test]
fn vectors_are_kept() {
    let elements = vec![1.0f32.to_bits(), (-2.5f32).to_bits(), 0.0f32.to_bits()];
    let vector = SqlVector::try_from_f32(elements).unwrap();
    let m = column(
        TdsDataType::Vector,
        20,
        TypeInfoVariant::VarLenScale(VariableLengthTypes::Vector, 0),
    );
    keeps(ColumnValues::Vector(vector), m);
}

#[test]
fn documents_come_back_as_they_are_sent() {
    let m = varlen(TdsDataType::Xml, 0);
    let marked = SqlXml { bytes: vec![0xFF, 0xFE, 0x3C, 0x00] };
    assert!(marked.has_bom());
    keeps(ColumnValues::Xml(marked.clone()), m.clone());
    // A document without a mark gets one
    let bare = SqlXml { bytes: vec![0x3C, 0x00] };
    assert_eq!(read_back(&ColumnValues::Xml(bare), &m, 512), ColumnValues::Xml(marked));
    let m = varlen(TdsDataType::Json, 0);
    keeps(ColumnValues::Json(SqlJson::new(b"{}".to_vec())), m.clone());
    let one = ColumnValues::Json(SqlJson::new(b"1".to_vec()));
    assert_eq!(
        payload(&packets(&one, &context(&m), 512), 512),
        vec![0xFE, 255, 255, 255, 255, 255, 255, 255, 1, 0, 0, 0, 0x31, 0, 0, 0, 0]
    );
    let mut writer = PacketWriter::new(PacketType::BulkLoad, 512, None);
    let bad = ColumnValues::Json(SqlJson::new(vec![0xC3]));
    let err = TdsValueSerializer::serialize_value(&mut writer, &bad, &context(&m)).unwrap_err();
    assert_eq!(err.kind(), ErrorKind::TypeConversion);
}

#[test]
fn variants_keep_their_values() {
    let m = varlen(TdsDataType::SsVariant, 8016);
    keeps(ColumnValues::Int(-7), m.clone());
    keeps(ColumnValues::Bit(true), m.clone());
    keeps(ColumnValues::Date(SqlDate { days: 1000 }), m.clone());
    keeps(ColumnValues::Bytes(vec![1, 2, 3]), m.clone());
    let uuid = SqlGuid { bytes: [7; 16] };
    keeps(ColumnValues::Uuid(uuid), m.clone());
    let time = SqlTime { time_nanoseconds: 10_000_000, scale: 3 };
    keeps(ColumnValues::Time(time), m.clone());
    // The total, the type, the length of its description, and the value
    let int = payload(&packets(&ColumnValues::Int(1), &context(&m), 512), 512);
    assert_eq!(int, vec![6, 0, 0, 0, 0x38, 0, 1, 0, 0, 0]);
    keeps(ColumnValues::Null, m.clone());
    // A text in UTF-8 goes out as UTF-16
    let hi = ColumnValues::String(SqlString::new(b"hi".to_vec(), EncodingType::Utf8));
    assert_eq!(
        payload(&packets(&hi, &context(&m), 512), 512),
        vec![13, 0, 0, 0, 0xE7, 7, 9, 4, 0, 0, 52, 4, 0, 0x68, 0, 0x69, 0]
    );
    // And comes back as such
    let wide = SqlString::new(vec![0x68, 0, 0x69, 0], EncodingType::Utf16);
    assert_eq!(read_back(&hi, &m, 512), ColumnValues::String(wide));
    // Too much data
    let long = ColumnValues::Bytes(vec![0; 8001]);
    let mut writer = PacketWriter::new(PacketType::BulkLoad, 512, None);
    assert!(TdsValueSerializer::serialize_value(&mut writer, &long, &context(&m)).is_err());
    let xml = ColumnValues::Xml(SqlXml { bytes: vec![] });
    let err = TdsValueSerializer::serialize_value(&mut writer, &xml, &context(&m)).unwrap_err();
    assert_eq!(err.kind(), ErrorKind::Usage);
}

#[test]
fn the_fast_decoder_agrees() {
    let cases = [
        (ColumnValues::Int(5), varlen(TdsDataType::IntN, 4)),
        (ColumnValues::BigInt(-5), fixed(TdsDataType::Int8)),
        (ColumnValues::Null, varlen(TdsDataType::IntN, 4)),
        (ColumnValues::Date(SqlDate { days: 9 }), varlen(TdsDataType::DateN, 3)),
        (ColumnValues::Bytes(vec![1, 2]), varlen(TdsDataType::BigVarBinary, 10)),
    ];
    for (value, m) in cases {
        let bytes = payload(&packets(&value, &context(&m), 512), 512);
        let mut reader = SyncReader::new(&bytes);
        let mut writer = DefaultRowWriter::new(1);
        assert!(decode_column_sync(&mut reader, &m, 0, &mut writer).is_ok());
        assert_eq!(reader.consumed(), bytes.len());
        assert_eq!(writer.take_row(), vec![value.clone()]);
        // With a byte less there is not enough
        let mut reader = SyncReader::new(&bytes[..bytes.len() - 1]);
        let mut writer = DefaultRowWriter::new(1);
        assert!(decode_column_sync(&mut reader, &m, 0, &mut writer).is_err());
    }
}

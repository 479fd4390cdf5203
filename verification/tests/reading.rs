//! Reading numbers, text, rows and tokens.

use mssql_tds::datatypes::column_values::ColumnValues;
use mssql_tds::datatypes::metadata::ColumnMetadata;
use mssql_tds::datatypes::row_writer::DefaultRowWriter;
use mssql_tds::datatypes::sql_string::SqlString;
use mssql_tds::datatypes::sqldatatypes::{
    TdsDataType, TypeInfo, TypeInfoVariant, VariableLengthTypes,
};
use mssql_tds::datatypes::sync_decoder::{decode_nbcrow_sync, decode_row_sync};
use mssql_tds::error::{ErrorKind, IoErrorKind};
use mssql_tds::io::packet_reader::ByteReader;
use mssql_tds::io::packet_writer::PacketWriter;
use mssql_tds::io::token_stream::{
    GenericTokenParserRegistry, NextToken, ParserContext, TokenParsers, TokenStreamReader,
};
use mssql_tds::message::PacketType;
use mssql_tds::token::{ColMetadataToken, TokenType};

const EARLY: ErrorKind = ErrorKind::Io(IoErrorKind::UnexpectedEof);

#[test]
fn numbers_are_read_in_both_orders() {
    let data = || ByteReader::new(vec![0x81, 0x02, 0x03, 0x04, 0x05, 0x06, 0x07, 0x88]);
    assert_eq!(data().read_byte(), Ok(0x81));
    assert_eq!(data().read_int16(), Ok(0x0281));
    assert_eq!(data().read_uint16(), Ok(0x0281));
    assert_eq!(data().read_int24(), Ok(0x03_0281));
    assert_eq!(data().read_uint24(), Ok(0x03_0281));
    assert_eq!(data().read_int32(), Ok(0x0403_0281));
    assert_eq!(data().read_uint32(), Ok(0x0403_0281));
    assert_eq!(data().read_uint40(), Ok(0x05_0403_0281));
    assert_eq!(data().read_int64(), Ok(0x8807_0605_0403_0281u64 as i64));
    assert_eq!(data().read_uint64(), Ok(0x8807_0605_0403_0281));
    assert_eq!(data().read_float32(), Ok(0x0403_0281));
    assert_eq!(data().read_float64(), Ok(0x8807_0605_0403_0281));
    assert_eq!(data().read_int16_big_endian(), Ok(0x8102u16 as i16));
    assert_eq!(data().read_int32_big_endian(), Ok(0x8102_0304u32 as i32));
    assert_eq!(data().read_int64_big_endian(), Ok(0x8102_0304_0506_0788u64 as i64));
    let mut negative = ByteReader::new(vec![0xFE, 0xFF, 0xFF]);
    assert_eq!(negative.read_int24(), Ok(-2));
}

#[test]
fn numbers_that_are_cut_off_are_not_read() {
    let mut r = ByteReader::new(vec![1, 2, 3]);
    assert_eq!(r.read_int32().unwrap_err().kind(), EARLY);
    assert_eq!(r.read_int64().unwrap_err().kind(), EARLY);
    assert_eq!(r.read_bytes(4).unwrap_err().kind(), EARLY);
    assert_eq!(r.position(), 0);
    assert_eq!(r.read_bytes(3), Ok(vec![1, 2, 3]));
    assert_eq!(r.remaining(), 0);
    assert_eq!(r.read_byte().unwrap_err().kind(), EARLY);
    r.rewind(1);
    r.extend(&vec![4]);
    assert_eq!(r.read_bytes(3), Ok(vec![2, 3, 4]));
}

#[test]
fn numbers_are_written_in_both_orders() {
    let mut w = PacketWriter::new(PacketType::TabularResult, 4096, None);
    w.write_i16_be(0x0102);
    w.write_i32_be(0x0304_0506);
    w.write_i64_be(0x0708_090A_0B0C_0D0E);
    w.write_i16(0x0102);
    w.write_u16(0x0304);
    w.write_partial_u64(0x0708_090A, 3);
    assert_eq!(
        w.get_cursor()[8..],
        vec![1, 2, 3, 4, 5, 6, 7, 8, 9, 10, 11, 12, 13, 14, 2, 1, 4, 3, 0x0A, 9, 8]
    );
}

#[test]
fn text_is_read_behind_its_length() {
    let mut r = ByteReader::new(vec![2, 0, 0x61, 0, 0x62, 0, 9]);
    assert_eq!(r.read_varchar_u16_length(), Ok(Some("ab".to_string())));
    assert_eq!(r.position(), 6);
    let mut r = ByteReader::new(vec![0xFF, 0xFF]);
    assert_eq!(r.read_varchar_u16_length(), Ok(None));
    let mut r = ByteReader::new(vec![2, 0x3D, 0xD8, 0x00, 0xDE]);
    assert_eq!(r.read_varchar_u8_length(), Ok("\u{1F600}".to_string()));
    let mut r = ByteReader::new(vec![2, 0, 0xE9, 0]);
    assert_eq!(r.read_varchar_byte_len(), Ok("é".to_string()));
    let mut r = ByteReader::new(vec![2, 1, 2, 3, 0, 4, 5, 6]);
    assert_eq!(r.read_u8_varbyte(), Ok(vec![1, 2]));
    assert_eq!(r.read_u16_varbyte(), Ok(vec![4, 5, 6]));
    let mut r = ByteReader::new(vec![0x3D, 0xD8]);
    assert_eq!(
        r.read_unicode(1).unwrap_err().kind(),
        ErrorKind::Io(IoErrorKind::InvalidData)
    );
}

fn column(data_type: TdsDataType, variant: TypeInfoVariant) -> ColumnMetadata {
    ColumnMetadata {
        user_type: 0,
        flags: 0,
        data_type,
        type_info: TypeInfo { tds_type: data_type, length: 100, type_info_variant: variant },
        column_name: String::new(),
        multi_part_name: None,
    }
}

/// A number and a text.
fn columns() -> Vec<ColumnMetadata> {
    vec![
        column(
            TdsDataType::IntN,
            TypeInfoVariant::VarLen(VariableLengthTypes::IntN, 4),
        ),
        column(
            TdsDataType::NVarChar,
            TypeInfoVariant::VarLenString(VariableLengthTypes::NVarChar, 100, None),
        ),
    ]
}

fn text(t: &str) -> ColumnValues {
    ColumnValues::String(SqlString::from_utf8_string(t.to_string()))
}

const ROW: [u8; 10] = [0xD1, 4, 5, 0, 0, 0, 2, 0, 0x61, 0];
const ROW_WITHOUT_NUMBER: [u8; 6] = [0xD2, 0x01, 2, 0, 0x62, 0];

fn context() -> ParserContext {
    ParserContext::ColumnMetadata(ColMetadataToken { columns: columns() })
}

fn reader(data: &[u8]) -> TokenStreamReader<GenericTokenParserRegistry> {
    TokenStreamReader::new(
        ByteReader::new(data.to_vec()),
        Box::new(GenericTokenParserRegistry::default()),
    )
}

#[test]
fn rows_are_read_into_a_sink() {
    let mut data = ROW.to_vec();
    data.extend(ROW_WITHOUT_NUMBER);
    data.push(0xFD);
    let mut r = reader(&data);
    let mut w = DefaultRowWriter::new(2);
    assert!(matches!(
        r.receive_row_into(&context(), &mut w),
        Ok(NextToken::RowWritten)
    ));
    assert_eq!(w.take_row(), vec![ColumnValues::Int(5), text("a")]);
    assert!(matches!(
        r.receive_row_into(&context(), &mut w),
        Ok(NextToken::RowWritten)
    ));
    assert_eq!(w.take_row(), vec![ColumnValues::Null, text("b")]);
    assert!(matches!(
        r.receive_row_into(&context(), &mut w),
        Ok(NextToken::Parse(TokenParsers::Done(_)))
    ));
    assert_eq!(r.packet_reader.position(), data.len());
}

#[test]
fn rows_are_read_in_bulk() {
    let mut data = ROW.to_vec();
    data.extend(ROW_WITHOUT_NUMBER);
    data.extend(ROW);
    data.push(0xFE);
    let mut r = reader(&data);
    let mut w = DefaultRowWriter::new(2);
    let (count, parser) = r.read_rows_bulk(&context(), &mut w).unwrap();
    assert_eq!(count, 3);
    assert!(matches!(parser, TokenParsers::DoneProc(_)));
}

#[test]
fn a_row_needs_columns() {
    let mut r = reader(&ROW);
    let mut w = DefaultRowWriter::new(2);
    let err = r.receive_row_into(&ParserContext::default(), &mut w).unwrap_err();
    assert_eq!(err.kind(), ErrorKind::Protocol);
}

#[test]
fn a_row_that_is_cut_off_is_read_again() {
    let mut r = reader(&ROW[..8]);
    let mut w = DefaultRowWriter::new(2);
    let err = r.receive_row_into(&context(), &mut w).unwrap_err();
    assert_eq!(err.kind(), EARLY);
    w.take_row();
    r.packet_reader.rewind(0);
    r.packet_reader.extend(&ROW[8..].to_vec());
    assert!(matches!(
        r.receive_row_into(&context(), &mut w),
        Ok(NextToken::RowWritten)
    ));
    assert_eq!(w.take_row(), vec![ColumnValues::Int(5), text("a")]);
}

#[test]
fn rows_arrive_in_parts() {
    let mut data = ROW.to_vec();
    data.extend(ROW_WITHOUT_NUMBER);
    data.extend(ROW);
    for cut in 0..=data.len() {
        let mut r = reader(&data[..cut]);
        let mut w = DefaultRowWriter::new(2);
        let mut rows = Vec::new();
        let mut arrived = false;
        while rows.len() < 3 {
            let start = r.packet_reader.position();
            match r.receive_row_into(&context(), &mut w) {
                Ok(_) => rows.push(w.take_row()),
                Err(e) => {
                    assert_eq!(e.kind(), EARLY);
                    assert!(!arrived);
                    arrived = true;
                    w.take_row();
                    r.packet_reader.rewind(start);
                    r.packet_reader.extend(&data[cut..].to_vec());
                }
            }
        }
        assert_eq!(rows[0], vec![ColumnValues::Int(5), text("a")]);
        assert_eq!(rows[1], vec![ColumnValues::Null, text("b")]);
        assert_eq!(rows[2], vec![ColumnValues::Int(5), text("a")]);
    }
}

#[test]
fn a_variant_without_meaning_is_found() {
    let variant = || {
        ParserContext::ColumnMetadata(ColMetadataToken {
            columns: vec![column(
                TdsDataType::SsVariant,
                TypeInfoVariant::VarLen(VariableLengthTypes::SsVariant, 8009),
            )],
        })
    };
    // Seven bytes of properties belong to text, not to a number
    let number = [0xD1, 13, 0, 0, 0, 0x38, 7, 0, 0, 0, 0, 0, 0, 0, 1, 0, 0, 0];
    let mut text = number;
    text[5] = 0xE7;
    assert!(!reader(&number).next_is_decodable(&variant()));
    assert!(reader(&text).next_is_decodable(&variant()));
    assert!(reader(&number[..5]).next_is_decodable(&variant()));
    assert!(reader(&number).next_is_decodable(&context()));
    assert!(reader(&number).next_is_decodable(&ParserContext::default()));
    // A column that is missing takes no bytes
    let mut compact = vec![0xD2, 0x01];
    compact.extend_from_slice(&number[1..]);
    assert!(reader(&compact).next_is_decodable(&variant()));
    compact[1] = 0;
    assert!(!reader(&compact).next_is_decodable(&variant()));
}

#[test]
fn tokens_are_handed_to_their_parsers() {
    assert!(matches!(reader(&[0xFD]).receive_token(), Ok(TokenParsers::Done(_))));
    assert!(matches!(reader(&[0xAA]).receive_token(), Ok(TokenParsers::Error(_))));
    assert_eq!(reader(&[0x01]).receive_token().unwrap_err().kind(), ErrorKind::Protocol);
    assert_eq!(reader(&[]).receive_token().unwrap_err().kind(), EARLY);
    // There is a code, but nothing reads the rest
    assert_eq!(reader(&[0xA4]).receive_token().unwrap_err().kind(), ErrorKind::Protocol);
    assert_eq!(TokenType::from_code(0xA4), Ok(TokenType::TabName));
}

#[test]
fn whole_rows_are_decoded_at_once() {
    let mut w = DefaultRowWriter::new(2);
    assert!(matches!(decode_row_sync(&ROW[1..], &columns(), &mut w), Ok(9)));
    assert_eq!(w.take_row(), vec![ColumnValues::Int(5), text("a")]);
    assert!(decode_row_sync(&ROW[1..9], &columns(), &mut w).is_err());
    w.take_row();
    assert!(matches!(
        decode_nbcrow_sync(&ROW_WITHOUT_NUMBER[1..], &columns(), &mut w),
        Ok(5)
    ));
    assert_eq!(w.take_row(), vec![ColumnValues::Null, text("b")]);
    // Whatever stands behind a row
    let mut more = ROW[1..].to_vec();
    more.extend_from_slice(&[0xD1, 7, 0xFF]);
    assert!(matches!(decode_row_sync(&more, &columns(), &mut w), Ok(9)));
    assert_eq!(w.take_row(), vec![ColumnValues::Int(5), text("a")]);
}

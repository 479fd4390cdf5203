//! Decoding of column values.

use crate::bytes::{le_nat, le_read_u32, lemma_le_nat_bound, lemma_pow256};
use crate::datatypes::column_values::{
    ColumnValues, SqlDate, SqlDateTime, SqlDateTime2, SqlDateTimeOffset, SqlFloat, SqlGuid,
    SqlJson, SqlMoney, SqlReal, SqlSmallDateTime, SqlSmallMoney, SqlTime, SqlXml, Value,
};
use crate::datatypes::decimal::DecimalParts;
use crate::datatypes::metadata::ColumnMetadata;
use crate::datatypes::row_writer::{write_column_value, DefaultRowWriter, RowWriter};
use crate::datatypes::sql_string::{get_encoding_type, spec_encoding_type, EncodingType, SqlString};
use crate::datatypes::sql_vector::SqlVector;
use crate::datatypes::sqldatatypes::{
    FixedLengthTypes, SqlCollation, TdsDataType, TypeInfoVariant, VectorBaseType,
    VectorLayoutFormat, VectorLayoutVersion, VECTOR_HEADER_SIZE, VECTOR_MAX_SIZE,
};
use crate::datatypes::sync_decoder::scale_to_100ns;
use crate::datatypes::wire::{
    column_value, date_at, datetime_at, decodable, fixed_at, get_chunks, get_datetime2,
    get_datetimeoffset, get_decimal, get_decimal_column, get_long, get_plp, get_short_or_null,
    get_string, get_time, guid_at, guid_order, has_collation, int_parts_at, integer_at,
    is_string_type, money_at, padded, smalldatetime_at, smallmoney_at, spec_is_long_len_type,
    string_value, ticks_per_unit, variant_at, variant_with_collation, variant_with_scale,
    variant_with_two_bytes, variant_without_properties, vector_at, Decoded, MAX_ALLOC_SIZE,
    MAX_CHUNK_SIZE, MAX_PLP_CHUNKS, MAX_PLP_SIZE, SQL_PLP_NULL, SQL_PLP_UNKNOWNLEN,
};
use crate::error::{Error, ErrorKind, IoErrorKind, TdsResult};
use crate::io::packet_reader::{get_byte, get_bytes, get_uint, ByteReader};
use crate::text::{number_message, text_message};
use vstd::prelude::*;
use vstd::string::StringExecFns;

verus! {

broadcast use crate::io::packet_reader::lemma_reader_position;

/// Fails, with a protocol error, where a value of `size` bytes is too large to be read in one
/// piece.
pub fn validate_alloc_size(size: usize, context: &str) -> (r: TdsResult<()>)
    ensures
        size <= MAX_ALLOC_SIZE ==> r is Ok,
        size > MAX_ALLOC_SIZE ==> (r matches Err(e) && e.kind() == ErrorKind::Protocol),
{
    if size > MAX_ALLOC_SIZE {
        let mut m = text_message(context, ": allocation size ", "");
        m.append(
            number_message(
                "",
                size as u128,
                number_message(
                    " exceeds maximum allowed ",
                    MAX_ALLOC_SIZE as u128,
                    " bytes",
                ).as_str(),
            ).as_str(),
        );
        return Err(Error::ProtocolError(m));
    }
    Ok(())
}

/// Calls `uuid::Uuid::from_slice_le`: it takes exactly 16 bytes, in wire order, and gives the
/// identifier's bytes in written order.
#[verifier::external_body]
pub(crate) fn guid_from_slice_le(bytes: &[u8]) -> (r: Option<SqlGuid>)
    ensures
        (r is Some) == (bytes@.len() == 16),
        r is Some ==> r->Some_0.bytes@ == guid_order(bytes@),
{
    match uuid::Uuid::from_slice_le(bytes) {
        Ok(id) => Some(SqlGuid { bytes: *id.as_bytes() }),
        Err(_) => None,
    }
}

/// Whether what was read is what the bytes at the reader's old position stand for.
pub open spec fn decoded(pre: ByteReader, post: ByteReader, expected: Decoded, r: TdsResult<ColumnValues>) -> bool {
    &&& post.data() == pre.data()
    &&& match expected {
        Ok((v, p)) => (r matches Ok(x) && x@ == v) && post.pos() == p,
        Err(k) => r matches Err(e) && e.kind() == k,
    }
}

/// Whether what the bytes at the reader's old position stand for was written to a column of a sink, and
/// nothing where they stand for no value.
pub open spec fn decoded_into<W: RowWriter>(
    pre: ByteReader,
    post: ByteReader,
    expected: Decoded,
    col: usize,
    before: W,
    after: W,
    r: TdsResult<()>,
) -> bool {
    &&& post.data() == pre.data()
    &&& match expected {
        Ok((v, p)) => r is Ok && post.pos() == p && W::wrote(before, after, col, v),
        Err(k) => (r matches Err(e) && e.kind() == k) && after == before,
    }
}

/// Decoding a column into the default sink puts what decoding it gives at the end of the row, and reads
/// as many bytes; where the one fails, so does the other.
pub proof fn law_cell_is_value(
    start: ByteReader,
    m: &ColumnMetadata,
    col: usize,
    value: (ByteReader, TdsResult<ColumnValues>),
    before: DefaultRowWriter,
    cell: (ByteReader, DefaultRowWriter, TdsResult<()>),
)
    requires
        decoded(start, value.0, column_value(m, start.data(), start.pos()), value.1),
        decoded_into(
            start,
            cell.0,
            column_value(m, start.data(), start.pos()),
            col,
            before,
            cell.1,
            cell.2,
        ),
    ensures
        match value.1 {
            Ok(v) => {
                &&& cell.2 is Ok
                &&& cell.0.pos() == value.0.pos()
                &&& cell.1@ == before@.push(v@)
            },
            Err(e) => (cell.2 matches Err(f) && f.kind() == e.kind()) && cell.1 == before,
        },
{
}

/// Whether what was read is what was expected, for a part of a value.
pub open spec fn read_part<T>(
    pre: ByteReader,
    post: ByteReader,
    expected: Result<(T, int), ErrorKind>,
    r: TdsResult<T>,
) -> bool {
    &&& post.data() == pre.data()
    &&& match expected {
        Ok((v, p)) => r == Ok::<T, Error>(v) && post.pos() == p,
        Err(k) => r matches Err(e) && e.kind() == k,
    }
}

/// Whether what was read are the bytes that were expected, or a missing value.
pub open spec fn read_blob(
    pre: ByteReader,
    post: ByteReader,
    expected: Result<(Option<Seq<u8>>, int), ErrorKind>,
    r: TdsResult<Option<Vec<u8>>>,
) -> bool {
    &&& post.data() == pre.data()
    &&& match expected {
        Ok((Some(v), p)) => (r matches Ok(Some(x)) && x@ == v) && post.pos() == p,
        Ok((None, p)) => (r matches Ok(None)) && post.pos() == p,
        Err(k) => r matches Err(e) && e.kind() == k,
    }
}

/// Decodes character data.
#[derive(Debug)]
pub struct StringDecoder {
    pub db_collation: Option<SqlCollation>,
}

impl Default for StringDecoder {
    fn default() -> (d: StringDecoder)
        ensures
            d.db_collation is None,
    {
        StringDecoder { db_collation: None }
    }
}

impl StringDecoder {
    /// A decoder that knows no collation of the database.
    pub fn new() -> (d: StringDecoder)
        ensures
            d.db_collation is None,
    {
        StringDecoder { db_collation: None }
    }

    /// Whether a type's values are legacy large objects.
    pub fn is_long_len_type(data_type: TdsDataType) -> (b: bool)
        ensures
            b == spec_is_long_len_type(data_type),
    {
        match data_type {
            TdsDataType::NText | TdsDataType::Text => true,
            _ => false,
        }
    }

    /// Reads the bytes of character data.
    fn read_string_bytes(reader: &mut ByteReader, metadata: &ColumnMetadata) -> (r: TdsResult<
        Option<Vec<u8>>,
    >)
        ensures
            read_blob(
                *old(reader),
                *final(reader),
                get_string(metadata, old(reader).data(), old(reader).pos()),
                r,
            ),
    {
        if metadata.is_plp() {
            GenericDecoder::read_plp_bytes(reader)
        } else if Self::is_long_len_type(metadata.data_type) {
            GenericDecoder::read_long_bytes(reader)
        } else {
            let length: u16 = reader.read_uint16()?;
            if length == 0xFFFF {
                Ok(None)
            } else {
                let bytes = reader.read_bytes(length as usize)?;
                Ok(Some(bytes))
            }
        }
    }

    /// Decodes character data.
    pub fn decode(&self, reader: &mut ByteReader, metadata: &ColumnMetadata) -> (r: TdsResult<
        ColumnValues,
    >)
        ensures
            decoded(
                *old(reader),
                *final(reader),
                string_value(
                    get_string(metadata, old(reader).data(), old(reader).pos()),
                    spec_encoding_type(metadata),
                ),
                r,
            ),
    {
        let encoding_type = get_encoding_type(metadata);
        match Self::read_string_bytes(reader, metadata)? {
            Some(bytes) => Ok(ColumnValues::String(SqlString::new(bytes, encoding_type))),
            None => Ok(ColumnValues::Null),
        }
    }

    /// Decodes character data into a sink.
    pub fn decode_string_into<W: RowWriter>(
        &self,
        reader: &mut ByteReader,
        metadata: &ColumnMetadata,
        col: usize,
        writer: &mut W,
    ) -> (r: TdsResult<()>)
        requires
            is_string_type(metadata.data_type),
            column_value(metadata, old(reader).data(), old(reader).pos()) matches Ok((v, _))
                ==> old(writer).accepts(col, v),
        ensures
            forall|c: usize, v: Value| #[trigger]
                old(writer).accepts(c, v) ==> final(writer).accepts(c, v),
            decoded_into(
                *old(reader),
                *final(reader),
                column_value(metadata, old(reader).data(), old(reader).pos()),
                col,
                *old(writer),
                *final(writer),
                r,
            ),
    {
        let encoding_type = get_encoding_type(metadata);
        match Self::read_string_bytes(reader, metadata)? {
            Some(bytes) => match encoding_type {
                EncodingType::Utf16 => writer.write_string_raw(col, bytes, true),
                EncodingType::Utf8 => writer.write_string_raw(col, bytes, false),
                other => writer.write_string(col, SqlString::new(bytes, other)),
            },
            None => writer.write_null(col),
        }
        Ok(())
    }
}

/// Decodes the values of columns.
#[derive(Debug)]
pub struct GenericDecoder {
    pub string_decoder: StringDecoder,
}

impl Default for GenericDecoder {
    fn default() -> (d: GenericDecoder)
        ensures
            d.string_decoder.db_collation is None,
    {
        GenericDecoder { string_decoder: StringDecoder::new() }
    }
}

impl GenericDecoder {
    pub const SHORTLEN_MAXVALUE: usize = 65535;

    pub const SQL_PLP_NULL: u64 = 0xffff_ffff_ffff_ffff;

    pub const SQL_PLP_UNKNOWNLEN: u64 = 0xffff_ffff_ffff_fffe;

    /// Reads a value behind two bytes of length.
    fn read_short_bytes(reader: &mut ByteReader) -> (r: TdsResult<Option<Vec<u8>>>)
        ensures
            read_blob(
                *old(reader),
                *final(reader),
                get_short_or_null(old(reader).data(), old(reader).pos()),
                r,
            ),
    {
        let length: u16 = reader.read_uint16()?;
        if length == 0xFFFF {
            Ok(None)
        } else {
            Ok(Some(reader.read_bytes(length as usize)?))
        }
    }

    /// Reads a value that comes in chunks.
    pub fn read_plp_bytes(reader: &mut ByteReader) -> (r: TdsResult<Option<Vec<u8>>>)
        ensures
            read_blob(
                *old(reader),
                *final(reader),
                get_plp(old(reader).data(), old(reader).pos()),
                r,
            ),
    {
        let long_len: u64 = reader.read_uint64()?;
        if long_len == SQL_PLP_NULL {
            return Ok(None);
        }
        let unknown: bool = long_len == SQL_PLP_UNKNOWNLEN;
        if !unknown && long_len > MAX_PLP_SIZE as u64 {
            return Err(
                Error::ProtocolError(
                    number_message(
                        "PLP length ",
                        long_len as u128,
                        " exceeds maximum allowed size of 2147483647 bytes",
                    ),
                ),
            );
        }
        let limit: usize = if unknown {
            MAX_PLP_SIZE
        } else {
            long_len as usize
        };
        let ghost declared: Option<nat> = if unknown {
            None
        } else {
            Some(long_len as nat)
        };
        let ghost d = reader.data();
        let ghost start = reader.pos();
        let mut plp_buffer: Vec<u8> = Vec::new();
        let mut chunk_count: u32 = 0;
        let mut chunk_len: usize = reader.read_uint32()? as usize;
        while chunk_len > 0
            invariant
                reader.data() == d,
                d == old(reader).data(),
                plp_buffer@.len() <= limit <= MAX_PLP_SIZE,
                limit == (match declared {
                    Some(n) => n,
                    None => MAX_PLP_SIZE as nat,
                }),
                chunk_count <= MAX_PLP_CHUNKS,
                reader.pos() <= d.len(),
                chunk_len == le_nat(d, reader.pos() - 4, 4),
                get_chunks(d, start, Seq::empty(), 0, declared) == get_chunks(
                    d,
                    reader.pos() - 4,
                    plp_buffer@,
                    chunk_count as nat,
                    declared,
                ),
                unknown == (declared is None),
                !unknown ==> declared == Some(long_len as nat) && long_len != SQL_PLP_NULL
                    && long_len != SQL_PLP_UNKNOWNLEN && long_len <= MAX_PLP_SIZE,
                unknown ==> long_len == SQL_PLP_UNKNOWNLEN,
                get_uint(old(reader).data(), old(reader).pos(), 8) == Ok::<(nat, int), ErrorKind>(
                    (long_len as nat, start),
                ),
            decreases d.len() - reader.pos(),
        {
            if chunk_count >= MAX_PLP_CHUNKS {
                return Err(
                    Error::ProtocolError(
                        number_message("Too many PLP chunks: more than ", chunk_count as u128, ""),
                    ),
                );
            }
            if chunk_len > MAX_CHUNK_SIZE {
                return Err(
                    Error::ProtocolError(
                        number_message(
                            "PLP chunk size ",
                            chunk_len as u128,
                            " exceeds maximum allowed chunk size of 16777216 bytes",
                        ),
                    ),
                );
            }
            if chunk_len > limit - plp_buffer.len() {
                return Err(
                    Error::ProtocolError(
                        number_message(
                            "PLP chunk of ",
                            chunk_len as u128,
                            " bytes exceeds the declared or maximum length",
                        ),
                    ),
                );
            }
            chunk_count = chunk_count + 1;
            let mut chunk = reader.read_bytes(chunk_len)?;
            proof {
                lemma_le_nat_bound(d, reader.pos(), 4);
            }
            let ghost before = plp_buffer@;
            let ghost chunk_bytes = chunk@;
            plp_buffer.append(&mut chunk);
            assert(plp_buffer@ =~= before + chunk_bytes);
            assert(get_chunks(d, start, Seq::empty(), 0, declared) == get_chunks(
                d,
                reader.pos(),
                plp_buffer@,
                chunk_count as nat,
                declared,
            ));
            chunk_len = reader.read_uint32()? as usize;
        }
        if !unknown {
            plp_buffer.resize(limit, 0);
            assert(plp_buffer@ =~= padded(
                get_chunks(d, start, Seq::empty(), 0, declared)->Ok_0.0,
                long_len as nat,
            ));
        }
        Ok(Some(plp_buffer))
    }

    /// Reads a legacy large object.
    fn read_long_bytes(reader: &mut ByteReader) -> (r: TdsResult<Option<Vec<u8>>>)
        ensures
            read_blob(
                *old(reader),
                *final(reader),
                get_long(old(reader).data(), old(reader).pos()),
                r,
            ),
    {
        let text_ptr_len: u8 = reader.read_byte()?;
        if text_ptr_len == 0 {
            return Ok(None);
        }
        reader.skip_bytes(text_ptr_len as usize)?;
        reader.skip_bytes(8)?;
        let length: u32 = reader.read_uint32()?;
        if length as usize > MAX_ALLOC_SIZE {
            return Err(
                Error::ProtocolError(
                    number_message(
                        "Text data length ",
                        length as u128,
                        " exceeds maximum allowed size of 104857600 bytes",
                    ),
                ),
            );
        }
        let buffer = reader.read_bytes(length as usize)?;
        Ok(Some(buffer))
    }

    /// Reads the 32-bit parts of a decimal number of `length` bytes.
    pub fn read_decimal_data(
        reader: &mut ByteReader,
        length: u8,
        precision: u8,
        scale: u8,
    ) -> (r: TdsResult<Option<DecimalParts>>)
        ensures
            final(reader).data() == old(reader).data(),
            match get_decimal(old(reader).data(), old(reader).pos(), length, precision, scale) {
                Ok((Some(v), p)) => (r matches Ok(Some(x)) && x@ == v) && final(reader).pos() == p,
                Ok((None, p)) => (r matches Ok(None)) && final(reader).pos() == p,
                Err(k) => r matches Err(e) && e.kind() == k,
            },
    {
        if length == 0 {
            return Ok(None);
        }
        let sign: u8 = reader.read_byte()?;
        let is_positive: bool = sign == 1;
        let number_of_int_parts: u8 = (length - 1) / 4;
        let ghost d = reader.data();
        let ghost q = reader.pos();
        let mut int_parts: Vec<i32> = Vec::new();
        let mut part_index: u8 = 0;
        while part_index < number_of_int_parts
            invariant
                part_index <= number_of_int_parts,
                reader.data() == d,
                d == old(reader).data(),
                reader.pos() == q + 4 * part_index,
                reader.pos() <= d.len(),
                int_parts@ == int_parts_at(d, q, part_index as nat),
                length > 0,
                number_of_int_parts == (length - 1) / 4,
                get_byte(d, old(reader).pos()) == Ok::<(u8, int), ErrorKind>((sign, q)),
            decreases number_of_int_parts - part_index,
        {
            let part: i32 = reader.read_int32()?;
            int_parts.push(part);
            assert(int_parts@ =~= int_parts_at(d, q, (part_index + 1) as nat));
            part_index = part_index + 1;
        }
        assert(int_parts@ =~= int_parts_at(d, q, number_of_int_parts as nat));
        Ok(Some(DecimalParts { is_positive, scale, precision, int_parts }))
    }

    /// Reads the decimal number of a column.
    pub fn read_decimal(&self, reader: &mut ByteReader, metadata: &ColumnMetadata) -> (r: TdsResult<
        Option<DecimalParts>,
    >)
        ensures
            final(reader).data() == old(reader).data(),
            match get_decimal_column(metadata, old(reader).data(), old(reader).pos()) {
                Ok((Some(v), p)) => (r matches Ok(Some(x)) && x@ == v) && final(reader).pos() == p,
                Ok((None, p)) => (r matches Ok(None)) && final(reader).pos() == p,
                Err(k) => r matches Err(e) && e.kind() == k,
            },
    {
        let length: u8 = reader.read_byte()?;
        match metadata.type_info.type_info_variant {
            TypeInfoVariant::VarLenPrecisionScale(_, _, precision, scale) => {
                Self::read_decimal_data(reader, length, precision, scale)
            },
            _ => Err(
                Error::ProtocolError(
                    String::from_str(
                        "Invalid type info variant for Decimal/Numeric: expected VarLenPrecisionScale",
                    ),
                ),
            ),
        }
    }

    /// Reads a legacy date and time of eight bytes.
    fn read_datetime(&self, reader: &mut ByteReader) -> (r: TdsResult<SqlDateTime>)
        ensures
            final(reader).data() == old(reader).data(),
            match datetime_at(old(reader).data(), old(reader).pos()) {
                Ok((v, p)) => (r matches Ok(x) && Value::DateTime(x) == v) && final(reader).pos()
                    == p,
                Err(k) => r matches Err(e) && e.kind() == k,
            },
    {
        let days: i32 = reader.read_int32()?;
        let time: u32 = reader.read_uint32()?;
        Ok(SqlDateTime { days, time })
    }

    /// Reads a legacy date and time of four bytes.
    fn read_small_datetime(&self, reader: &mut ByteReader) -> (r: TdsResult<SqlSmallDateTime>)
        ensures
            final(reader).data() == old(reader).data(),
            match smalldatetime_at(old(reader).data(), old(reader).pos()) {
                Ok((v, p)) => (r matches Ok(x) && Value::SmallDateTime(x) == v) && final(reader).pos() == p,
                Err(k) => r matches Err(e) && e.kind() == k,
            },
    {
        let days: u16 = reader.read_uint16()?;
        let time: u16 = reader.read_uint16()?;
        Ok(SqlSmallDateTime { days, time })
    }

    /// Reads a date.
    fn read_date(reader: &mut ByteReader) -> (r: TdsResult<SqlDate>)
        ensures
            final(reader).data() == old(reader).data(),
            match get_uint(old(reader).data(), old(reader).pos(), 3) {
                Ok((v, p)) => (r matches Ok(x) && x.days == v) && final(reader).pos() == p,
                Err(k) => r matches Err(e) && e.kind() == k,
            },
    {
        let days: u32 = reader.read_uint24()?;
        Ok(SqlDate::unchecked_create(days))
    }

    /// Reads a time of day and brings it to units of 100 nanoseconds.
    pub fn read_time(&self, reader: &mut ByteReader, byte_len: u8, scale: u8) -> (r: TdsResult<
        SqlTime,
    >)
        ensures
            read_part(
                *old(reader),
                *final(reader),
                get_time(old(reader).data(), old(reader).pos(), byte_len, scale),
                r,
            ),
    {
        proof {
            lemma_pow256();
            lemma_le_nat_bound(reader.data(), reader.pos(), 3);
            lemma_le_nat_bound(reader.data(), reader.pos(), 4);
            lemma_le_nat_bound(reader.data(), reader.pos(), 5);
        }
        let scaled_value: u64 = match byte_len {
            3 => reader.read_uint24()? as u64,
            4 => reader.read_uint32()? as u64,
            _ => reader.read_uint40()?,
        };
        assert(scaled_value * ticks_per_unit(scale) <= 0x100_0000_0000 * 10_000_000) by (nonlinear_arith)
            requires
                scaled_value < 0x100_0000_0000,
                ticks_per_unit(scale) <= 10_000_000,
        ;
        Ok(SqlTime { time_nanoseconds: scale_to_100ns(scaled_value, scale), scale })
    }

    /// Reads a date and time.
    pub fn read_datetime2(&self, reader: &mut ByteReader, byte_len: u8, scale: u8) -> (r: TdsResult<
        SqlDateTime2,
    >)
        ensures
            read_part(
                *old(reader),
                *final(reader),
                get_datetime2(old(reader).data(), old(reader).pos(), byte_len, scale),
                r,
            ),
    {
        if byte_len < 3 {
            return Err(
                Error::ProtocolError(
                    number_message(
                        "Invalid DateTime2 byte length: ",
                        byte_len as u128,
                        ". Expected at least 3 bytes for date component.",
                    ),
                ),
            );
        }
        let time = self.read_time(reader, byte_len - 3, scale)?;
        let date = Self::read_date(reader)?;
        Ok(SqlDateTime2 { days: date.get_days(), time })
    }

    /// Reads a date and time with an offset.
    pub fn read_datetime_offset(
        &self,
        reader: &mut ByteReader,
        byte_len: u8,
        scale: u8,
    ) -> (r: TdsResult<SqlDateTimeOffset>)
        ensures
            read_part(
                *old(reader),
                *final(reader),
                get_datetimeoffset(old(reader).data(), old(reader).pos(), byte_len, scale),
                r,
            ),
    {
        if byte_len < 2 {
            return Err(
                Error::ProtocolError(
                    number_message(
                        "Invalid DateTimeOffset byte length: ",
                        byte_len as u128,
                        ". Expected at least 2 bytes for offset component.",
                    ),
                ),
            );
        }
        let datetime2 = self.read_datetime2(reader, byte_len - 2, scale)?;
        let offset: i16 = reader.read_int16()?;
        Ok(SqlDateTimeOffset { datetime2, offset })
    }

    /// Reads an integer of `byte_len` bytes.
    pub fn read_intn(&self, reader: &mut ByteReader, byte_len: u8) -> (r: TdsResult<ColumnValues>)
        ensures
            decoded(
                *old(reader),
                *final(reader),
                integer_at(old(reader).data(), old(reader).pos(), byte_len),
                r,
            ),
    {
        let value = match byte_len {
            1 => ColumnValues::TinyInt(reader.read_byte()?),
            2 => ColumnValues::SmallInt(reader.read_int16()?),
            4 => ColumnValues::Int(reader.read_int32()?),
            8 => ColumnValues::BigInt(reader.read_int64()?),
            0 => ColumnValues::Null,
            _ => {
                return Err(invalid_intn_length());
            },
        };
        Ok(value)
    }

    /// Reads a four-byte amount of money.
    fn read_money4(&self, reader: &mut ByteReader) -> (r: TdsResult<SqlSmallMoney>)
        ensures
            final(reader).data() == old(reader).data(),
            match smallmoney_at(old(reader).data(), old(reader).pos()) {
                Ok((v, p)) => (r matches Ok(x) && Value::SmallMoney(x) == v) && final(reader).pos()
                    == p,
                Err(k) => r matches Err(e) && e.kind() == k,
            },
    {
        let int_val: i32 = reader.read_int32()?;
        Ok(SqlSmallMoney { int_val })
    }

    /// Reads an eight-byte amount of money.
    fn read_money8(&self, reader: &mut ByteReader) -> (r: TdsResult<SqlMoney>)
        ensures
            final(reader).data() == old(reader).data(),
            match money_at(old(reader).data(), old(reader).pos()) {
                Ok((v, p)) => (r matches Ok(x) && Value::Money(x) == v) && final(reader).pos() == p,
                Err(k) => r matches Err(e) && e.kind() == k,
            },
    {
        let msb_part: i32 = reader.read_int32()?;
        let lsb_part: i32 = reader.read_int32()?;
        Ok(SqlMoney { lsb_part, msb_part })
    }

    /// Reads a date whose length is given.
    pub fn read_daten(reader: &mut ByteReader, length: u8) -> (r: TdsResult<ColumnValues>)
        ensures
            decoded(
                *old(reader),
                *final(reader),
                date_at(old(reader).data(), old(reader).pos(), length),
                r,
            ),
    {
        if length == 0 {
            Ok(ColumnValues::Null)
        } else {
            Ok(ColumnValues::Date(Self::read_date(reader)?))
        }
    }

    /// Reads a unique identifier whose length is given; a missing value for length 0.
    fn read_guid_bytes(reader: &mut ByteReader, length: u8) -> (r: TdsResult<Option<SqlGuid>>)
        ensures
            final(reader).data() == old(reader).data(),
            match guid_at(old(reader).data(), old(reader).pos(), length) {
                Ok((v, p)) => (r matches Ok(x) && match x {
                    Some(g) => v == Value::Uuid(g.bytes@),
                    None => v == Value::Null,
                }) && final(reader).pos() == p,
                Err(k) => r matches Err(e) && e.kind() == k,
            },
    {
        if length == 0 {
            return Ok(None);
        }
        if length != 16 {
            return Err(
                Error::ProtocolError(
                    number_message(
                        "Invalid GUID length: expected 16 bytes, got ",
                        length as u128,
                        "",
                    ),
                ),
            );
        }
        let bytes = reader.read_bytes(16)?;
        let guid = guid_from_slice_le(bytes.as_slice());
        Ok(guid)
    }

    /// Reads a unique identifier whose length is given.
    pub fn read_guid(reader: &mut ByteReader, length: u8) -> (r: TdsResult<ColumnValues>)
        ensures
            decoded(
                *old(reader),
                *final(reader),
                guid_at(old(reader).data(), old(reader).pos(), length),
                r,
            ),
    {
        match Self::read_guid_bytes(reader, length)? {
            Some(g) => Ok(ColumnValues::Uuid(g)),
            None => Ok(ColumnValues::Null),
        }
    }
}

/// The error of an integer of a length that no integer has.
fn invalid_intn_length() -> (e: Error)
    ensures
        e.kind() == ErrorKind::Io(IoErrorKind::InvalidData),
{
    Error::Io(IoErrorKind::InvalidData, String::from_str("Invalid IntN length"))
}

impl GenericDecoder {
    /// Decodes a value of a type of fixed length.
    fn decode_fixed(&self, reader: &mut ByteReader, data_type: TdsDataType) -> (r: TdsResult<
        ColumnValues,
    >)
        ensures
            decoded(
                *old(reader),
                *final(reader),
                fixed_at(data_type, old(reader).data(), old(reader).pos()),
                r,
            ),
    {
        let value = match data_type {
            TdsDataType::Int1 => ColumnValues::from(reader.read_byte()?),
            TdsDataType::Int2 => ColumnValues::SmallInt(reader.read_int16()?),
            TdsDataType::Int4 => ColumnValues::from(reader.read_int32()?),
            TdsDataType::Int8 => ColumnValues::BigInt(reader.read_int64()?),
            TdsDataType::Flt4 => ColumnValues::Real(SqlReal { bits: reader.read_float32()? }),
            TdsDataType::Flt8 => ColumnValues::Float(SqlFloat { bits: reader.read_float64()? }),
            TdsDataType::Money4 => ColumnValues::SmallMoney(self.read_money4(reader)?),
            TdsDataType::Money => ColumnValues::Money(self.read_money8(reader)?),
            TdsDataType::Bit => ColumnValues::Bit(reader.read_byte()? == 1),
            TdsDataType::DateTime => ColumnValues::DateTime(self.read_datetime(reader)?),
            TdsDataType::DateTim4 => ColumnValues::SmallDateTime(self.read_small_datetime(reader)?),
            TdsDataType::Decimal => {
                return Err(
                    Error::UnimplementedFeature {
                        feature: String::from_str("Fixed-length Decimal type"),
                        context: number_message(
                            "Data type ",
                            data_type.code() as u128,
                            " is not implemented. Use DecimalN instead.",
                        ),
                    },
                );
            },
            TdsDataType::Numeric => {
                return Err(
                    Error::UnimplementedFeature {
                        feature: String::from_str("Fixed-length Numeric type"),
                        context: number_message(
                            "Data type ",
                            data_type.code() as u128,
                            " is not implemented. Use NumericN instead.",
                        ),
                    },
                );
            },
            _ => {
                return Err(
                    Error::UnimplementedFeature {
                        feature: number_message("Data type ", data_type.code() as u128, ""),
                        context: number_message(
                            "Data type ",
                            data_type.code() as u128,
                            " is not yet supported in the decoder",
                        ),
                    },
                );
            },
        };
        Ok(value)
    }

    /// Decodes a vector.
    pub fn decode_vector(&self, reader: &mut ByteReader, metadata: &ColumnMetadata) -> (r: TdsResult<
        ColumnValues,
    >)
        ensures
            decoded(
                *old(reader),
                *final(reader),
                vector_at(metadata, old(reader).data(), old(reader).pos()),
                r,
            ),
    {
        let length_prefix_value: usize = reader.read_uint16()? as usize;
        if length_prefix_value == 0xFFFF {
            return Ok(ColumnValues::Null);
        }
        if length_prefix_value > VECTOR_MAX_SIZE {
            return Err(
                Error::ProtocolError(
                    number_message(
                        "Vector length ",
                        length_prefix_value as u128,
                        " exceeds maximum of 8000 bytes",
                    ),
                ),
            );
        }
        if length_prefix_value < VECTOR_HEADER_SIZE {
            return Err(
                Error::ProtocolError(
                    number_message(
                        "Vector length ",
                        length_prefix_value as u128,
                        " is less than minimum header size of 8 bytes",
                    ),
                ),
            );
        }
        let ghost d = reader.data();
        let ghost q = reader.pos();
        let ghost header = d.subrange(q, q + 8);
        let layout_format_byte: u8 = reader.read_byte()?;
        let layout_version_byte: u8 = reader.read_byte()?;
        let dimension_count: u16 = reader.read_uint16()?;
        let base_type_byte: u8 = reader.read_byte()?;
        let _reserved1: u8 = reader.read_byte()?;
        let _reserved2: u8 = reader.read_byte()?;
        let _reserved3: u8 = reader.read_byte()?;
        proof {
            assert(d.subrange(q + 2, q + 4) =~= header.subrange(2, 4));
            crate::bytes::lemma_le_nat_same(d, q + 2, header, 2, 2);
            assert(get_bytes(d, q, 8) == Ok::<(Seq<u8>, int), ErrorKind>((header, q + 8)));
        }
        let _layout_format = VectorLayoutFormat::from_code(layout_format_byte)?;
        let _layout_version = VectorLayoutVersion::from_code(layout_version_byte)?;
        let base_type_in_metadata: u8 = match metadata.type_info.type_info_variant {
            TypeInfoVariant::VarLenScale(_, scale) => scale,
            _ => {
                return Err(
                    Error::ProtocolError(
                        String::from_str("Vector metadata missing scale (base type)"),
                    ),
                );
            },
        };
        if base_type_byte != base_type_in_metadata {
            return Err(
                Error::ProtocolError(
                    number_message(
                        "Vector base type mismatch: metadata has ",
                        base_type_in_metadata as u128,
                        number_message(
                            ", vector header has ",
                            base_type_byte as u128,
                            "",
                        ).as_str(),
                    ),
                ),
            );
        }
        let base_type = VectorBaseType::from_code(base_type_byte)?;
        let element_size: usize = base_type.element_size_bytes();
        let length_from_vector_header: usize = VECTOR_HEADER_SIZE + (dimension_count as usize)
            * element_size;
        if length_prefix_value != length_from_vector_header || length_prefix_value
            != metadata.type_info.length {
            return Err(
                Error::ProtocolError(
                    number_message(
                        "Vector length mismatch: length in prefix ",
                        length_prefix_value as u128,
                        number_message(
                            " bytes, length from vector header ",
                            length_from_vector_header as u128,
                            number_message(
                                " bytes, length in metadata ",
                                metadata.type_info.length as u128,
                                " bytes",
                            ).as_str(),
                        ).as_str(),
                    ),
                ),
            );
        }
        let raw_bytes = reader.read_bytes(length_prefix_value - VECTOR_HEADER_SIZE)?;
        let vector = SqlVector::try_from_raw(
            layout_format_byte,
            layout_version_byte,
            base_type_byte,
            raw_bytes,
        )?;
        Ok(ColumnValues::Vector(vector))
    }

    /// Decodes a variant's value without properties.
    fn decode_zero_propbyte_variant(
        &self,
        reader: &mut ByteReader,
        tds_type: TdsDataType,
        data_length: u32,
    ) -> (r: TdsResult<ColumnValues>)
        ensures
            decoded(
                *old(reader),
                *final(reader),
                variant_without_properties(
                    tds_type,
                    data_length,
                    old(reader).data(),
                    old(reader).pos(),
                ),
                r,
            ),
    {
        match FixedLengthTypes::from_type(tds_type) {
            Ok(_) => self.decode_fixed(reader, tds_type),
            Err(_) => match tds_type {
                TdsDataType::Guid => Self::read_guid(reader, data_length as u8),
                TdsDataType::DateN => Self::read_daten(reader, data_length as u8),
                _ => Err(
                    Error::ProtocolError(
                        number_message(
                            "For 0 byte property, only Guid and DateN are expected, but got: ",
                            tds_type.code() as u128,
                            "",
                        ),
                    ),
                ),
            },
        }
    }

    /// Decodes a variant's value with a scale as its property.
    fn decode_one_byte_variant(
        &self,
        reader: &mut ByteReader,
        tds_type: TdsDataType,
        data_length: u32,
    ) -> (r: TdsResult<ColumnValues>)
        ensures
            decoded(
                *old(reader),
                *final(reader),
                variant_with_scale(
                    tds_type,
                    data_length,
                    old(reader).data(),
                    old(reader).pos(),
                ),
                r,
            ),
    {
        let scale: u8 = reader.read_byte()?;
        match tds_type {
            TdsDataType::TimeN => Ok(
                ColumnValues::Time(self.read_time(reader, data_length as u8, scale)?),
            ),
            TdsDataType::DateTime2N => Ok(
                ColumnValues::DateTime2(self.read_datetime2(reader, data_length as u8, scale)?),
            ),
            TdsDataType::DateTimeOffsetN => Ok(
                ColumnValues::DateTimeOffset(
                    self.read_datetime_offset(reader, data_length as u8, scale)?,
                ),
            ),
            _ => Err(
                Error::ProtocolError(
                    number_message(
                        "Invalid SQL_VARIANT: 1-byte property is only valid for TimeN, DateTime2N, and DateTimeOffsetN types, but got: ",
                        tds_type.code() as u128,
                        "",
                    ),
                ),
            ),
        }
    }

    /// Decodes a variant.
    pub fn read_sql_variant(&self, reader: &mut ByteReader) -> (r: TdsResult<ColumnValues>)
        requires
            old(reader).pos() + 6 <= old(reader).data().len() && old(reader).data()[old(
                reader).pos() + 5] == 7 && le_nat(old(reader).data(), old(reader).pos(), 4) >= 9
                ==> (TdsDataType::of_code(old(reader).data()[old(reader).pos() + 4]) matches Some(
                t,
            ) ==> has_collation(t)),
        ensures
            decoded(
                *old(reader),
                *final(reader),
                variant_at(old(reader).data(), old(reader).pos()),
                r,
            ),
    {
        let length: u32 = reader.read_uint32()?;
        if length == 0 {
            return Ok(ColumnValues::Null);
        }
        let variant_base_type: u8 = reader.read_byte()?;
        let tds_type = TdsDataType::from_code(variant_base_type)?;
        let variant_prop_bytes: u8 = reader.read_byte()?;
        if (length as u64) < 2 + variant_prop_bytes as u64 {
            return Err(
                Error::ProtocolError(
                    number_message(
                        "SQL_VARIANT data length calculation underflow: length=",
                        length as u128,
                        number_message(
                            ", prop_bytes=",
                            variant_prop_bytes as u128,
                            "",
                        ).as_str(),
                    ),
                ),
            );
        }
        let data_length: u32 = length - 2 - variant_prop_bytes as u32;
        match variant_prop_bytes {
            0 => self.decode_zero_propbyte_variant(reader, tds_type, data_length),
            1 => self.decode_one_byte_variant(reader, tds_type, data_length),
            2 => decode_two_propbyte_variant(reader, variant_base_type, tds_type, data_length),
            7 => decode_seven_propbyte_variant(reader, tds_type, data_length),
            _ => Err(
                Error::ProtocolError(
                    number_message(
                        "Unexpected SQL variant properties length: ",
                        variant_prop_bytes as u128,
                        ". Expected 0, 1, 2, or 7. This indicates malformed or invalid data.",
                    ),
                ),
            ),
        }
    }

    /// Whether the column's value at the reader's position has a meaning: it is not a variant whose
    /// type contradicts its seven bytes of properties.
    pub fn is_decodable(&self, reader: &ByteReader, metadata: &ColumnMetadata) -> (b: bool)
        ensures
            b == decodable(metadata, reader.data(), reader.pos()),
    {
        let is_variant: bool = match metadata.data_type {
            TdsDataType::SsVariant => true,
            _ => false,
        };
        let p: usize = reader.position();
        if !is_variant || reader.remaining() < 6 || reader.peek(p + 5) != 7 {
            return true;
        }
        if reader.peek_uint32(p) < 9 {
            return true;
        }
        match TdsDataType::from_code(reader.peek(p + 4)) {
            Ok(t) => match t {
                TdsDataType::BigVarChar
                | TdsDataType::BigChar
                | TdsDataType::NVarChar
                | TdsDataType::NChar => true,
                _ => false,
            },
            Err(_) => true,
        }
    }

    /// Decodes the value of a column.
    #[verifier::rlimit(60)]
    #[verifier::spinoff_prover]
    pub fn decode(&self, reader: &mut ByteReader, metadata: &ColumnMetadata) -> (r: TdsResult<
        ColumnValues,
    >)
        requires
            decodable(metadata, old(reader).data(), old(reader).pos()),
        ensures
            decoded(
                *old(reader),
                *final(reader),
                column_value(metadata, old(reader).data(), old(reader).pos()),
                r,
            ),
    {
        match metadata.data_type {
            TdsDataType::MoneyN => {
                let byte_len: u8 = reader.read_byte()?;
                match byte_len {
                    4 => Ok(ColumnValues::SmallMoney(self.read_money4(reader)?)),
                    8 => Ok(ColumnValues::Money(self.read_money8(reader)?)),
                    0 => Ok(ColumnValues::Null),
                    _ => Err(invalid_moneyn_length(byte_len)),
                }
            },
            TdsDataType::DecimalN => match self.read_decimal(reader, metadata)? {
                Some(value) => Ok(ColumnValues::Decimal(value)),
                None => Ok(ColumnValues::Null),
            },
            TdsDataType::NumericN => match self.read_decimal(reader, metadata)? {
                Some(value) => Ok(ColumnValues::Numeric(value)),
                None => Ok(ColumnValues::Null),
            },
            TdsDataType::NChar
            | TdsDataType::NVarChar
            | TdsDataType::BigChar
            | TdsDataType::BigVarChar
            | TdsDataType::Char
            | TdsDataType::VarChar
            | TdsDataType::NText
            | TdsDataType::Text => self.string_decoder.decode(reader, metadata),
            TdsDataType::IntN => {
                let byte_len: u8 = reader.read_byte()?;
                self.read_intn(reader, byte_len)
            },
            TdsDataType::BigBinary => match Self::read_short_bytes(reader)? {
                Some(bytes) => Ok(ColumnValues::Bytes(bytes)),
                None => Ok(ColumnValues::Null),
            },
            TdsDataType::BigVarBinary => {
                if metadata.is_plp() {
                    match Self::read_plp_bytes(reader)? {
                        Some(bytes) => Ok(ColumnValues::Bytes(bytes)),
                        None => Ok(ColumnValues::Null),
                    }
                } else {
                    match Self::read_short_bytes(reader)? {
                        Some(bytes) => Ok(ColumnValues::Bytes(bytes)),
                        None => Ok(ColumnValues::Null),
                    }
                }
            },
            TdsDataType::Xml => match Self::read_plp_bytes(reader)? {
                Some(bytes) => Ok(ColumnValues::Xml(SqlXml { bytes })),
                None => Ok(ColumnValues::Null),
            },
            TdsDataType::Json => match Self::read_plp_bytes(reader)? {
                Some(bytes) => Ok(ColumnValues::Json(SqlJson::new(bytes))),
                None => Ok(ColumnValues::Null),
            },
            TdsDataType::Vector => self.decode_vector(reader, metadata),
            TdsDataType::BitN => {
                let byte_len: u8 = reader.read_byte()?;
                if byte_len > 0 {
                    Ok(ColumnValues::Bit(reader.read_byte()? == 1))
                } else {
                    Ok(ColumnValues::Null)
                }
            },
            TdsDataType::Guid => {
                let length: u8 = reader.read_byte()?;
                Self::read_guid(reader, length)
            },
            TdsDataType::FltN => {
                let length: u8 = reader.read_byte()?;
                match length {
                    0 => Ok(ColumnValues::Null),
                    4 => Ok(ColumnValues::Real(SqlReal { bits: reader.read_float32()? })),
                    _ => Ok(ColumnValues::Float(SqlFloat { bits: reader.read_float64()? })),
                }
            },
            TdsDataType::DateTimeN => {
                let length: u8 = reader.read_byte()?;
                match length {
                    0 => Ok(ColumnValues::Null),
                    4 => Ok(ColumnValues::SmallDateTime(self.read_small_datetime(reader)?)),
                    _ => Ok(ColumnValues::DateTime(self.read_datetime(reader)?)),
                }
            },
            TdsDataType::DateN => {
                let length: u8 = reader.read_byte()?;
                Self::read_daten(reader, length)
            },
            TdsDataType::TimeN => {
                let length: u8 = reader.read_byte()?;
                if length == 0 {
                    Ok(ColumnValues::Null)
                } else {
                    Ok(ColumnValues::Time(self.read_time(reader, length, metadata.get_scale())?))
                }
            },
            TdsDataType::DateTime2N => {
                let length: u8 = reader.read_byte()?;
                if length == 0 {
                    Ok(ColumnValues::Null)
                } else {
                    Ok(
                        ColumnValues::DateTime2(
                            self.read_datetime2(reader, length, metadata.get_scale())?,
                        ),
                    )
                }
            },
            TdsDataType::DateTimeOffsetN => {
                let length: u8 = reader.read_byte()?;
                if length == 0 {
                    Ok(ColumnValues::Null)
                } else {
                    Ok(
                        ColumnValues::DateTimeOffset(
                            self.read_datetime_offset(reader, length, metadata.get_scale())?,
                        ),
                    )
                }
            },
            TdsDataType::Image => match Self::read_long_bytes(reader)? {
                Some(bytes) => {
                    if bytes.len() == 0 {
                        Ok(ColumnValues::Null)
                    } else {
                        Ok(ColumnValues::Bytes(bytes))
                    }
                },
                None => Ok(ColumnValues::Null),
            },
            TdsDataType::Udt => match Self::read_plp_bytes(reader)? {
                Some(bytes) => Ok(ColumnValues::Bytes(bytes)),
                None => Ok(ColumnValues::Null),
            },
            TdsDataType::SsVariant => self.read_sql_variant(reader),
            _ => self.decode_fixed(reader, metadata.data_type),
        }
    }
}

/// The error of an amount of money of a length that none has.
fn invalid_moneyn_length(byte_len: u8) -> (e: Error)
    ensures
        e.kind() == ErrorKind::Protocol,
{
    Error::ProtocolError(number_message("Invalid MoneyN length - ", byte_len as u128, ""))
}

/// Decodes a variant's value with two bytes of properties.
fn decode_two_propbyte_variant(
    reader: &mut ByteReader,
    variant_base_type: u8,
    tds_type: TdsDataType,
    data_length: u32,
) -> (r: TdsResult<ColumnValues>)
    ensures
        decoded(
            *old(reader),
            *final(reader),
            variant_with_two_bytes(tds_type, data_length, old(reader).data(), old(reader).pos()),
            r,
        ),
{
    match tds_type {
        TdsDataType::BigVarBinary | TdsDataType::BigBinary => {
            let _max_length: u16 = reader.read_uint16()?;
            if data_length as usize > MAX_ALLOC_SIZE {
                return Err(
                    Error::ProtocolError(
                        number_message(
                            "SQL Variant binary data length ",
                            data_length as u128,
                            " exceeds maximum allowed size of 104857600 bytes",
                        ),
                    ),
                );
            }
            Ok(ColumnValues::Bytes(reader.read_bytes(data_length as usize)?))
        },
        TdsDataType::NumericN => {
            let precision: u8 = reader.read_byte()?;
            let scale: u8 = reader.read_byte()?;
            match GenericDecoder::read_decimal_data(reader, data_length as u8, precision, scale)? {
                Some(value) => Ok(ColumnValues::Numeric(value)),
                None => Ok(ColumnValues::Null),
            }
        },
        TdsDataType::DecimalN => {
            let precision: u8 = reader.read_byte()?;
            let scale: u8 = reader.read_byte()?;
            match GenericDecoder::read_decimal_data(reader, data_length as u8, precision, scale)? {
                Some(value) => Ok(ColumnValues::Decimal(value)),
                None => Ok(ColumnValues::Null),
            }
        },
        _ => Err(
            Error::ProtocolError(
                number_message(
                    "Unexpected SQL variant base type for len(2) prop bytes: ",
                    variant_base_type as u128,
                    ". Expected binary or numeric types.",
                ),
            ),
        ),
    }
}

/// Decodes a variant's character data.
fn decode_seven_propbyte_variant(
    reader: &mut ByteReader,
    tds_type: TdsDataType,
    data_length: u32,
) -> (r: TdsResult<ColumnValues>)
    requires
        has_collation(tds_type),
    ensures
        decoded(
            *old(reader),
            *final(reader),
            variant_with_collation(tds_type, data_length, old(reader).data(), old(reader).pos()),
            r,
        ),
{
    let collation_bytes = reader.read_bytes(5)?;
    let _max_length: u16 = reader.read_uint16()?;
    let info: u32 = le_read_u32(collation_bytes.as_slice(), 0);
    let collation = SqlCollation::from_parts(info, collation_bytes[4]);
    if data_length as usize > MAX_ALLOC_SIZE {
        return Err(
            Error::ProtocolError(
                number_message(
                    "SQL Variant string data length ",
                    data_length as u128,
                    " exceeds maximum allowed size of 104857600 bytes",
                ),
            ),
        );
    }
    let buffer = reader.read_bytes(data_length as usize)?;
    let encoding = match tds_type {
        TdsDataType::NVarChar | TdsDataType::NChar => EncodingType::Utf16,
        _ => if collation.utf8() {
            EncodingType::Utf8
        } else {
            EncodingType::LcidBased(collation)
        },
    };
    Ok(ColumnValues::String(SqlString::new(buffer, encoding)))
}

impl GenericDecoder {
    /// Decodes the value of a column into a sink.
    #[verifier::rlimit(90)]
    #[verifier::spinoff_prover]
    pub fn decode_into<W: RowWriter>(
        &self,
        reader: &mut ByteReader,
        metadata: &ColumnMetadata,
        col: usize,
        writer: &mut W,
    ) -> (r: TdsResult<()>)
        requires
            decodable(metadata, old(reader).data(), old(reader).pos()),
            column_value(metadata, old(reader).data(), old(reader).pos()) matches Ok((v, _))
                ==> old(writer).accepts(col, v),
        ensures
            forall|c: usize, v: Value| #[trigger]
                old(writer).accepts(c, v) ==> final(writer).accepts(c, v),
            decoded_into(
                *old(reader),
                *final(reader),
                column_value(metadata, old(reader).data(), old(reader).pos()),
                col,
                *old(writer),
                *final(writer),
                r,
            ),
    {
        match metadata.data_type {
            TdsDataType::Int1 => {
                let v: u8 = reader.read_byte()?;
                writer.write_u8(col, v);
            },
            TdsDataType::Int2 => {
                let v: i16 = reader.read_int16()?;
                writer.write_i16(col, v);
            },
            TdsDataType::Int4 => {
                let v: i32 = reader.read_int32()?;
                writer.write_i32(col, v);
            },
            TdsDataType::Int8 => {
                let v: i64 = reader.read_int64()?;
                writer.write_i64(col, v);
            },
            TdsDataType::IntN => {
                let byte_len: u8 = reader.read_byte()?;
                match byte_len {
                    1 => {
                        let v: u8 = reader.read_byte()?;
                        writer.write_u8(col, v);
                    },
                    2 => {
                        let v: i16 = reader.read_int16()?;
                        writer.write_i16(col, v);
                    },
                    4 => {
                        let v: i32 = reader.read_int32()?;
                        writer.write_i32(col, v);
                    },
                    8 => {
                        let v: i64 = reader.read_int64()?;
                        writer.write_i64(col, v);
                    },
                    0 => writer.write_null(col),
                    _ => {
                        return Err(invalid_intn_length());
                    },
                }
            },
            TdsDataType::Flt4 => {
                let bits: u32 = reader.read_float32()?;
                writer.write_f32(col, SqlReal { bits });
            },
            TdsDataType::Flt8 => {
                let bits: u64 = reader.read_float64()?;
                writer.write_f64(col, SqlFloat { bits });
            },
            TdsDataType::FltN => {
                let length: u8 = reader.read_byte()?;
                match length {
                    0 => writer.write_null(col),
                    4 => {
                        let bits: u32 = reader.read_float32()?;
                        writer.write_f32(col, SqlReal { bits });
                    },
                    _ => {
                        let bits: u64 = reader.read_float64()?;
                        writer.write_f64(col, SqlFloat { bits });
                    },
                }
            },
            TdsDataType::Bit => {
                let b: u8 = reader.read_byte()?;
                writer.write_bool(col, b == 1);
            },
            TdsDataType::BitN => {
                let byte_len: u8 = reader.read_byte()?;
                if byte_len > 0 {
                    let b: u8 = reader.read_byte()?;
                    writer.write_bool(col, b == 1);
                } else {
                    writer.write_null(col);
                }
            },
            TdsDataType::Money4 => {
                let v = self.read_money4(reader)?;
                writer.write_smallmoney(col, v);
            },
            TdsDataType::Money => {
                let v = self.read_money8(reader)?;
                writer.write_money(col, v);
            },
            TdsDataType::MoneyN => {
                let byte_len: u8 = reader.read_byte()?;
                match byte_len {
                    4 => {
                        let v = self.read_money4(reader)?;
                        writer.write_smallmoney(col, v);
                    },
                    8 => {
                        let v = self.read_money8(reader)?;
                        writer.write_money(col, v);
                    },
                    0 => writer.write_null(col),
                    _ => {
                        return Err(invalid_moneyn_length(byte_len));
                    },
                }
            },
            TdsDataType::DecimalN => match self.read_decimal(reader, metadata)? {
                Some(val) => writer.write_decimal(col, val),
                None => writer.write_null(col),
            },
            TdsDataType::NumericN => match self.read_decimal(reader, metadata)? {
                Some(val) => writer.write_numeric(col, val),
                None => writer.write_null(col),
            },
            TdsDataType::NChar
            | TdsDataType::NVarChar
            | TdsDataType::BigChar
            | TdsDataType::BigVarChar
            | TdsDataType::Char
            | TdsDataType::VarChar
            | TdsDataType::NText
            | TdsDataType::Text => {
                return self.string_decoder.decode_string_into(reader, metadata, col, writer);
            },
            TdsDataType::BigBinary => match Self::read_short_bytes(reader)? {
                Some(bytes) => writer.write_bytes(col, bytes),
                None => writer.write_null(col),
            },
            TdsDataType::BigVarBinary => {
                if metadata.is_plp() {
                    match Self::read_plp_bytes(reader)? {
                        Some(bytes) => writer.write_bytes(col, bytes),
                        None => writer.write_null(col),
                    }
                } else {
                    match Self::read_short_bytes(reader)? {
                        Some(bytes) => writer.write_bytes(col, bytes),
                        None => writer.write_null(col),
                    }
                }
            },
            TdsDataType::DateTime => {
                let v = self.read_datetime(reader)?;
                writer.write_datetime(col, v);
            },
            TdsDataType::DateTim4 => {
                let v = self.read_small_datetime(reader)?;
                writer.write_smalldatetime(col, v);
            },
            TdsDataType::DateTimeN => {
                let length: u8 = reader.read_byte()?;
                match length {
                    0 => writer.write_null(col),
                    4 => {
                        let v = self.read_small_datetime(reader)?;
                        writer.write_smalldatetime(col, v);
                    },
                    _ => {
                        let v = self.read_datetime(reader)?;
                        writer.write_datetime(col, v);
                    },
                }
            },
            TdsDataType::DateN => {
                let length: u8 = reader.read_byte()?;
                if length == 0 {
                    writer.write_null(col);
                } else {
                    let v = Self::read_date(reader)?;
                    writer.write_date(col, v);
                }
            },
            TdsDataType::TimeN => {
                let length: u8 = reader.read_byte()?;
                if length == 0 {
                    writer.write_null(col);
                } else {
                    let v = self.read_time(reader, length, metadata.get_scale())?;
                    writer.write_time(col, v);
                }
            },
            TdsDataType::DateTime2N => {
                let length: u8 = reader.read_byte()?;
                if length == 0 {
                    writer.write_null(col);
                } else {
                    let v = self.read_datetime2(reader, length, metadata.get_scale())?;
                    writer.write_datetime2(col, v);
                }
            },
            TdsDataType::DateTimeOffsetN => {
                let length: u8 = reader.read_byte()?;
                if length == 0 {
                    writer.write_null(col);
                } else {
                    let v = self.read_datetime_offset(reader, length, metadata.get_scale())?;
                    writer.write_datetimeoffset(col, v);
                }
            },
            TdsDataType::Guid => {
                let length: u8 = reader.read_byte()?;
                match Self::read_guid_bytes(reader, length)? {
                    Some(g) => writer.write_uuid(col, g),
                    None => writer.write_null(col),
                }
            },
            _ => {
                let value = self.decode(reader, metadata)?;
                write_column_value(writer, col, value);
            },
        }
        Ok(())
    }
}

/// Reading tells what the bytes stand for and stands behind them, or fails as it must, and never touches the
/// bytes.
pub proof fn law_reading(
    pre: ByteReader,
    post: ByteReader,
    expected: Decoded,
    r: TdsResult<ColumnValues>,
    blob: Result<(Option<Seq<u8>>, int), ErrorKind>,
    b: TdsResult<Option<Vec<u8>>>,
)
    ensures
        decoded(pre, post, expected, r) ==> post.data() == pre.data() && r is Ok == expected is Ok && (r
            matches Ok(x) ==> x@ == expected->Ok_0.0 && post.pos() == expected->Ok_0.1) && (r matches Err(e)
            ==> e.kind() == expected->Err_0),
        read_blob(pre, post, blob, b) ==> post.data() == pre.data() && b is Ok == blob is Ok && (b matches Ok(x)
            ==> post.pos() == blob->Ok_0.1 && x is Some == blob->Ok_0.0 is Some && (x matches Some(y) ==> y@
            == blob->Ok_0.0->Some_0)) && (b matches Err(e) ==> e.kind() == blob->Err_0),
{
}

/// Reading a part of a value tells the part and stands behind it, or fails as it must.
pub proof fn law_reading_a_part<T>(
    pre: ByteReader,
    post: ByteReader,
    expected: Result<(T, int), ErrorKind>,
    r: TdsResult<T>,
)
    requires
        read_part(pre, post, expected, r),
    ensures
        post.data() == pre.data(),
        r is Ok == expected is Ok,
        r matches Ok(x) ==> x == expected->Ok_0.0 && post.pos() == expected->Ok_0.1,
        r matches Err(e) ==> e.kind() == expected->Err_0,
{
}

} // verus!

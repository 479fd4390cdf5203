//! Bytes that arrive later do not change what was already there: a value that could be read is read in
//! the same way when more bytes stand behind it, and so is an error other than that bytes are missing.

use crate::bytes::{le_nat, lemma_le_nat_same};
use crate::datatypes::column_values::Value;
use crate::datatypes::metadata::ColumnMetadata;
use crate::datatypes::sqldatatypes::{TdsDataType, TypeInfoVariant};
use crate::datatypes::sync_decoder::{bitmap_len, law_sync_agrees, sync_column, sync_row};
use crate::datatypes::wire::{
    bit_at, column_value, date_at, datetime_at, fixed_at, float_at, get_chunks,
    get_datetime2, get_datetimeoffset, get_decimal, get_long, get_plp, get_short, get_short_or_null,
    get_time, guid_at, int_parts_at, integer_at, is_string_type, law_value_end, money_at, real_at,
    smalldatetime_at, smallmoney_at, variant_at, variant_data, variant_with_collation,
    variant_with_scale, variant_with_two_bytes, variant_without_properties, vector_at,
};
use crate::error::ErrorKind;
use crate::io::packet_reader::{end_of_data, get_byte, get_bytes, get_int, get_uint};
use crate::io::token_stream::{cell_at, law_row_end, next_row, row_at, row_cells, rows_from};
use vstd::prelude::*;

verus! {

/// Whether what was read while some bytes had not arrived is what is read afterwards: it is, unless bytes
/// were missing.
pub open spec fn settled<T>(early: Result<T, ErrorKind>, late: Result<T, ErrorKind>) -> bool {
    early == Err::<T, ErrorKind>(end_of_data()) || late == early
}

/// A byte that has arrived stays.
broadcast proof fn lemma_byte_settled(d: Seq<u8>, e: Seq<u8>, p: int)
    requires
        0 <= p,
    ensures
        settled(get_byte(d, p), #[trigger] get_byte(d + e, p)),
{
}

/// Bytes that have arrived stay.
broadcast proof fn lemma_bytes_settled(d: Seq<u8>, e: Seq<u8>, p: int, n: nat)
    requires
        0 <= p,
    ensures
        settled(get_bytes(d, p, n), #[trigger] get_bytes(d + e, p, n)),
{
    if p + n <= d.len() {
        assert((d + e).subrange(p, p + n) =~= d.subrange(p, p + n));
    }
}

/// A number that has arrived stays.
broadcast proof fn lemma_uint_settled(d: Seq<u8>, e: Seq<u8>, p: int, n: nat)
    requires
        0 <= p,
    ensures
        settled(get_uint(d, p, n), #[trigger] get_uint(d + e, p, n)),
{
    if p + n <= d.len() {
        assert((d + e).subrange(p, p + n) =~= d.subrange(p, p + n));
        lemma_le_nat_same(d + e, p, d, p, n);
    }
}

/// A signed number that has arrived stays.
broadcast proof fn lemma_int_settled(d: Seq<u8>, e: Seq<u8>, p: int, n: nat)
    requires
        0 <= p,
    ensures
        settled(get_int(d, p, n), #[trigger] get_int(d + e, p, n)),
{
    lemma_uint_settled(d, e, p, n);
}

broadcast group group_settled {
    lemma_byte_settled,
    lemma_bytes_settled,
    lemma_uint_settled,
    lemma_int_settled,
}

/// The chunks of a value that have arrived stay.
proof fn lemma_chunks_settled(
    d: Seq<u8>,
    e: Seq<u8>,
    p: int,
    acc: Seq<u8>,
    count: nat,
    declared: Option<nat>,
)
    requires
        0 <= p,
    ensures
        settled(get_chunks(d, p, acc, count, declared), get_chunks(d + e, p, acc, count, declared)),
    decreases d.len() - p,
{
    broadcast use group_settled;

    assert(settled(get_uint(d, p, 4), get_uint(d + e, p, 4)));
    if get_uint(d, p, 4) is Ok {
        let (len, q) = get_uint(d, p, 4)->Ok_0;
        assert(settled(get_bytes(d, q, len), get_bytes(d + e, q, len)));
        if len > 0 && get_bytes(d, q, len) is Ok {
            let (chunk, r) = get_bytes(d, q, len)->Ok_0;
            lemma_chunks_settled(d, e, r, acc + chunk, count + 1, declared);
        }
    }
}

/// A chunked value that has arrived stays.
proof fn lemma_plp_settled(d: Seq<u8>, e: Seq<u8>, p: int)
    requires
        0 <= p,
    ensures
        settled(get_plp(d, p), get_plp(d + e, p)),
{
    broadcast use group_settled;

    assert(settled(get_uint(d, p, 8), get_uint(d + e, p, 8)));
    if get_uint(d, p, 8) is Ok {
        let (len, q) = get_uint(d, p, 8)->Ok_0;
        lemma_chunks_settled(d, e, q, Seq::empty(), 0, None);
        lemma_chunks_settled(d, e, q, Seq::empty(), 0, Some(len));
    }
}

/// A legacy large object, and a value behind two bytes of length, that have arrived stay.
proof fn lemma_long_settled(d: Seq<u8>, e: Seq<u8>, p: int)
    requires
        0 <= p,
    ensures
        settled(get_long(d, p), get_long(d + e, p)),
        settled(get_short(d, p), get_short(d + e, p)),
        settled(get_short_or_null(d, p), get_short_or_null(d + e, p)),
{
    broadcast use group_settled;

}

/// A time of day, a date and time, and one with an offset, that have arrived stay.
proof fn lemma_time_settled(d: Seq<u8>, e: Seq<u8>, p: int, len: u8, scale: u8)
    requires
        0 <= p,
    ensures
        settled(get_time(d, p, len, scale), get_time(d + e, p, len, scale)),
        settled(get_datetime2(d, p, len, scale), get_datetime2(d + e, p, len, scale)),
        settled(get_datetimeoffset(d, p, len, scale), get_datetimeoffset(d + e, p, len, scale)),
{
    broadcast use group_settled;

}

/// A decimal number that has arrived stays.
proof fn lemma_decimal_settled(d: Seq<u8>, e: Seq<u8>, p: int, len: u8, precision: u8, scale: u8)
    requires
        0 <= p,
    ensures
        settled(
            get_decimal(d, p, len, precision, scale),
            get_decimal(d + e, p, len, precision, scale),
        ),
{
    broadcast use group_settled;

    let n = ((len - 1) / 4) as nat;
    if len > 0 && p + 1 + 4 * n <= d.len() {
        assert forall|i: int| 0 <= i < n implies #[trigger] int_parts_at(d + e, p + 1, n)[i]
            == int_parts_at(d, p + 1, n)[i] by {
            lemma_int_settled(d, e, p + 1 + 4 * i, 4);
        }
        assert(int_parts_at(d + e, p + 1, n) =~= int_parts_at(d, p + 1, n));
    }
}

/// A value of a type of fixed length that has arrived stays.
proof fn lemma_fixed_settled(t: TdsDataType, d: Seq<u8>, e: Seq<u8>, p: int)
    requires
        0 <= p,
    ensures
        settled(fixed_at(t, d, p), fixed_at(t, d + e, p)),
{
    broadcast use group_settled;

}

/// A vector that has arrived stays.
proof fn lemma_vector_settled(m: &ColumnMetadata, d: Seq<u8>, e: Seq<u8>, p: int)
    requires
        0 <= p,
    ensures
        settled(vector_at(m, d, p), vector_at(m, d + e, p)),
{
    broadcast use group_settled;

}

/// The value of a variant that has arrived stays.
proof fn lemma_variant_data_settled(
    t: TdsDataType,
    properties: u8,
    n: u32,
    d: Seq<u8>,
    e: Seq<u8>,
    p: int,
)
    requires
        0 <= p,
    ensures
        settled(variant_data(t, properties, n, d, p), variant_data(t, properties, n, d + e, p)),
{
    broadcast use group_settled;

    lemma_fixed_settled(t, d, e, p);
    assert(settled(
        variant_without_properties(t, n, d, p),
        variant_without_properties(t, n, d + e, p),
    ));
    lemma_time_settled(d, e, p + 1, n as u8, if p < d.len() {
        d[p]
    } else {
        0
    });
    assert(settled(variant_with_scale(t, n, d, p), variant_with_scale(t, n, d + e, p)));
    if p + 2 <= d.len() {
        lemma_decimal_settled(d, e, p + 2, n as u8, d[p], d[p + 1]);
    }
    assert(settled(variant_with_two_bytes(t, n, d, p), variant_with_two_bytes(t, n, d + e, p)));
    assert(settled(variant_with_collation(t, n, d, p), variant_with_collation(t, n, d + e, p)));
}

/// A variant that has arrived stays.
proof fn lemma_variant_settled(d: Seq<u8>, e: Seq<u8>, p: int)
    requires
        0 <= p,
    ensures
        settled(variant_at(d, p), variant_at(d + e, p)),
{
    broadcast use group_settled;

    assert(settled(get_uint(d, p, 4), get_uint(d + e, p, 4)));
    assert(settled(get_byte(d, p + 4), get_byte(d + e, p + 4)));
    assert(settled(get_byte(d, p + 5), get_byte(d + e, p + 5)));
    if p + 6 <= d.len() {
        let len = le_nat(d, p, 4);
        if TdsDataType::of_code(d[p + 4]) is Some && len >= 2 + d[p + 5] {
            let t = TdsDataType::of_code(d[p + 4])->Some_0;
            lemma_variant_data_settled(t, d[p + 5], (len - 2 - d[p + 5]) as u32, d, e, p + 6);
        }
    }
}

/// An integer or an amount of money that has arrived stays.
proof fn lemma_integer_settled(d: Seq<u8>, e: Seq<u8>, p: int, len: u8)
    requires
        0 <= p,
    ensures
        settled(integer_at(d, p, len), integer_at(d + e, p, len)),
        settled(smallmoney_at(d, p), smallmoney_at(d + e, p)),
        settled(money_at(d, p), money_at(d + e, p)),
{
    broadcast use group_settled;

}

/// A bit, a floating-point number or an identifier that has arrived stays.
proof fn lemma_bits_settled(d: Seq<u8>, e: Seq<u8>, p: int, len: u8)
    requires
        0 <= p,
    ensures
        settled(bit_at(d, p), bit_at(d + e, p)),
        settled(real_at(d, p), real_at(d + e, p)),
        settled(float_at(d, p), float_at(d + e, p)),
        settled(guid_at(d, p, len), guid_at(d + e, p, len)),
{
    broadcast use group_settled;

}

/// A date that has arrived stays, and so does a date and time of the older types.
proof fn lemma_date_settled(d: Seq<u8>, e: Seq<u8>, p: int, len: u8)
    requires
        0 <= p,
    ensures
        settled(date_at(d, p, len), date_at(d + e, p, len)),
        settled(datetime_at(d, p), datetime_at(d + e, p)),
        settled(smalldatetime_at(d, p), smalldatetime_at(d + e, p)),
{
    broadcast use group_settled;

}

/// A value that has arrived behind a byte that counts its bytes stays.
proof fn lemma_counted_settled(m: &ColumnMetadata, d: Seq<u8>, e: Seq<u8>, p: int)
    requires
        0 <= p,
        match m.data_type {
            TdsDataType::MoneyN
            | TdsDataType::IntN
            | TdsDataType::BitN
            | TdsDataType::Guid
            | TdsDataType::FltN
            | TdsDataType::DateTimeN
            | TdsDataType::DateN
            | TdsDataType::TimeN
            | TdsDataType::DateTime2N
            | TdsDataType::DateTimeOffsetN => true,
            _ => false,
        },
    ensures
        settled(column_value(m, d, p), column_value(m, d + e, p)),
{
    lemma_byte_settled(d, e, p);
    if p < d.len() {
        let len = d[p];
        lemma_integer_settled(d, e, p + 1, len);
        lemma_bits_settled(d, e, p + 1, len);
        lemma_date_settled(d, e, p + 1, len);
        lemma_time_settled(d, e, p + 1, len, m.get_scale());
    }
}

/// A decimal number or a vector that has arrived stays.
proof fn lemma_number_settled(m: &ColumnMetadata, d: Seq<u8>, e: Seq<u8>, p: int)
    requires
        0 <= p,
        m.data_type == TdsDataType::DecimalN || m.data_type == TdsDataType::NumericN
            || m.data_type == TdsDataType::Vector,
    ensures
        settled(column_value(m, d, p), column_value(m, d + e, p)),
{
    broadcast use group_settled;

    lemma_vector_settled(m, d, e, p);
    match m.type_info.type_info_variant {
        TypeInfoVariant::VarLenPrecisionScale(_, _, precision, scale) => {
            if p < d.len() {
                lemma_decimal_settled(d, e, p + 1, d[p], precision, scale);
            }
        },
        _ => {},
    }
}

/// A value of many bytes that has arrived stays.
proof fn lemma_many_settled(m: &ColumnMetadata, d: Seq<u8>, e: Seq<u8>, p: int)
    requires
        0 <= p,
        match m.data_type {
            TdsDataType::BigBinary
            | TdsDataType::BigVarBinary
            | TdsDataType::Xml
            | TdsDataType::Json
            | TdsDataType::Udt
            | TdsDataType::Image => true,
            t => is_string_type(t),
        },
    ensures
        settled(column_value(m, d, p), column_value(m, d + e, p)),
{
    lemma_plp_settled(d, e, p);
    lemma_long_settled(d, e, p);
}

/// The value of a column that has arrived stays, and so does an error that is not for want of bytes.
pub proof fn law_value_settled(m: &ColumnMetadata, d: Seq<u8>, e: Seq<u8>, p: int)
    requires
        0 <= p,
    ensures
        settled(column_value(m, d, p), column_value(m, d + e, p)),
{
    match m.data_type {
        TdsDataType::MoneyN
        | TdsDataType::IntN
        | TdsDataType::BitN
        | TdsDataType::Guid
        | TdsDataType::FltN
        | TdsDataType::DateTimeN
        | TdsDataType::DateN
        | TdsDataType::TimeN
        | TdsDataType::DateTime2N
        | TdsDataType::DateTimeOffsetN => {
            lemma_counted_settled(m, d, e, p);
        },
        TdsDataType::DecimalN | TdsDataType::NumericN | TdsDataType::Vector => {
            lemma_number_settled(m, d, e, p);
        },
        TdsDataType::BigBinary
        | TdsDataType::BigVarBinary
        | TdsDataType::Xml
        | TdsDataType::Json
        | TdsDataType::Udt
        | TdsDataType::Image => {
            lemma_many_settled(m, d, e, p);
        },
        TdsDataType::SsVariant => {
            lemma_variant_settled(d, e, p);
        },
        t => {
            if is_string_type(t) {
                lemma_many_settled(m, d, e, p);
            } else {
                lemma_fixed_settled(t, d, e, p);
            }
        },
    }
}

/// Whether the row that was read while some bytes had not arrived is the row that is read afterwards:
/// it is, unless bytes were missing, and then the values that were there are its first ones.
pub open spec fn row_settled(
    early: (Seq<(usize, Value)>, Result<int, ErrorKind>),
    late: (Seq<(usize, Value)>, Result<int, ErrorKind>),
) -> bool {
    ||| late == early
    ||| early.1 == Err::<int, ErrorKind>(end_of_data()) && early.0.is_prefix_of(late.0)
}

/// The columns of a row that have arrived stay.
proof fn lemma_row_cells_settled(
    cols: Seq<ColumnMetadata>,
    n: nat,
    bitmap: Option<Seq<u8>>,
    d: Seq<u8>,
    e: Seq<u8>,
    p: int,
)
    requires
        0 <= p <= d.len(),
    ensures
        row_settled(row_cells(cols, n, bitmap, d, p), row_cells(cols, n, bitmap, d + e, p)),
        row_cells(cols, n, bitmap, d, p).1 matches Ok(q) ==> p <= q <= d.len(),
    decreases n,
{
    if n > 0 {
        lemma_row_cells_settled(cols, (n - 1) as nat, bitmap, d, e, p);
        let (cells, at) = row_cells(cols, (n - 1) as nat, bitmap, d, p);
        if at is Ok {
            reveal(cell_at);
            law_value_settled(&cols[n - 1], d, e, at->Ok_0);
            law_value_end(&cols[n - 1], d, at->Ok_0);
        }
    }
}

/// A row that has arrived stays, and of one that has not, the values that have.
pub proof fn law_row_settled(
    cols: Seq<ColumnMetadata>,
    compact: bool,
    d: Seq<u8>,
    e: Seq<u8>,
    p: int,
)
    requires
        0 <= p <= d.len(),
    ensures
        row_settled(row_at(cols, compact, d, p), row_at(cols, compact, d + e, p)),
{
    broadcast use group_settled;

    if compact {
        let n = bitmap_len(cols.len());
        assert(settled(get_bytes(d, p, n), get_bytes(d + e, p, n)));
        if get_bytes(d, p, n) is Ok {
            let (b, q) = get_bytes(d, p, n)->Ok_0;
            lemma_row_cells_settled(cols, cols.len(), Some(b), d, e, q);
        }
    } else {
        lemma_row_cells_settled(cols, cols.len(), None, d, e, p);
    }
}

/// A decimal number, and a time in any of its forms, that the buffer decoder gives stays.
#[verifier::spinoff_prover]
proof fn lemma_sync_scaled_settled(m: &ColumnMetadata, d: Seq<u8>, e: Seq<u8>, p: int)
    requires
        0 <= p <= d.len(),
        m.data_type == TdsDataType::DecimalN || m.data_type == TdsDataType::NumericN
            || m.data_type == TdsDataType::TimeN || m.data_type == TdsDataType::DateTime2N
            || m.data_type == TdsDataType::DateTimeOffsetN,
    ensures
        sync_column(m, d, p) matches Some((v, q)) ==> p <= q <= d.len() && sync_column(m, d + e, p)
            == sync_column(m, d, p),
{
    reveal(sync_column);
    lemma_byte_settled(d, e, p);
    if get_byte(d, p) is Ok {
        let (len, q) = get_byte(d, p)->Ok_0;
        lemma_time_settled(d, e, q, len, m.get_scale());
        match m.type_info.type_info_variant {
            TypeInfoVariant::VarLenPrecisionScale(_, _, precision, scale) => {
                lemma_decimal_settled(d, e, q, len, precision, scale);
            },
            _ => {},
        }
    }
}

/// A value that the buffer decoder gives stays when more bytes stand behind it, and lies within the
/// buffer.
#[verifier::rlimit(40)]
#[verifier::spinoff_prover]
pub proof fn law_sync_value_settled(m: &ColumnMetadata, d: Seq<u8>, e: Seq<u8>, p: int)
    requires
        0 <= p <= d.len(),
    ensures
        sync_column(m, d, p) matches Some((v, q)) ==> p <= q <= d.len() && sync_column(m, d + e, p)
            == sync_column(m, d, p),
{
    match m.data_type {
        TdsDataType::DecimalN
        | TdsDataType::NumericN
        | TdsDataType::TimeN
        | TdsDataType::DateTime2N
        | TdsDataType::DateTimeOffsetN => {
            lemma_sync_scaled_settled(m, d, e, p);
        },
        TdsDataType::BigVarBinary => {
            reveal(sync_column);
            lemma_long_settled(d, e, p);
        },
        _ => {
            let early = column_value(m, d, p);
            let late = column_value(m, d + e, p);
            law_value_settled(m, d, e, p);
            law_value_end(m, d, p);
            reveal(sync_column);
            assert(sync_column(m, d, p) is Some ==> sync_column(m, d, p) == Some(early->Ok_0));
            assert(sync_column(m, d, p) is Some ==> sync_column(m, d + e, p) == Some(late->Ok_0));
        },
    }
}

/// A row that the buffer decoder gives is the row whatever stands behind it in the buffer, and lies
/// within the buffer. Of a row that it does not give, the values that it gave are the first ones.
pub proof fn law_sync_row_settled(
    cols: Seq<ColumnMetadata>,
    n: nat,
    bitmap: Option<Seq<u8>>,
    d: Seq<u8>,
    e: Seq<u8>,
    p: int,
)
    requires
        0 <= p <= d.len(),
    ensures
        sync_row(cols, n, bitmap, d, p).1 matches Some(q) ==> p <= q <= d.len() && sync_row(
            cols,
            n,
            bitmap,
            d + e,
            p,
        ) == sync_row(cols, n, bitmap, d, p),
        sync_row(cols, n, bitmap, d, p).0.is_prefix_of(sync_row(cols, n, bitmap, d + e, p).0),
    decreases n,
{
    if n > 0 {
        law_sync_row_settled(cols, (n - 1) as nat, bitmap, d, e, p);
        let (cells, at) = sync_row(cols, (n - 1) as nat, bitmap, d, p);
        if at is Some {
            law_sync_value_settled(&cols[n - 1], d, e, at->Some_0);
        }
    }
}

/// The values of a row are those of its columns, in their order: of all of them where the buffer decoder
/// gives the row, and of the first ones where it does not.
pub proof fn law_sync_row_columns(
    cols: Seq<ColumnMetadata>,
    n: nat,
    bitmap: Option<Seq<u8>>,
    d: Seq<u8>,
    p: int,
)
    requires
        n <= usize::MAX,
    ensures
        ({
            let (cells, at) = sync_row(cols, n, bitmap, d, p);
            &&& at is Some ==> cells.len() == n
            &&& at is None ==> cells.len() < n
            &&& forall|i: int| 0 <= i < cells.len() ==> (#[trigger] cells[i]).0 == i
        }),
    decreases n,
{
    if n > 0 {
        law_sync_row_columns(cols, (n - 1) as nat, bitmap, d, p);
    }
}

/// A row that the buffer decoder gives is the row that decoding gives, where decimal columns carry a
/// precision and a scale.
pub proof fn law_sync_row_agrees(
    cols: Seq<ColumnMetadata>,
    n: nat,
    bitmap: Option<Seq<u8>>,
    d: Seq<u8>,
    p: int,
)
    requires
        n <= cols.len(),
        forall|i: int|
            0 <= i < n && ((#[trigger] cols[i]).data_type == TdsDataType::DecimalN
                || cols[i].data_type == TdsDataType::NumericN)
                ==> cols[i].type_info.type_info_variant is VarLenPrecisionScale,
    ensures
        ({
            let (cells, at) = sync_row(cols, n, bitmap, d, p);
            &&& at matches Some(q) ==> row_cells(cols, n, bitmap, d, p) == (
                cells,
                Ok::<int, ErrorKind>(q),
            )
            &&& cells.is_prefix_of(row_cells(cols, n, bitmap, d, p).0)
        }),
    decreases n,
{
    if n > 0 {
        law_sync_row_agrees(cols, (n - 1) as nat, bitmap, d, p);
        let (cells, at) = sync_row(cols, (n - 1) as nat, bitmap, d, p);
        if at is Some {
            reveal(cell_at);
            law_sync_agrees(&cols[n - 1], d, at->Some_0);
        }
    }
}

/// Where a message is cut does not matter to its rows: the rows of the first part, and then those from
/// where they ended once the rest has arrived, are the rows of the whole.
pub proof fn law_rows_arrive_in_parts(
    columns: Option<Seq<ColumnMetadata>>,
    d: Seq<u8>,
    e: Seq<u8>,
    p: int,
)
    requires
        0 <= p <= d.len(),
    ensures
        ({
            let (rows, q) = rows_from(columns, d, p);
            let (more, end) = rows_from(columns, d + e, q);
            rows_from(columns, d + e, p) == (rows + more, end)
        }),
    decreases d.len() - p,
{
    match next_row(columns, d, p) {
        Some((cells, q)) => {
            law_row_end(columns, d, p);
            let cols = columns->Some_0;
            law_row_settled(cols, false, d, e, p + 1);
            law_row_settled(cols, true, d, e, p + 1);
            assert(next_row(columns, d + e, p) == next_row(columns, d, p));
            law_rows_arrive_in_parts(columns, d, e, q);
            let (rows, r) = rows_from(columns, d, q);
            let (more, end) = rows_from(columns, d + e, r);
            assert(seq![cells] + (rows + more) =~= (seq![cells] + rows) + more);
        },
        None => {
            let (more, end) = rows_from(columns, d + e, p);
            assert(Seq::<Seq<(usize, Value)>>::empty() + more =~= more);
        },
    }
}

} // verus!

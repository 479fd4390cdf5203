//! What is written of a value is read back as that value.

use crate::bytes::{
    law_le_round_trip, le_bytes, le_nat, lemma_le_bytes_len, lemma_le_nat_same, lemma_pow256,
    pow256, signed, unsigned,
};
use crate::datatypes::column_values::{SqlDateTime2, SqlDateTimeOffset, SqlTime, Value};
use crate::datatypes::decimal::{
    decimal_from_parsed, law_from_parsed_digits, law_parts_make_number,
    law_same_magnitude_same_number, lemma_digits_fit, magnitude, part_or_zero, parts_of, pow32,
    same_magnitude, DecimalView,
};
use crate::datatypes::metadata::ColumnMetadata;
use crate::datatypes::sql_string::{is_raw, spec_encoding_type, text_of, EncodingType};
use crate::datatypes::sql_vector::{valid_dimensions, vector_elements};
use crate::datatypes::sqldatatypes::{
    law_type_code_round_trip, spec_time_length, TdsDataType, TypeInfoVariant,
    VECTOR_BASE_TYPE_FLOAT32,
};
use crate::datatypes::tds_value_serializer::{
    chunked, counted, decimal_bytes, decimal_width, elements_bytes, int_bytes,
    lemma_parts_bytes_len, long, marked, null_bytes, parts_bytes, short, time_bytes,
    type_info_bytes, type_info_length, value_bytes, value_size, variant_bytes, variant_context,
    variant_type, vector_bytes, wide_data, wide_spaces, TdsTypeContext, MAX_VARIANT_DATA_SIZE,
    PLP_NULL, PLP_UNKNOWN_LEN, VARNULL,
};
use crate::datatypes::wire::{
    column_value, fixed_at, get_chunks, get_datetime2, get_datetimeoffset, get_decimal, get_long, get_plp,
    get_short, get_short_or_null, get_time, guid_order, int_parts_at, law_guid_order_involution,
    ticks_per_unit, variant_at, variant_data, vector_at, MAX_ALLOC_SIZE, MAX_CHUNK_SIZE,
};
use crate::error::ErrorKind;
use crate::io::packet_writer::{lemma_units_bytes_len, units_bytes};
use crate::text::utf16_units;
use vstd::arithmetic::power::pow;
use vstd::prelude::*;
use vstd::utf8::valid_utf8;

verus! {

broadcast use lemma_le_bytes_len;

/// Bytes of a number are read back as the number.
pub proof fn lemma_le_at(d: Seq<u8>, p: int, v: nat, n: nat)
    requires
        0 <= p,
        p + n <= d.len(),
        d.subrange(p, p + n) == le_bytes(v, n),
        v < pow256(n),
    ensures
        le_nat(d, p, n) == v,
{
    let b = le_bytes(v, n);
    assert(b.subrange(0, n as int) =~= b);
    lemma_le_nat_same(d, p, b, 0, n);
    law_le_round_trip(v, n);
}

/// Bytes of a signed number are read back as the number.
pub proof fn lemma_int_at(d: Seq<u8>, p: int, v: int, n: nat)
    requires
        0 <= p,
        p + n <= d.len(),
        d.subrange(p, p + n) == int_bytes(v, n),
        -pow256(n) <= 2 * v < pow256(n),
    ensures
        signed(le_nat(d, p, n), n) == v,
{
    lemma_le_at(d, p, unsigned(v, n), n);
}

/// The types that a number is read back from, and those that an amount of money and a legacy date
/// and time is read back from.
pub open spec fn is_number_type(v: Value, t: TdsDataType) -> bool {
    match v {
        Value::Bit(_) => t == TdsDataType::BitN || t == TdsDataType::Bit,
        Value::TinyInt(_) => t == TdsDataType::IntN || t == TdsDataType::Int1,
        Value::SmallInt(_) => t == TdsDataType::IntN || t == TdsDataType::Int2,
        Value::Int(_) => t == TdsDataType::IntN || t == TdsDataType::Int4,
        Value::BigInt(_) => t == TdsDataType::IntN || t == TdsDataType::Int8,
        Value::Real(_) => t == TdsDataType::FltN || t == TdsDataType::Flt4,
        Value::Float(_) => t == TdsDataType::FltN || t == TdsDataType::Flt8,
        Value::SmallMoney(_) => t == TdsDataType::MoneyN || t == TdsDataType::Money4,
        Value::Money(_) => t == TdsDataType::MoneyN || t == TdsDataType::Money,
        Value::DateTime(_) => t == TdsDataType::DateTimeN || t == TdsDataType::DateTime,
        Value::SmallDateTime(_) => t == TdsDataType::DateTimeN || t == TdsDataType::DateTim4,
        _ => false,
    }
}

/// The bytes of a number, without a length before them.
pub open spec fn number_bytes(v: Value) -> Seq<u8> {
    match v {
        Value::Bit(b) => seq![
            if b {
                1u8
            } else {
                0u8
            },
        ],
        Value::TinyInt(x) => seq![x],
        Value::SmallInt(x) => int_bytes(x as int, 2),
        Value::Int(x) => int_bytes(x as int, 4),
        Value::BigInt(x) => int_bytes(x as int, 8),
        Value::Real(x) => le_bytes(x as nat, 4),
        Value::Float(x) => le_bytes(x as nat, 8),
        Value::SmallMoney(x) => int_bytes(x.int_val as int, 4),
        Value::Money(x) => int_bytes(x.msb_part as int, 4) + int_bytes(x.lsb_part as int, 4),
        Value::DateTime(x) => int_bytes(x.days as int, 4) + le_bytes(x.time as nat, 4),
        Value::SmallDateTime(x) => le_bytes(x.days as nat, 2) + le_bytes(x.time as nat, 2),
        _ => Seq::empty(),
    }
}

/// A number is read back as a value of its type of fixed length.
#[verifier::spinoff_prover]
proof fn lemma_number_at(v: Value, d: Seq<u8>, q: int)
    requires
        is_number_type(v, variant_type(v)->Ok_0),
        0 <= q,
        q + number_bytes(v).len() <= d.len(),
        d.subrange(q, q + number_bytes(v).len()) == number_bytes(v),
    ensures
        fixed_at(variant_type(v)->Ok_0, d, q) == Ok::<_, ErrorKind>(
            (v, (q + number_bytes(v).len()) as int),
        ),
{
    lemma_pow256();
    let b = number_bytes(v);
    match v {
        Value::Bit(_) | Value::TinyInt(_) => {
            assert(d[q] == b[0]);
        },
        Value::SmallInt(x) => {
            lemma_int_at(d, q, x as int, 2);
        },
        Value::Int(x) => {
            lemma_int_at(d, q, x as int, 4);
        },
        Value::BigInt(x) => {
            lemma_int_at(d, q, x as int, 8);
        },
        Value::Real(x) => {
            lemma_le_at(d, q, x as nat, 4);
        },
        Value::Float(x) => {
            lemma_le_at(d, q, x as nat, 8);
        },
        Value::SmallMoney(x) => {
            lemma_int_at(d, q, x.int_val as int, 4);
        },
        Value::Money(x) => {
            assert(d.subrange(q, q + 4) =~= b.subrange(0, 4));
            assert(d.subrange(q + 4, q + 8) =~= b.subrange(4, 8));
            assert(b.subrange(0, 4) =~= int_bytes(x.msb_part as int, 4));
            assert(b.subrange(4, 8) =~= int_bytes(x.lsb_part as int, 4));
            lemma_int_at(d, q, x.msb_part as int, 4);
            lemma_int_at(d, q + 4, x.lsb_part as int, 4);
        },
        Value::DateTime(x) => {
            assert(d.subrange(q, q + 4) =~= b.subrange(0, 4));
            assert(d.subrange(q + 4, q + 8) =~= b.subrange(4, 8));
            assert(b.subrange(0, 4) =~= int_bytes(x.days as int, 4));
            assert(b.subrange(4, 8) =~= le_bytes(x.time as nat, 4));
            lemma_int_at(d, q, x.days as int, 4);
            lemma_le_at(d, q + 4, x.time as nat, 4);
        },
        Value::SmallDateTime(x) => {
            assert(d.subrange(q, q + 2) =~= b.subrange(0, 2));
            assert(d.subrange(q + 2, q + 4) =~= b.subrange(2, 4));
            assert(b.subrange(0, 2) =~= le_bytes(x.days as nat, 2));
            assert(b.subrange(2, 4) =~= le_bytes(x.time as nat, 2));
            lemma_le_at(d, q, x.days as nat, 2);
            lemma_le_at(d, q + 2, x.time as nat, 2);
        },
        _ => {},
    }
}

/// How a number is written.
proof fn lemma_number_written(v: Value, ctx: TdsTypeContext)
    requires
        is_number_type(v, variant_type(v)->Ok_0),
        v is SmallMoney ==> !ctx.is_fixed_length || ctx.is_fixed_type(),
    ensures
        value_bytes(v, ctx) == Ok::<_, ErrorKind>(counted(!ctx.is_fixed_type(), number_bytes(v))),
        1 <= number_bytes(v).len() <= 8,
{
}

/// A number is read from a column as from its type of fixed length, behind its length where the
/// column's type has one.
#[verifier::spinoff_prover]
proof fn lemma_number_column(v: Value, m: &ColumnMetadata, d: Seq<u8>, p: int)
    requires
        is_number_type(v, m.data_type),
        0 <= p < d.len(),
        m.data_type != variant_type(v)->Ok_0 ==> d[p] == number_bytes(v).len(),
    ensures
        column_value(m, d, p) == fixed_at(
            variant_type(v)->Ok_0,
            d,
            if m.data_type == variant_type(v)->Ok_0 {
                p
            } else {
                p + 1
            },
        ) || (v is Bit && m.data_type == TdsDataType::BitN && column_value(m, d, p) == fixed_at(
            TdsDataType::Bit,
            d,
            p + 1,
        )),
{
}

/// A number that is written for a column is read back from it, whatever stands before and behind it.
pub proof fn law_number_round_trip(
    v: Value,
    ctx: TdsTypeContext,
    m: &ColumnMetadata,
    before: Seq<u8>,
    after: Seq<u8>,
)
    requires
        is_number_type(v, m.data_type),
        ctx.tds_type == m.data_type.code(),
        v is SmallMoney ==> !ctx.is_fixed_length || ctx.is_fixed_type(),
    ensures
        value_bytes(v, ctx) matches Ok(b) && column_value(m, before + b + after, before.len() as int)
            == Ok::<_, ErrorKind>((v, (before.len() + b.len()) as int)),
{
    lemma_number_written(v, ctx);
    let n = number_bytes(v);
    let b = counted(!ctx.is_fixed_type(), n);
    let d = before + b + after;
    let p = before.len() as int;
    let q = p + b.len() - n.len();
    assert(d.subrange(q, q + n.len()) =~= n);
    assert(d[p] == b[0]);
    lemma_number_column(v, m, d, p);
    lemma_number_at(v, d, q);
}

/// Whether a time of day can be written in so many bytes without loss: it is a whole number of units
/// of its scale, and they fit.
pub open spec fn representable(t: SqlTime, len: nat) -> bool {
    &&& t.time_nanoseconds as nat % ticks_per_unit(t.scale) == 0
    &&& t.time_nanoseconds as nat / ticks_per_unit(t.scale) < pow256(len)
}

/// Whether what a value says of a time of day can be written without loss, and of a date too.
pub open spec fn is_exact(v: Value) -> bool {
    match v {
        Value::Date(days) => days < 0x100_0000,
        Value::Time(t) => spec_time_length(t.scale) matches Some(n) && representable(t, n as nat),
        Value::DateTime2(t) => {
            &&& spec_time_length(t.time.scale) matches Some(n) && representable(t.time, n as nat)
            &&& t.days < 0x100_0000
        },
        Value::DateTimeOffset(t) => {
            &&& spec_time_length(t.datetime2.time.scale) matches Some(n) && representable(
                t.datetime2.time,
                n as nat,
            )
            &&& t.datetime2.days < 0x100_0000
        },
        _ => true,
    }
}

/// A time of day is read back.
proof fn lemma_time_at(d: Seq<u8>, p: int, t: SqlTime, len: u8)
    requires
        0 <= p,
        p + len <= d.len(),
        spec_time_length(t.scale) == Some(len),
        representable(t, len as nat),
        d.subrange(p, p + len) == time_bytes(t, len as nat),
    ensures
        get_time(d, p, len, t.scale) == Ok::<_, ErrorKind>((t, p + len)),
{
    lemma_le_at(d, p, t.time_nanoseconds as nat / ticks_per_unit(t.scale), len as nat);
}

/// A date and a time of day are read back.
proof fn lemma_datetime2_at(d: Seq<u8>, p: int, t: SqlDateTime2, len: u8)
    requires
        0 <= p,
        p + len + 3 <= d.len(),
        spec_time_length(t.time.scale) == Some(len),
        representable(t.time, len as nat),
        t.days < 0x100_0000,
        d.subrange(p, p + len + 3) == time_bytes(t.time, len as nat) + le_bytes(t.days as nat, 3),
    ensures
        get_datetime2(d, p, (len + 3) as u8, t.time.scale) == Ok::<_, ErrorKind>((t, p + len + 3)),
{
    lemma_pow256();
    let s = d.subrange(p, p + len + 3);
    assert(d.subrange(p, p + len) =~= s.subrange(0, len as int));
    assert(s.subrange(0, len as int) =~= time_bytes(t.time, len as nat));
    assert(d.subrange(p + len, p + len + 3) =~= s.subrange(len as int, len + 3));
    assert(s.subrange(len as int, len + 3) =~= le_bytes(t.days as nat, 3));
    lemma_time_at(d, p, t.time, len);
    lemma_le_at(d, p + len, t.days as nat, 3);
}

/// A date and a time of day with an offset are read back.
proof fn lemma_datetimeoffset_at(d: Seq<u8>, p: int, t: SqlDateTimeOffset, len: u8)
    requires
        0 <= p,
        p + len + 5 <= d.len(),
        spec_time_length(t.datetime2.time.scale) == Some(len),
        representable(t.datetime2.time, len as nat),
        t.datetime2.days < 0x100_0000,
        d.subrange(p, p + len + 5) == time_bytes(t.datetime2.time, len as nat) + le_bytes(
            t.datetime2.days as nat,
            3,
        ) + int_bytes(t.offset as int, 2),
    ensures
        get_datetimeoffset(d, p, (len + 5) as u8, t.datetime2.time.scale) == Ok::<_, ErrorKind>(
            (t, p + len + 5),
        ),
{
    lemma_pow256();
    let s = d.subrange(p, p + len + 5);
    let head = time_bytes(t.datetime2.time, len as nat) + le_bytes(t.datetime2.days as nat, 3);
    assert(d.subrange(p, p + len + 3) =~= s.subrange(0, len + 3));
    assert(s.subrange(0, len + 3) =~= head);
    assert(d.subrange(p + len + 3, p + len + 5) =~= s.subrange(len + 3, len + 5));
    assert(s.subrange(len + 3, len + 5) =~= int_bytes(t.offset as int, 2));
    lemma_datetime2_at(d, p, t.datetime2, len);
    lemma_int_at(d, p + len + 3, t.offset as int, 2);
}

/// Whether a column's type is that of a date, a time of day or both, of the value's scale.
pub open spec fn is_time_column(v: Value, m: &ColumnMetadata) -> bool {
    match v {
        Value::Date(_) => m.data_type == TdsDataType::DateN,
        Value::Time(t) => m.data_type == TdsDataType::TimeN && m.get_scale() == t.scale,
        Value::DateTime2(t) => m.data_type == TdsDataType::DateTime2N && m.get_scale()
            == t.time.scale,
        Value::DateTimeOffset(t) => m.data_type == TdsDataType::DateTimeOffsetN && m.get_scale()
            == t.datetime2.time.scale,
        _ => false,
    }
}

/// A date, a time of day or both that are written for a column are read back from it, as long as
/// they are not finer than their scale.
#[verifier::rlimit(60)]
#[verifier::spinoff_prover]
pub proof fn law_time_round_trip(
    v: Value,
    ctx: TdsTypeContext,
    m: &ColumnMetadata,
    before: Seq<u8>,
    after: Seq<u8>,
)
    requires
        is_time_column(v, m),
        is_exact(v),
        ctx.tds_type == m.data_type.code(),
        !ctx.is_fixed_length,
    ensures
        value_bytes(v, ctx) matches Ok(b) && column_value(m, before + b + after, before.len() as int)
            == Ok::<_, ErrorKind>((v, (before.len() + b.len()) as int)),
{
    lemma_pow256();
    let b = value_bytes(v, ctx)->Ok_0;
    let d = before + b + after;
    let p = before.len() as int;
    let q = p + b.len();
    let body = b.subrange(1, b.len() as int);
    assert(d.subrange(p + 1, q) =~= body);
    assert(d[p] == b[0]);
    match v {
        Value::Date(days) => {
            assert(body =~= le_bytes(days as nat, 3));
            lemma_le_at(d, p + 1, days as nat, 3);
        },
        Value::Time(t) => {
            let n = spec_time_length(t.scale)->Some_0;
            assert(body =~= time_bytes(t, n as nat));
            lemma_time_at(d, p + 1, t, n);
        },
        Value::DateTime2(t) => {
            let n = spec_time_length(t.time.scale)->Some_0;
            assert(body =~= time_bytes(t.time, n as nat) + le_bytes(t.days as nat, 3));
            lemma_datetime2_at(d, p + 1, t, n);
        },
        Value::DateTimeOffset(t) => {
            let n = spec_time_length(t.datetime2.time.scale)->Some_0;
            assert(body =~= time_bytes(t.datetime2.time, n as nat) + le_bytes(
                t.datetime2.days as nat,
                3,
            ) + int_bytes(t.offset as int, 2));
            lemma_datetimeoffset_at(d, p + 1, t, n);
        },
        _ => {},
    }
}

/// A unique identifier that is written for a column is read back from it.
pub proof fn law_guid_round_trip(
    g: Seq<u8>,
    ctx: TdsTypeContext,
    m: &ColumnMetadata,
    before: Seq<u8>,
    after: Seq<u8>,
)
    requires
        g.len() == 16,
        m.data_type == TdsDataType::Guid,
        !ctx.is_fixed_length,
    ensures
        value_bytes(Value::Uuid(g), ctx) matches Ok(b) && column_value(
            m,
            before + b + after,
            before.len() as int,
        ) == Ok::<_, ErrorKind>((Value::Uuid(g), (before.len() + b.len()) as int)),
{
    let b = value_bytes(Value::Uuid(g), ctx)->Ok_0;
    let d = before + b + after;
    let p = before.len() as int;
    assert(d[p] == b[0]);
    assert(d.subrange(p + 1, p + 17) =~= guid_order(g));
    law_guid_order_involution(g);
}

/// The parts of a magnitude are read back.
pub proof fn lemma_parts_at(d: Seq<u8>, p: int, parts: Seq<i32>)
    requires
        0 <= p,
        p + 4 * parts.len() <= d.len(),
        d.subrange(p, p + 4 * parts.len()) == parts_bytes(parts, parts.len()),
    ensures
        int_parts_at(d, p, parts.len()) == parts,
{
    let n = parts.len();
    let s = d.subrange(p, p + 4 * n);
    lemma_pow256();
    assert forall|i: int| 0 <= i < n implies signed(#[trigger] le_nat(d, p + 4 * i, 4), 4)
        == parts[i] by {
        lemma_part_at(parts, n, i as nat);
        assert(d.subrange(p + 4 * i, p + 4 * i + 4) =~= s.subrange(4 * i, 4 * i + 4));
        lemma_int_at(d, p + 4 * i, parts[i] as int, 4);
    }
    assert(int_parts_at(d, p, n) =~= parts);
}

/// The bytes of one part among those of all.
proof fn lemma_part_at(parts: Seq<i32>, n: nat, i: nat)
    requires
        i < n,
        i < parts.len(),
    ensures
        parts_bytes(parts, n).len() == 4 * n,
        parts_bytes(parts, n).subrange(4 * i as int, 4 * i as int + 4) == int_bytes(
            parts[i as int] as int,
            4,
        ),
    decreases n,
{
    lemma_parts_bytes_len(parts, n);
    lemma_parts_bytes_len(parts, (n - 1) as nat);
    let b = parts_bytes(parts, n);
    if i == n - 1 {
        assert(b.subrange(4 * i as int, 4 * i as int + 4) =~= int_bytes(parts[i as int] as int, 4));
    } else {
        lemma_part_at(parts, (n - 1) as nat, i);
        assert(b.subrange(4 * i as int, 4 * i as int + 4) =~= parts_bytes(
            parts,
            (n - 1) as nat,
        ).subrange(4 * i as int, 4 * i as int + 4));
    }
}

/// A decimal number behind its sign is read back.
proof fn lemma_decimal_at(d: Seq<u8>, p: int, v: DecimalView, w: nat)
    requires
        0 <= p,
        decimal_width(v.precision) == Some(w),
        v.int_parts.len() == w / 4,
        p + 1 + w <= d.len(),
        d.subrange(p, p + 1 + w) == seq![
            if v.is_positive {
                1u8
            } else {
                0u8
            },
        ] + parts_bytes(v.int_parts, w / 4),
    ensures
        get_decimal(d, p, (1 + w) as u8, v.precision, v.scale) == Ok::<_, ErrorKind>(
            (Some(v), (p + 1 + w) as int),
        ),
{
    let s = d.subrange(p, p + 1 + w);
    lemma_parts_bytes_len(v.int_parts, w / 4);
    assert(d[p] == s[0]);
    assert(d.subrange(p + 1, p + 1 + w) =~= s.subrange(1, 1 + w as int));
    assert(s.subrange(1, 1 + w as int) =~= parts_bytes(v.int_parts, w / 4));
    lemma_parts_at(d, p + 1, v.int_parts);
}

/// Whether a decimal number fits the bytes that its precision gives it.
pub open spec fn decimal_keeps(v: DecimalView) -> bool {
    decimal_width(v.precision) matches Some(w) && magnitude(v.int_parts) < pow32(w / 4)
}

/// A decimal number with as many parts as its precision asks for.
pub open spec fn kept_decimal(v: DecimalView) -> DecimalView {
    match decimal_width(v.precision) {
        Some(w) => DecimalView { int_parts: parts_of(magnitude(v.int_parts), w / 4), ..v },
        None => v,
    }
}

/// Magnitudes that are the same number are written alike.
pub proof fn lemma_same_parts_bytes(a: Seq<i32>, b: Seq<i32>, n: nat)
    requires
        same_magnitude(a, b),
    ensures
        parts_bytes(a, n) == parts_bytes(b, n),
    decreases n,
{
    if n > 0 {
        lemma_same_parts_bytes(a, b, (n - 1) as nat);
        assert(part_or_zero(a, n - 1) == part_or_zero(b, n - 1));
    }
}

/// A decimal number with as many parts as its precision asks for is the same number, is written alike,
/// and is itself where it has them already.
proof fn lemma_kept_decimal(v: DecimalView)
    requires
        decimal_keeps(v),
    ensures
        kept_decimal(v).int_parts.len() == decimal_width(v.precision)->Some_0 / 4,
        decimal_keeps(kept_decimal(v)),
        kept_decimal(v).equal(v),
        v.int_parts.len() == decimal_width(v.precision)->Some_0 / 4 ==> kept_decimal(v) == v,
        forall|n: nat| #[trigger]
            parts_bytes(kept_decimal(v).int_parts, n) == parts_bytes(v.int_parts, n),
{
    let k = decimal_width(v.precision)->Some_0 / 4;
    let kept = kept_decimal(v).int_parts;
    law_parts_make_number(magnitude(v.int_parts), k);
    law_same_magnitude_same_number(kept, v.int_parts);
    assert forall|n: nat| #[trigger] parts_bytes(kept, n) == parts_bytes(v.int_parts, n) by {
        lemma_same_parts_bytes(kept, v.int_parts, n);
    }
    if v.int_parts.len() == k {
        assert forall|i: int| 0 <= i < k implies kept[i] == v.int_parts[i] by {
            assert(part_or_zero(kept, i) == part_or_zero(v.int_parts, i));
        }
        assert(kept =~= v.int_parts);
    }
}

/// A decimal number of no more digits than its precision says fits the bytes that it is given.
pub proof fn law_digits_are_kept(v: DecimalView)
    requires
        1 <= v.precision <= 38,
        magnitude(v.int_parts) < pow(10, v.precision as nat),
    ensures
        decimal_keeps(v),
{
    lemma_digits_fit(magnitude(v.int_parts), v.precision);
}

/// What is read from a text fits the bytes that it is given.
pub proof fn law_parsed_decimals_are_kept(
    minus: bool,
    parsed: (bool, nat, int),
    precision: u8,
    scale: u8,
)
    ensures
        decimal_from_parsed(minus, parsed, precision, scale) matches Ok(d) ==> decimal_keeps(d),
{
    law_from_parsed_digits(minus, parsed, precision, scale);
    if decimal_from_parsed(minus, parsed, precision, scale) is Ok {
        law_digits_are_kept(decimal_from_parsed(minus, parsed, precision, scale)->Ok_0);
    }
}

/// A decimal number that is written for a column of its precision and scale is read back from it as an
/// equal one, and as itself where it has as many parts as the precision asks for.
pub proof fn law_decimal_round_trip(
    v: DecimalView,
    numeric: bool,
    ctx: TdsTypeContext,
    m: &ColumnMetadata,
    before: Seq<u8>,
    after: Seq<u8>,
)
    requires
        decimal_keeps(v),
        m.data_type == (if numeric {
            TdsDataType::NumericN
        } else {
            TdsDataType::DecimalN
        }),
        m.type_info.type_info_variant matches TypeInfoVariant::VarLenPrecisionScale(_, _, p, s)
            && p == v.precision && s == v.scale,
        ctx.precision == Some(v.precision),
        !ctx.is_fixed_length,
    ensures
        ({
            let value = decimal_or_numeric(v, numeric);
            value_bytes(value, ctx) matches Ok(b) && column_value(
                m,
                before + b + after,
                before.len() as int,
            ) == Ok::<_, ErrorKind>(
                (decimal_or_numeric(kept_decimal(v), numeric), (before.len() + b.len()) as int),
            )
        }),
        kept_decimal(v).equal(v),
        v.int_parts.len() == decimal_width(v.precision)->Some_0 / 4 ==> kept_decimal(v) == v,
{
    lemma_kept_decimal(v);
    assert(decimal_bytes(v, ctx) == decimal_bytes(kept_decimal(v), ctx));
    lemma_exact_decimal(kept_decimal(v), numeric, ctx, m, before, after);
}

/// A decimal number, as a value of one of the two types.
pub open spec fn decimal_or_numeric(v: DecimalView, numeric: bool) -> Value {
    if numeric {
        Value::Numeric(v)
    } else {
        Value::Decimal(v)
    }
}

/// A decimal number that has as many parts as its precision asks for is read back.
proof fn lemma_exact_decimal(
    v: DecimalView,
    numeric: bool,
    ctx: TdsTypeContext,
    m: &ColumnMetadata,
    before: Seq<u8>,
    after: Seq<u8>,
)
    requires
        decimal_width(v.precision) matches Some(w) && v.int_parts.len() == w / 4,
        m.data_type == (if numeric {
            TdsDataType::NumericN
        } else {
            TdsDataType::DecimalN
        }),
        m.type_info.type_info_variant matches TypeInfoVariant::VarLenPrecisionScale(_, _, p, s)
            && p == v.precision && s == v.scale,
        ctx.precision == Some(v.precision),
        !ctx.is_fixed_length,
    ensures
        decimal_bytes(v, ctx) matches Ok(b) && column_value(
            m,
            before + b + after,
            before.len() as int,
        ) == Ok::<_, ErrorKind>(
            (decimal_or_numeric(v, numeric), (before.len() + b.len()) as int),
        ),
{
    let w = decimal_width(v.precision)->Some_0;
    let b = decimal_bytes(v, ctx)->Ok_0;
    let d = before + b + after;
    let p = before.len() as int;
    lemma_parts_bytes_len(v.int_parts, w / 4);
    assert(d[p] == b[0]);
    assert(d.subrange(p + 1, p + 2 + w) =~= b.subrange(1, 2 + w as int));
    assert(b.subrange(1, 2 + w as int) =~= seq![
        if v.is_positive {
            1u8
        } else {
            0u8
        },
    ] + parts_bytes(v.int_parts, w / 4));
    lemma_decimal_at(d, p + 1, v, w);
}

/// Data that is written in one chunk is read back, where there is some and it fits a chunk.
pub proof fn law_chunk_round_trip(data: Seq<u8>, before: Seq<u8>, after: Seq<u8>)
    requires
        0 < data.len() <= MAX_CHUNK_SIZE,
    ensures
        get_plp(before + chunked(data) + after, before.len() as int) == Ok::<_, ErrorKind>(
            (Some(data), (before.len() + chunked(data).len()) as int),
        ),
{
    lemma_pow256();
    let b = chunked(data);
    let d = before + b + after;
    let p = before.len() as int;
    let n = data.len() as int;
    assert(d.subrange(p, p + 8) =~= le_bytes(PLP_UNKNOWN_LEN as nat, 8));
    lemma_le_at(d, p, PLP_UNKNOWN_LEN as nat, 8);
    assert(d.subrange(p + 8, p + 12) =~= le_bytes(data.len() % 0x1_0000_0000, 4));
    lemma_le_at(d, p + 8, data.len() % 0x1_0000_0000, 4);
    assert(d.subrange(p + 12, p + 12 + n) =~= data);
    assert(d.subrange(p + 12 + n, p + 16 + n) =~= le_bytes(0, 4));
    lemma_le_at(d, p + 12 + n, 0, 4);
    reveal_with_fuel(get_chunks, 2);
    assert(Seq::<u8>::empty() + data =~= data);
}

/// Empty data that is written in one chunk is read back as empty data. The chunk itself ends it, and the
/// end of the chunks that stands behind it is left unread.
pub proof fn law_empty_chunk_round_trip(before: Seq<u8>, after: Seq<u8>)
    ensures
        ({
            let b = chunked(Seq::empty());
            &&& b.len() == 16
            &&& get_plp(before + b + after, before.len() as int) == Ok::<_, ErrorKind>(
                (Some(Seq::<u8>::empty()), before.len() as int + 12),
            )
        }),
{
    lemma_pow256();
    let b = chunked(Seq::empty());
    let d = before + b + after;
    let p = before.len() as int;
    assert(d.subrange(p, p + 8) =~= le_bytes(PLP_UNKNOWN_LEN as nat, 8));
    lemma_le_at(d, p, PLP_UNKNOWN_LEN as nat, 8);
    assert(d.subrange(p + 8, p + 12) =~= le_bytes(0, 4));
    lemma_le_at(d, p + 8, 0, 4);
}

/// Data that is written behind two bytes of length is read back, where the length fits.
pub proof fn law_short_round_trip(data: Seq<u8>, before: Seq<u8>, after: Seq<u8>)
    requires
        data.len() < 0x1_0000,
    ensures
        get_short(before + short(data) + after, before.len() as int) == Ok::<_, ErrorKind>(
            (data, (before.len() + short(data).len()) as int),
        ),
        data.len() < 0xFFFF ==> get_short_or_null(
            before + short(data) + after,
            before.len() as int,
        ) == Ok::<_, ErrorKind>((Some(data), (before.len() + short(data).len()) as int)),
{
    lemma_pow256();
    let d = before + short(data) + after;
    let p = before.len() as int;
    assert(d.subrange(p, p + 2) =~= le_bytes(data.len() % 0x1_0000, 2));
    lemma_le_at(d, p, data.len() % 0x1_0000, 2);
    assert(d.subrange(p + 2, p + 2 + data.len()) =~= data);
}

/// Long data is read back, where it is not too long.
pub proof fn law_long_round_trip(data: Seq<u8>, before: Seq<u8>, after: Seq<u8>)
    requires
        data.len() <= MAX_ALLOC_SIZE,
    ensures
        get_long(before + long(data) + after, before.len() as int) == Ok::<_, ErrorKind>(
            (Some(data), (before.len() + long(data).len()) as int),
        ),
{
    lemma_pow256();
    let b = long(data);
    let d = before + b + after;
    let p = before.len() as int;
    assert(d[p] == b[0]);
    assert(d.subrange(p + 25, p + 29) =~= le_bytes(data.len() % 0x1_0000_0000, 4));
    lemma_le_at(d, p + 25, data.len() % 0x1_0000_0000, 4);
    assert(d.subrange(p + 29, p + 29 + data.len()) =~= data);
}

/// Whether binary data or character data of a length is read back from a column as it was written:
/// it is not empty where it comes in a chunk, and its length fits.
pub open spec fn data_fits(n: nat, m: &ColumnMetadata) -> bool {
    if m.is_plp() {
        0 < n <= MAX_CHUNK_SIZE
    } else {
        match m.data_type {
            TdsDataType::Image => 0 < n <= MAX_ALLOC_SIZE,
            TdsDataType::NText | TdsDataType::Text => n <= MAX_ALLOC_SIZE,
            _ => n < 0xFFFF,
        }
    }
}

/// Binary data that is written for a column is read back from it.
pub proof fn law_binary_round_trip(
    data: Seq<u8>,
    ctx: TdsTypeContext,
    m: &ColumnMetadata,
    before: Seq<u8>,
    after: Seq<u8>,
)
    requires
        m.data_type == TdsDataType::BigVarBinary || m.data_type == TdsDataType::Image,
        ctx.tds_type == m.data_type.code(),
        ctx.is_plp == m.is_plp(),
        !ctx.is_fixed_length,
        value_bytes(Value::Bytes(data), ctx) is Ok,
        data_fits(data.len(), m),
    ensures
        value_bytes(Value::Bytes(data), ctx) matches Ok(b) && column_value(
            m,
            before + b + after,
            before.len() as int,
        ) == Ok::<_, ErrorKind>((Value::Bytes(data), (before.len() + b.len()) as int)),
{
    if m.data_type == TdsDataType::Image {
        law_long_round_trip(data, before, after);
    } else if m.is_plp() {
        law_chunk_round_trip(data, before, after);
    } else {
        law_short_round_trip(data, before, after);
    }
}

/// Character data in a column's own encoding that is written for the column is read back from it. Data
/// of the national types with two bytes of length is left out unless it is empty: what is written there
/// counts its units, and what is read its bytes.
#[verifier::rlimit(40)]
#[verifier::spinoff_prover]
pub proof fn law_string_round_trip(
    data: Seq<u8>,
    ctx: TdsTypeContext,
    m: &ColumnMetadata,
    before: Seq<u8>,
    after: Seq<u8>,
)
    requires
        match m.data_type {
            TdsDataType::NVarChar | TdsDataType::NChar | TdsDataType::NText => true,
            TdsDataType::BigVarChar | TdsDataType::BigChar | TdsDataType::Text => is_raw(
                spec_encoding_type(m),
            ),
            _ => false,
        },
        ctx.tds_type == m.data_type.code(),
        ctx.is_plp == m.is_plp(),
        !ctx.is_fixed_length,
        value_bytes(Value::String(data, spec_encoding_type(m)), ctx) is Ok,
        data_fits(data.len(), m),
        (m.data_type == TdsDataType::NVarChar || m.data_type == TdsDataType::NChar) && !m.is_plp()
            ==> data.len() == 0,
    ensures
        value_bytes(Value::String(data, spec_encoding_type(m)), ctx) matches Ok(b) && column_value(
            m,
            before + b + after,
            before.len() as int,
        ) == Ok::<_, ErrorKind>(
            (Value::String(data, spec_encoding_type(m)), (before.len() + b.len()) as int),
        ),
{
    match m.data_type {
        TdsDataType::NText | TdsDataType::Text => {
            law_long_round_trip(data, before, after);
        },
        _ => {
            if m.is_plp() {
                law_chunk_round_trip(data, before, after);
            } else {
                law_short_round_trip(data, before, after);
            }
        },
    }
}

/// An XML document is read back with its byte order mark, which it gets where it has none.
pub proof fn law_xml_round_trip(
    x: Seq<u8>,
    ctx: TdsTypeContext,
    m: &ColumnMetadata,
    before: Seq<u8>,
    after: Seq<u8>,
)
    requires
        m.data_type == TdsDataType::Xml,
        marked(x).len() <= MAX_CHUNK_SIZE,
    ensures
        value_bytes(Value::Xml(x), ctx) matches Ok(b) && column_value(
            m,
            before + b + after,
            before.len() as int,
        ) == Ok::<_, ErrorKind>((Value::Xml(marked(x)), (before.len() + b.len()) as int)),
        marked(marked(x)) == marked(x),
{
    law_chunk_round_trip(marked(x), before, after);
}

/// A JSON document is read back as it was written.
pub proof fn law_json_round_trip(
    x: Seq<u8>,
    ctx: TdsTypeContext,
    m: &ColumnMetadata,
    before: Seq<u8>,
    after: Seq<u8>,
)
    requires
        m.data_type == TdsDataType::Json,
        valid_utf8(x),
        0 < x.len() <= MAX_CHUNK_SIZE,
    ensures
        value_bytes(Value::Json(x), ctx) matches Ok(b) && column_value(
            m,
            before + b + after,
            before.len() as int,
        ) == Ok::<_, ErrorKind>((Value::Json(x), (before.len() + b.len()) as int)),
{
    law_chunk_round_trip(x, before, after);
}

/// Whether a missing value is told apart from others in a column's type.
pub open spec fn tells_null(m: &ColumnMetadata) -> bool {
    match m.data_type {
        TdsDataType::IntN
        | TdsDataType::FltN
        | TdsDataType::BitN
        | TdsDataType::MoneyN
        | TdsDataType::DateTimeN
        | TdsDataType::Guid
        | TdsDataType::DateN
        | TdsDataType::TimeN
        | TdsDataType::DateTime2N
        | TdsDataType::DateTimeOffsetN
        | TdsDataType::NVarChar
        | TdsDataType::NChar
        | TdsDataType::BigVarChar
        | TdsDataType::BigChar
        | TdsDataType::NText
        | TdsDataType::Text
        | TdsDataType::Image
        | TdsDataType::Xml
        | TdsDataType::Json
        | TdsDataType::Udt
        | TdsDataType::BigVarBinary
        | TdsDataType::Vector => true,
        TdsDataType::DecimalN
        | TdsDataType::NumericN => m.type_info.type_info_variant is VarLenPrecisionScale,
        _ => false,
    }
}

/// A missing value that is written for a column is read back as one.
pub proof fn law_null_round_trip(
    ctx: TdsTypeContext,
    m: &ColumnMetadata,
    before: Seq<u8>,
    after: Seq<u8>,
)
    requires
        tells_null(m),
        ctx.tds_type == m.data_type.code(),
        ctx.is_plp == m.is_plp(),
    ensures
        null_bytes(ctx) matches Ok(b) && column_value(m, before + b + after, before.len() as int)
            == Ok::<_, ErrorKind>((Value::Null, (before.len() + b.len()) as int)),
{
    lemma_pow256();
    let b = null_bytes(ctx)->Ok_0;
    let d = before + b + after;
    let p = before.len() as int;
    assert(d[p] == b[0]);
    assert(d.subrange(p, p + b.len()) =~= b);
    if b.len() == 8 {
        lemma_le_at(d, p, PLP_NULL as nat, 8);
    }
    if b.len() == 2 {
        lemma_le_at(d, p, VARNULL as nat, 2);
    }
}

/// The elements of a vector, as bytes, are four for each.
proof fn lemma_elements_bytes(v: Seq<u32>, i: nat)
    ensures
        elements_bytes(v).len() == 4 * v.len(),
        i < v.len() ==> elements_bytes(v).subrange(4 * i as int, 4 * i as int + 4) == le_bytes(
            v[i as int] as nat,
            4,
        ),
    decreases v.len(),
{
    if v.len() > 0 {
        lemma_elements_bytes(v.drop_last(), i);
        let b = elements_bytes(v);
        if i == v.len() - 1 {
            assert(b.subrange(4 * i as int, 4 * i as int + 4) =~= le_bytes(v[i as int] as nat, 4));
        } else if i < v.len() {
            assert(b.subrange(4 * i as int, 4 * i as int + 4) =~= elements_bytes(v.drop_last()).subrange(
                4 * i as int,
                4 * i as int + 4,
            ));
        }
    }
}

/// The elements of a vector are read back.
proof fn lemma_elements_at(raw: Seq<u8>, v: Seq<u32>)
    requires
        raw == elements_bytes(v),
    ensures
        vector_elements(raw) == v,
        raw.len() == 4 * v.len(),
{
    lemma_elements_bytes(v, 0);
    lemma_pow256();
    assert forall|i: int| 0 <= i < v.len() implies #[trigger] le_nat(raw, 4 * i, 4) == v[i] by {
        lemma_elements_bytes(v, i as nat);
        lemma_le_at(raw, 4 * i, v[i] as nat, 4);
    }
    assert(vector_elements(raw) =~= v);
}

/// A vector that is written for a column of its dimensions is read back from it.
pub proof fn law_vector_round_trip(
    v: Seq<u32>,
    ctx: TdsTypeContext,
    m: &ColumnMetadata,
    before: Seq<u8>,
    after: Seq<u8>,
)
    requires
        valid_dimensions(v.len()),
        m.data_type == TdsDataType::Vector,
        m.type_info.type_info_variant matches TypeInfoVariant::VarLenScale(_, base) && base
            == VECTOR_BASE_TYPE_FLOAT32,
        m.type_info.length == 8 + 4 * v.len(),
    ensures
        value_bytes(Value::Vector(v), ctx) matches Ok(b) && column_value(
            m,
            before + b + after,
            before.len() as int,
        ) == Ok::<_, ErrorKind>((Value::Vector(v), (before.len() + b.len()) as int)),
{
    lemma_vector_read(v, m, before, after);
}

/// A vector is read back.
#[verifier::rlimit(40)]
#[verifier::spinoff_prover]
proof fn lemma_vector_read(v: Seq<u32>, m: &ColumnMetadata, before: Seq<u8>, after: Seq<u8>)
    requires
        valid_dimensions(v.len()),
        m.type_info.type_info_variant matches TypeInfoVariant::VarLenScale(_, base) && base
            == VECTOR_BASE_TYPE_FLOAT32,
        m.type_info.length == 8 + 4 * v.len(),
    ensures
        vector_at(m, before + vector_bytes(v) + after, before.len() as int) == Ok::<_, ErrorKind>(
            (Value::Vector(v), (before.len() + vector_bytes(v).len()) as int),
        ),
{
    lemma_pow256();
    let n = v.len();
    let b = vector_bytes(v);
    let d = before + b + after;
    let p = before.len() as int;
    lemma_elements_bytes(v, 0);
    assert(d.subrange(p, p + 2) =~= le_bytes((8 + 4 * n) % 0x1_0000, 2));
    lemma_le_at(d, p, (8 + 4 * n) % 0x1_0000, 2);
    let header = d.subrange(p + 2, p + 10);
    assert(header =~= b.subrange(2, 10));
    assert(header.subrange(2, 4) =~= le_bytes(n % 0x1_0000, 2));
    lemma_le_at(header, 2, n % 0x1_0000, 2);
    let raw = d.subrange(p + 10, p + 10 + 4 * n);
    assert(raw =~= elements_bytes(v));
    lemma_elements_at(raw, v);
}

/// Whether a value is read back from a variant. Documents and vectors cannot be written into one.
pub open spec fn variant_keeps(v: Value) -> bool {
    match v {
        Value::Xml(_) | Value::Json(_) | Value::Vector(_) => false,
        Value::Decimal(d) | Value::Numeric(d) => decimal_keeps(d),
        Value::Uuid(g) => g.len() == 16,
        Value::Bytes(b) => b.len() <= MAX_VARIANT_DATA_SIZE,
        Value::String(b, e) => wide_data(b, e).len() <= MAX_VARIANT_DATA_SIZE && wide_data(
            b,
            e,
        ).len() % 2 == 0,
        Value::Null => true,
        _ => is_exact(v),
    }
}

/// What a value is read back as from a variant: itself, but a decimal number has as many parts as its
/// precision asks for, and character data is UTF-16.
pub open spec fn variant_value(v: Value) -> Value {
    match v {
        Value::Decimal(d) => Value::Decimal(kept_decimal(d)),
        Value::Numeric(d) => Value::Numeric(kept_decimal(d)),
        Value::String(b, e) => Value::String(wide_data(b, e), EncodingType::Utf16),
        _ => v,
    }
}

/// Whether a value is read back from a variant as it is.
spec fn variant_keeps_exactly(v: Value) -> bool {
    match v {
        Value::Null | Value::Xml(_) | Value::Json(_) | Value::Vector(_) => false,
        Value::Decimal(d) | Value::Numeric(d) => decimal_width(d.precision) matches Some(w)
            && d.int_parts.len() == w / 4,
        Value::Uuid(g) => g.len() == 16,
        Value::Bytes(b) => b.len() <= MAX_VARIANT_DATA_SIZE,
        Value::String(b, e) => b.len() <= MAX_VARIANT_DATA_SIZE && b.len() % 2 == 0 && e is Utf16,
        _ => is_exact(v),
    }
}

/// The frame of a variant is read.
proof fn lemma_variant_frame(
    t: TdsDataType,
    k: u8,
    info: Seq<u8>,
    data: Seq<u8>,
    before: Seq<u8>,
    after: Seq<u8>,
)
    requires
        info.len() == k,
        data.len() <= MAX_VARIANT_DATA_SIZE,
    ensures
        ({
            let b = le_bytes(2 + k as nat + data.len(), 4) + seq![t.code(), k] + info + data;
            let d = before + b + after;
            let s = before.len() as int + 6;
            &&& variant_at(d, before.len() as int) == variant_data(t, k, data.len() as u32, d, s)
            &&& s + info.len() + data.len() <= d.len()
            &&& d.subrange(s, s + info.len()) == info
            &&& d.subrange(s + info.len(), s + info.len() + data.len()) == data
        }),
{
    lemma_pow256();
    law_type_code_round_trip(t);
    let total = 2 + k as nat + data.len();
    let b = le_bytes(total, 4) + seq![t.code(), k] + info + data;
    let d = before + b + after;
    let p = before.len() as int;
    assert(d.subrange(p, p + 4) =~= le_bytes(total, 4));
    lemma_le_at(d, p, total, 4);
    assert(d[p + 4] == t.code());
    assert(d[p + 5] == k);
    assert(d.subrange(p + 6, p + 6 + info.len()) =~= info);
    assert(d.subrange(p + 6 + info.len(), p + 6 + info.len() + data.len()) =~= data);
}

/// A value that is written into a variant is read back from it, a decimal number as an equal one, and
/// character data as the UTF-16 that was written.
pub proof fn law_variant_round_trip(
    v: Value,
    ctx: TdsTypeContext,
    before: Seq<u8>,
    after: Seq<u8>,
)
    requires
        variant_keeps(v),
    ensures
        ({
            let (b, e) = variant_bytes(v, ctx);
            &&& e is None
            &&& variant_at(before + b + after, before.len() as int) == Ok::<_, ErrorKind>(
                (variant_value(v), (before.len() + b.len()) as int),
            )
        }),
        v matches Value::Decimal(d) ==> kept_decimal(d).equal(d),
        v matches Value::Numeric(d) ==> kept_decimal(d).equal(d),
        v matches Value::String(b, e) ==> (e is Utf16 ==> variant_value(v) == v),
        v matches Value::String(b, e) ==> (e is Utf8 ==> wide_data(b, e) == units_bytes(
            utf16_units(text_of(b, e)),
        )),
{
    if v is Null {
        lemma_missing_variant(ctx, before, after);
    } else {
        lemma_variant_alike(v, ctx);
        lemma_exact_variant(variant_value(v), ctx, before, after);
    }
}

/// A value and what it is read back as are written alike.
#[verifier::rlimit(40)]
#[verifier::spinoff_prover]
proof fn lemma_variant_alike(v: Value, ctx: TdsTypeContext)
    requires
        variant_keeps(v),
        !(v is Null),
    ensures
        variant_keeps_exactly(variant_value(v)),
        variant_bytes(variant_value(v), ctx) == variant_bytes(v, ctx),
        v matches Value::Decimal(d) ==> kept_decimal(d).equal(d),
        v matches Value::Numeric(d) ==> kept_decimal(d).equal(d),
{
    match v {
        Value::Decimal(d) | Value::Numeric(d) => {
            lemma_kept_decimal(d);
        },
        _ => {},
    }
    law_type_code_round_trip(variant_type(v)->Ok_0);
    let t = variant_type(v)->Ok_0;
    let c = variant_context(v, t.code(), ctx)->Ok_0;
    let w = variant_value(v);
    assert(variant_context(w, t.code(), ctx) == variant_context(v, t.code(), ctx));
    assert(type_info_bytes(t.code(), w, ctx) == type_info_bytes(t.code(), v, ctx));
    assert(value_size(w) == value_size(v));
    assert(value_bytes(w, c) == value_bytes(v, c));
}

/// A value that is read back from a variant as it is, is.
#[verifier::rlimit(40)]
#[verifier::spinoff_prover]
proof fn lemma_exact_variant(
    v: Value,
    ctx: TdsTypeContext,
    before: Seq<u8>,
    after: Seq<u8>,
)
    requires
        variant_keeps_exactly(v),
    ensures
        ({
            let (b, e) = variant_bytes(v, ctx);
            &&& e is None
            &&& variant_at(before + b + after, before.len() as int) == Ok::<_, ErrorKind>(
                (v, (before.len() + b.len()) as int),
            )
        }),
{
    let t = variant_type(v)->Ok_0;
    let k = type_info_length(t.code())->Some_0;
    let info = type_info_bytes(t.code(), v, ctx);
    let data = value_bytes(v, variant_context(v, t.code(), ctx)->Ok_0)->Ok_0;
    lemma_variant_data(v, ctx);
    lemma_variant_frame(t, k, info, data, before, after);
    lemma_variant_read(v, t, k, info, data, before + variant_bytes(v, ctx).0 + after, before.len() as int + 6);
}

/// A missing value that is written into a variant is read back from it.
proof fn lemma_missing_variant(ctx: TdsTypeContext, before: Seq<u8>, after: Seq<u8>)
    ensures
        variant_bytes(Value::Null, ctx) == (le_bytes(0, 4), None::<ErrorKind>),
        variant_at(before + le_bytes(0, 4) + after, before.len() as int) == Ok::<_, ErrorKind>(
            (Value::Null, before.len() as int + 4),
        ),
{
    lemma_pow256();
    let d = before + le_bytes(0, 4) + after;
    assert(d.subrange(before.len() as int, before.len() as int + 4) =~= le_bytes(0, 4));
    lemma_le_at(d, before.len() as int, 0, 4);
}

/// The description of a value's type in a variant and the value's own bytes.
pub open spec fn is_variant_of(v: Value, t: TdsDataType, k: u8, info: Seq<u8>, data: Seq<u8>) -> bool {
    match v {
        Value::Date(days) => t == TdsDataType::DateN && k == 0 && data == le_bytes(days as nat, 3),
        Value::Uuid(g) => t == TdsDataType::Guid && k == 0 && data == guid_order(g),
        Value::Time(x) => t == TdsDataType::TimeN && k == 1 && info == seq![x.scale] && (
        spec_time_length(x.scale) matches Some(n) && data == time_bytes(x, n as nat)),
        Value::DateTime2(x) => t == TdsDataType::DateTime2N && k == 1 && info == seq![x.time.scale]
            && (spec_time_length(x.time.scale) matches Some(n) && data == time_bytes(
            x.time,
            n as nat,
        ) + le_bytes(x.days as nat, 3)),
        Value::DateTimeOffset(x) => t == TdsDataType::DateTimeOffsetN && k == 1 && info == seq![
            x.datetime2.time.scale,
        ] && (spec_time_length(x.datetime2.time.scale) matches Some(n) && data == time_bytes(
            x.datetime2.time,
            n as nat,
        ) + le_bytes(x.datetime2.days as nat, 3) + int_bytes(x.offset as int, 2)),
        Value::Decimal(x) => t == TdsDataType::DecimalN && k == 2 && info == seq![
            x.precision,
            x.scale,
        ] && (decimal_width(x.precision) matches Some(w) && data == signed_parts(x, w)),
        Value::Numeric(x) => t == TdsDataType::NumericN && k == 2 && info == seq![
            x.precision,
            x.scale,
        ] && (decimal_width(x.precision) matches Some(w) && data == signed_parts(x, w)),
        Value::Bytes(x) => t == TdsDataType::BigVarBinary && k == 2 && info.len() == 2 && data == x,
        Value::String(x, e) => t == TdsDataType::NVarChar && k == 7 && info.len() == 7 && data == x,
        _ => Ok::<_, ErrorKind>(t) == variant_type(v) && is_number_type(v, t) && k == 0 && data
            == number_bytes(v),
    }
}

/// The sign and the parts of a decimal number.
pub open spec fn signed_parts(x: DecimalView, w: nat) -> Seq<u8> {
    seq![
        if x.is_positive {
            1u8
        } else {
            0u8
        },
    ] + parts_bytes(x.int_parts, w / 4)
}

/// The description and the value of a variant are read back.
#[verifier::rlimit(40)]
#[verifier::spinoff_prover]
proof fn lemma_variant_read(
    v: Value,
    t: TdsDataType,
    k: u8,
    info: Seq<u8>,
    data: Seq<u8>,
    d: Seq<u8>,
    s: int,
)
    requires
        variant_keeps_exactly(v),
        is_variant_of(v, t, k, info, data),
        info.len() == k,
        0 <= s,
        s + info.len() + data.len() <= d.len(),
        d.subrange(s, s + info.len()) == info,
        d.subrange(s + info.len(), s + info.len() + data.len()) == data,
    ensures
        variant_data(t, k, data.len() as u32, d, s) == Ok::<_, ErrorKind>(
            (v, (s + k + data.len()) as int),
        ),
{
    lemma_pow256();
    let q = s + k;
    match v {
        Value::Date(days) => {
            lemma_le_at(d, q, days as nat, 3);
        },
        Value::Uuid(g) => {
            law_guid_order_involution(g);
        },
        Value::Time(x) => {
            assert(d[s] == info[0]);
            lemma_time_at(d, q, x, spec_time_length(x.scale)->Some_0);
        },
        Value::DateTime2(x) => {
            assert(d[s] == info[0]);
            lemma_datetime2_at(d, q, x, spec_time_length(x.time.scale)->Some_0);
        },
        Value::DateTimeOffset(x) => {
            assert(d[s] == info[0]);
            lemma_datetimeoffset_at(d, q, x, spec_time_length(x.datetime2.time.scale)->Some_0);
        },
        Value::Decimal(x) | Value::Numeric(x) => {
            let w = decimal_width(x.precision)->Some_0;
            lemma_parts_bytes_len(x.int_parts, w / 4);
            assert(d[s] == info[0]);
            assert(d[s + 1] == info[1]);
            lemma_decimal_at(d, q, x, w);
        },
        Value::Bytes(_) | Value::String(_, _) => {},
        _ => {
            lemma_number_at(v, d, q);
        },
    }
}

/// How long the parts of a variant are: the description is as long as its length says, and the
/// value as long as its size says.
#[verifier::rlimit(40)]
#[verifier::spinoff_prover]
proof fn lemma_variant_data(v: Value, ctx: TdsTypeContext)
    requires
        variant_keeps_exactly(v),
    ensures
        ({
            let t = variant_type(v)->Ok_0;
            let size = value_size(v)->Ok_0;
            let inner = value_bytes(v, variant_context(v, t.code(), ctx)->Ok_0);
            &&& variant_type(v) is Ok
            &&& value_size(v) is Ok
            &&& size <= MAX_VARIANT_DATA_SIZE
            &&& type_info_length(t.code()) is Some
            &&& type_info_bytes(t.code(), v, ctx).len() == type_info_length(t.code())->Some_0
            &&& inner is Ok
            &&& inner->Ok_0.len() == size
            &&& variant_bytes(v, ctx) == (
                le_bytes(2 + type_info_length(t.code())->Some_0 as nat + size, 4) + seq![
                    t.code(),
                    type_info_length(t.code())->Some_0,
                ] + type_info_bytes(t.code(), v, ctx) + inner->Ok_0,
                None::<ErrorKind>,
            )
            &&& is_variant_of(
                v,
                t,
                type_info_length(t.code())->Some_0,
                type_info_bytes(t.code(), v, ctx),
                inner->Ok_0,
            )
        }),
{
    law_type_code_round_trip(variant_type(v)->Ok_0);
    match v {
        Value::Decimal(d) | Value::Numeric(d) => {
            lemma_parts_bytes_len(d.int_parts, decimal_width(d.precision)->Some_0 / 4);
        },
        Value::Bytes(b) => {
            assert(b + Seq::new(0, |i: int| 0u8) =~= b);
        },
        Value::String(b, _) => {
            assert(Seq::new(0, |i: int| 0x20u16) =~= Seq::<u16>::empty());
            assert(b + Seq::<u8>::empty() =~= b);
        },
        _ => {},
    }
}

/// Spaces in UTF-16 take two bytes each.
proof fn lemma_wide_spaces_len(n: nat)
    ensures
        wide_spaces(n).len() == 2 * n,
{
    lemma_units_bytes_len(Seq::new(n, |i: int| 0x20u16));
}

/// The first four bytes of a variant that could be written are the number of bytes that follow.
#[verifier::rlimit(60)]
#[verifier::spinoff_prover]
pub proof fn law_variant_states_length(v: Value, ctx: TdsTypeContext)
    requires
        variant_bytes(v, ctx).1 is None,
        v matches Value::Uuid(g) ==> g.len() == 16,
    ensures
        variant_bytes(v, ctx).0.len() >= 4,
        le_nat(variant_bytes(v, ctx).0, 0, 4) == variant_bytes(v, ctx).0.len() - 4,
{
    let b = variant_bytes(v, ctx).0;
    lemma_pow256();
    if v is Null {
        assert(b.subrange(0, 4) =~= le_bytes(0, 4));
        lemma_le_at(b, 0, 0, 4);
    } else {
        let t = variant_type(v)->Ok_0;
        law_type_code_round_trip(t);
        let size = value_size(v)->Ok_0;
        let k = type_info_length(t.code())->Some_0;
        let data = value_bytes(v, variant_context(v, t.code(), ctx)->Ok_0)->Ok_0;
        assert(data.len() == size && type_info_bytes(t.code(), v, ctx).len() == k) by {
            lemma_variant_size(v, ctx);
        }
        assert(b.subrange(0, 4) =~= le_bytes(2 + k as nat + size, 4));
        lemma_le_at(b, 0, 2 + k as nat + size, 4);
    }
}

/// The description and the value of a variant that could be written are as long as was said.
#[verifier::rlimit(60)]
#[verifier::spinoff_prover]
proof fn lemma_variant_size(v: Value, ctx: TdsTypeContext)
    requires
        variant_bytes(v, ctx).1 is None,
        !(v is Null),
        v matches Value::Uuid(g) ==> g.len() == 16,
    ensures
        ({
            let t = variant_type(v)->Ok_0;
            let inner = value_bytes(v, variant_context(v, t.code(), ctx)->Ok_0);
            &&& type_info_bytes(t.code(), v, ctx).len() == type_info_length(t.code())->Some_0
            &&& inner is Ok
            &&& inner->Ok_0.len() == value_size(v)->Ok_0
        }),
{
    law_type_code_round_trip(variant_type(v)->Ok_0);
    match v {
        Value::Decimal(d) | Value::Numeric(d) => {
            lemma_parts_bytes_len(d.int_parts, decimal_width(d.precision)->Some_0 / 4);
        },
        Value::String(b, e) => {
            lemma_units_bytes_len(utf16_units(text_of(b, e)));
            lemma_wide_spaces_len(0);
        },
        _ => {},
    }
}

} // verus!

//! What the bytes of a value say, in plain numbers: reading a column gives the number, the time, the text
//! or the data that its bytes stand for.

use crate::bytes::{
    be_bytes, be_nat, le_bytes, le_nat, lemma_be_bytes_len, lemma_le_bytes_len, lemma_le_nat_bound,
    lemma_pow256, pow256, signed, unsigned,
};
use crate::datatypes::column_values::{SqlTime, Value};
use crate::datatypes::decimal::{law_part_value, magnitude, DecimalView};
use crate::datatypes::metadata::ColumnMetadata;
use crate::datatypes::sql_string::{spec_encoding_type, EncodingType};
use crate::datatypes::sqldatatypes::{law_utf8_flag, SqlCollation, TdsDataType, TypeInfoVariant};
use crate::datatypes::sql_vector::vector_elements;
use crate::datatypes::sync_decoder::sync_column;
use crate::datatypes::wire::{
    collation_of, column_value, get_chunks, get_plp, get_time, int_parts_at, ticks_per_unit,
};
use crate::error::ErrorKind;
use vstd::arithmetic::div_mod::lemma_mod_breakdown;
use vstd::arithmetic::power::{lemma_pow_positive, pow};
use vstd::prelude::*;

verus! {

/// The number that bytes are, where the first counts ones and each further one 256 times what the one
/// before it counts.
pub open spec fn number(b: Seq<u8>) -> int
    decreases b.len(),
{
    if b.len() == 0 {
        0
    } else {
        number(b.drop_last()) + b.last() * pow(256, (b.len() - 1) as nat)
    }
}

/// So many bytes from a position on.
pub open spec fn part(d: Seq<u8>, p: int, n: int) -> Seq<u8> {
    d.subrange(p, p + n)
}

/// The powers of 256 are those of the bytes.
pub proof fn lemma_pow(n: nat)
    ensures
        pow(256, n) == pow256(n),
    decreases n,
{
    reveal(pow);
    if n > 0 {
        lemma_pow((n - 1) as nat);
    }
}

/// One more byte at the end counts the most.
proof fn lemma_le_top(s: Seq<u8>, at: int, n: nat)
    ensures
        le_nat(s, at, n + 1) == le_nat(s, at, n) + s[at + n] * pow256(n),
    decreases n,
{
    if n == 0 {
        reveal_with_fuel(le_nat, 3);
        assert(pow256(0) == 1);
        assert(s[at] * 1 == s[at]);
    } else {
        lemma_le_top(s, at + 1, (n - 1) as nat);
        let x = s[at + n] as int;
        let y = pow256((n - 1) as nat) as int;
        assert(s[(at + 1) + (n - 1)] == s[at + n]);
        assert(pow256(n) == 256 * y);
        assert(256 * (x * y) == x * (256 * y)) by (nonlinear_arith);
        assert((n + 1) - 1 == n);
        assert(le_nat(s, at, n + 1) == s[at] as nat + 256 * le_nat(s, at + 1, n));
        assert(le_nat(s, at + 1, n) == le_nat(s, at + 1, (n - 1) as nat) + x * y);
        assert(le_nat(s, at, n) == s[at] as nat + 256 * le_nat(s, at + 1, (n - 1) as nat));
    }
}

/// Bytes that are read as a number are that number.
pub proof fn law_number_is_read(d: Seq<u8>, p: int, n: nat)
    requires
        0 <= p,
        p + n <= d.len(),
    ensures
        le_nat(d, p, n) == number(part(d, p, n as int)),
        0 <= number(part(d, p, n as int)) < pow(256, n),
    decreases n,
{
    lemma_pow(n);
    lemma_le_nat_bound(d, p, n);
    if n > 0 {
        law_number_is_read(d, p, (n - 1) as nat);
        lemma_le_top(d, p, (n - 1) as nat);
        lemma_pow((n - 1) as nat);
        assert(part(d, p, n as int).drop_last() =~= part(d, p, n - 1));
        assert(part(d, p, n as int).last() == d[p + n - 1]);
    }
}

/// Bytes that are read as a signed number are congruent to it, and it lies around zero.
pub proof fn law_signed_number_is_read(d: Seq<u8>, p: int, n: nat)
    requires
        0 <= p,
        p + n <= d.len(),
        n > 0,
    ensures
        ({
            let v = signed(le_nat(d, p, n), n);
            let x = number(part(d, p, n as int));
            &&& v == x || v == x - pow(256, n)
            &&& -pow(256, n) <= 2 * v < pow(256, n)
        }),
{
    lemma_pow(n);
    law_number_is_read(d, p, n);
}

/// Whether a number is what bytes are in two's complement.
pub open spec fn stands_for(v: int, b: Seq<u8>) -> bool {
    &&& v == number(b) || v == number(b) - pow(256, b.len())
    &&& -pow(256, b.len()) <= 2 * v < pow(256, b.len())
}

/// What lemmas say of the numbers of up to eight bytes, all at once.
proof fn lemma_numbers(d: Seq<u8>, p: int)
    requires
        0 <= p,
    ensures
        forall|n: nat|
            #![trigger le_nat(d, p, n)]
            1 <= n <= 8 && p + n <= d.len() ==> {
                &&& le_nat(d, p, n) == number(part(d, p, n as int))
                &&& le_nat(d, p, n) < pow256(n)
                &&& stands_for(signed(le_nat(d, p, n), n), part(d, p, n as int))
            },
        pow256(1) == 0x100 && pow256(2) == 0x1_0000 && pow256(3) == 0x100_0000 && pow256(4)
            == 0x1_0000_0000 && pow256(5) == 0x100_0000_0000 && pow256(8) == 0x1_0000_0000_0000_0000,
{
    lemma_pow256();
    assert forall|n: nat|
        #![trigger le_nat(d, p, n)]
        1 <= n <= 8 && p + n <= d.len() implies {
        &&& le_nat(d, p, n) == number(part(d, p, n as int))
        &&& le_nat(d, p, n) < pow256(n)
        &&& stands_for(signed(le_nat(d, p, n), n), part(d, p, n as int))
    } by {
        law_number_is_read(d, p, n);
        law_signed_number_is_read(d, p, n);
        lemma_le_nat_bound(d, p, n);
    }
}

/// Integers: a column of a fixed type holds the number in one, two, four or eight bytes, of which the single
/// one has no sign; a column that may be missing has the count of bytes before them.
pub proof fn law_integer_columns(m: &ColumnMetadata, d: Seq<u8>, p: int)
    requires
        0 <= p < d.len(),
    ensures
        m.data_type == TdsDataType::Int1 ==> column_value(m, d, p) == Ok::<_, ErrorKind>(
            (Value::TinyInt(d[p]), p + 1),
        ),
        m.data_type == TdsDataType::Int2 && p + 2 <= d.len() ==> (column_value(m, d, p) matches Ok(
            (Value::SmallInt(v), q),
        ) && stands_for(v as int, part(d, p, 2)) && q == p + 2),
        m.data_type == TdsDataType::Int4 && p + 4 <= d.len() ==> (column_value(m, d, p) matches Ok(
            (Value::Int(v), q),
        ) && stands_for(v as int, part(d, p, 4)) && q == p + 4),
        m.data_type == TdsDataType::Int8 && p + 8 <= d.len() ==> (column_value(m, d, p) matches Ok(
            (Value::BigInt(v), q),
        ) && stands_for(v as int, part(d, p, 8)) && q == p + 8),
        m.data_type == TdsDataType::IntN && d[p] == 0 ==> column_value(m, d, p) == Ok::<_, ErrorKind>(
            (Value::Null, p + 1),
        ),
        m.data_type == TdsDataType::IntN && d[p] == 1 && p + 2 <= d.len() ==> column_value(m, d, p)
            == Ok::<_, ErrorKind>((Value::TinyInt(d[p + 1]), p + 2)),
        m.data_type == TdsDataType::IntN && d[p] == 2 && p + 3 <= d.len() ==> (column_value(
            m,
            d,
            p,
        ) matches Ok((Value::SmallInt(v), q)) && stands_for(v as int, part(d, p + 1, 2)) && q == p
            + 3),
        m.data_type == TdsDataType::IntN && d[p] == 4 && p + 5 <= d.len() ==> (column_value(
            m,
            d,
            p,
        ) matches Ok((Value::Int(v), q)) && stands_for(v as int, part(d, p + 1, 4)) && q == p + 5),
        m.data_type == TdsDataType::IntN && d[p] == 8 && p + 9 <= d.len() ==> (column_value(
            m,
            d,
            p,
        ) matches Ok((Value::BigInt(v), q)) && stands_for(v as int, part(d, p + 1, 8)) && q == p
            + 9),
        m.data_type == TdsDataType::IntN && d[p] != 0 && d[p] != 1 && d[p] != 2 && d[p] != 4 && d[p]
            != 8 ==> column_value(m, d, p) is Err,
{
    lemma_numbers(d, p);
    lemma_numbers(d, p + 1);
}

/// Bits and floating-point numbers: a bit is set where its byte is 1, and the bits of a floating-point
/// number are the number that its four or eight bytes are.
pub proof fn law_bit_and_float_columns(m: &ColumnMetadata, d: Seq<u8>, p: int)
    requires
        0 <= p < d.len(),
    ensures
        m.data_type == TdsDataType::Bit ==> column_value(m, d, p) == Ok::<_, ErrorKind>(
            (Value::Bit(d[p] == 1), p + 1),
        ),
        m.data_type == TdsDataType::BitN && d[p] == 0 ==> column_value(m, d, p) == Ok::<_, ErrorKind>(
            (Value::Null, p + 1),
        ),
        m.data_type == TdsDataType::BitN && d[p] > 0 && p + 2 <= d.len() ==> column_value(m, d, p)
            == Ok::<_, ErrorKind>((Value::Bit(d[p + 1] == 1), p + 2)),
        m.data_type == TdsDataType::Flt4 && p + 4 <= d.len() ==> (column_value(m, d, p) matches Ok(
            (Value::Real(v), q),
        ) && v == number(part(d, p, 4)) && q == p + 4),
        m.data_type == TdsDataType::Flt8 && p + 8 <= d.len() ==> (column_value(m, d, p) matches Ok(
            (Value::Float(v), q),
        ) && v == number(part(d, p, 8)) && q == p + 8),
        m.data_type == TdsDataType::FltN && d[p] == 0 ==> column_value(m, d, p) == Ok::<_, ErrorKind>(
            (Value::Null, p + 1),
        ),
        m.data_type == TdsDataType::FltN && d[p] == 4 && p + 5 <= d.len() ==> (column_value(
            m,
            d,
            p,
        ) matches Ok((Value::Real(v), q)) && v == number(part(d, p + 1, 4)) && q == p + 5),
        m.data_type == TdsDataType::FltN && d[p] == 8 && p + 9 <= d.len() ==> (column_value(
            m,
            d,
            p,
        ) matches Ok((Value::Float(v), q)) && v == number(part(d, p + 1, 8)) && q == p + 9),
{
    lemma_numbers(d, p);
    lemma_numbers(d, p + 1);
}

/// Amounts of money count ten-thousandths: a small one is a number of four bytes, and a large one a number
/// of eight, whose upper four bytes come first.
pub proof fn law_money_columns(m: &ColumnMetadata, d: Seq<u8>, p: int)
    requires
        0 <= p < d.len(),
    ensures
        m.data_type == TdsDataType::Money4 && p + 4 <= d.len() ==> (column_value(m, d, p) matches Ok(
            (Value::SmallMoney(v), q),
        ) && stands_for(v.int_val as int, part(d, p, 4)) && q == p + 4),
        m.data_type == TdsDataType::Money && p + 8 <= d.len() ==> (column_value(m, d, p) matches Ok(
            (Value::Money(v), q),
        ) && stands_for(v.msb_part as int, part(d, p, 4)) && stands_for(
            v.lsb_part as int,
            part(d, p + 4, 4),
        ) && q == p + 8),
        m.data_type == TdsDataType::MoneyN && d[p] == 0 ==> column_value(m, d, p) == Ok::<
            _,
            ErrorKind,
        >((Value::Null, p + 1)),
        m.data_type == TdsDataType::MoneyN && d[p] == 4 && p + 5 <= d.len() ==> (column_value(
            m,
            d,
            p,
        ) matches Ok((Value::SmallMoney(v), q)) && stands_for(v.int_val as int, part(d, p + 1, 4))
            && q == p + 5),
        m.data_type == TdsDataType::MoneyN && d[p] == 8 && p + 9 <= d.len() ==> (column_value(
            m,
            d,
            p,
        ) matches Ok((Value::Money(v), q)) && stands_for(v.msb_part as int, part(d, p + 1, 4))
            && stands_for(v.lsb_part as int, part(d, p + 5, 4)) && q == p + 9),
        m.data_type == TdsDataType::MoneyN && d[p] != 0 && d[p] != 4 && d[p] != 8 ==> column_value(
            m,
            d,
            p,
        ) is Err,
{
    lemma_numbers(d, p);
    lemma_numbers(d, p + 1);
    lemma_numbers(d, p + 4);
    lemma_numbers(d, p + 5);
}

/// Dates, and dates with a time of the older types: days since their epoch, and ticks of a third of a
/// hundredth of a second, or minutes.
pub proof fn law_date_columns(m: &ColumnMetadata, d: Seq<u8>, p: int)
    requires
        0 <= p < d.len(),
    ensures
        m.data_type == TdsDataType::DateN && d[p] == 0 ==> column_value(m, d, p) == Ok::<
            _,
            ErrorKind,
        >((Value::Null, p + 1)),
        m.data_type == TdsDataType::DateN && d[p] > 0 && p + 4 <= d.len() ==> (column_value(
            m,
            d,
            p,
        ) matches Ok((Value::Date(v), q)) && v == number(part(d, p + 1, 3)) && q == p + 4),
        m.data_type == TdsDataType::DateTime && p + 8 <= d.len() ==> (column_value(
            m,
            d,
            p,
        ) matches Ok((Value::DateTime(v), q)) && stands_for(v.days as int, part(d, p, 4)) && v.time
            == number(part(d, p + 4, 4)) && q == p + 8),
        m.data_type == TdsDataType::DateTim4 && p + 4 <= d.len() ==> (column_value(
            m,
            d,
            p,
        ) matches Ok((Value::SmallDateTime(v), q)) && v.days == number(part(d, p, 2)) && v.time
            == number(part(d, p + 2, 2)) && q == p + 4),
        m.data_type == TdsDataType::DateTimeN && d[p] == 0 ==> column_value(m, d, p) == Ok::<
            _,
            ErrorKind,
        >((Value::Null, p + 1)),
        m.data_type == TdsDataType::DateTimeN && d[p] == 4 && p + 5 <= d.len() ==> (column_value(
            m,
            d,
            p,
        ) matches Ok((Value::SmallDateTime(v), q)) && v.days == number(part(d, p + 1, 2)) && v.time
            == number(part(d, p + 3, 2)) && q == p + 5),
        m.data_type == TdsDataType::DateTimeN && d[p] == 8 && p + 9 <= d.len() ==> (column_value(
            m,
            d,
            p,
        ) matches Ok((Value::DateTime(v), q)) && stands_for(v.days as int, part(d, p + 1, 4))
            && v.time == number(part(d, p + 5, 4)) && q == p + 9),
{
    lemma_numbers(d, p);
    lemma_numbers(d, p + 1);
    lemma_numbers(d, p + 2);
    lemma_numbers(d, p + 3);
    lemma_numbers(d, p + 4);
    lemma_numbers(d, p + 5);
}

/// A second is `10^scale` units of a time's scale, and ten million units of 100 nanoseconds: a unit is
/// as many of the latter as make a second of so many units.
pub proof fn law_units_make_a_second(scale: u8)
    requires
        scale <= 7,
    ensures
        ticks_per_unit(scale) * pow(10, scale as nat) == 10_000_000,
{
    reveal_with_fuel(pow, 9);
}

/// A time that was read, in units of 100 nanoseconds, is to ten million what its units are to the units of
/// a second.
proof fn lemma_time_read(d: Seq<u8>, p: int, len: u8, scale: u8)
    requires
        0 <= p,
        3 <= len <= 5,
        scale <= 7,
        p + len <= d.len(),
    ensures
        get_time(d, p, len, scale) matches Ok((t, q)) && t.scale == scale && t.time_nanoseconds
            * pow(10, scale as nat) == number(part(d, p, len as int)) * 10_000_000 && q == p + len,
{
    lemma_numbers(d, p);
    law_units_make_a_second(scale);
    let u = le_nat(d, p, len as nat);
    let k = ticks_per_unit(scale);
    let w = pow(10, scale as nat);
    assert(u < 0x100_0000_0000) by {
        lemma_le_nat_bound(d, p, len as nat);
    }
    assert(0 <= u * k <= 0x100_0000_0000 * 10_000_000) by (nonlinear_arith)
        requires
            u < 0x100_0000_0000,
            0 <= k <= 10_000_000,
    ;
    assert((u * k) * w == u * (k * w)) by (nonlinear_arith);
}

/// Times of day, alone, with a date, and with a date and an offset in minutes: so many units of the column's
/// scale, of which `10^scale` are a second.
#[verifier::rlimit(40)]
#[verifier::spinoff_prover]
pub proof fn law_time_columns(m: &ColumnMetadata, d: Seq<u8>, p: int, scale: u8)
    requires
        0 <= p < d.len(),
        scale <= 7,
        m.type_info.type_info_variant matches TypeInfoVariant::VarLenScale(_, s) && s == scale,
    ensures
        (m.data_type == TdsDataType::TimeN || m.data_type == TdsDataType::DateTime2N || m.data_type
            == TdsDataType::DateTimeOffsetN) && d[p] == 0 ==> column_value(m, d, p) == Ok::<
            _,
            ErrorKind,
        >((Value::Null, p + 1)),
        forall|n: int|
            m.data_type == TdsDataType::TimeN && d[p] == n && 3 <= n <= 5 && p + 1 + n <= d.len()
                ==> (column_value(m, d, p) matches Ok((Value::Time(t), q)) && is_time(
                t,
                #[trigger] part(d, p + 1, n),
                scale,
            ) && q == p + 1 + n),
        forall|n: int|
            m.data_type == TdsDataType::DateTime2N && d[p] == n + 3 && 3 <= n <= 5 && p + 4 + n
                <= d.len() ==> (column_value(m, d, p) matches Ok((Value::DateTime2(t), q))
                && is_time(t.time, #[trigger] part(d, p + 1, n), scale) && t.days == number(
                part(d, p + 1 + n, 3),
            ) && q == p + 4 + n),
        forall|n: int|
            m.data_type == TdsDataType::DateTimeOffsetN && d[p] == n + 5 && 3 <= n <= 5 && p + 6 + n
                <= d.len() ==> (column_value(m, d, p) matches Ok((Value::DateTimeOffset(t), q))
                && is_time(t.datetime2.time, #[trigger] part(d, p + 1, n), scale)
                && t.datetime2.days == number(part(d, p + 1 + n, 3)) && stands_for(
                t.offset as int,
                part(d, p + 4 + n, 2),
            ) && q == p + 6 + n),
{
    assert forall|n: int| 3 <= n <= 5 && p + 1 + n <= d.len() implies get_time(
        d,
        p + 1,
        n as u8,
        scale,
    ) matches Ok((t, q)) && is_time(t, #[trigger] part(d, p + 1, n), scale) && q == p + 1 + n by {
        lemma_time_read(d, p + 1, n as u8, scale);
    }
    lemma_numbers(d, p + 4);
    lemma_numbers(d, p + 5);
    lemma_numbers(d, p + 6);
    lemma_numbers(d, p + 7);
    lemma_numbers(d, p + 8);
    lemma_numbers(d, p + 9);
    let n = d[p] as int;
    if m.data_type == TdsDataType::TimeN {
        assert(part(d, p + 1, n) == part(d, p + 1, n));
    } else if m.data_type == TdsDataType::DateTime2N {
        assert(part(d, p + 1, n - 3) == part(d, p + 1, n - 3));
    } else {
        assert(part(d, p + 1, n - 5) == part(d, p + 1, n - 5));
    }
}

/// Whether a time of day is what its bytes say in units of a scale: its units of 100 nanoseconds are to
/// ten million what the number is to the units of a second.
pub open spec fn is_time(t: SqlTime, b: Seq<u8>, scale: u8) -> bool {
    t.scale == scale && t.time_nanoseconds * pow(10, scale as nat) == number(b) * 10_000_000
}

/// The number of a first part and that of the rest, which counts from where the first part ends.
proof fn lemma_le_split(s: Seq<u8>, at: int, n: nat)
    ensures
        le_nat(s, at, 4 + n) == le_nat(s, at, 4) + 0x1_0000_0000 * le_nat(s, at + 4, n),
{
    reveal_with_fuel(le_nat, 5);
    assert(le_nat(s, at, 4 + n) == s[at] + 256 * le_nat(s, at + 1, 3 + n));
    assert(le_nat(s, at + 1, 3 + n) == s[at + 1] + 256 * le_nat(s, at + 2, 2 + n));
    assert(le_nat(s, at + 2, 2 + n) == s[at + 2] + 256 * le_nat(s, at + 3, 1 + n));
    assert(le_nat(s, at + 3, 1 + n) == s[at + 3] + 256 * le_nat(s, at + 4, n));
}

/// The parts of a magnitude that was read make the number that its bytes are.
pub proof fn lemma_parts_number(d: Seq<u8>, p: int, k: nat)
    requires
        0 <= p,
        p + 4 * k <= d.len(),
    ensures
        magnitude(int_parts_at(d, p, k)) == number(part(d, p, 4 * (k as int))),
    decreases k,
{
    law_number_is_read(d, p, 4 * k);
    let parts = int_parts_at(d, p, k);
    if k > 0 {
        lemma_numbers(d, p);
        lemma_parts_number(d, p + 4, (k - 1) as nat);
        law_number_is_read(d, p + 4, (4 * k - 4) as nat);
        lemma_le_split(d, p, (4 * k - 4) as nat);
        assert(le_nat(d, p, 4) == le_nat(d, p + 4 * 0, 4));
        law_part_value(parts[0]);
        assert forall|i: int| 0 <= i < k - 1 implies #[trigger] parts.drop_first()[i] == int_parts_at(
            d,
            p + 4,
            (k - 1) as nat,
        )[i] by {
            assert(p + 4 * (i + 1) == p + 4 + 4 * i);
        }
        assert(parts.drop_first() =~= int_parts_at(d, p + 4, (k - 1) as nat));
    }
}

/// Decimal numbers: a byte that is 1 for numbers that are not negative, and then the magnitude in whole
/// parts of four bytes, in units of `10^-scale`. Precision and scale are those of the column.
pub proof fn law_decimal_columns(m: &ColumnMetadata, d: Seq<u8>, p: int, k: int, precision: u8, scale: u8)
    requires
        0 <= p < d.len(),
        m.data_type == TdsDataType::DecimalN || m.data_type == TdsDataType::NumericN,
        m.type_info.type_info_variant matches TypeInfoVariant::VarLenPrecisionScale(_, _, pr, sc)
            && pr == precision && sc == scale,
        0 <= k <= 63,
    ensures
        d[p] == 0 ==> column_value(m, d, p) == Ok::<_, ErrorKind>((Value::Null, p + 1)),
        d[p] == 1 + 4 * k && p + 2 + 4 * k <= d.len() ==> ({
            let read = column_value(m, d, p);
            let v = if m.data_type == TdsDataType::NumericN {
                read->Ok_0.0->Numeric_0
            } else {
                read->Ok_0.0->Decimal_0
            };
            &&& read matches Ok((x, q)) && q == p + 2 + 4 * k && (x is Numeric == (m.data_type
                == TdsDataType::NumericN)) && (x is Decimal == (m.data_type == TdsDataType::DecimalN))
            &&& v.is_positive == (d[p + 1] == 1)
            &&& v.precision == precision
            &&& v.scale == scale
            &&& v.int_parts.len() == k
            &&& magnitude(v.int_parts) == number(part(d, p + 2, 4 * k))
        }),
        d[p] == 1 + 4 * k && p + 2 + 4 * k > d.len() ==> column_value(m, d, p) is Err,
{
    if d[p] == 1 + 4 * k && p + 2 + 4 * k <= d.len() {
        lemma_parts_number(d, p + 2, k as nat);
    }
}

/// A unique identifier: its first three fields of four, two and two bytes come with their last byte first,
/// and the others in order.
pub proof fn law_guid_columns(m: &ColumnMetadata, d: Seq<u8>, p: int)
    requires
        0 <= p < d.len(),
        m.data_type == TdsDataType::Guid,
    ensures
        d[p] == 0 ==> column_value(m, d, p) == Ok::<_, ErrorKind>((Value::Null, p + 1)),
        d[p] != 0 && d[p] != 16 ==> column_value(m, d, p) is Err,
        d[p] == 16 && p + 17 <= d.len() ==> (column_value(m, d, p) matches Ok((Value::Uuid(g), q))
            && is_guid(g, part(d, p + 1, 16)) && q == p + 17),
{
}

/// Whether a unique identifier is what its bytes on the wire say.
pub open spec fn is_guid(g: Seq<u8>, b: Seq<u8>) -> bool {
    &&& g.len() == 16
    &&& forall|i: int| 0 <= i < 4 ==> #[trigger] g[i] == b[3 - i]
    &&& forall|i: int| 4 <= i < 6 ==> #[trigger] g[i] == b[9 - i]
    &&& forall|i: int| 6 <= i < 8 ==> #[trigger] g[i] == b[13 - i]
    &&& forall|i: int| 8 <= i < 16 ==> #[trigger] g[i] == b[i]
}

/// Whether a type holds text, and its values come behind two bytes of length.
pub open spec fn is_short_text(m: &ColumnMetadata) -> bool {
    match m.data_type {
        TdsDataType::NChar | TdsDataType::BigChar | TdsDataType::Char | TdsDataType::VarChar => true,
        TdsDataType::NVarChar | TdsDataType::BigVarChar => m.type_info.length != 65535,
        _ => false,
    }
}

/// Text and binary data of limited length: two bytes of length, of which the largest stands for a missing
/// value, and then the data.
pub proof fn law_short_columns(m: &ColumnMetadata, d: Seq<u8>, p: int)
    requires
        0 <= p,
        is_short_text(m) || m.data_type == TdsDataType::BigBinary || (m.data_type
            == TdsDataType::BigVarBinary && m.type_info.length != 65535),
    ensures
        p + 2 > d.len() ==> column_value(m, d, p) is Err,
        p + 2 <= d.len() && number(part(d, p, 2)) == 0xFFFF ==> column_value(m, d, p) == Ok::<
            _,
            ErrorKind,
        >((Value::Null, p + 2)),
        p + 2 <= d.len() && number(part(d, p, 2)) != 0xFFFF ==> ({
            let n = number(part(d, p, 2));
            if p + 2 + n > d.len() {
                column_value(m, d, p) is Err
            } else if is_short_text(m) {
                column_value(m, d, p) matches Ok((Value::String(b, e), q)) && b == part(d, p + 2, n)
                    && e == spec_encoding_type(m) && q == p + 2 + n
            } else {
                column_value(m, d, p) == Ok::<_, ErrorKind>(
                    (Value::Bytes(part(d, p + 2, n)), p + 2 + n),
                )
            }
        }),
{
    lemma_numbers(d, p);
}

/// Text of the national types is UTF-16. Other text is in the encoding of the column's collation: UTF-8
/// where bit 26 of its first word is set, and else its code page; without a collation it is not known.
pub proof fn law_text_encoding(m: &ColumnMetadata, c: Option<SqlCollation>)
    requires
        (m.type_info.type_info_variant matches TypeInfoVariant::VarLenString(_, _, x) && x == c) || (
        m.type_info.type_info_variant matches TypeInfoVariant::PartialLen(_, y) && y == c),
    ensures
        m.data_type == TdsDataType::NChar || m.data_type == TdsDataType::NVarChar || m.data_type
            == TdsDataType::NText ==> spec_encoding_type(m) == EncodingType::Utf16,
        !(m.data_type == TdsDataType::NChar || m.data_type == TdsDataType::NVarChar || m.data_type
            == TdsDataType::NText) ==> match c {
            None => spec_encoding_type(m) == EncodingType::DelayedSet,
            Some(k) => spec_encoding_type(m) == (if (k.info / 0x400_0000) % 2 == 1 {
                EncodingType::Utf8
            } else {
                EncodingType::LcidBased(k)
            }),
        },
{
    if c is Some {
        law_utf8_flag(c->Some_0);
    }
}

/// Legacy large objects: a byte that is 0 for a missing one, and else says how many bytes of a pointer
/// follow it; behind the pointer eight bytes of a time stamp, four of a length, and the data. More than
/// 100 MiB is refused, and an empty image counts as missing.
pub proof fn law_long_columns(m: &ColumnMetadata, d: Seq<u8>, p: int)
    requires
        0 <= p < d.len(),
        m.data_type == TdsDataType::Text || m.data_type == TdsDataType::NText || m.data_type
            == TdsDataType::Image,
    ensures
        d[p] == 0 ==> column_value(m, d, p) == Ok::<_, ErrorKind>((Value::Null, p + 1)),
        d[p] != 0 && p + d[p] + 13 > d.len() ==> column_value(m, d, p) is Err,
        d[p] != 0 && p + d[p] + 13 <= d.len() ==> ({
            let at = p + d[p] + 13;
            let n = number(part(d, at - 4, 4));
            if n > 100 * 1024 * 1024 || at + n > d.len() {
                column_value(m, d, p) is Err
            } else if m.data_type != TdsDataType::Image {
                column_value(m, d, p) == Ok::<_, ErrorKind>(
                    (Value::String(part(d, at, n), spec_encoding_type(m)), at + n),
                )
            } else {
                column_value(m, d, p) == Ok::<_, ErrorKind>(
                    (
                        if n == 0 {
                            Value::Null
                        } else {
                            Value::Bytes(part(d, at, n))
                        },
                        at + n,
                    ),
                )
            }
        }),
{
    if d[p] != 0 && p + d[p] + 13 <= d.len() {
        lemma_numbers(d, p + d[p] + 9);
    }
}

/// Whether bytes are chunks, each behind four bytes of its length, and the end of the chunks, which is a
/// length of 0.
pub open spec fn are_chunks(b: Seq<u8>, chunks: Seq<Seq<u8>>) -> bool
    decreases chunks.len(),
{
    if chunks.len() == 0 {
        b.len() == 4 && number(b) == 0
    } else {
        let n = chunks[0].len();
        &&& n > 0
        &&& b.len() >= 4 + n
        &&& number(part(b, 0, 4)) == n
        &&& part(b, 4, n as int) == chunks[0]
        &&& are_chunks(b.skip(4 + n as int), chunks.drop_first())
    }
}

/// How many bytes the chunks hold.
pub open spec fn total(chunks: Seq<Seq<u8>>) -> nat
    decreases chunks.len(),
{
    if chunks.len() == 0 {
        0
    } else {
        chunks[0].len() + total(chunks.drop_first())
    }
}

/// Chunks that are read, behind those that were read before.
proof fn lemma_chunks_read(
    d: Seq<u8>,
    p: int,
    k: int,
    chunks: Seq<Seq<u8>>,
    acc: Seq<u8>,
    count: nat,
    declared: Option<nat>,
)
    requires
        0 <= p,
        0 <= k,
        p + k <= d.len(),
        are_chunks(part(d, p, k), chunks),
        forall|i: int| 0 <= i < chunks.len() ==> (#[trigger] chunks[i]).len() <= 16 * 1024 * 1024,
        count + chunks.len() <= 100_000,
        acc.len() + total(chunks) <= 0x7FFF_FFFF,
        declared matches Some(n) ==> acc.len() + total(chunks) <= n,
    ensures
        get_chunks(d, p, acc, count, declared) == Ok::<_, ErrorKind>((acc + chunks.flatten(), p + k)),
    decreases chunks.len(),
{
    lemma_numbers(d, p);
    let b = part(d, p, k);
    if chunks.len() == 0 {
        assert(b =~= part(d, p, 4));
        assert(acc + chunks.flatten() =~= acc);
    } else {
        let n = chunks[0].len();
        let rest = chunks.drop_first();
        assert(part(b, 0, 4) =~= part(d, p, 4));
        assert(part(b, 4, n as int) =~= part(d, p + 4, n as int));
        assert(b.skip(4 + n as int) =~= part(d, p + 4 + n, k - 4 - n));
        assert forall|i: int| 0 <= i < rest.len() implies (#[trigger] rest[i]).len() <= 16 * 1024
            * 1024 by {
            assert(rest[i] == chunks[i + 1]);
        }
        lemma_chunks_read(d, p + 4 + n, k - 4 - n, rest, acc + chunks[0], count + 1, declared);
        assert((acc + chunks[0]) + rest.flatten() =~= acc + chunks.flatten());
    }
}

/// Data in chunks: eight bytes that are the largest number for a missing value, the one below it where the
/// length is not known, and else the length; and then the chunks, one after the other. Data that stays
/// below its length is filled up with zeros.
pub proof fn law_chunked_data(d: Seq<u8>, p: int, k: int, chunks: Seq<Seq<u8>>)
    requires
        0 <= p,
        0 <= k,
        p + 8 + k <= d.len(),
        are_chunks(part(d, p + 8, k), chunks),
        forall|i: int| 0 <= i < chunks.len() ==> (#[trigger] chunks[i]).len() <= 16 * 1024 * 1024,
        chunks.len() <= 100_000,
        total(chunks) <= 0x7FFF_FFFF,
    ensures
        ({
            let length = number(part(d, p, 8));
            &&& length == 0xFFFF_FFFF_FFFF_FFFF ==> get_plp(d, p) == Ok::<_, ErrorKind>((None::<Seq<u8>>, p + 8))
            &&& length == 0xFFFF_FFFF_FFFF_FFFE ==> get_plp(d, p) == Ok::<_, ErrorKind>(
                (Some(chunks.flatten()), p + 8 + k),
            )
            &&& length == total(chunks) ==> get_plp(d, p) == Ok::<_, ErrorKind>(
                (Some(chunks.flatten()), p + 8 + k),
            )
            &&& total(chunks) <= length <= 0x7FFF_FFFF ==> (get_plp(d, p) matches Ok((Some(b), q))
                && b.len() == length && b.take(total(chunks) as int) == chunks.flatten() && (forall|i: int|
                total(chunks) <= i < length ==> #[trigger] b[i] == 0) && q == p + 8 + k)
        }),
        chunks.flatten().len() == total(chunks),
{
    lemma_numbers(d, p);
    lemma_total(chunks);
    lemma_chunks_read(d, p + 8, k, chunks, Seq::empty(), 0, None);
    assert(Seq::<u8>::empty() + chunks.flatten() =~= chunks.flatten());
    let length = number(part(d, p, 8));
    if total(chunks) <= length <= 0x7FFF_FFFF {
        lemma_chunks_read(d, p + 8, k, chunks, Seq::empty(), 0, Some(length as nat));
        assert(get_plp(d, p) matches Ok((Some(b), q)) && b.len() == length && b.take(
            total(chunks) as int,
        ) =~= chunks.flatten());
    }
    if length == total(chunks) {
        assert(get_plp(d, p)->Ok_0.0->Some_0 =~= chunks.flatten());
    }
}

/// The chunks together are as long as all of them.
proof fn lemma_total(chunks: Seq<Seq<u8>>)
    ensures
        chunks.flatten().len() == total(chunks),
    decreases chunks.len(),
{
    if chunks.len() > 0 {
        lemma_total(chunks.drop_first());
    }
}

/// A chunk of more than 16 MiB, a length of more than 2 GiB less one byte, and a first chunk that is longer
/// than the length are refused.
pub proof fn law_chunks_are_limited(d: Seq<u8>, p: int)
    requires
        0 <= p,
        p + 12 <= d.len(),
    ensures
        0x7FFF_FFFF < number(part(d, p, 8)) < 0xFFFF_FFFF_FFFF_FFFE ==> get_plp(d, p) is Err,
        number(part(d, p, 8)) != 0xFFFF_FFFF_FFFF_FFFF && number(part(d, p + 8, 4)) > 16 * 1024
            * 1024 ==> get_plp(d, p) is Err,
        number(part(d, p, 8)) < 0xFFFF_FFFF_FFFF_FFFE && number(part(d, p + 8, 4)) > number(
            part(d, p, 8),
        ) ==> get_plp(d, p) is Err,
{
    lemma_numbers(d, p);
    lemma_numbers(d, p + 8);
}

/// Columns whose data comes in chunks: of the types without a limit, and of documents.
pub proof fn law_chunked_columns(m: &ColumnMetadata, d: Seq<u8>, p: int)
    ensures
        m.type_info.length == 65535 && (m.data_type == TdsDataType::NVarChar || m.data_type
            == TdsDataType::BigVarChar) ==> column_value(m, d, p) == (match get_plp(d, p) {
            Ok((Some(b), q)) => Ok((Value::String(b, spec_encoding_type(m)), q)),
            Ok((None, q)) => Ok((Value::Null, q)),
            Err(k) => Err(k),
        }),
        m.type_info.length == 65535 && m.data_type == TdsDataType::BigVarBinary || m.data_type
            == TdsDataType::Udt ==> column_value(m, d, p) == (match get_plp(d, p) {
            Ok((Some(b), q)) => Ok((Value::Bytes(b), q)),
            Ok((None, q)) => Ok((Value::Null, q)),
            Err(k) => Err(k),
        }),
        m.data_type == TdsDataType::Xml ==> column_value(m, d, p) == (match get_plp(d, p) {
            Ok((Some(b), q)) => Ok((Value::Xml(b), q)),
            Ok((None, q)) => Ok((Value::Null, q)),
            Err(k) => Err(k),
        }),
        m.data_type == TdsDataType::Json ==> column_value(m, d, p) == (match get_plp(d, p) {
            Ok((Some(b), q)) => Ok((Value::Json(b), q)),
            Ok((None, q)) => Ok((Value::Null, q)),
            Err(k) => Err(k),
        }),
{
}

/// Vectors: two bytes of length, of which the largest stands for a missing value, the bytes `A9 01`, two
/// bytes of the count of elements, a byte that is 0 for elements of four bytes, three bytes that do not
/// count, and the elements.
#[verifier::rlimit(60)]
#[verifier::spinoff_prover]
pub proof fn law_vector_columns(m: &ColumnMetadata, d: Seq<u8>, p: int, n: int)
    requires
        0 <= p,
        m.data_type == TdsDataType::Vector,
        p + 2 <= d.len(),
    ensures
        number(part(d, p, 2)) == 0xFFFF ==> column_value(m, d, p) == Ok::<_, ErrorKind>(
            (Value::Null, p + 2),
        ),
        1 <= n <= 1998 && number(part(d, p, 2)) == 8 + 4 * n && p + 10 + 4 * n <= d.len() && d[p + 2]
            == 0xA9 && d[p + 3] == 0x01 && number(part(d, p + 4, 2)) == n && d[p + 6] == 0
            && m.type_info.length == 8 + 4 * n && (m.type_info.type_info_variant matches TypeInfoVariant::VarLenScale(
            _,
            b,
        ) && b == 0) ==> (column_value(m, d, p) matches Ok((Value::Vector(v), q)) && v.len() == n && (
        forall|i: int| 0 <= i < n ==> #[trigger] v[i] == number(part(d, p + 10 + 4 * i, 4))) && q == p
            + 10 + 4 * n),
        number(part(d, p, 2)) != 0xFFFF && (number(part(d, p, 2)) > 8000 || number(part(d, p, 2)) < 8)
            ==> column_value(m, d, p) is Err,
        number(part(d, p, 2)) != 0xFFFF && p + 10 <= d.len() && (d[p + 2] != 0xA9 || d[p + 3] != 0x01
            || d[p + 6] != 0 || number(part(d, p, 2)) != 8 + 4 * number(part(d, p + 4, 2))
            || number(part(d, p, 2)) != m.type_info.length) ==> column_value(m, d, p) is Err,
{
    lemma_numbers(d, p);
    if p + 10 <= d.len() {
        let header = part(d, p + 2, 8);
        lemma_numbers(d, p + 4);
        lemma_numbers(header, 2);
        assert(part(header, 2, 2) =~= part(d, p + 4, 2));
        if 1 <= n <= 1998 && number(part(d, p, 2)) == 8 + 4 * n && p + 10 + 4 * n <= d.len() {
            let raw = part(d, p + 10, 4 * n);
            assert(raw.len() / 4 == n && raw.len() % 4 == 0);
            assert forall|i: int| 0 <= i < n implies #[trigger] vector_elements(raw)[i] == number(
                part(d, p + 10 + 4 * i, 4),
            ) by {
                lemma_numbers(raw, 4 * i);
                assert(part(raw, 4 * i, 4) =~= part(d, p + 10 + 4 * i, 4));
            }
        }
    }
}

/// What a variant says of itself: four bytes of the length of what follows, the type's code, and how many
/// bytes describe the type. Without a length it is missing; a length that is shorter than what it counts, and
/// a code that is no type's, are refused.
pub proof fn law_variant_header(m: &ColumnMetadata, d: Seq<u8>, p: int)
    requires
        0 <= p,
        m.data_type == TdsDataType::SsVariant,
        p + 6 <= d.len(),
    ensures
        number(part(d, p, 4)) == 0 ==> column_value(m, d, p) == Ok::<_, ErrorKind>(
            (Value::Null, p + 4),
        ),
        0 < number(part(d, p, 4)) < 2 + d[p + 5] ==> column_value(m, d, p) is Err,
        number(part(d, p, 4)) > 0 && d[p + 5] != 0 && d[p + 5] != 1 && d[p + 5] != 2 && d[p + 5] != 7
            ==> column_value(m, d, p) is Err,
{
    lemma_numbers(d, p);
}

/// The code of a type whose values have a length of their own, and that type: such a value stands in a
/// variant as it stands in a column.
pub open spec fn plain_type(code: u8) -> Option<TdsDataType> {
    match code {
        0x30 => Some(TdsDataType::Int1),
        0x32 => Some(TdsDataType::Bit),
        0x34 => Some(TdsDataType::Int2),
        0x38 => Some(TdsDataType::Int4),
        0x3A => Some(TdsDataType::DateTim4),
        0x3B => Some(TdsDataType::Flt4),
        0x3C => Some(TdsDataType::Money),
        0x3D => Some(TdsDataType::DateTime),
        0x3E => Some(TdsDataType::Flt8),
        0x7A => Some(TdsDataType::Money4),
        0x7F => Some(TdsDataType::Int8),
        _ => None,
    }
}

/// A value of a type of fixed length is read from a variant, six bytes behind its start, as it is read from
/// a column of that type.
#[verifier::rlimit(40)]
#[verifier::spinoff_prover]
pub proof fn law_variant_of_plain_type(m: &ColumnMetadata, own: &ColumnMetadata, d: Seq<u8>, p: int)
    requires
        0 <= p,
        p + 6 <= d.len(),
        m.data_type == TdsDataType::SsVariant,
        number(part(d, p, 4)) >= 2,
        d[p + 5] == 0,
        plain_type(d[p + 4]) == Some(own.data_type),
    ensures
        column_value(m, d, p) == column_value(own, d, p + 6),
{
    lemma_numbers(d, p);
}

/// Unique identifiers and dates are read from a variant without a length of their own.
pub proof fn law_variant_of_guid_or_date(m: &ColumnMetadata, d: Seq<u8>, p: int)
    requires
        0 <= p,
        m.data_type == TdsDataType::SsVariant,
        p + 6 <= d.len(),
        d[p + 5] == 0,
    ensures
        d[p + 4] == 0x24 && number(part(d, p, 4)) == 18 && p + 22 <= d.len() ==> (column_value(
            m,
            d,
            p,
        ) matches Ok((Value::Uuid(g), q)) && is_guid(g, part(d, p + 6, 16)) && q == p + 22),
        d[p + 4] == 0x28 && number(part(d, p, 4)) == 5 && p + 9 <= d.len() ==> (column_value(
            m,
            d,
            p,
        ) matches Ok((Value::Date(v), q)) && v == number(part(d, p + 6, 3)) && q == p + 9),
{
    lemma_numbers(d, p);
    lemma_numbers(d, p + 6);
}

/// Times are read from a variant behind one byte of their scale.
#[verifier::rlimit(40)]
#[verifier::spinoff_prover]
pub proof fn law_variant_of_time(m: &ColumnMetadata, d: Seq<u8>, p: int, n: int)
    requires
        0 <= p,
        m.data_type == TdsDataType::SsVariant,
        p + 7 <= d.len(),
        d[p + 5] == 1,
        d[p + 6] <= 7,
        3 <= n <= 5,
    ensures
        d[p + 4] == 0x29 && number(part(d, p, 4)) == 3 + n && p + 7 + n <= d.len() ==> (column_value(
            m,
            d,
            p,
        ) matches Ok((Value::Time(t), q)) && is_time(t, part(d, p + 7, n), d[p + 6]) && q == p + 7
            + n),
        d[p + 4] == 0x2A && number(part(d, p, 4)) == 6 + n && p + 10 + n <= d.len() ==> (column_value(
            m,
            d,
            p,
        ) matches Ok((Value::DateTime2(t), q)) && is_time(t.time, part(d, p + 7, n), d[p + 6])
            && t.days == number(part(d, p + 7 + n, 3)) && q == p + 10 + n),
        d[p + 4] == 0x2B && number(part(d, p, 4)) == 8 + n && p + 12 + n <= d.len() ==> (column_value(
            m,
            d,
            p,
        ) matches Ok((Value::DateTimeOffset(t), q)) && is_time(
            t.datetime2.time,
            part(d, p + 7, n),
            d[p + 6],
        ) && t.datetime2.days == number(part(d, p + 7 + n, 3)) && stands_for(
            t.offset as int,
            part(d, p + 10 + n, 2),
        ) && q == p + 12 + n),
{
    lemma_numbers(d, p);
    if p + 7 + n <= d.len() {
        lemma_time_read(d, p + 7, n as u8, d[p + 6]);
        lemma_numbers(d, p + 7 + n);
        lemma_numbers(d, p + 10 + n);
    }
}

/// Decimal numbers are read from a variant behind a byte of their precision and one of their scale, and
/// binary data behind two bytes that do not count.
pub proof fn law_variant_of_decimal_or_binary(m: &ColumnMetadata, d: Seq<u8>, p: int, n: int)
    requires
        0 <= p,
        m.data_type == TdsDataType::SsVariant,
        p + 8 <= d.len(),
        d[p + 5] == 2,
        0 <= n,
        number(part(d, p, 4)) == 4 + n,
        p + 8 + n <= d.len(),
    ensures
        d[p + 4] == 0xA5 || d[p + 4] == 0xAD ==> (if n <= 100 * 1024 * 1024 {
            column_value(m, d, p) == Ok::<_, ErrorKind>((Value::Bytes(part(d, p + 8, n)), p + 8 + n))
        } else {
            column_value(m, d, p) is Err
        }),
        d[p + 4] == 0x6A && (n == 17 || n == 13 || n == 9 || n == 5) ==> (column_value(
            m,
            d,
            p,
        ) matches Ok((Value::Decimal(v), q)) && is_decimal(v, d, p + 6, n - 1) && q == p + 8 + n),
        d[p + 4] == 0x6C && (n == 17 || n == 13 || n == 9 || n == 5) ==> (column_value(
            m,
            d,
            p,
        ) matches Ok((Value::Numeric(v), q)) && is_decimal(v, d, p + 6, n - 1) && q == p + 8 + n),
{
    lemma_numbers(d, p);
    if n == 17 || n == 13 || n == 9 || n == 5 {
        lemma_parts_number(d, p + 9, ((n - 1) / 4) as nat);
    }
}

/// Whether a decimal number is what bytes say: its precision, its scale, whether it is not negative, and
/// `n` bytes of its magnitude.
pub open spec fn is_decimal(v: DecimalView, d: Seq<u8>, p: int, n: int) -> bool {
    &&& v.precision == d[p]
    &&& v.scale == d[p + 1]
    &&& v.is_positive == (d[p + 2] == 1)
    &&& 4 * v.int_parts.len() == n
    &&& magnitude(v.int_parts) == number(part(d, p + 3, n))
}

/// Text is read from a variant behind five bytes of a collation and two that do not count; its encoding is
/// UTF-16 for the national types, and else that of the collation.
pub proof fn law_variant_of_text(m: &ColumnMetadata, d: Seq<u8>, p: int, n: int)
    requires
        0 <= p,
        m.data_type == TdsDataType::SsVariant,
        d[p + 5] == 7,
        0 <= n <= 100 * 1024 * 1024,
        p + 13 + n <= d.len(),
        number(part(d, p, 4)) == 9 + n,
        d[p + 4] == 0xE7 || d[p + 4] == 0xEF || d[p + 4] == 0xA7 || d[p + 4] == 0xAF,
    ensures
        column_value(m, d, p) matches Ok((Value::String(b, e), q)) && b == part(d, p + 13, n) && q == p
            + 13 + n && (if d[p + 4] == 0xE7 || d[p + 4] == 0xEF {
            e == EncodingType::Utf16
        } else {
            let info = number(part(d, p + 6, 4));
            if (info / 0x400_0000) % 2 == 1 {
                e == EncodingType::Utf8
            } else {
                e matches EncodingType::LcidBased(c) && c.info == info && c.sort_id == d[p + 10]
            }
        }),
{
    lemma_numbers(d, p);
    lemma_numbers(d, p + 6);
    let c = part(d, p + 6, 5);
    lemma_numbers(c, 0);
    assert(part(c, 0, 4) =~= part(d, p + 6, 4));
    law_utf8_flag(collation_of(c));
}

/// A value that a column of a common type holds whole is read at once from a buffer, as it is read
/// otherwise: the buffer decoder leaves nothing to others but data in chunks, legacy large objects, variants,
/// documents, vectors, and times whose length is none of a time.
pub proof fn law_sync_is_complete(m: &ColumnMetadata, d: Seq<u8>, p: int)
    requires
        0 <= p < d.len(),
        match m.data_type {
            TdsDataType::Int1 | TdsDataType::Int2 | TdsDataType::Int4 | TdsDataType::Int8
            | TdsDataType::IntN | TdsDataType::Flt4 | TdsDataType::Flt8 | TdsDataType::FltN
            | TdsDataType::Bit | TdsDataType::BitN | TdsDataType::Money4 | TdsDataType::Money
            | TdsDataType::MoneyN | TdsDataType::BigBinary | TdsDataType::DateTime
            | TdsDataType::DateTim4 | TdsDataType::DateTimeN | TdsDataType::DateN
            | TdsDataType::Guid | TdsDataType::DecimalN | TdsDataType::NumericN | TdsDataType::NChar
            | TdsDataType::BigChar => true,
            TdsDataType::NVarChar | TdsDataType::BigVarChar | TdsDataType::BigVarBinary => m.type_info.length
                != 65535,
            TdsDataType::TimeN => d[p] == 0 || 3 <= d[p] <= 5,
            TdsDataType::DateTime2N => d[p] == 0 || 6 <= d[p] <= 8,
            TdsDataType::DateTimeOffsetN => d[p] == 0 || 8 <= d[p] <= 10,
            _ => false,
        },
    ensures
        column_value(m, d, p) matches Ok(x) ==> sync_column(m, d, p) == Some(x),
{
    reveal(sync_column);
}

/// Bytes with the upper ones first are the number that they are in the other order.
pub proof fn law_big_endian_number_is_read(d: Seq<u8>, p: int, n: nat)
    requires
        0 <= p,
        p + n <= d.len(),
    ensures
        be_nat(d, p, n) == number(part(d, p, n as int).reverse()),
    decreases n,
{
    if n > 0 {
        let b = part(d, p, n as int);
        law_big_endian_number_is_read(d, p, (n - 1) as nat);
        let r = b.reverse();
        let rest = part(d, p, n - 1).reverse();
        assert(r =~= seq![b.last()] + rest);
        lemma_number_first(b.last(), rest);
    }
}

/// A byte before others counts ones, and the others count 256 times what they did.
proof fn lemma_number_first(x: u8, b: Seq<u8>)
    ensures
        number(seq![x] + b) == x + 256 * number(b),
    decreases b.len(),
{
    reveal(pow);
    let s = seq![x] + b;
    if b.len() == 0 {
        assert(s.drop_last() =~= Seq::<u8>::empty());
        assert(number(Seq::empty()) == 0);
        assert(pow(256, 0) == 1);
    } else {
        lemma_number_first(x, b.drop_last());
        assert(s.drop_last() =~= seq![x] + b.drop_last());
        let y = b.last() as int;
        let w = pow(256, (b.len() - 1) as nat);
        assert(pow(256, b.len()) == 256 * w);
        assert(y * (256 * w) == 256 * (y * w)) by (nonlinear_arith);
    }
}

/// The bytes that a number is written in are the number, as far as they hold it: the first counts ones.
pub proof fn law_number_is_written(v: nat, n: nat)
    ensures
        le_bytes(v, n).len() == n,
        number(le_bytes(v, n)) == v as int % pow(256, n),
        be_bytes(v, n) == le_bytes(v, n).reverse(),
    decreases n,
{
    reveal(pow);
    lemma_le_bytes_len(v, n);
    lemma_be_bytes_len(v, n);
    if n > 0 {
        let rest = le_bytes(v / 256, (n - 1) as nat);
        law_number_is_written(v / 256, (n - 1) as nat);
        lemma_number_first((v % 256) as u8, rest);
        let w = pow(256, (n - 1) as nat);
        lemma_pow_positive(256, (n - 1) as nat);
        assert(pow(256, n) == 256 * w);
        lemma_mod_breakdown(v as int, 256, w);
        assert(le_bytes(v, n).reverse() =~= rest.reverse() + seq![(v % 256) as u8]);
    } else {
        assert(le_bytes(v, 0) =~= Seq::<u8>::empty());
        assert(pow(256, 0) == 1);
        assert(v as int % 1 == 0);
        assert(be_bytes(v, 0) =~= le_bytes(v, 0).reverse());
    }
}

/// A signed number is written as the number that its bytes are in two's complement.
pub proof fn law_signed_number_is_written(v: int, n: nat)
    requires
        -pow(256, n) <= 2 * v < pow(256, n),
        n > 0,
    ensures
        stands_for(v, le_bytes(unsigned(v, n), n)),
{
    lemma_pow(n);
    law_number_is_written(unsigned(v, n), n);
    let u = unsigned(v, n) as int;
    assert(u % pow(256, n) == u) by {
        vstd::arithmetic::div_mod::lemma_small_mod(u as nat, pow(256, n) as nat);
    }
}

} // verus!

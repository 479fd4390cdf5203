//! What is written of a value, in plain numbers: times are cut to their scale, data comes with its length or
//! is filled up, and text is in the encoding of its column.

use crate::bytes::{le_bytes, lemma_le_bytes_len, lemma_pow256, pow256, unsigned};
use crate::datatypes::column_values::{SqlTime, Value};
use crate::datatypes::decimal::{
    law_parts_make_number, law_same_magnitude_same_number, lemma_pow32_pow256, magnitude, parts_of,
    DecimalView,
};
use crate::datatypes::lcid_encoding::{
    code_page_of, decoded_text, encoded_text, label_of_language, law_languages,
};
use crate::datatypes::meaning::{
    law_number_is_read, law_signed_number_is_read, law_units_make_a_second, lemma_parts_number,
    lemma_pow, number, part, stands_for,
};
use crate::datatypes::round_trip::{
    lemma_int_at, lemma_le_at, lemma_parts_at, lemma_same_parts_bytes,
};
use crate::datatypes::sql_string::{text_of, EncodingType};
use crate::datatypes::sqldatatypes::SqlCollation;
use crate::datatypes::tds_value_serializer::{
    chunked, decimal_width, int_bytes, latin1, lemma_parts_bytes_len, long, narrow_bytes, narrowed,
    parts_bytes, serialized, short, time_bytes, type_info_bytes, type_info_length, value_bytes, value_size,
    variant_context, variant_type, wide_data, wide_spaces, written_as, TdsTypeContext, PLP_NULL,
    PLP_UNKNOWN_LEN, VARNULL,
};
use crate::datatypes::wire::ticks_per_unit;
use crate::error::{ErrorKind, TdsResult};
use crate::io::packet_writer::{law_grew_appends, law_units_are_bytes, units_bytes, PacketWriter};
use crate::text::{units_of, utf16_decoded, utf16_units};
use vstd::arithmetic::power::{lemma_pow_adds, lemma_pow_increases, pow};
use vstd::prelude::*;
use vstd::utf8::{decode_utf8, valid_utf8};

verus! {

/// The bytes of a number are the number.
proof fn lemma_written(v: nat, n: nat)
    requires
        n <= 8,
        v < pow256(n),
    ensures
        le_bytes(v, n).len() == n,
        number(le_bytes(v, n)) == v,
{
    let b = le_bytes(v, n);
    lemma_le_bytes_len(v, n);
    assert(part(b, 0, n as int) =~= b);
    lemma_le_at(b, 0, v, n);
    law_number_is_read(b, 0, n);
}

/// How many bytes the units of a time take: as many as hold those of a day.
pub open spec fn units_len(scale: u8) -> int {
    if scale <= 2 {
        3
    } else if scale <= 4 {
        4
    } else {
        5
    }
}

/// Whether dates and times come with their length: not those of a type of fixed length, nor where the
/// context says that their length is fixed.
pub open spec fn has_length(ctx: TdsTypeContext) -> bool {
    &&& !ctx.is_fixed_length
    &&& ctx.tds_type < 0x30 || 0x3F < ctx.tds_type
    &&& ctx.tds_type != 0x7A
    &&& ctx.tds_type != 0x7F
}

/// Whether bytes are a time, cut to whole units of its scale, of which `10^scale` are a second: the units
/// are no more than the time, and one more would be.
pub open spec fn is_cut(b: Seq<u8>, t: SqlTime) -> bool {
    &&& b.len() == units_len(t.scale)
    &&& number(b) * 10_000_000 <= t.time_nanoseconds * pow(10, t.scale as nat)
    &&& t.time_nanoseconds * pow(10, t.scale as nat) < (number(b) + 1) * 10_000_000
}

/// The units of a day of any scale fit the bytes that they are given.
pub proof fn law_units_of_a_day_fit(scale: u8)
    requires
        scale <= 7,
    ensures
        86_400 * pow(10, scale as nat) <= pow(256, units_len(scale) as nat),
        scale == 0 || scale == 3 || scale == 5 ==> 86_400 * pow(10, scale as nat) > pow(
            256,
            (units_len(scale) - 1) as nat,
        ),
{
    reveal_with_fuel(pow, 9);
}

/// The units of a time within a day.
proof fn lemma_cut(t: SqlTime)
    requires
        t.scale <= 7,
        t.time_nanoseconds < 864_000_000_000,
    ensures
        is_cut(time_bytes(t, units_len(t.scale) as nat), t),
{
    let k = ticks_per_unit(t.scale) as int;
    let w = pow(10, t.scale as nat);
    let x = t.time_nanoseconds as int;
    let u = x / k;
    let n = units_len(t.scale) as nat;
    law_units_make_a_second(t.scale);
    law_units_of_a_day_fit(t.scale);
    lemma_pow256();
    assert(w > 0 && k > 0) by {
        reveal_with_fuel(pow, 9);
    }
    assert(u * k <= x && x < (u + 1) * k) by (nonlinear_arith)
        requires
            k > 0,
            u == x / k,
    ;
    assert(u * (k * w) <= x * w && x * w < (u + 1) * (k * w)) by (nonlinear_arith)
        requires
            u * k <= x,
            x < (u + 1) * k,
            w > 0,
    ;
    assert(u < 86_400 * w) by (nonlinear_arith)
        requires
            u * (k * w) <= x * w,
            k * w == 10_000_000,
            x < 864_000_000_000,
            w > 0,
    ;
    assert(0 <= u) by (nonlinear_arith)
        requires
            u == x / k,
            0 <= x,
            k > 0,
    ;
    lemma_pow(n);
    lemma_written(u as nat, n);
}

/// Times of day are cut to whole units of their scale; dates and offsets go behind them. A scale above 7 is
/// refused.
#[verifier::rlimit(40)]
#[verifier::spinoff_prover]
pub proof fn law_times_are_written(v: Value, ctx: TdsTypeContext)
    ensures
        v matches Value::Time(t) ==> (if t.scale > 7 {
            value_bytes(v, ctx) is Err
        } else {
            t.time_nanoseconds < 864_000_000_000 ==> (value_bytes(v, ctx) matches Ok(b) && {
                let k: int = if has_length(ctx) { 1 } else { 0 };
                let n = units_len(t.scale);
                &&& b.len() == k + n
                &&& k == 1 ==> b[0] == n
                &&& is_cut(part(b, k, n), t)
            })
        }),
        v matches Value::DateTime2(t) ==> (if t.time.scale > 7 {
            value_bytes(v, ctx) is Err
        } else {
            t.time.time_nanoseconds < 864_000_000_000 && t.days < 0x100_0000 ==> (value_bytes(
                v,
                ctx,
            ) matches Ok(b) && {
                let k: int = if has_length(ctx) { 1 } else { 0 };
                let n = units_len(t.time.scale);
                &&& b.len() == k + n + 3
                &&& k == 1 ==> b[0] == n + 3
                &&& is_cut(part(b, k, n), t.time)
                &&& number(part(b, k + n, 3)) == t.days
            })
        }),
        v matches Value::DateTimeOffset(t) ==> (if t.datetime2.time.scale > 7 {
            value_bytes(v, ctx) is Err
        } else {
            t.datetime2.time.time_nanoseconds < 864_000_000_000 && t.datetime2.days < 0x100_0000 ==> (
            value_bytes(v, ctx) matches Ok(b) && {
                let k: int = if has_length(ctx) { 1 } else { 0 };
                let n = units_len(t.datetime2.time.scale);
                &&& b.len() == k + n + 5
                &&& k == 1 ==> b[0] == n + 5
                &&& is_cut(part(b, k, n), t.datetime2.time)
                &&& number(part(b, k + n, 3)) == t.datetime2.days
                &&& stands_for(t.offset as int, part(b, k + n + 3, 2))
            })
        }),
        v matches Value::Date(days) ==> (days < 0x100_0000 ==> (value_bytes(v, ctx) matches Ok(b) && {
            let k: int = if has_length(ctx) { 1 } else { 0 };
            &&& b.len() == k + 3
            &&& k == 1 ==> b[0] == 3
            &&& number(part(b, k, 3)) == days
        })),
{
    lemma_pow256();
    let k: int = if has_length(ctx) { 1 } else { 0 };
    match v {
        Value::Time(t) => {
            if t.scale <= 7 && t.time_nanoseconds < 864_000_000_000 {
                lemma_cut(t);
                let n = units_len(t.scale);
                let b = value_bytes(v, ctx)->Ok_0;
                assert(part(b, k, n) =~= time_bytes(t, n as nat));
            }
        },
        Value::DateTime2(t) => {
            if t.time.scale <= 7 && t.time.time_nanoseconds < 864_000_000_000 && t.days < 0x100_0000 {
                lemma_cut(t.time);
                lemma_written(t.days as nat, 3);
                let n = units_len(t.time.scale);
                let b = value_bytes(v, ctx)->Ok_0;
                assert(part(b, k, n) =~= time_bytes(t.time, n as nat));
                assert(part(b, k + n, 3) =~= le_bytes(t.days as nat, 3));
            }
        },
        Value::DateTimeOffset(t) => {
            let time = t.datetime2.time;
            let days = t.datetime2.days;
            if time.scale <= 7 && time.time_nanoseconds < 864_000_000_000 && days < 0x100_0000 {
                lemma_cut(time);
                lemma_written(days as nat, 3);
                lemma_signed_written(t.offset as int, 2);
                let n = units_len(time.scale);
                let b = value_bytes(v, ctx)->Ok_0;
                assert(part(b, k, n) =~= time_bytes(time, n as nat));
                assert(part(b, k + n, 3) =~= le_bytes(days as nat, 3));
                assert(part(b, k + n + 3, 2) =~= int_bytes(t.offset as int, 2));
            }
        },
        Value::Date(days) => {
            if days < 0x100_0000 {
                lemma_written(days as nat, 3);
                let b = value_bytes(v, ctx)->Ok_0;
                assert(part(b, k, 3) =~= le_bytes(days as nat, 3));
            }
        },
        _ => {},
    }
}

/// The bytes of a signed number are the number.
proof fn lemma_signed_written(v: int, n: nat)
    requires
        1 <= n <= 8,
        -pow256(n) <= 2 * v < pow256(n),
    ensures
        int_bytes(v, n).len() == n,
        stands_for(v, int_bytes(v, n)),
{
    let b = int_bytes(v, n);
    lemma_le_bytes_len(unsigned(v, n), n);
    assert(part(b, 0, n as int) =~= b);
    lemma_int_at(b, 0, v, n);
    law_signed_number_is_read(b, 0, n);
}

/// Whether bytes are data in one chunk: an unknown length, the length of the chunk, the data, and the end of
/// the chunks.
#[verifier::opaque]
pub open spec fn is_chunk_of(b: Seq<u8>, data: Seq<u8>) -> bool {
    let n = data.len() as int;
    &&& b.len() == 16 + n
    &&& number(part(b, 0, 8)) == 0xFFFF_FFFF_FFFF_FFFE
    &&& number(part(b, 8, 4)) == n
    &&& part(b, 12, n) == data
    &&& number(part(b, 12 + n, 4)) == 0
}

/// Whether bytes are a legacy large object: a pointer of sixteen bytes behind their count, a time stamp of
/// eight, four bytes of the length, and the data.
#[verifier::opaque]
pub open spec fn is_long_of(b: Seq<u8>, data: Seq<u8>) -> bool {
    &&& b.len() == 29 + data.len()
    &&& b[0] == 16
    &&& forall|i: int| 1 <= i < 25 ==> #[trigger] b[i] == 0xFF
    &&& number(part(b, 25, 4)) == data.len()
    &&& part(b, 29, data.len() as int) == data
}

/// Whether bytes are a count in two bytes, and data behind it.
#[verifier::opaque]
pub open spec fn is_short_of(b: Seq<u8>, count: int, data: Seq<u8>) -> bool {
    &&& b.len() == 2 + data.len()
    &&& number(part(b, 0, 2)) == count
    &&& part(b, 2, data.len() as int) == data
}

/// The three forms in which data is written.
proof fn lemma_forms(data: Seq<u8>)
    requires
        data.len() < 0x1_0000_0000,
    ensures
        is_chunk_of(chunked(data), data),
        is_long_of(long(data), data),
        data.len() < 0x1_0000 ==> is_short_of(short(data), data.len() as int, data),
{
    reveal(is_chunk_of);
    reveal(is_long_of);
    reveal(is_short_of);
    let n = data.len() as int;
    lemma_pow256();
    lemma_written(PLP_UNKNOWN_LEN as nat, 8);
    lemma_written(data.len(), 4);
    lemma_written(0, 4);
    let c = chunked(data);
    assert(part(c, 0, 8) =~= le_bytes(PLP_UNKNOWN_LEN as nat, 8));
    assert(part(c, 8, 4) =~= le_bytes(data.len(), 4));
    assert(part(c, 12, n) =~= data);
    assert(part(c, 12 + n, 4) =~= le_bytes(0, 4));
    let l = long(data);
    assert(part(l, 25, 4) =~= le_bytes(data.len(), 4));
    assert(part(l, 29, n) =~= data);
    if n < 0x1_0000 {
        lemma_written(data.len(), 2);
        let s = short(data);
        assert(part(s, 0, 2) =~= le_bytes(data.len(), 2));
        assert(part(s, 2, n) =~= data);
    }
}

/// Binary data: an image as a legacy large object, data without a limit in a chunk, data of fixed length
/// filled up with zeros, and other data behind its length. Data that is longer than the column is refused,
/// and no other.
pub proof fn law_binary_is_written(data: Seq<u8>, ctx: TdsTypeContext)
    requires
        data.len() < 0x1_0000_0000,
    ensures
        value_bytes(Value::Bytes(data), ctx) is Err == (!ctx.is_plp && ctx.tds_type != 0x22
            && data.len() > ctx.max_size),
        ctx.tds_type == 0x22 ==> (value_bytes(Value::Bytes(data), ctx) matches Ok(b) && is_long_of(
            b,
            data,
        )),
        ctx.tds_type != 0x22 && ctx.is_plp ==> (value_bytes(Value::Bytes(data), ctx) matches Ok(b)
            && is_chunk_of(b, data)),
        ctx.tds_type != 0x22 && !ctx.is_plp && data.len() <= ctx.max_size && ctx.is_fixed_length ==> (
        value_bytes(Value::Bytes(data), ctx) matches Ok(b) && b.len() == ctx.max_size && b.take(
            data.len() as int,
        ) == data && forall|i: int| data.len() <= i < b.len() ==> #[trigger] b[i] == 0),
        ctx.tds_type != 0x22 && !ctx.is_plp && data.len() <= ctx.max_size && !ctx.is_fixed_length
            && data.len() < 0x1_0000 ==> (value_bytes(Value::Bytes(data), ctx) matches Ok(b)
            && is_short_of(b, data.len() as int, data)),
{
    lemma_forms(data);
    if ctx.tds_type != 0x22 && !ctx.is_plp && data.len() <= ctx.max_size && ctx.is_fixed_length {
        let b = value_bytes(Value::Bytes(data), ctx)->Ok_0;
        assert(b.take(data.len() as int) =~= data);
    }
}

/// Whether bytes are data of a column of text that is not national, in the form that the column asks for:
/// a legacy large object, a chunk, filled up with spaces, or behind the length.
pub open spec fn is_narrow_of(b: Seq<u8>, data: Seq<u8>, ctx: TdsTypeContext) -> bool {
    if ctx.tds_type == 0x23 {
        is_long_of(b, data)
    } else if ctx.is_plp {
        is_chunk_of(b, data)
    } else if ctx.is_fixed_length {
        &&& b.len() == ctx.max_size
        &&& b.take(data.len() as int) == data
        &&& forall|i: int| data.len() <= i < b.len() ==> #[trigger] b[i] == 0x20
    } else {
        data.len() < 0x1_0000 ==> is_short_of(b, data.len() as int, data)
    }
}

/// Data of a column of text that is not national.
proof fn lemma_narrow(data: Seq<u8>, ctx: TdsTypeContext)
    requires
        data.len() < 0x1_0000_0000,
    ensures
        if !ctx.is_plp && data.len() > ctx.max_size {
            narrow_bytes(data, ctx) is Err
        } else {
            narrow_bytes(data, ctx) matches Ok(b) && is_narrow_of(b, data, ctx)
        },
{
    lemma_forms(data);
    if ctx.is_plp || data.len() <= ctx.max_size {
        let b = narrow_bytes(data, ctx)->Ok_0;
        if ctx.tds_type != 0x23 && !ctx.is_plp && ctx.is_fixed_length {
            assert(b.take(data.len() as int) =~= data);
        }
    }
}

/// Text of a column that is not national is written in the code page of the language and the country of the
/// column's collation.
pub proof fn law_text_is_in_its_code_page(
    data: Seq<u8>,
    encoding: EncodingType,
    collation: SqlCollation,
    ctx: TdsTypeContext,
)
    requires
        encoding == EncodingType::Utf16 || encoding == EncodingType::Utf8,
        ctx.tds_type == 0xA7 || ctx.tds_type == 0xAF || ctx.tds_type == 0x23,
        ctx.collation == Some(collation),
    ensures
        ({
            let language = collation.info % 0x400;
            let country = (collation.info / 0x400) % 0x40;
            let text = text_of(data, encoding);
            let written = value_bytes(Value::String(data, encoding), ctx);
            match label_of_language(language, country) {
                Some(label) => {
                    let b = encoded_text(label, text).0;
                    b.len() < 0x1_0000_0000 ==> (if !ctx.is_plp && b.len() > ctx.max_size {
                        written is Err
                    } else {
                        written matches Ok(x) && is_narrow_of(x, b, ctx)
                    })
                },
                None => text.len() < 0x1_0000_0000 ==> (if !ctx.is_plp && text.len() > ctx.max_size {
                    written is Err
                } else {
                    exists|b: Seq<u8>|
                        #[trigger] is_latin1(b, text) && (written matches Ok(x) && is_narrow_of(x, b, ctx))
                }),
            }
        }),
{
    let text = text_of(data, encoding);
    let b = narrowed(text, ctx.collation);
    lemma_narrowed(text, collation);
    if b.len() < 0x1_0000_0000 {
        lemma_narrow(b, ctx);
    }
    lemma_latin1(text);
}

/// A text in the code page of a collation.
#[verifier::spinoff_prover]
proof fn lemma_narrowed(text: Seq<char>, collation: SqlCollation)
    ensures
        narrowed(text, Some(collation)) == (match label_of_language(
            collation.info % 0x400,
            (collation.info / 0x400) % 0x40,
        ) {
            Some(label) => encoded_text(label, text).0,
            None => latin1(text),
        }),
{
    let info = collation.info;
    assert(info & 0x000F_FFFFu32 == info % 0x10_0000) by (bit_vector);
    lemma_code_page(info % 0x10_0000, info);
}

/// The language and the country of a locale identifier are those of a word whose lower 20 bits it is.
#[verifier::spinoff_prover]
proof fn lemma_code_page(lcid: u32, info: u32)
    requires
        lcid == info % 0x10_0000,
    ensures
        (match code_page_of(lcid) {
            Some(p) => Some(p.spec_label()),
            None => None,
        }) == label_of_language(info % 0x400, (info / 0x400) % 0x40),
{
    law_languages(lcid);
    assert(lcid % 0x400 == info % 0x400);
    assert((lcid / 0x400) % 0x40 == (info / 0x400) % 0x40);
}

/// A text in Latin-1.
proof fn lemma_latin1(text: Seq<char>)
    ensures
        is_latin1(latin1(text), text),
{
    let b = latin1(text);
    assert forall|i: int| 0 <= i < text.len() implies #[trigger] b[i] == (if (text[i] as u32)
        < 0x100 {
        text[i] as u32
    } else {
        0x3F
    }) by {
        let c = text[i];
        if (c as u32) <= 0xFF {
            assert(b[i] == c as u32 as u8);
        } else {
            assert(b[i] == 0x3F);
        }
    }
}

/// Whether bytes are a text in Latin-1: the codes of its characters, and a question mark for those that have
/// none there.
pub open spec fn is_latin1(b: Seq<u8>, text: Seq<char>) -> bool {
    &&& b.len() == text.len()
    &&& forall|i: int|
        0 <= i < text.len() ==> #[trigger] b[i] == (if (text[i] as u32) < 0x100 {
            text[i] as u32
        } else {
            0x3F
        })
}

/// Text of a column that is not national is written in Latin-1 where the column has no collation, and as it
/// is where it is in the column's form already.
pub proof fn law_text_without_code_page(data: Seq<u8>, encoding: EncodingType, ctx: TdsTypeContext)
    requires
        ctx.tds_type == 0xA7 || ctx.tds_type == 0xAF || ctx.tds_type == 0x23,
    ensures
        encoding == EncodingType::DelayedSet || encoding is LcidBased ==> (data.len() < 0x1_0000_0000 ==> (
        if !ctx.is_plp && data.len() > ctx.max_size {
            value_bytes(Value::String(data, encoding), ctx) is Err
        } else {
            value_bytes(Value::String(data, encoding), ctx) matches Ok(x) && is_narrow_of(x, data, ctx)
        })),
        (encoding == EncodingType::Utf16 || encoding == EncodingType::Utf8) && ctx.collation is None ==> ({
            let text = text_of(data, encoding);
            let written = value_bytes(Value::String(data, encoding), ctx);
            text.len() < 0x1_0000_0000 ==> (if !ctx.is_plp && text.len() > ctx.max_size {
                written is Err
            } else {
                exists|b: Seq<u8>|
                    #[trigger] is_latin1(b, text) && (written matches Ok(x) && is_narrow_of(x, b, ctx))
            })
        }),
{
    let text = text_of(data, encoding);
    lemma_latin1(text);
    if data.len() < 0x1_0000_0000 {
        lemma_narrow(data, ctx);
    }
    if text.len() < 0x1_0000_0000 {
        lemma_narrow(latin1(text), ctx);
    }
}

/// Text of the national columns is written in UTF-16, in a chunk where it has no limit, filled up with spaces
/// where its length is fixed, and else behind the count of its units. Text with more units than the column
/// has is refused, and so is data that is no whole number of units.
pub proof fn law_national_text_is_written(data: Seq<u8>, encoding: EncodingType, ctx: TdsTypeContext)
    requires
        ctx.tds_type == 0xE7 || ctx.tds_type == 0xEF,
    ensures
        ({
            let wide = if encoding == EncodingType::Utf8 {
                units_bytes(utf16_units(text_of(data, encoding)))
            } else {
                data
            };
            let written = value_bytes(Value::String(data, encoding), ctx);
            &&& wide.len() % 2 == 1 ==> written is Err
            &&& !ctx.is_plp && wide.len() / 2 > ctx.max_size ==> written is Err
            &&& wide.len() % 2 == 0 && wide.len() < 0x1_0000_0000 && ctx.is_plp ==> (written matches Ok(
                b,
            ) && is_chunk_of(b, wide))
            &&& wide.len() % 2 == 0 && wide.len() / 2 <= ctx.max_size && !ctx.is_plp
                && !ctx.is_fixed_length && wide.len() < 0x2_0000 ==> (written matches Ok(b)
                && is_short_of(b, wide.len() as int / 2, wide))
            &&& wide.len() % 2 == 0 && wide.len() / 2 <= ctx.max_size && !ctx.is_plp
                && ctx.is_fixed_length ==> (written matches Ok(b) && b.len() == 2 * ctx.max_size
                && b.take(wide.len() as int) == wide && forall|i: int|
                wide.len() <= i < b.len() ==> #[trigger] b[i] == (if i % 2 == 0 {
                    0x20u8
                } else {
                    0u8
                }))
        }),
{
    let wide = wide_data(data, encoding);
    if wide.len() < 0x1_0000_0000 {
        lemma_forms(wide);
    }
    lemma_pow256();
    if wide.len() % 2 == 0 && wide.len() / 2 <= ctx.max_size && !ctx.is_plp {
        let b = value_bytes(Value::String(data, encoding), ctx)->Ok_0;
        if !ctx.is_fixed_length {
            if wide.len() < 0x2_0000 {
                lemma_written(wide.len() / 2, 2);
                assert(part(b, 0, 2) =~= le_bytes(wide.len() / 2, 2));
                assert(part(b, 2, wide.len() as int) =~= wide);
                reveal(is_short_of);
            }
        } else {
            let n = (ctx.max_size - wide.len() / 2) as nat;
            let spaces = Seq::new(n, |i: int| 0x20u16);
            law_units_are_bytes(spaces);
            assert(b.take(wide.len() as int) =~= wide);
            assert forall|i: int| wide.len() <= i < b.len() implies #[trigger] b[i] == (if i % 2 == 0 {
                0x20u8
            } else {
                0u8
            }) by {
                let j = i - wide.len();
                assert(b[i] == wide_spaces(n)[j]);
                assert(spaces[j / 2] == 0x20);
            }
        }
    }
}

/// The legacy national type holds UTF-16 as a large object.
pub proof fn law_legacy_text_is_written(data: Seq<u8>, encoding: EncodingType, ctx: TdsTypeContext)
    requires
        ctx.tds_type == 0x63,
        ctx.is_plp,
    ensures
        encoding == EncodingType::Utf16 ==> (if data.len() % 2 == 1 {
            value_bytes(Value::String(data, encoding), ctx) is Err
        } else {
            data.len() < 0x1_0000_0000 ==> (value_bytes(Value::String(data, encoding), ctx) matches Ok(b)
                && is_long_of(b, data))
        }),
        encoding != EncodingType::Utf16 ==> ({
            let wide = units_bytes(utf16_units(text_of(data, encoding)));
            wide.len() < 0x1_0000_0000 ==> (value_bytes(Value::String(data, encoding), ctx) matches Ok(
                b,
            ) && is_long_of(b, wide))
        }),
{
    let wide = units_bytes(utf16_units(text_of(data, encoding)));
    if data.len() < 0x1_0000_0000 {
        lemma_forms(data);
    }
    if wide.len() < 0x1_0000_0000 {
        lemma_forms(wide);
    }
}

/// Documents go out in one chunk: XML behind a byte order mark, which it gets where it has none, and JSON as
/// it is, if it is UTF-8.
pub proof fn law_documents_are_written(b: Seq<u8>, ctx: TdsTypeContext)
    requires
        b.len() < 0xFFFF_FFFE,
    ensures
        value_bytes(Value::Json(b), ctx) is Ok == valid_utf8(b),
        value_bytes(Value::Json(b), ctx) matches Ok(x) ==> is_chunk_of(x, b),
        value_bytes(Value::Xml(b), ctx) matches Ok(x) && (if b.len() >= 2 && b[0] == 0xFF && b[1]
            == 0xFE {
            is_chunk_of(x, b)
        } else {
            is_chunk_of(x, seq![0xFFu8, 0xFEu8] + b)
        }),
{
    lemma_forms(b);
    lemma_forms(seq![0xFFu8, 0xFEu8] + b);
}

/// A missing value: one zero byte for the types whose values have one byte of length and for the legacy
/// large objects, eight bytes of ones for data in chunks, and two for the others. A type of fixed length
/// has no missing values.
pub proof fn law_null_is_written(ctx: TdsTypeContext)
    ensures
        ({
            let t = ctx.tds_type;
            let one = 0x22 <= t <= 0x24 || t == 0x26 || 0x28 <= t <= 0x2B || t == 0x63 || t == 0x68 || t
                == 0x6A || 0x6C <= t <= 0x6F;
            let fixed = 0x30 <= t <= 0x3F || t == 0x7A || t == 0x7F;
            let written = value_bytes(Value::Null, ctx);
            &&& one ==> written == Ok::<_, ErrorKind>(seq![0u8])
            &&& t == 0x32 || (fixed && !ctx.is_plp) ==> written == Err::<Seq<u8>, _>(ErrorKind::Usage)
            &&& !one && t != 0x32 && ctx.is_plp ==> (written matches Ok(b) && b.len() == 8 && number(b)
                == 0xFFFF_FFFF_FFFF_FFFF)
            &&& !one && !fixed && !ctx.is_plp ==> (written matches Ok(b) && b.len() == 2 && number(b)
                == 0xFFFF)
        }),
{
    lemma_pow256();
    lemma_written(PLP_NULL as nat, 8);
    lemma_written(VARNULL as nat, 2);
}

/// How many bytes the magnitude of a decimal number takes: as many parts of four as hold all numbers of so
/// many digits, and no fewer.
pub proof fn law_decimal_width(precision: u8)
    ensures
        1 <= precision <= 38 ==> (decimal_width(precision) matches Some(w) && w % 4 == 0 && pow(
            10,
            precision as nat,
        ) <= pow(256, w) && (w > 4 ==> pow(10, precision as nat) > pow(256, (w - 4) as nat))),
        precision == 0 || precision > 38 ==> decimal_width(precision) is None,
{
    if 1 <= precision <= 38 {
        let n = precision as nat;
        lemma_powers_of_ten();
        lemma_powers_of_256();
        if n <= 9 {
            lemma_pow_increases(10, n, 9);
        } else if n <= 19 {
            lemma_pow_increases(10, 10, n);
            lemma_pow_increases(10, n, 19);
        } else if n <= 28 {
            lemma_pow_increases(10, 20, n);
            lemma_pow_increases(10, n, 28);
        } else {
            lemma_pow_increases(10, 29, n);
            lemma_pow_increases(10, n, 38);
        }
    }
}

/// Some powers of ten.
proof fn lemma_powers_of_ten()
    ensures
        pow(10, 9) == 1_000_000_000,
        pow(10, 10) == 10_000_000_000,
        pow(10, 19) == 10_000_000_000_000_000_000,
        pow(10, 20) == 100_000_000_000_000_000_000,
        pow(10, 28) == 10_000_000_000_000_000_000_000_000_000,
        pow(10, 29) == 100_000_000_000_000_000_000_000_000_000,
        pow(10, 38) == 100_000_000_000_000_000_000_000_000_000_000_000_000,
{
    assert(pow(10, 9) == 1_000_000_000 && pow(10, 10) == 10_000_000_000) by {
        reveal(pow);
        reveal_with_fuel(pow, 11);
    }
    lemma_pow_adds(10, 10, 9);
    lemma_pow_adds(10, 10, 10);
    lemma_pow_adds(10, 19, 9);
    lemma_pow_adds(10, 20, 9);
    lemma_pow_adds(10, 28, 10);
}

/// Some powers of 256.
proof fn lemma_powers_of_256()
    ensures
        pow(256, 4) == 0x1_0000_0000,
        pow(256, 8) == 0x1_0000_0000_0000_0000,
        pow(256, 12) == 0x1_0000_0000_0000_0000_0000_0000,
        pow(256, 16) == 0x1_0000_0000_0000_0000_0000_0000_0000_0000int,
{
    assert(pow(256, 4) == 0x1_0000_0000) by {
        reveal(pow);
        reveal_with_fuel(pow, 5);
    }
    lemma_pow_adds(256, 4, 4);
    lemma_pow_adds(256, 8, 4);
    lemma_pow_adds(256, 12, 4);
}

/// A decimal number: its length unless that is fixed, 1 or 0 for its sign, and its magnitude in the bytes
/// that the precision of the column gives it; that is 38 digits where it says none.
pub proof fn law_decimal_is_written(v: DecimalView, numeric: bool, ctx: TdsTypeContext)
    requires
        ({
            let precision = match ctx.precision {
                Some(p) => p,
                None => 38,
            };
            decimal_width(precision) matches Some(w) && magnitude(v.int_parts) < pow(256, w)
        }),
    ensures
        ({
            let precision = match ctx.precision {
                Some(p) => p,
                None => 38,
            };
            let w = decimal_width(precision)->Some_0 as int;
            let k: int = if ctx.is_fixed_length { 0 } else { 1 };
            let value = if numeric {
                Value::Numeric(v)
            } else {
                Value::Decimal(v)
            };
            value_bytes(value, ctx) matches Ok(b) && {
                &&& b.len() == k + 1 + w
                &&& k == 1 ==> b[0] == 1 + w
                &&& b[k] == (if v.is_positive { 1u8 } else { 0u8 })
                &&& number(part(b, k + 1, w)) == magnitude(v.int_parts)
            }
        }),
{
    let precision = match ctx.precision {
        Some(p) => p,
        None => 38,
    };
    let w = decimal_width(precision)->Some_0;
    let k: int = if ctx.is_fixed_length { 0 } else { 1 };
    let value = if numeric {
        Value::Numeric(v)
    } else {
        Value::Decimal(v)
    };
    let b = value_bytes(value, ctx)->Ok_0;
    let n = w / 4;
    lemma_parts_bytes_len(v.int_parts, n);
    let body = parts_bytes(v.int_parts, n);
    assert(part(b, k + 1, w as int) =~= body);
    lemma_pow(w);
    lemma_kept_parts(v.int_parts, n);
}

/// The bytes of the parts of a magnitude are the number that it is.
proof fn lemma_kept_parts(parts: Seq<i32>, n: nat)
    requires
        magnitude(parts) < pow256(4 * n),
    ensures
        number(parts_bytes(parts, n)) == magnitude(parts),
{
    let kept = parts_of(magnitude(parts), n);
    lemma_pow32_pow256(n);
    law_parts_make_number(magnitude(parts), n);
    law_same_magnitude_same_number(kept, parts);
    lemma_same_parts_bytes(kept, parts, n);
    lemma_parts_bytes_len(kept, n);
    let b = parts_bytes(kept, n);
    assert(b.subrange(0, 4 * n as int) =~= b);
    lemma_parts_at(b, 0, kept);
    lemma_parts_number(b, 0, n);
    assert(part(b, 0, 4 * (n as int)) =~= b);
}

/// The text that data is, by its encoding: UTF-16 units of two bytes, UTF-8 where it is valid, and the code
/// page of the language and the country of a collation; where there is none for them, UTF-8 again.
pub proof fn law_text_is_decoded(data: Seq<u8>, c: SqlCollation)
    ensures
        text_of(data, EncodingType::Utf16) == utf16_decoded(units_of(data)),
        valid_utf8(data) ==> text_of(data, EncodingType::Utf8) == decode_utf8(data) && text_of(
            data,
            EncodingType::DelayedSet,
        ) == decode_utf8(data),
        match label_of_language(c.info % 0x400, (c.info / 0x400) % 0x40) {
            Some(label) => text_of(data, EncodingType::LcidBased(c)) == decoded_text(label, data).0,
            None => valid_utf8(data) ==> text_of(data, EncodingType::LcidBased(c)) == decode_utf8(data),
        },
{
    let info = c.info;
    assert(info & 0x000F_FFFFu32 == info % 0x10_0000) by (bit_vector);
    lemma_code_page(info % 0x10_0000, info);
}

/// The byte that stands for a value's type in a variant, and how many bytes describe the type.
pub open spec fn variant_code(v: Value) -> Option<(u8, u8)> {
    match v {
        Value::TinyInt(_) => Some((0x30, 0)),
        Value::Bit(_) => Some((0x32, 0)),
        Value::SmallInt(_) => Some((0x34, 0)),
        Value::Int(_) => Some((0x38, 0)),
        Value::BigInt(_) => Some((0x7F, 0)),
        Value::Real(_) => Some((0x3B, 0)),
        Value::Float(_) => Some((0x3E, 0)),
        Value::Money(_) => Some((0x3C, 0)),
        Value::SmallMoney(_) => Some((0x7A, 0)),
        Value::DateTime(_) => Some((0x3D, 0)),
        Value::SmallDateTime(_) => Some((0x3A, 0)),
        Value::Date(_) => Some((0x28, 0)),
        Value::Uuid(_) => Some((0x24, 0)),
        Value::Time(_) => Some((0x29, 1)),
        Value::DateTime2(_) => Some((0x2A, 1)),
        Value::DateTimeOffset(_) => Some((0x2B, 1)),
        Value::Decimal(_) => Some((0x6A, 2)),
        Value::Numeric(_) => Some((0x6C, 2)),
        Value::Bytes(_) => Some((0xA5, 2)),
        Value::String(_, _) => Some((0xE7, 7)),
        _ => None,
    }
}

/// A value in a variant is its length in four bytes, the byte of its type, the count of the bytes that
/// describe the type, and these: the scale of a time, the precision and the scale of a decimal number, the
/// limit of binary data, the collation and the limit of text. A missing value is a length of 0. A document
/// and a vector are refused.
#[verifier::rlimit(80)]
#[verifier::spinoff_prover]
pub proof fn law_variant_is_written(v: Value, ctx: TdsTypeContext)
    requires
        ctx.tds_type == 0x62,
    ensures
        v is Null ==> serialized(v, ctx) == (seq![0u8, 0u8, 0u8, 0u8], None::<ErrorKind>),
        v is Xml || v is Json || v is Vector ==> serialized(v, ctx) == (
            Seq::<u8>::empty(),
            Some(ErrorKind::Usage),
        ),
        ({
            let (b, e) = serialized(v, ctx);
            e is None && !(v is Null) ==> (variant_code(v) matches Some((code, count)) && {
                &&& b.len() >= 6 + count
                &&& b[4] == code
                &&& b[5] == count
                &&& b.subrange(6, 6 + count) == (match v {
                    Value::Time(t) => seq![t.scale],
                    Value::DateTime2(t) => seq![t.time.scale],
                    Value::DateTimeOffset(t) => seq![t.datetime2.time.scale],
                    Value::Decimal(d) => seq![d.precision, d.scale],
                    Value::Numeric(d) => seq![d.precision, d.scale],
                    Value::Bytes(data) => le_bytes(data.len(), 2),
                    Value::String(data, encoding) => (match ctx.collation {
                        Some(c) => le_bytes(c.info as nat, 4) + seq![c.sort_id],
                        None => seq![9u8, 4u8, 0u8, 0u8, 52u8],
                    }) + le_bytes(wide_data(data, encoding).len(), 2),
                    _ => Seq::empty(),
                })
            })
        }),
        ({
            let (b, e) = serialized(v, ctx);
            (v matches Value::Bytes(data) && data.len() > 8000) || (v matches Value::String(data, encoding)
                && wide_data(data, encoding).len() > 8000) ==> e == Some(ErrorKind::Usage)
        }),
{
    assert(le_bytes(0, 4) == seq![0u8, 0u8, 0u8, 0u8] && le_bytes(0x409, 4) == seq![9u8, 4u8, 0u8, 0u8]) by {
        reveal_with_fuel(le_bytes, 5);
        assert(le_bytes(0, 4) =~= seq![0u8, 0u8, 0u8, 0u8]);
        assert(le_bytes(0x409, 4) =~= seq![9u8, 4u8, 0u8, 0u8]);
    }
    let (b, e) = serialized(v, ctx);
    if e is None && !(v is Null) {
        lemma_variant_head(v, ctx);
    }
}

/// The head of a variant stands before its value.
#[verifier::rlimit(40)]
#[verifier::spinoff_prover]
proof fn lemma_variant_head(v: Value, ctx: TdsTypeContext)
    requires
        ctx.tds_type == 0x62,
        serialized(v, ctx).1 is None,
        !(v is Null),
    ensures
        ({
            let b = serialized(v, ctx).0;
            variant_code(v) matches Some((code, count)) && {
                let info = type_info_bytes(code, v, ctx);
                &&& info.len() == count
                &&& b.len() >= 6 + count
                &&& b[4] == code
                &&& b[5] == count
                &&& b.subrange(6, 6 + count) == info
            }
        }),
        v matches Value::Bytes(data) ==> data.len() <= 8000,
        v matches Value::String(data, encoding) ==> wide_data(data, encoding).len() <= 8000,
{
    let b = serialized(v, ctx).0;
    let t = variant_type(v)->Ok_0;
    let size = value_size(v)->Ok_0;
    let described = type_info_length(t.code())->Some_0;
    let (code, count) = variant_code(v)->Some_0;
    assert(t.code() == code && described == count);
    let info = type_info_bytes(code, v, ctx);
    let first = le_bytes(2 + described as nat + size, 4);
    lemma_le_bytes_len(2 + described as nat + size, 4);
    match v {
        Value::Bytes(data) => {
            lemma_le_bytes_len(data.len() % 0x1_0000, 2);
        },
        Value::String(data, encoding) => {
            lemma_le_bytes_len(wide_data(data, encoding).len() % 0x1_0000, 2);
            match ctx.collation {
                Some(c) => {
                    lemma_le_bytes_len(c.info as nat, 4);
                },
                None => {
                    lemma_le_bytes_len(0x409, 4);
                },
            }
        },
        _ => {},
    }
    let rest = value_bytes(v, variant_context(v, t.code(), ctx)->Ok_0)->Ok_0;
    assert(b == first + seq![code, count] + info + rest);
    assert(b.subrange(6, 6 + count) =~= info);
}

/// Where the type is no variant, a value is written as it is, and one that is refused leaves nothing.
pub proof fn law_values_are_serialized(v: Value, ctx: TdsTypeContext)
    requires
        ctx.tds_type != 0x62,
    ensures
        value_bytes(v, ctx) matches Ok(b) ==> serialized(v, ctx) == (b, None::<ErrorKind>),
        value_bytes(v, ctx) matches Err(k) ==> serialized(v, ctx) == (Seq::<u8>::empty(), Some(k)),
{
}

/// A value that was written stands behind all that was written before, and a value that is refused is told of
/// by its error.
pub proof fn law_values_are_appended(
    pre: PacketWriter,
    post: PacketWriter,
    v: Value,
    ctx: TdsTypeContext,
    r: TdsResult<()>,
)
    requires
        written_as(pre, post, serialized(v, ctx), r),
    ensures
        post@.written() == pre@.written() + serialized(v, ctx).0,
        r is Ok == serialized(v, ctx).1 is None,
        r matches Err(e) ==> e.kind() == serialized(v, ctx).1->Some_0,
        post.timeout() == pre.timeout(),
{
    law_grew_appends(pre@, serialized(v, ctx).0, post@);
}

} // verus!

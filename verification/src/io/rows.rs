//! A row that is written column after column is read as that row.

use crate::datatypes::column_values::Value;
use crate::datatypes::metadata::ColumnMetadata;
use crate::datatypes::row_writer::{wrote_all, RowWriter};
use crate::datatypes::sync_decoder::{
    bitmap_len, law_bitmap_len, law_null_bit, sync_column, sync_row,
};
use crate::datatypes::wire::column_value;
use crate::error::{Error, ErrorKind, TdsResult};
use crate::io::token_stream::{
    cell_at, next_row, received, row_cells, rows_from, wrote_rows, NextToken,
    TokenParserRegistry,
};
use crate::token::{law_token_code_round_trip, law_token_codes, TokenType};
use vstd::arithmetic::power::pow;
use vstd::prelude::*;
use vstd::seq_lib::lemma_flatten_concat;

verus! {

/// Whether bytes are read from a column as a value, whatever stands before and behind them.
pub open spec fn reads_as(m: &ColumnMetadata, b: Seq<u8>, v: Value) -> bool {
    forall|before: Seq<u8>, after: Seq<u8>|
        #![trigger before + b + after]
        column_value(m, before + b + after, before.len() as int) == Ok::<_, ErrorKind>(
            (v, (before.len() + b.len()) as int),
        )
}

/// Whether bytes are read from a column at once from a buffer as a value, whatever stands before and behind
/// them.
pub open spec fn sync_reads_as(m: &ColumnMetadata, b: Seq<u8>, v: Value) -> bool {
    forall|before: Seq<u8>, after: Seq<u8>|
        #![trigger before + b + after]
        sync_column(m, before + b + after, before.len() as int) == Some(
            (v, (before.len() + b.len()) as int),
        )
}

/// Whether the bit of a column is set in a bitmap: bit `col % 8`, from the lowest on, of byte `col / 8`.
pub open spec fn marks(bitmap: Seq<u8>, col: int) -> bool {
    (bitmap[col / 8] as int / pow(2, (col % 8) as nat)) % 2 == 1
}

/// Whether a bitmap has a byte for every eight columns, and marks exactly the columns that are missing.
pub open spec fn is_bitmap(bitmap: Seq<u8>, values: Seq<Option<Value>>) -> bool {
    &&& 8 * bitmap.len() >= values.len()
    &&& 8 * bitmap.len() < values.len() + 8
    &&& forall|c: int| 0 <= c < values.len() ==> #[trigger] marks(bitmap, c) == (values[c] is None)
}

/// Whether the bytes of the columns of a row are read as their values. Columns that are missing have none.
pub open spec fn are_columns(
    cols: Seq<ColumnMetadata>,
    encoded: Seq<Seq<u8>>,
    values: Seq<Option<Value>>,
) -> bool {
    &&& encoded.len() == cols.len()
    &&& values.len() == cols.len()
    &&& cols.len() <= usize::MAX
    &&& forall|i: int|
        #![trigger cols[i]]
        0 <= i < cols.len() ==> match values[i] {
            Some(v) => reads_as(&cols[i], encoded[i], v),
            None => encoded[i].len() == 0,
        }
}

/// Whether the bytes of the columns of a row are read at once from a buffer as their values.
pub open spec fn are_buffered_columns(
    cols: Seq<ColumnMetadata>,
    encoded: Seq<Seq<u8>>,
    values: Seq<Option<Value>>,
) -> bool {
    &&& encoded.len() == cols.len()
    &&& values.len() == cols.len()
    &&& cols.len() <= usize::MAX
    &&& forall|i: int|
        #![trigger cols[i]]
        0 <= i < cols.len() ==> match values[i] {
            Some(v) => sync_reads_as(&cols[i], encoded[i], v),
            None => encoded[i].len() == 0,
        }
}

/// The cells of a row: every column with its value, in order.
pub open spec fn cells_of(values: Seq<Option<Value>>) -> Seq<(usize, Value)> {
    Seq::new(
        values.len(),
        |i: int|
            (
                i as usize,
                match values[i] {
                    Some(v) => v,
                    None => Value::Null,
                },
            ),
    )
}

/// The first columns of a row are read one after the other.
proof fn lemma_columns_read(
    cols: Seq<ColumnMetadata>,
    encoded: Seq<Seq<u8>>,
    values: Seq<Option<Value>>,
    bitmap: Option<Seq<u8>>,
    before: Seq<u8>,
    after: Seq<u8>,
    n: nat,
)
    requires
        are_columns(cols, encoded, values),
        n <= cols.len(),
        match bitmap {
            Some(b) => is_bitmap(b, values),
            None => forall|i: int| 0 <= i < values.len() ==> #[trigger] values[i] is Some,
        },
    ensures
        ({
            let d = before + encoded.flatten() + after;
            row_cells(cols, n, bitmap, d, before.len() as int) == (
                cells_of(values).take(n as int),
                Ok::<int, ErrorKind>((before.len() + encoded.take(n as int).flatten().len()) as int),
            )
        }),
    decreases n,
{
    let d = before + encoded.flatten() + after;
    let p = before.len() as int;
    if n == 0 {
        assert(cells_of(values).take(0) =~= Seq::empty());
        assert(encoded.take(0).flatten().len() == 0);
    } else {
        let c = n - 1;
        lemma_columns_read(cols, encoded, values, bitmap, before, after, c as nat);
        let front = encoded.take(c).flatten();
        let rest = encoded.skip(n as int).flatten();
        lemma_split(encoded, c);
        assert(cols[c] == cols[c]);
        assert(d =~= (before + front) + encoded[c] + (rest + after));
        assert(cells_of(values).take(n as int) =~= cells_of(values).take(c).push(cells_of(values)[c]));
        if bitmap is Some {
            law_null_bit(bitmap->Some_0, c);
            assert(marks(bitmap->Some_0, c) == (values[c] is None));
        }
        reveal(cell_at);
    }
}

/// A sequence of sequences up to one of them, that one, and the others.
proof fn lemma_split(encoded: Seq<Seq<u8>>, c: int)
    requires
        0 <= c < encoded.len(),
    ensures
        encoded.take(c + 1).flatten() == encoded.take(c).flatten() + encoded[c],
        encoded.flatten() == encoded.take(c).flatten() + encoded[c] + encoded.skip(c + 1).flatten(),
{
    broadcast use Seq::lemma_flatten_push;

    assert(encoded.take(c + 1) =~= encoded.take(c).push(encoded[c]));
    lemma_flatten_concat(encoded.take(c + 1), encoded.skip(c + 1));
    assert(encoded =~= encoded.take(c + 1) + encoded.skip(c + 1));
}

/// A row is the byte `D1` and its columns, one after the other: reading it gives the values of the columns,
/// in order, and ends behind the last.
pub proof fn law_row_is_read(
    cols: Seq<ColumnMetadata>,
    encoded: Seq<Seq<u8>>,
    values: Seq<Option<Value>>,
    before: Seq<u8>,
    after: Seq<u8>,
)
    requires
        are_columns(cols, encoded, values),
        forall|i: int| 0 <= i < values.len() ==> #[trigger] values[i] is Some,
    ensures
        ({
            let d = before + seq![0xD1u8] + encoded.flatten() + after;
            next_row(Some(cols), d, before.len() as int) == Some(
                (cells_of(values), (before.len() + 1 + encoded.flatten().len()) as int),
            )
        }),
{
    let d = before + seq![0xD1u8] + encoded.flatten() + after;
    lemma_columns_read(cols, encoded, values, None, before + seq![0xD1u8], after, cols.len());
    assert(d[before.len() as int] == 0xD1);
    assert(encoded.take(cols.len() as int) =~= encoded);
    assert(cells_of(values).take(cols.len() as int) =~= cells_of(values));
}

/// A compact row is the byte `D2`, a bitmap of its missing columns, and the others, one after the other:
/// reading it gives the values of the columns and nothing for those that are missing, and ends behind the
/// last.
pub proof fn law_compact_row_is_read(
    cols: Seq<ColumnMetadata>,
    encoded: Seq<Seq<u8>>,
    values: Seq<Option<Value>>,
    bitmap: Seq<u8>,
    before: Seq<u8>,
    after: Seq<u8>,
)
    requires
        are_columns(cols, encoded, values),
        is_bitmap(bitmap, values),
    ensures
        ({
            let d = before + seq![0xD2u8] + bitmap + encoded.flatten() + after;
            next_row(Some(cols), d, before.len() as int) == Some(
                (
                    cells_of(values),
                    (before.len() + 1 + bitmap.len() + encoded.flatten().len()) as int,
                ),
            )
        }),
{
    let d = before + seq![0xD2u8] + bitmap + encoded.flatten() + after;
    let start = before + seq![0xD2u8] + bitmap;
    lemma_columns_read(cols, encoded, values, Some(bitmap), start, after, cols.len());
    law_bitmap_len(cols.len());
    assert(bitmap_len(cols.len()) == bitmap.len());
    assert(d[before.len() as int] == 0xD2);
    assert(d.subrange(before.len() as int + 1, before.len() + 1 + bitmap.len() as int) =~= bitmap);
    assert(encoded.take(cols.len() as int) =~= encoded);
    assert(cells_of(values).take(cols.len() as int) =~= cells_of(values));
}

/// Where the next token is a row, receiving it hands the row's cells to the sink, and nothing else, and the
/// position is behind the row.
pub proof fn law_row_is_received<R: TokenParserRegistry, W: RowWriter>(
    registry: &R,
    columns: Option<Seq<ColumnMetadata>>,
    d: Seq<u8>,
    p: int,
    pre: W,
    post: W,
    r: TdsResult<NextToken>,
    end: int,
)
    requires
        received(registry, columns, d, p, pre, post, r, end),
    ensures
        next_row(columns, d, p) matches Some((cells, q)) ==> wrote_all(pre, post, cells) && r == Ok::<
            NextToken,
            Error,
        >(NextToken::RowWritten) && end == q,
        r == Ok::<NextToken, Error>(NextToken::RowWritten) ==> next_row(columns, d, p) is Some,
        0 <= p < d.len() && d[p] != 0xD1 && d[p] != 0xD2 ==> post == pre,
        p < d.len() && columns is None && (d[p] == 0xD1 || d[p] == 0xD2) ==> r is Err && post == pre,
        p >= d.len() ==> r is Err && post == pre,
{
}

/// A whole row is decoded at once from a buffer: its columns, one after the other, give their values in
/// order, and those that a bitmap marks none.
pub proof fn law_buffered_row_is_read(
    cols: Seq<ColumnMetadata>,
    encoded: Seq<Seq<u8>>,
    values: Seq<Option<Value>>,
    bitmap: Option<Seq<u8>>,
    before: Seq<u8>,
    after: Seq<u8>,
)
    requires
        are_buffered_columns(cols, encoded, values),
        match bitmap {
            Some(b) => is_bitmap(b, values),
            None => forall|i: int| 0 <= i < values.len() ==> #[trigger] values[i] is Some,
        },
    ensures
        ({
            let d = before + encoded.flatten() + after;
            sync_row(cols, cols.len(), bitmap, d, before.len() as int) == (
                cells_of(values),
                Some((before.len() + encoded.flatten().len()) as int),
            )
        }),
        bitmap matches Some(b) ==> b.len() == bitmap_len(cols.len()),
{
    lemma_buffered_columns(cols, encoded, values, bitmap, before, after, cols.len());
    law_bitmap_len(cols.len());
    assert(encoded.take(cols.len() as int) =~= encoded);
    assert(cells_of(values).take(cols.len() as int) =~= cells_of(values));
}

/// The first columns of a row are read one after the other from a buffer.
proof fn lemma_buffered_columns(
    cols: Seq<ColumnMetadata>,
    encoded: Seq<Seq<u8>>,
    values: Seq<Option<Value>>,
    bitmap: Option<Seq<u8>>,
    before: Seq<u8>,
    after: Seq<u8>,
    n: nat,
)
    requires
        are_buffered_columns(cols, encoded, values),
        n <= cols.len(),
        match bitmap {
            Some(b) => is_bitmap(b, values),
            None => forall|i: int| 0 <= i < values.len() ==> #[trigger] values[i] is Some,
        },
    ensures
        ({
            let d = before + encoded.flatten() + after;
            sync_row(cols, n, bitmap, d, before.len() as int) == (
                cells_of(values).take(n as int),
                Some((before.len() + encoded.take(n as int).flatten().len()) as int),
            )
        }),
    decreases n,
{
    let d = before + encoded.flatten() + after;
    if n == 0 {
        assert(cells_of(values).take(0) =~= Seq::empty());
        assert(encoded.take(0).flatten().len() == 0);
    } else {
        let c = n - 1;
        lemma_buffered_columns(cols, encoded, values, bitmap, before, after, c as nat);
        let front = encoded.take(c).flatten();
        let rest = encoded.skip(n as int).flatten();
        lemma_split(encoded, c);
        assert(cols[c] == cols[c]);
        assert(d =~= (before + front) + encoded[c] + (rest + after));
        assert(cells_of(values).take(n as int) =~= cells_of(values).take(c).push(cells_of(values)[c]));
        if bitmap is Some {
            law_null_bit(bitmap->Some_0, c);
            assert(marks(bitmap->Some_0, c) == (values[c] is None));
        }
    }
}

/// The rows of what has come are read one behind the other, as long as there is a whole one.
pub proof fn law_rows_are_read(columns: Option<Seq<ColumnMetadata>>, d: Seq<u8>, p: int)
    ensures
        ({
            let (rows, end) = rows_from(columns, d, p);
            match next_row(columns, d, p) {
                Some((cells, q)) if p < q <= d.len() => rows.len() > 0 && rows[0] == cells && (
                rows.skip(1), end) == rows_from(columns, d, q),
                _ => rows.len() == 0 && end == p,
            }
        }),
{
    if let Some((cells, q)) = next_row(columns, d, p) {
        if p < q <= d.len() {
            let (rows, end) = rows_from(columns, d, p);
            assert(rows.skip(1) =~= rows_from(columns, d, q).0);
        }
    }
}

/// Rows are written one behind the other, each with its end.
pub proof fn law_rows_are_written<W: RowWriter>(
    pre: W,
    before: W,
    full: W,
    post: W,
    rows: Seq<Seq<(usize, Value)>>,
    row: Seq<(usize, Value)>,
)
    ensures
        wrote_rows(pre, pre, Seq::<Seq<(usize, Value)>>::empty()),
        wrote_rows(pre, post, Seq::<Seq<(usize, Value)>>::empty()) ==> pre == post,
        wrote_rows(pre, before, rows) && wrote_all(before, full, row) && W::ended(full, post)
            ==> wrote_rows(pre, post, rows.push(row)),
        wrote_rows(pre, post, rows.push(row)) ==> exists|b: W, f: W|
            wrote_rows(pre, b, rows) && #[trigger] wrote_all(b, f, row) && #[trigger] W::ended(f, post),
{
    let all = rows.push(row);
    assert(all.drop_last() =~= rows);
    assert(all.last() == row);
    if wrote_rows(pre, post, all) {
        let (b, f) = choose|b: W, f: W|
            wrote_rows(pre, b, all.drop_last()) && #[trigger] wrote_all(b, f, all.last())
                && #[trigger] W::ended(f, post);
        assert(wrote_all(b, f, row) && W::ended(f, post));
    }
}

/// Of a token that is no row the code alone is read, and its parser is given; a code that is no token, and one
/// whose token has no parser, is a fault of the protocol. The sink is left alone.
pub proof fn law_other_tokens_are_received<R: TokenParserRegistry, W: RowWriter>(
    registry: &R,
    columns: Option<Seq<ColumnMetadata>>,
    d: Seq<u8>,
    p: int,
    t: TokenType,
    pre: W,
    post: W,
    r: TdsResult<NextToken>,
    end: int,
)
    requires
        0 <= p < d.len(),
        d[p] != 0xD1 && d[p] != 0xD2,
        received(registry, columns, d, p, pre, post, r, end),
    ensures
        post == pre,
        t.code() == d[p] ==> (match registry.parser(t) {
            Some(parser) => r == Ok::<NextToken, Error>(NextToken::Parse(parser)) && end == p + 1,
            None => r matches Err(e) && e.kind() is Protocol,
        }),
        (forall|u: TokenType| #[trigger] u.code() != d[p]) ==> (r matches Err(e) && e.kind() is Protocol),
{
    law_token_code_round_trip(t);
    if let Some(u) = TokenType::of_code(d[p]) {
        law_token_codes(d[p]);
        assert(u.code() == d[p]);
    }
}

} // verus!

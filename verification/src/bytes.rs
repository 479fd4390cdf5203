//! Integers as little-endian and big-endian bytes.

use byteorder::{BigEndian, ByteOrder, LittleEndian, WriteBytesExt};
use vstd::prelude::*;

verus! {

/// `256^n`, the number of values that `n` bytes can hold.
pub open spec fn pow256(n: nat) -> nat
    decreases n,
{
    if n == 0 {
        1
    } else {
        256 * pow256((n - 1) as nat)
    }
}

/// The number that the `n` bytes of `s` from index `at` hold, least significant byte first.
pub open spec fn le_nat(s: Seq<u8>, at: int, n: nat) -> nat
    decreases n,
{
    if n == 0 {
        0
    } else {
        s[at] as nat + 256 * le_nat(s, at + 1, (n - 1) as nat)
    }
}

/// The number that the `n` bytes of `s` from index `at` hold, most significant byte first.
pub open spec fn be_nat(s: Seq<u8>, at: int, n: nat) -> nat
    decreases n,
{
    if n == 0 {
        0
    } else {
        256 * be_nat(s, at, (n - 1) as nat) + s[at + n - 1] as nat
    }
}

/// `v` taken as a two's complement number of `n` bytes.
pub open spec fn signed(v: nat, n: nat) -> int {
    if 2 * v < pow256(n) {
        v as int
    } else {
        v - pow256(n)
    }
}

/// The two's complement representation of `v` in `n` bytes, as a number.
pub open spec fn unsigned(v: int, n: nat) -> nat {
    if v >= 0 {
        v as nat
    } else {
        (v + pow256(n)) as nat
    }
}

/// The `n` bytes of `v`, least significant byte first.
pub open spec fn le_bytes(v: nat, n: nat) -> Seq<u8>
    decreases n,
{
    if n == 0 {
        Seq::empty()
    } else {
        seq![(v % 256) as u8] + le_bytes(v / 256, (n - 1) as nat)
    }
}

/// The `n` bytes of `v`, most significant byte first.
pub open spec fn be_bytes(v: nat, n: nat) -> Seq<u8>
    decreases n,
{
    if n == 0 {
        Seq::empty()
    } else {
        be_bytes(v / 256, (n - 1) as nat) + seq![(v % 256) as u8]
    }
}

/// `le_bytes` has the length that it was asked for.
pub broadcast proof fn lemma_le_bytes_len(v: nat, n: nat)
    ensures
        (#[trigger] le_bytes(v, n)).len() == n,
    decreases n,
{
    if n > 0 {
        lemma_le_bytes_len(v / 256, (n - 1) as nat);
    }
}

/// `be_bytes` has the length that it was asked for.
pub broadcast proof fn lemma_be_bytes_len(v: nat, n: nat)
    ensures
        (#[trigger] be_bytes(v, n)).len() == n,
    decreases n,
{
    if n > 0 {
        lemma_be_bytes_len(v / 256, (n - 1) as nat);
    }
}

/// `n` bytes hold a number below `256^n`.
pub proof fn lemma_le_nat_bound(s: Seq<u8>, at: int, n: nat)
    ensures
        le_nat(s, at, n) < pow256(n),
    decreases n,
{
    if n > 0 {
        lemma_le_nat_bound(s, at + 1, (n - 1) as nat);
    }
}

/// What `le_nat` gives depends only on the bytes that it reads.
pub proof fn lemma_le_nat_same(s: Seq<u8>, i: int, t: Seq<u8>, j: int, n: nat)
    requires
        0 <= i,
        i + n <= s.len(),
        0 <= j,
        j + n <= t.len(),
        s.subrange(i, i + n) == t.subrange(j, j + n),
    ensures
        le_nat(s, i, n) == le_nat(t, j, n),
    decreases n,
{
    if n > 0 {
        let a = s.subrange(i, i + n);
        let b = t.subrange(j, j + n);
        assert(a[0] == s[i] && b[0] == t[j]);
        assert(s.subrange(i + 1, i + n) =~= a.subrange(1, n as int));
        assert(t.subrange(j + 1, j + n) =~= b.subrange(1, n as int));
        lemma_le_nat_same(s, i + 1, t, j + 1, (n - 1) as nat);
    }
}

/// Reading back the little-endian bytes of a number gives the number.
pub proof fn law_le_round_trip(v: nat, n: nat)
    requires
        v < pow256(n),
    ensures
        le_nat(le_bytes(v, n), 0, n) == v,
    decreases n,
{
    if n > 0 {
        let rest = le_bytes(v / 256, (n - 1) as nat);
        let all = le_bytes(v, n);
        lemma_le_bytes_len(v / 256, (n - 1) as nat);
        assert(v / 256 < pow256((n - 1) as nat));
        law_le_round_trip(v / 256, (n - 1) as nat);
        assert(all.subrange(1, n as int) =~= rest.subrange(0, n - 1));
        lemma_le_nat_same(all, 1, rest, 0, (n - 1) as nat);
        assert(all[0] == (v % 256) as u8);
    }
}

/// Reading back the big-endian bytes of a number gives the number.
pub proof fn law_be_round_trip(v: nat, n: nat)
    requires
        v < pow256(n),
    ensures
        be_nat(be_bytes(v, n), 0, n) == v,
    decreases n,
{
    if n > 0 {
        let rest = be_bytes(v / 256, (n - 1) as nat);
        let all = be_bytes(v, n);
        lemma_be_bytes_len(v / 256, (n - 1) as nat);
        assert(v / 256 < pow256((n - 1) as nat));
        law_be_round_trip(v / 256, (n - 1) as nat);
        assert(all.subrange(0, n - 1) =~= rest.subrange(0, n - 1));
        lemma_be_nat_same(all, 0, rest, 0, (n - 1) as nat);
        assert(all[n - 1] == (v % 256) as u8);
    }
}

/// What `be_nat` gives depends only on the bytes that it reads.
pub proof fn lemma_be_nat_same(s: Seq<u8>, i: int, t: Seq<u8>, j: int, n: nat)
    requires
        0 <= i,
        i + n <= s.len(),
        0 <= j,
        j + n <= t.len(),
        s.subrange(i, i + n) == t.subrange(j, j + n),
    ensures
        be_nat(s, i, n) == be_nat(t, j, n),
    decreases n,
{
    if n > 0 {
        let a = s.subrange(i, i + n);
        let b = t.subrange(j, j + n);
        assert(a[n - 1] == s[i + n - 1] && b[n - 1] == t[j + n - 1]);
        assert(s.subrange(i, i + n - 1) =~= a.subrange(0, n - 1));
        assert(t.subrange(j, j + n - 1) =~= b.subrange(0, n - 1));
        lemma_be_nat_same(s, i, t, j, (n - 1) as nat);
    }
}

/// The powers of 256 up to eight bytes.
pub proof fn lemma_pow256()
    ensures
        pow256(0) == 1,
        pow256(1) == 0x100,
        pow256(2) == 0x1_0000,
        pow256(3) == 0x100_0000,
        pow256(4) == 0x1_0000_0000,
        pow256(5) == 0x100_0000_0000,
        pow256(8) == 0x1_0000_0000_0000_0000,
{
    reveal_with_fuel(pow256, 9);
}

/// Calls `byteorder::LittleEndian::read_u16`, on the bytes of `buf` from `at`: it gives the
/// number that the first two hold, least significant first, and panics on fewer.
#[verifier::external_body]
pub(crate) fn le_read_u16(buf: &[u8], at: usize) -> (v: u16)
    requires
        at + 2 <= buf@.len(),
    ensures
        v == le_nat(buf@, at as int, 2),
{
    LittleEndian::read_u16(&buf[at..])
}

/// Calls `byteorder::LittleEndian::read_i16`: two bytes, least significant first, as a two's
/// complement number. It panics on fewer bytes.
#[verifier::external_body]
pub(crate) fn le_read_i16(buf: &[u8], at: usize) -> (v: i16)
    requires
        at + 2 <= buf@.len(),
    ensures
        v == signed(le_nat(buf@, at as int, 2), 2),
{
    LittleEndian::read_i16(&buf[at..])
}

/// Calls `byteorder::LittleEndian::read_u32`: four bytes, least significant first. It panics on
/// fewer bytes.
#[verifier::external_body]
pub(crate) fn le_read_u32(buf: &[u8], at: usize) -> (v: u32)
    requires
        at + 4 <= buf@.len(),
    ensures
        v == le_nat(buf@, at as int, 4),
{
    LittleEndian::read_u32(&buf[at..])
}

/// Calls `byteorder::LittleEndian::read_i32`: four bytes, least significant first, as a two's
/// complement number. It panics on fewer bytes.
#[verifier::external_body]
pub(crate) fn le_read_i32(buf: &[u8], at: usize) -> (v: i32)
    requires
        at + 4 <= buf@.len(),
    ensures
        v == signed(le_nat(buf@, at as int, 4), 4),
{
    LittleEndian::read_i32(&buf[at..])
}

/// Calls `byteorder::LittleEndian::read_u64`: eight bytes, least significant first. It panics on
/// fewer bytes.
#[verifier::external_body]
pub(crate) fn le_read_u64(buf: &[u8], at: usize) -> (v: u64)
    requires
        at + 8 <= buf@.len(),
    ensures
        v == le_nat(buf@, at as int, 8),
{
    LittleEndian::read_u64(&buf[at..])
}

/// Calls `byteorder::LittleEndian::read_i64`: eight bytes, least significant first, as a two's
/// complement number. It panics on fewer bytes.
#[verifier::external_body]
pub(crate) fn le_read_i64(buf: &[u8], at: usize) -> (v: i64)
    requires
        at + 8 <= buf@.len(),
    ensures
        v == signed(le_nat(buf@, at as int, 8), 8),
{
    LittleEndian::read_i64(&buf[at..])
}

/// Calls `byteorder::LittleEndian::read_uint`: `n` bytes, from one to eight, least significant
/// first. It panics on another `n`, and on fewer bytes.
#[verifier::external_body]
pub(crate) fn le_read_uint(buf: &[u8], at: usize, n: usize) -> (v: u64)
    requires
        1 <= n <= 8,
        at + n <= buf@.len(),
    ensures
        v == le_nat(buf@, at as int, n as nat),
{
    LittleEndian::read_uint(&buf[at..], n)
}

/// Calls `byteorder::BigEndian::read_u16`: two bytes, most significant first. It panics on fewer
/// bytes.
#[verifier::external_body]
pub(crate) fn be_read_u16(buf: &[u8], at: usize) -> (v: u16)
    requires
        at + 2 <= buf@.len(),
    ensures
        v == be_nat(buf@, at as int, 2),
{
    BigEndian::read_u16(&buf[at..])
}

/// Calls `byteorder::BigEndian::read_i16`: 2 bytes, most significant first, as a two's complement
/// number. It panics on fewer bytes.
#[verifier::external_body]
pub(crate) fn be_read_i16(buf: &[u8], at: usize) -> (v: i16)
    requires
        at + 2 <= buf@.len(),
    ensures
        v == signed(be_nat(buf@, at as int, 2), 2),
{
    BigEndian::read_i16(&buf[at..])
}

/// Calls `byteorder::BigEndian::read_i32`: 4 bytes, most significant first, as a two's complement
/// number. It panics on fewer bytes.
#[verifier::external_body]
pub(crate) fn be_read_i32(buf: &[u8], at: usize) -> (v: i32)
    requires
        at + 4 <= buf@.len(),
    ensures
        v == signed(be_nat(buf@, at as int, 4), 4),
{
    BigEndian::read_i32(&buf[at..])
}

/// Calls `byteorder::BigEndian::read_i64`: 8 bytes, most significant first, as a two's complement
/// number. It panics on fewer bytes.
#[verifier::external_body]
pub(crate) fn be_read_i64(buf: &[u8], at: usize) -> (v: i64)
    requires
        at + 8 <= buf@.len(),
    ensures
        v == signed(be_nat(buf@, at as int, 8), 8),
{
    BigEndian::read_i64(&buf[at..])
}

/// Fewer bytes of a number are the first of more.
pub proof fn lemma_le_bytes_prefix(v: nat, m: nat, n: nat)
    requires
        m <= n,
    ensures
        le_bytes(v, n).take(m as int) == le_bytes(v, m),
    decreases m,
{
    lemma_le_bytes_len(v, n);
    lemma_le_bytes_len(v, m);
    if m == 0 {
        assert(le_bytes(v, n).take(0) =~= le_bytes(v, 0));
    } else {
        lemma_le_bytes_prefix(v / 256, (m - 1) as nat, (n - 1) as nat);
        lemma_le_bytes_len(v / 256, (n - 1) as nat);
        assert(le_bytes(v, n).take(m as int) =~= seq![(v % 256) as u8] + le_bytes(
            v / 256,
            (n - 1) as nat,
        ).take(m - 1));
    }
}

/// Calls `byteorder::WriteBytesExt::write_u16` for `LittleEndian`, on a list of bytes: the 2 bytes of the
/// number go to its end, least significant first.
#[verifier::external_body]
pub(crate) fn le_push_u16(buf: &mut Vec<u8>, v: u16)
    ensures
        final(buf)@ == old(buf)@ + le_bytes(v as nat, 2),
{
    let _ = WriteBytesExt::write_u16::<LittleEndian>(buf, v);
}

/// Calls `byteorder::WriteBytesExt::write_i16` for `LittleEndian`, on a list of bytes: the 2 bytes of the
/// number go to its end, least significant first.
#[verifier::external_body]
pub(crate) fn le_push_i16(buf: &mut Vec<u8>, v: i16)
    ensures
        final(buf)@ == old(buf)@ + le_bytes(unsigned(v as int, 2), 2),
{
    let _ = WriteBytesExt::write_i16::<LittleEndian>(buf, v);
}

/// Calls `byteorder::WriteBytesExt::write_u32` for `LittleEndian`, on a list of bytes: the 4 bytes of the
/// number go to its end, least significant first.
#[verifier::external_body]
pub(crate) fn le_push_u32(buf: &mut Vec<u8>, v: u32)
    ensures
        final(buf)@ == old(buf)@ + le_bytes(v as nat, 4),
{
    let _ = WriteBytesExt::write_u32::<LittleEndian>(buf, v);
}

/// Calls `byteorder::WriteBytesExt::write_i32` for `LittleEndian`, on a list of bytes: the 4 bytes of the
/// number go to its end, least significant first.
#[verifier::external_body]
pub(crate) fn le_push_i32(buf: &mut Vec<u8>, v: i32)
    ensures
        final(buf)@ == old(buf)@ + le_bytes(unsigned(v as int, 4), 4),
{
    let _ = WriteBytesExt::write_i32::<LittleEndian>(buf, v);
}

/// Calls `byteorder::WriteBytesExt::write_u64` for `LittleEndian`, on a list of bytes: the 8 bytes of the
/// number go to its end, least significant first.
#[verifier::external_body]
pub(crate) fn le_push_u64(buf: &mut Vec<u8>, v: u64)
    ensures
        final(buf)@ == old(buf)@ + le_bytes(v as nat, 8),
{
    let _ = WriteBytesExt::write_u64::<LittleEndian>(buf, v);
}

/// Calls `byteorder::WriteBytesExt::write_i64` for `LittleEndian`, on a list of bytes: the 8 bytes of the
/// number go to its end, least significant first.
#[verifier::external_body]
pub(crate) fn le_push_i64(buf: &mut Vec<u8>, v: i64)
    ensures
        final(buf)@ == old(buf)@ + le_bytes(unsigned(v as int, 8), 8),
{
    let _ = WriteBytesExt::write_i64::<LittleEndian>(buf, v);
}

/// Calls `byteorder::WriteBytesExt::write_u16` for `BigEndian`, on a list of bytes: the 2 bytes of the
/// number go to its end, most significant first.
#[verifier::external_body]
pub(crate) fn be_push_u16(buf: &mut Vec<u8>, v: u16)
    ensures
        final(buf)@ == old(buf)@ + be_bytes(v as nat, 2),
{
    let _ = WriteBytesExt::write_u16::<BigEndian>(buf, v);
}

/// Calls `byteorder::WriteBytesExt::write_i16` for `BigEndian`, on a list of bytes: the 2 bytes of the
/// number go to its end, most significant first.
#[verifier::external_body]
pub(crate) fn be_push_i16(buf: &mut Vec<u8>, v: i16)
    ensures
        final(buf)@ == old(buf)@ + be_bytes(unsigned(v as int, 2), 2),
{
    let _ = WriteBytesExt::write_i16::<BigEndian>(buf, v);
}

/// Calls `byteorder::WriteBytesExt::write_i32` for `BigEndian`, on a list of bytes: the 4 bytes of the
/// number go to its end, most significant first.
#[verifier::external_body]
pub(crate) fn be_push_i32(buf: &mut Vec<u8>, v: i32)
    ensures
        final(buf)@ == old(buf)@ + be_bytes(unsigned(v as int, 4), 4),
{
    let _ = WriteBytesExt::write_i32::<BigEndian>(buf, v);
}

/// Calls `byteorder::WriteBytesExt::write_i64` for `BigEndian`, on a list of bytes: the 8 bytes of the
/// number go to its end, most significant first.
#[verifier::external_body]
pub(crate) fn be_push_i64(buf: &mut Vec<u8>, v: i64)
    ensures
        final(buf)@ == old(buf)@ + be_bytes(unsigned(v as int, 8), 8),
{
    let _ = WriteBytesExt::write_i64::<BigEndian>(buf, v);
}

} // verus!

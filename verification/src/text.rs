//! Building the text of messages and numbers.

use crate::strings::{trim_end, trim_start};
use vstd::arithmetic::power::pow;
use vstd::prelude::*;
use vstd::string::StringExecFns;

verus! {

/// The decimal digit of value `d`.
pub open spec fn digit(d: nat) -> char {
    ('0' as u8 + d) as char
}

/// The decimal notation of `n`, most significant digit first, without leading zeros.
pub open spec fn decimal(n: nat) -> Seq<char>
    decreases n,
{
    if n < 10 {
        seq![digit(n)]
    } else {
        decimal(n / 10).push(digit(n % 10))
    }
}

/// `n` copies of the character zero.
pub open spec fn zeros(n: nat) -> Seq<char> {
    Seq::new(n, |i: int| '0')
}

/// The one-character text of a decimal digit.
fn digit_text(d: u8) -> (s: &'static str)
    requires
        d < 10,
    ensures
        s@ == seq![digit(d as nat)],
{
    proof {
        reveal_strlit("0");
        reveal_strlit("1");
        reveal_strlit("2");
        reveal_strlit("3");
        reveal_strlit("4");
        reveal_strlit("5");
        reveal_strlit("6");
        reveal_strlit("7");
        reveal_strlit("8");
        reveal_strlit("9");
    }
    match d {
        0 => "0",
        1 => "1",
        2 => "2",
        3 => "3",
        4 => "4",
        5 => "5",
        6 => "6",
        7 => "7",
        8 => "8",
        _ => "9",
    }
}

/// The decimal notation of an unsigned number.
pub fn decimal_text(n: u128) -> (s: String)
    ensures
        s@ == decimal(n as nat),
    decreases n,
{
    if n < 10 {
        String::from_str(digit_text(n as u8))
    } else {
        let mut s = decimal_text(n / 10);
        s.append(digit_text((n % 10) as u8));
        s
    }
}

/// The text of `n` zeros.
pub fn zeros_text(n: usize) -> (s: String)
    ensures
        s@ == zeros(n as nat),
{
    let mut s = String::new();
    let mut i: usize = 0;
    while i < n
        invariant
            i <= n,
            s@ == zeros(i as nat),
        decreases n - i,
    {
        proof {
            reveal_strlit("0");
        }
        s.append("0");
        assert(s@ =~= zeros((i + 1) as nat));
        i += 1;
    }
    assert(s@ =~= zeros(n as nat));
    s
}

/// `prefix`, the number `n`, `suffix`.
pub fn number_message(prefix: &str, n: u128, suffix: &str) -> (s: String)
    ensures
        s@ == prefix@ + decimal(n as nat) + suffix@,
{
    let mut s = String::from_str(prefix);
    s.append(decimal_text(n).as_str());
    s.append(suffix);
    s
}

/// `prefix`, `middle`, `suffix`.
pub fn text_message(prefix: &str, middle: &str, suffix: &str) -> (s: String)
    ensures
        s@ == prefix@ + middle@ + suffix@,
{
    let mut s = String::from_str(prefix);
    s.append(middle);
    s.append(suffix);
    s
}

/// The characters that Unicode counts as white space.
pub open spec fn is_white_space(c: char) -> bool {
    ||| '\u{9}' <= c <= '\u{d}'
    ||| c == ' '
    ||| c == '\u{85}'
    ||| c == '\u{a0}'
    ||| c == '\u{1680}'
    ||| '\u{2000}' <= c <= '\u{200a}'
    ||| c == '\u{2028}'
    ||| c == '\u{2029}'
    ||| c == '\u{202f}'
    ||| c == '\u{205f}'
    ||| c == '\u{3000}'
}

/// Whether a character is white space.
pub fn white_space(c: char) -> (b: bool)
    ensures
        b == is_white_space(c),
{
    ('\u{9}' <= c && c <= '\u{d}') || c == ' ' || c == '\u{85}' || c == '\u{a0}' || c == '\u{1680}'
        || ('\u{2000}' <= c && c <= '\u{200a}') || c == '\u{2028}' || c == '\u{2029}' || c
        == '\u{202f}' || c == '\u{205f}' || c == '\u{3000}'
}

/// `s` without the white space at its start.
pub open spec fn trimmed_start(s: Seq<char>) -> Seq<char>
    decreases s.len(),
{
    if s.len() > 0 && is_white_space(s[0]) {
        trimmed_start(s.drop_first())
    } else {
        s
    }
}

/// `s` without the white space at its end.
pub open spec fn trimmed_end(s: Seq<char>) -> Seq<char>
    decreases s.len(),
{
    if s.len() > 0 && is_white_space(s.last()) {
        trimmed_end(s.drop_last())
    } else {
        s
    }
}

/// `s` without the white space at its ends.
pub open spec fn trimmed(s: Seq<char>) -> Seq<char> {
    trimmed_end(trimmed_start(s))
}

/// A text without the white space at its ends.
pub fn trim(s: &str) -> (t: String)
    ensures
        t@ == trimmed(s@),
{
    trim_end(trim_start(s).as_str())
}

/// The UTF-16 units of a character: itself where it fits one unit, else a surrogate pair.
pub open spec fn char_units(c: char) -> Seq<u16> {
    if (c as u32) < 0x1_0000 {
        seq![c as u32 as u16]
    } else {
        seq![
            (0xD800 + ((c as u32) - 0x1_0000) / 0x400) as u16,
            (0xDC00 + ((c as u32) - 0x1_0000) % 0x400) as u16,
        ]
    }
}

/// The UTF-16 units of a text.
pub open spec fn utf16_units(s: Seq<char>) -> Seq<u16>
    decreases s.len(),
{
    if s.len() == 0 {
        Seq::empty()
    } else {
        utf16_units(s.drop_last()) + char_units(s.last())
    }
}

/// The UTF-16 units of a text.
pub fn utf16_text(s: &str) -> (units: Vec<u16>)
    ensures
        units@ == utf16_units(s@),
{
    let mut units: Vec<u16> = Vec::new();
    let chars = chars_of(s);
    let mut i: usize = 0;
    assert(s@.take(0) =~= Seq::<char>::empty());
    while i < chars.len()
        invariant
            i <= chars@.len(),
            chars@ == s@,
            units@ == utf16_units(s@.take(i as int)),
        decreases chars@.len() - i,
    {
        let c: char = chars[i];
        let code: u32 = c as u32;
        let ghost before = units@;
        if code < 0x1_0000 {
            units.push(code as u16);
        } else {
            let v: u32 = code - 0x1_0000;
            units.push((0xD800 + v / 0x400) as u16);
            units.push((0xDC00 + v % 0x400) as u16);
        }
        proof {
            assert(s@.take(i + 1).drop_last() =~= s@.take(i as int));
            assert(units@ =~= before + char_units(c));
        }
        i += 1;
    }
    assert(s@.take(i as int) =~= s@);
    units
}

/// `char::from_u32`: the character with this code, where there is one; there is none for surrogates
/// and for numbers past the last code.
pub assume_specification[ std::primitive::char::from_u32 ](i: u32) -> (c: Option<char>)
    ensures
        (c is Some) == (i < 0xD800 || 0xE000 <= i <= 0x10FFFF),
        c is Some ==> c->Some_0 as u32 == i,
;

/// `String::push`: the character goes to the end of the text.
pub assume_specification[ std::string::String::push ](s: &mut std::string::String, c: char)
    ensures
        final(s)@ == old(s)@.push(c),
;

/// The character that stands for what cannot be decoded.
pub const REPLACEMENT: char = '\u{FFFD}';

/// Whether a UTF-16 unit is the first of a surrogate pair.
pub open spec fn is_high(u: u16) -> bool {
    0xD800 <= u <= 0xDBFF
}

/// Whether a UTF-16 unit is the second of a surrogate pair.
pub open spec fn is_low(u: u16) -> bool {
    0xDC00 <= u <= 0xDFFF
}

/// The character that a surrogate pair stands for.
pub open spec fn pair_char(high: u16, low: u16) -> char {
    (0x1_0000 + (high - 0xD800) * 0x400 + (low - 0xDC00)) as u32 as char
}

/// The text that UTF-16 units stand for. A surrogate without its partner becomes the replacement
/// character.
pub open spec fn utf16_decoded(units: Seq<u16>) -> Seq<char>
    decreases units.len(),
{
    if units.len() == 0 {
        Seq::empty()
    } else if is_high(units[0]) && units.len() > 1 && is_low(units[1]) {
        seq![pair_char(units[0], units[1])] + utf16_decoded(units.skip(2))
    } else if is_high(units[0]) || is_low(units[0]) {
        seq![REPLACEMENT] + utf16_decoded(units.skip(1))
    } else {
        seq![units[0] as char] + utf16_decoded(units.skip(1))
    }
}

/// The text that UTF-16 units stand for.
pub fn decode_utf16_units(units: &Vec<u16>) -> (s: String)
    ensures
        s@ == utf16_decoded(units@),
{
    let mut s = String::new();
    let mut i: usize = 0;
    assert(units@.skip(0) =~= units@);
    assert(Seq::<char>::empty() + utf16_decoded(units@) =~= utf16_decoded(units@));
    while i < units.len()
        invariant
            i <= units@.len(),
            s@ + utf16_decoded(units@.skip(i as int)) == utf16_decoded(units@),
        decreases units@.len() - i,
    {
        let u: u16 = units[i];
        let ghost before = s@;
        let ghost rest = units@.skip(i as int);
        let high: bool = u >= 0xD800 && u <= 0xDBFF;
        let low: bool = u >= 0xDC00 && u <= 0xDFFF;
        if high && i + 1 < units.len() && units[i + 1] >= 0xDC00 && units[i + 1] <= 0xDFFF {
            let v: u32 = 0x1_0000 + (u as u32 - 0xD800) * 0x400 + (units[i + 1] as u32 - 0xDC00);
            match char::from_u32(v) {
                Some(c) => {
                    s.push(c);
                    proof {
                        vstd::utf8::char_u32_cast(c, v);
                        assert(rest.skip(2) =~= units@.skip(i + 2));
                        assert(s@ + utf16_decoded(units@.skip(i + 2)) =~= before + utf16_decoded(
                            rest,
                        ));
                    }
                },
                None => {},
            }
            i += 2;
        } else {
            let mut c: char = REPLACEMENT;
            if !high && !low {
                match char::from_u32(u as u32) {
                    Some(d) => {
                        c = d;
                        proof {
                            vstd::utf8::char_u32_cast(d, u as u32);
                        }
                    },
                    None => {},
                }
            }
            s.push(c);
            proof {
                assert(rest.skip(1) =~= units@.skip(i + 1));
                assert(s@ + utf16_decoded(units@.skip(i + 1)) =~= before + utf16_decoded(rest));
            }
            i += 1;
        }
    }
    assert(units@.skip(i as int) =~= Seq::<u16>::empty());
    assert(s@ + Seq::<char>::empty() =~= s@);
    s
}

/// The units of a text are those of its first character and those of the rest.
pub proof fn lemma_utf16_first(c: char, t: Seq<char>)
    ensures
        utf16_units(seq![c] + t) == char_units(c) + utf16_units(t),
    decreases t.len(),
{
    let s = seq![c] + t;
    if t.len() == 0 {
        assert(s.drop_last() =~= t);
        assert(char_units(c) + Seq::<u16>::empty() =~= Seq::<u16>::empty() + char_units(c));
    } else {
        lemma_utf16_first(c, t.drop_last());
        assert(s.drop_last() =~= seq![c] + t.drop_last());
        assert(char_units(c) + utf16_units(t.drop_last()) + char_units(t.last()) =~= char_units(c)
            + utf16_units(t));
    }
}

/// Decoding the UTF-16 units of a text gives the text back.
pub proof fn law_utf16_round_trip(t: Seq<char>)
    ensures
        utf16_decoded(utf16_units(t)) == t,
    decreases t.len(),
{
    if t.len() > 0 {
        let c = t[0];
        let rest = t.skip(1);
        law_utf16_round_trip(rest);
        lemma_utf16_first(c, rest);
        assert(seq![c] + rest =~= t);
        let u = utf16_units(t);
        let n = char_units(c).len() as int;
        assert(u.skip(n) =~= utf16_units(rest));
        vstd::utf8::char_is_scalar(c);
        if (c as u32) >= 0x1_0000 {
            let v = ((c as u32) - 0x1_0000) as nat;
            assert(0x1_0000 + (u[0] - 0xD800) * 0x400 + (u[1] - 0xDC00) == c as u32);
            assert(pair_char(u[0], u[1]) == c) by {
                vstd::utf8::char_u32_cast(c, c as u32);
            }
        } else {
            assert(u[0] as char == c) by {
                vstd::utf8::char_u32_cast(c, c as u32);
            }
        }
    } else {
        assert(utf16_decoded(utf16_units(t)) =~= t);
    }
}

/// Whether each surrogate among UTF-16 units is half of a pair.
pub open spec fn utf16_paired(units: Seq<u16>) -> bool
    decreases units.len(),
{
    if units.len() == 0 {
        true
    } else if is_high(units[0]) && units.len() > 1 && is_low(units[1]) {
        utf16_paired(units.skip(2))
    } else {
        !is_high(units[0]) && !is_low(units[0]) && utf16_paired(units.skip(1))
    }
}

/// Whether each surrogate among UTF-16 units is half of a pair.
pub fn is_utf16(units: &Vec<u16>) -> (b: bool)
    ensures
        b == utf16_paired(units@),
{
    let mut i: usize = 0;
    assert(units@.skip(0) =~= units@);
    while i < units.len()
        invariant
            i <= units@.len(),
            utf16_paired(units@.skip(i as int)) == utf16_paired(units@),
        decreases units@.len() - i,
    {
        let u: u16 = units[i];
        let ghost rest = units@.skip(i as int);
        if u >= 0xD800 && u <= 0xDBFF && i + 1 < units.len() && units[i + 1] >= 0xDC00 && units[i + 1]
            <= 0xDFFF {
            assert(rest.skip(2) =~= units@.skip(i + 2));
            i += 2;
        } else if u >= 0xD800 && u <= 0xDFFF {
            return false;
        } else {
            assert(rest.skip(1) =~= units@.skip(i + 1));
            i += 1;
        }
    }
    true
}

/// The 16-bit units that bytes stand for, two by two, the least significant byte first. A last byte
/// without its partner is left out.
pub open spec fn units_of(bytes: Seq<u8>) -> Seq<u16> {
    Seq::new(bytes.len() / 2, |i: int| (bytes[2 * i] + 256 * bytes[2 * i + 1]) as u16)
}

/// The 16-bit units that bytes stand for.
pub fn units_from_bytes(bytes: &Vec<u8>) -> (units: Vec<u16>)
    ensures
        units@ == units_of(bytes@),
{
    let mut units: Vec<u16> = Vec::new();
    let total: usize = bytes.len();
    let n: usize = total / 2;
    let mut i: usize = 0;
    while i < n
        invariant
            i <= n,
            n == total / 2,
            total == bytes@.len(),
            units@ == units_of(bytes@).take(i as int),
        decreases n - i,
    {
        units.push(bytes[2 * i] as u16 + 256 * bytes[2 * i + 1] as u16);
        assert(units@ =~= units_of(bytes@).take(i + 1));
        i += 1;
    }
    assert(units@ =~= units_of(bytes@));
    units
}

/// The characters of a text.
pub fn chars_of(s: &str) -> (chars: Vec<char>)
    ensures
        chars@ == s@,
{
    let mut chars: Vec<char> = Vec::new();
    for c in it: s.chars()
        invariant
            chars@ == it.seq().take(it.index()),
            it.seq() == s@,
    {
        chars.push(c);
        assert(chars@ =~= it.seq().take(it.index() + 1));
    }
    assert(chars@ =~= s@);
    chars
}

/// Decimal notation is never empty.
pub proof fn lemma_decimal_nonempty(n: nat)
    ensures
        decimal(n).len() >= 1,
{
}

/// The UTF-16 of a text is that of its characters, one after the other. A character below 65536 is one unit,
/// its own code; another is a unit between `D800` and `DBFF` and one between `DC00` and `DFFF`, which
/// hold the upper and the lower ten bits of what it exceeds 65536 by.
pub proof fn law_utf16_of_text(s: Seq<char>, c: char)
    ensures
        utf16_units(Seq::empty()).len() == 0,
        ({
            let n = utf16_units(s).len() as int;
            let u = utf16_units(s.push(c));
            &&& u.take(n) == utf16_units(s)
            &&& (c as u32) < 0x1_0000 ==> u.len() == n + 1 && u[n] == c as u32
            &&& (c as u32) >= 0x1_0000 ==> {
                &&& u.len() == n + 2
                &&& 0xD800 <= u[n] < 0xDC00 <= u[n + 1] < 0xE000
                &&& 0x1_0000 + (u[n] - 0xD800) * 0x400 + (u[n + 1] - 0xDC00) == c as u32
            }
        }),
{
    let n = utf16_units(s).len() as int;
    vstd::utf8::char_is_scalar(c);
    assert(s.push(c).drop_last() =~= s);
    assert(utf16_units(s.push(c)).take(n) =~= utf16_units(s));
}

/// Decoding UTF-16 puts the replacement character in the place of a half pair, and goes on behind it; text
/// has no half pairs.
pub proof fn law_utf16_half_pairs(u: u16, rest: Seq<u16>, t: Seq<char>)
    ensures
        0xDC00 <= u <= 0xDFFF || (0xD800 <= u <= 0xDBFF && !(rest.len() > 0 && 0xDC00 <= rest[0]
            <= 0xDFFF)) ==> {
            &&& utf16_decoded(seq![u] + rest) == seq!['\u{FFFD}'] + utf16_decoded(rest)
            &&& !utf16_paired(seq![u] + rest)
        },
        u < 0xD800 || 0xDFFF < u ==> {
            &&& utf16_decoded(seq![u] + rest) == seq![u as char] + utf16_decoded(rest)
            &&& utf16_paired(seq![u] + rest) == utf16_paired(rest)
        },
        utf16_paired(utf16_units(t)),
    decreases t.len(),
{
    assert((seq![u] + rest).skip(1) =~= rest);
    assert(forall|i: int| 0 <= i < rest.len() ==> (seq![u] + rest)[i + 1] == rest[i]);
    if t.len() > 0 {
        let c = t[0];
        let tail = t.skip(1);
        law_utf16_half_pairs(u, rest, tail);
        lemma_utf16_first(c, tail);
        assert(seq![c] + tail =~= t);
        vstd::utf8::char_is_scalar(c);
        assert(utf16_units(t).skip(char_units(c).len() as int) =~= utf16_units(tail));
    }
}

/// Two bytes are a unit, the first of which counts ones.
pub proof fn law_bytes_are_units(bytes: Seq<u8>, i: int)
    requires
        0 <= i,
        2 * i + 1 < bytes.len(),
    ensures
        units_of(bytes).len() == bytes.len() / 2,
        units_of(bytes)[i] == bytes[2 * i] + 256 * bytes[2 * i + 1],
{
}

/// What is left of a text without the white space at its ends: only white space is gone, and none is left
/// at the ends.
pub proof fn law_trimmed(s: Seq<char>)
    ensures
        exists|i: int, j: int|
            0 <= i <= j <= s.len() && trimmed(s) == #[trigger] s.subrange(i, j) && (forall|k: int|
                0 <= k < i || j <= k < s.len() ==> is_white_space(#[trigger] s[k])),
        trimmed(s).len() > 0 ==> !is_white_space(trimmed(s)[0]) && !is_white_space(trimmed(s).last()),
{
    let (t, i) = (trimmed_start(s), s.len() - trimmed_start(s).len());
    lemma_trimmed_start(s);
    lemma_trimmed_end(t);
    let j = i + trimmed(s).len();
    assert(trimmed(s) =~= s.subrange(i, j));
    assert forall|k: int| 0 <= k < i || j <= k < s.len() implies is_white_space(#[trigger] s[k]) by {
        if j <= k {
            assert(t[k - i] == s[k]);
        }
    }
}

/// What is gone from the start of a text.
proof fn lemma_trimmed_start(s: Seq<char>)
    ensures
        ({
            let t = trimmed_start(s);
            let i = s.len() - t.len();
            &&& 0 <= i
            &&& t == s.skip(i)
            &&& forall|k: int| 0 <= k < i ==> is_white_space(#[trigger] s[k])
            &&& t.len() > 0 ==> !is_white_space(t[0])
        }),
    decreases s.len(),
{
    if s.len() > 0 && is_white_space(s[0]) {
        let r = s.drop_first();
        lemma_trimmed_start(r);
        let t = trimmed_start(s);
        let i = s.len() - t.len();
        assert(t =~= s.skip(i));
        assert forall|k: int| 0 <= k < i implies is_white_space(#[trigger] s[k]) by {
            if k > 0 {
                assert(r[k - 1] == s[k]);
            }
        }
    } else {
        assert(s.skip(0) =~= s);
    }
}

/// What is gone from the end of a text.
proof fn lemma_trimmed_end(s: Seq<char>)
    ensures
        ({
            let t = trimmed_end(s);
            &&& t.len() <= s.len()
            &&& t == s.take(t.len() as int)
            &&& forall|k: int| t.len() <= k < s.len() ==> is_white_space(#[trigger] s[k])
            &&& t.len() > 0 ==> !is_white_space(t.last())
            &&& s.len() > 0 && !is_white_space(s[0]) ==> t.len() > 0 && t[0] == s[0]
        }),
    decreases s.len(),
{
    if s.len() > 0 && is_white_space(s.last()) {
        let r = s.drop_last();
        lemma_trimmed_end(r);
        let t = trimmed_end(s);
        assert(t =~= s.take(t.len() as int));
        assert forall|k: int| t.len() <= k < s.len() implies is_white_space(#[trigger] s[k]) by {
            if k < s.len() - 1 {
                assert(r[k] == s[k]);
            }
        }
    } else {
        assert(s.take(s.len() as int) =~= s);
    }
}

/// Which characters are white space: of those of ASCII the blank and the five from the tabulator to the
/// carriage return, and the other separators of Unicode.
pub proof fn law_white_space(c: char)
    ensures
        (c as u32) < 0x80 ==> is_white_space(c) == (c as u32 == 32 || 9 <= c as u32 <= 13),
        (c as u32) >= 0x80 ==> is_white_space(c) == (c as u32 == 0x85 || c as u32 == 0xA0 || c as u32
            == 0x1680 || 0x2000 <= c as u32 <= 0x200A || c as u32 == 0x2028 || c as u32 == 0x2029
            || c as u32 == 0x202F || c as u32 == 0x205F || c as u32 == 0x3000),
{
}

/// The digits of a number: the one that is `i` from the end counts `10^i`, and the first is not 0 unless the
/// number is.
pub proof fn law_decimal_digits(n: nat, i: nat)
    ensures
        i < decimal(n).len() ==> decimal(n)[decimal(n).len() - 1 - i] as u32 == 48 + (n as int / pow(
            10,
            i,
        )) % 10,
        i >= decimal(n).len() ==> n as int / pow(10, i) == 0,
        n > 0 ==> decimal(n)[0] != '0',
    decreases n,
{
    let d = decimal(n);
    reveal(pow);
    lemma_digit(n % 10);
    if n >= 10 {
        if i > 0 {
            law_decimal_digits(n / 10, (i - 1) as nat);
            vstd::arithmetic::power::lemma_pow_positive(10, (i - 1) as nat);
            vstd::arithmetic::div_mod::lemma_div_denominator(n as int, 10, pow(10, (i - 1) as nat));
        } else {
            law_decimal_digits(n / 10, 0);
        }
        assert(d[0] == decimal(n / 10)[0]);
    } else {
        lemma_digit(n);
        if i > 0 {
            vstd::arithmetic::power::lemma_pow_positive(10, (i - 1) as nat);
            assert(pow(10, i) >= 10);
            vstd::arithmetic::div_mod::lemma_basic_div(n as int, pow(10, i));
        }
    }
}

/// The character of a digit.
proof fn lemma_digit(d: nat)
    requires
        d < 10,
    ensures
        digit(d) as u32 == 48 + d,
        d > 0 ==> digit(d) != '0',
{
    vstd::utf8::char_u32_cast(digit(d), (48 + d) as u32);
}

} // verus!

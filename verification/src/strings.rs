//! Searching, cutting and comparing texts.

use crate::text::{chars_of, trimmed_end, trimmed_start, white_space};
use vstd::arithmetic::power::pow;
use vstd::prelude::*;
use vstd::string::{StrSliceExecFns, StringExecFns};
use vstd::utf8::is_ascii_chars;

verus! {

/// The index of the first occurrence of a character.
pub open spec fn position(s: Seq<char>, c: char) -> Option<int>
    decreases s.len(),
{
    if s.len() == 0 {
        None
    } else if s[0] == c {
        Some(0)
    } else {
        match position(s.skip(1), c) {
            Some(i) => Some(i + 1),
            None => None,
        }
    }
}

/// The index of the first occurrence of a character.
pub fn find_char(s: &str, c: char) -> (r: Option<usize>)
    ensures
        match r {
            Some(i) => position(s@, c) == Some(i as int) && i < s@.len() && i < usize::MAX,
            None => position(s@, c) is None,
        },
{
    let chars = chars_of(s);
    let mut i: usize = 0;
    assert(s@.skip(0) =~= s@);
    while i < chars.len()
        invariant
            i <= chars@.len(),
            chars@ == s@,
            position(s@, c) == (match position(s@.skip(i as int), c) {
                Some(k) => Some(k + i),
                None => None,
            }),
        decreases chars@.len() - i,
    {
        if chars[i] == c {
            return Some(i);
        }
        assert(s@.skip(i as int).skip(1) =~= s@.skip(i + 1));
        i += 1;
    }
    None
}

/// How often a character occurs.
pub open spec fn occurrences(s: Seq<char>, c: char) -> nat
    decreases s.len(),
{
    if s.len() == 0 {
        0
    } else {
        occurrences(s.drop_last(), c) + (if s.last() == c {
            1nat
        } else {
            0nat
        })
    }
}

/// How often a character occurs.
pub fn count_char(s: &str, c: char) -> (n: usize)
    ensures
        n == occurrences(s@, c),
{
    let chars = chars_of(s);
    let mut n: usize = 0;
    let mut i: usize = 0;
    assert(s@.take(0) =~= Seq::<char>::empty());
    while i < chars.len()
        invariant
            n <= i <= chars@.len(),
            chars@ == s@,
            n == occurrences(s@.take(i as int), c),
        decreases chars@.len() - i,
    {
        assert(s@.take(i + 1).drop_last() =~= s@.take(i as int));
        if chars[i] == c {
            n += 1;
        }
        i += 1;
    }
    assert(s@.take(i as int) =~= s@);
    n
}

/// The characters of a text before an index.
pub fn before(s: &str, i: usize) -> (t: String)
    requires
        i <= s@.len(),
    ensures
        t@ == s@.take(i as int),
{
    let t = String::from_str(s.substring_char(0, i));
    assert(s@.subrange(0, i as int) =~= s@.take(i as int));
    t
}

/// The characters of a text from an index on.
pub fn from(s: &str, i: usize) -> (t: String)
    requires
        i <= s@.len(),
    ensures
        t@ == s@.skip(i as int),
{
    let n: usize = s.unicode_len();
    let t = String::from_str(s.substring_char(i, n));
    assert(s@.subrange(i as int, n as int) =~= s@.skip(i as int));
    t
}

/// A text without the white space at its start.
pub fn trim_start(s: &str) -> (t: String)
    ensures
        t@ == trimmed_start(s@),
{
    let chars = chars_of(s);
    let mut i: usize = 0;
    assert(s@.skip(0) =~= s@);
    while i < chars.len() && white_space(chars[i])
        invariant
            i <= chars@.len(),
            chars@ == s@,
            trimmed_start(s@) == trimmed_start(s@.skip(i as int)),
        decreases chars@.len() - i,
    {
        assert(s@.skip(i as int).drop_first() =~= s@.skip(i + 1));
        i += 1;
    }
    assert(trimmed_start(s@) == s@.skip(i as int));
    from(s, i)
}

/// A text without the white space at its end.
pub fn trim_end(s: &str) -> (t: String)
    ensures
        t@ == trimmed_end(s@),
{
    let chars = chars_of(s);
    let mut j: usize = chars.len();
    assert(s@.take(j as int) =~= s@);
    while j > 0 && white_space(chars[j - 1])
        invariant
            j <= chars@.len(),
            chars@ == s@,
            trimmed_end(s@) == trimmed_end(s@.take(j as int)),
        decreases j,
    {
        assert(s@.take(j as int).drop_last() =~= s@.take(j - 1));
        j -= 1;
    }
    assert(trimmed_end(s@) == s@.take(j as int));
    before(s, j)
}

/// A text without the characters at its end that are the given one.
pub open spec fn without_end(s: Seq<char>, c: char) -> Seq<char>
    decreases s.len(),
{
    if s.len() > 0 && s.last() == c {
        without_end(s.drop_last(), c)
    } else {
        s
    }
}

/// A text without the characters at its end that are the given one.
pub fn trim_end_char(s: &str, c: char) -> (t: String)
    ensures
        t@ == without_end(s@, c),
{
    let chars = chars_of(s);
    let mut j: usize = chars.len();
    assert(s@.take(j as int) =~= s@);
    while j > 0 && chars[j - 1] == c
        invariant
            j <= chars@.len(),
            chars@ == s@,
            without_end(s@, c) == without_end(s@.take(j as int), c),
        decreases j,
    {
        assert(s@.take(j as int).drop_last() =~= s@.take(j - 1));
        j -= 1;
    }
    assert(without_end(s@, c) == s@.take(j as int));
    before(s, j)
}

/// Whether two texts are the same.
pub fn same(a: &str, b: &str) -> (r: bool)
    ensures
        r == (a@ == b@),
{
    let x = chars_of(a);
    let y = chars_of(b);
    if x.len() != y.len() {
        return false;
    }
    let mut i: usize = 0;
    while i < x.len()
        invariant
            i <= x@.len() == y@.len(),
            x@ == a@,
            y@ == b@,
            forall|k: int| 0 <= k < i ==> x@[k] == y@[k],
        decreases x@.len() - i,
    {
        if x[i] != y[i] {
            return false;
        }
        i += 1;
    }
    assert(a@ =~= b@);
    true
}

/// Whether a text starts with another.
pub open spec fn starts(s: Seq<char>, prefix: Seq<char>) -> bool {
    prefix.len() <= s.len() && s.take(prefix.len() as int) == prefix
}

/// Whether a text starts with another.
pub fn starts_with(s: &str, prefix: &str) -> (r: bool)
    ensures
        r == starts(s@, prefix@),
{
    let n: usize = prefix.unicode_len();
    if n > s.unicode_len() {
        return false;
    }
    same(before(s, n).as_str(), prefix)
}

/// An ASCII letter in lower case; another character as it is.
pub open spec fn ascii_lower(c: char) -> char {
    if 'A' <= c <= 'Z' {
        (c as u32 + 32) as char
    } else {
        c
    }
}

/// Whether two texts are the same but for the case of ASCII letters.
pub open spec fn same_but_case(a: Seq<char>, b: Seq<char>) -> bool {
    a.map_values(|c: char| ascii_lower(c)) == b.map_values(|c: char| ascii_lower(c))
}

/// An ASCII letter in lower case, as its code.
fn lower_code(c: char) -> (n: u32)
    ensures
        n == ascii_lower(c) as u32,
{
    let n: u32 = c as u32;
    if n >= 65 && n <= 90 {
        proof {
            vstd::utf8::char_u32_cast(ascii_lower(c), (n + 32) as u32);
        }
        n + 32
    } else {
        n
    }
}

/// Whether two texts are the same but for the case of ASCII letters.
pub fn eq_ignore_ascii_case(a: &str, b: &str) -> (r: bool)
    ensures
        r == same_but_case(a@, b@),
{
    let x = chars_of(a);
    let y = chars_of(b);
    let ghost l = |c: char| ascii_lower(c);
    assert(a@.map_values(l).len() == x@.len());
    assert(b@.map_values(l).len() == y@.len());
    if x.len() != y.len() {
        return false;
    }
    let mut i: usize = 0;
    while i < x.len()
        invariant
            i <= x@.len() == y@.len(),
            x@ == a@,
            y@ == b@,
            l == (|c: char| ascii_lower(c)),
            forall|k: int| 0 <= k < i ==> ascii_lower(x@[k]) == ascii_lower(y@[k]),
        decreases x@.len() - i,
    {
        let m: u32 = lower_code(x[i]);
        let n: u32 = lower_code(y[i]);
        if m != n {
            assert(a@.map_values(l)[i as int] != b@.map_values(l)[i as int]);
            return false;
        }
        proof {
            vstd::utf8::char_u32_cast(ascii_lower(x@[i as int]), m);
            vstd::utf8::char_u32_cast(ascii_lower(y@[i as int]), n);
        }
        i += 1;
    }
    assert(a@.map_values(l) =~= b@.map_values(l));
    true
}

/// What `str::to_lowercase` makes of a text.
pub uninterp spec fn lowercased(s: Seq<char>) -> Seq<char>;

/// Calls `str::to_lowercase`. The result is that of the text alone; in a text of ASCII characters the
/// letters are in lower case and the others as they are.
#[verifier::external_body]
pub(crate) fn to_lowercase(s: &str) -> (t: String)
    ensures
        t@ == lowercased(s@),
        is_ascii_chars(s@) ==> t@ == s@.map_values(|c: char| ascii_lower(c)),
{
    s.to_lowercase()
}

/// The number that decimal digits stand for, most significant first.
pub open spec fn digits_value(s: Seq<char>) -> Option<nat>
    decreases s.len(),
{
    if s.len() == 0 {
        Some(0)
    } else {
        match digits_value(s.drop_last()) {
            Some(n) => if '0' <= s.last() <= '9' {
                Some(10 * n + (s.last() as u32 - '0' as u32) as nat)
            } else {
                None
            },
            None => None,
        }
    }
}

/// The 16-bit number that a text stands for: decimal digits, perhaps behind a plus sign.
pub open spec fn number_of(s: Seq<char>) -> Option<u16> {
    let digits = if s.len() > 0 && s[0] == '+' {
        s.skip(1)
    } else {
        s
    };
    match digits_value(digits) {
        Some(n) => if digits.len() > 0 && n <= 0xFFFF {
            Some(n as u16)
        } else {
            None
        },
        None => None,
    }
}

/// Digits that go on after a number that is too large make one that is too large.
proof fn lemma_digits_grow(s: Seq<char>, i: int)
    requires
        0 <= i <= s.len(),
    ensures
        digits_value(s.take(i)) is None ==> digits_value(s) is None,
        (digits_value(s.take(i)) matches Some(n) && n > 0xFFFF) ==> (digits_value(s) matches Some(m)
            ==> m > 0xFFFF),
    decreases s.len() - i,
{
    if i < s.len() {
        lemma_digits_grow(s, i + 1);
        assert(s.take(i + 1).drop_last() =~= s.take(i));
    } else {
        assert(s.take(i) =~= s);
    }
}

/// The 16-bit number that a text stands for.
pub fn parse_u16(s: &str) -> (r: Option<u16>)
    ensures
        r == number_of(s@),
{
    let all = chars_of(s);
    let mut i: usize = 0;
    if all.len() > 0 && all[0] == '+' {
        i = 1;
    }
    let ghost digits = if i == 1 {
        s@.skip(1)
    } else {
        s@
    };
    let start: usize = i;
    if i == all.len() {
        return None;
    }
    let mut n: u32 = 0;
    assert(digits.take(0) =~= Seq::<char>::empty());
    while i < all.len()
        invariant
            start <= i <= all@.len(),
            start == (if s@.len() > 0 && s@[0] == '+' {
                1int
            } else {
                0
            }),
            start < s@.len(),
            all@ == s@,
            digits == s@.skip(start as int),
            n <= 0xFFFF,
            digits_value(digits.take(i - start)) == Some(n as nat),
        decreases all@.len() - i,
    {
        let c: char = all[i];
        let ghost longer = digits.take(i + 1 - start);
        assert(longer.drop_last() =~= digits.take(i - start));
        assert(longer.last() == c);
        let code: u32 = c as u32;
        if c < '0' || c > '9' {
            proof {
                lemma_digits_grow(digits, i + 1 - start);
                assert(s@.skip(0) =~= s@);
            }
            return None;
        }
        let ghost m = n;
        assert(code == c as u32 && '0' as u32 == 48 && '9' as u32 == 57);
        assert(48 <= code <= 57);
        assert(digits_value(longer.drop_last()) == Some(m as nat));
        n = 10 * n + (code - 48);
        assert(longer.len() > 0);
        assert(digits_value(longer) == Some(10 * (m as nat) + (c as u32 - '0' as u32) as nat));
        assert(digits_value(longer) == Some(n as nat));
        if n > 0xFFFF {
            proof {
                lemma_digits_grow(digits, i + 1 - start);
                assert(s@.skip(0) =~= s@);
            }
            return None;
        }
        i += 1;
    }
    assert(digits.take(i - start) =~= digits);
    assert(s@.skip(0) =~= s@);
    Some(n as u16)
}

/// The first occurrence of a character: it stands there and not before, and where there is none it does not
/// occur.
pub proof fn law_first_occurrence(s: Seq<char>, c: char)
    ensures
        match position(s, c) {
            Some(i) => 0 <= i < s.len() && s[i] == c && forall|k: int| 0 <= k < i ==> #[trigger] s[k] != c,
            None => !s.contains(c),
        },
    decreases s.len(),
{
    if s.len() > 0 && s[0] != c {
        let t = s.skip(1);
        law_first_occurrence(t, c);
        assert(forall|k: int| 0 < k < s.len() ==> t[k - 1] == #[trigger] s[k]);
    }
}

/// Occurrences add up: none in nothing, and one for a character that is the one.
pub proof fn law_occurrences(s: Seq<char>, t: Seq<char>, c: char)
    ensures
        occurrences(Seq::empty(), c) == 0,
        occurrences(s.push(c), c) == occurrences(s, c) + 1,
        forall|x: char| x != c ==> #[trigger] occurrences(s.push(x), c) == occurrences(s, c),
        occurrences(s + t, c) == occurrences(s, c) + occurrences(t, c),
        (occurrences(s, c) == 0) == !s.contains(c),
    decreases t.len(), s.len(),
{
    assert(forall|x: char| #[trigger] s.push(x).drop_last() =~= s);
    if t.len() == 0 {
        assert(s + t =~= s);
        if s.len() > 0 {
            law_occurrences(s.drop_last(), t, c);
            let r = s.drop_last();
            assert(s =~= r.push(s.last()));
            if s.contains(c) && s.last() != c {
                let k = s.index_of(c);
                assert(r[k] == c);
            }
            if r.contains(c) {
                let k = r.index_of(c);
                assert(s[k] == c);
            }
        }
    } else {
        law_occurrences(s, t.drop_last(), c);
        assert((s + t).drop_last() =~= s + t.drop_last());
    }
}

/// A text without so many of one character at its end: only that character is gone, and the text does not
/// end with it.
pub proof fn law_without_end(s: Seq<char>, c: char)
    ensures
        ({
            let t = without_end(s, c);
            &&& t.len() <= s.len()
            &&& t == s.take(t.len() as int)
            &&& forall|k: int| t.len() <= k < s.len() ==> #[trigger] s[k] == c
            &&& t.len() > 0 ==> t.last() != c
        }),
    decreases s.len(),
{
    let t = without_end(s, c);
    if s.len() > 0 && s.last() == c {
        law_without_end(s.drop_last(), c);
        assert(t =~= s.take(t.len() as int));
        assert forall|k: int| t.len() <= k < s.len() implies #[trigger] s[k] == c by {
            if k < s.len() - 1 {
                assert(s.drop_last()[k] == s[k]);
            }
        }
    } else {
        assert(s.take(s.len() as int) =~= s);
    }
}

/// Only the 26 capital letters of ASCII have another form in lower case, the letter that is 32 behind them.
pub proof fn law_ascii_lower(c: char)
    ensures
        65 <= c as u32 <= 90 ==> ascii_lower(c) as u32 == c as u32 + 32,
        c as u32 <= 64 || 91 <= c as u32 ==> ascii_lower(c) == c,
{
    if 65 <= c as u32 <= 90 {
        vstd::utf8::char_u32_cast(ascii_lower(c), (c as u32 + 32) as u32);
    }
}

/// Whether texts are the same but for the case of ASCII letters, character by character.
pub proof fn law_same_but_case(a: Seq<char>, b: Seq<char>)
    ensures
        same_but_case(a, b) == (a.len() == b.len() && forall|i: int|
            0 <= i < a.len() ==> ascii_lower(#[trigger] a[i]) == ascii_lower(b[i])),
{
    let l = |c: char| ascii_lower(c);
    if same_but_case(a, b) {
        assert(a.map_values(l).len() == b.map_values(l).len());
        assert forall|i: int| 0 <= i < a.len() implies ascii_lower(#[trigger] a[i]) == ascii_lower(
            b[i],
        ) by {
            assert(a.map_values(l)[i] == b.map_values(l)[i]);
        }
    } else if a.len() == b.len() && forall|i: int|
        0 <= i < a.len() ==> ascii_lower(#[trigger] a[i]) == ascii_lower(b[i]) {
        assert(a.map_values(l) =~= b.map_values(l));
    }
}

/// The number that digits are: each counts ten times what the one behind it counts.
pub open spec fn numeral(s: Seq<char>) -> int
    decreases s.len(),
{
    if s.len() == 0 {
        0
    } else {
        (s[0] as u32 - 48) * pow(10, (s.len() - 1) as nat) + numeral(s.drop_first())
    }
}

/// Whether a text is digits and nothing else.
pub open spec fn is_numeral(s: Seq<char>) -> bool {
    s.len() > 0 && forall|i: int| 0 <= i < s.len() ==> 48 <= (#[trigger] s[i]) as u32 <= 57
}

/// One more digit at the end.
pub proof fn lemma_numeral_push(s: Seq<char>)
    requires
        s.len() > 0,
    ensures
        numeral(s) == 10 * numeral(s.drop_last()) + (s.last() as u32 - 48),
    decreases s.len(),
{
    reveal(pow);
    if s.len() == 1 {
        assert(s.drop_last() =~= Seq::<char>::empty());
        assert(s.drop_first() =~= Seq::<char>::empty());
        assert(numeral(s.drop_first()) == 0);
        assert(pow(10, 0) == 1);
    } else {
        let t = s.drop_first();
        lemma_numeral_push(t);
        assert(t.drop_last() =~= s.drop_last().drop_first());
        let x = s[0] as u32 - 48;
        let y = pow(10, (s.len() - 2) as nat);
        assert(pow(10, (s.len() - 1) as nat) == 10 * y);
        assert(x * (10 * y) == 10 * (x * y)) by (nonlinear_arith);
    }
}

/// The codes of the digits.
proof fn lemma_digit_code(c: char)
    ensures
        ('0' <= c <= '9') == (48 <= c as u32 <= 57),
{
}

/// The value of digits is the number that they are.
proof fn lemma_digits_value(s: Seq<char>)
    ensures
        (forall|i: int| 0 <= i < s.len() ==> 48 <= (#[trigger] s[i]) as u32 <= 57) ==> (digits_value(
            s,
        ) matches Some(n) && n == numeral(s)),
        (exists|i: int| 0 <= i < s.len() && !(48 <= (#[trigger] s[i]) as u32 <= 57)) ==> digits_value(s)
            is None,
    decreases s.len(),
{
    if s.len() > 0 {
        let t = s.drop_last();
        lemma_digits_value(t);
        lemma_numeral_push(s);
        lemma_digit_code(s.last());
        assert(forall|i: int| 0 <= i < t.len() ==> t[i] == #[trigger] s[i]);
        if forall|i: int| 0 <= i < s.len() ==> 48 <= (#[trigger] s[i]) as u32 <= 57 {
            assert forall|i: int| 0 <= i < t.len() implies 48 <= (#[trigger] t[i]) as u32 <= 57 by {
                assert(s[i] == t[i]);
            }
            assert(s.last() == s[s.len() - 1]);
            assert(digits_value(t) matches Some(n) && n == numeral(t));
        }
        if exists|i: int| 0 <= i < s.len() && !(48 <= (#[trigger] s[i]) as u32 <= 57) {
            let i = choose|i: int| 0 <= i < s.len() && !(48 <= (#[trigger] s[i]) as u32 <= 57);
            if i < t.len() {
                assert(!(48 <= t[i] as u32 <= 57));
            }
        }
    }
}

/// A text is a number of 16 bits where it is digits, perhaps behind a plus sign, of a number below 65536;
/// other texts are none.
pub proof fn law_number_of(s: Seq<char>)
    ensures
        ({
            let digits = if s.len() > 0 && s[0] == '+' {
                s.skip(1)
            } else {
                s
            };
            match number_of(s) {
                Some(n) => is_numeral(digits) && numeral(digits) == n,
                None => !is_numeral(digits) || numeral(digits) > 65535,
            }
        }),
{
    let digits = if s.len() > 0 && s[0] == '+' {
        s.skip(1)
    } else {
        s
    };
    lemma_digits_value(digits);
}

} // verus!

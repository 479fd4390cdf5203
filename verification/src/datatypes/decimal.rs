//! Decimal and numeric values.

use crate::bytes::{le_bytes, le_nat, lemma_le_bytes_len, pow256};
use crate::error::{Error, ErrorKind, TdsResult};
use crate::strings::{is_numeral, lemma_numeral_push, numeral};
use crate::text::{
    decimal, decimal_text, law_decimal_digits, lemma_decimal_nonempty, number_message, text_message, trim, trimmed,
    zeros, zeros_text,
};
use bigdecimal::num_bigint::{BigInt, Sign};
use bigdecimal::BigDecimal;
use vstd::arithmetic::power::{
    lemma_pow0, lemma_pow_adds, lemma_pow_increases, lemma_pow_positive, pow,
};
use vstd::prelude::*;
use vstd::string::{StrSliceExecFns, StringExecFns};

verus! {

/// A decimal number: sign, scale, precision, and the magnitude in units of `10^-scale`, as 32-bit
/// parts, least significant first.
#[derive(Clone, Debug)]
pub struct DecimalParts {
    pub is_positive: bool,
    pub scale: u8,
    pub precision: u8,
    pub int_parts: Vec<i32>,
}

/// The fields of a decimal number.
#[verifier::ext_equal]
pub struct DecimalView {
    pub is_positive: bool,
    pub scale: u8,
    pub precision: u8,
    pub int_parts: Seq<i32>,
}

impl View for DecimalParts {
    type V = DecimalView;

    open spec fn view(&self) -> DecimalView {
        DecimalView {
            is_positive: self.is_positive,
            scale: self.scale,
            precision: self.precision,
            int_parts: self.int_parts@,
        }
    }
}

/// The part at an index of a magnitude, 0 past its end.
pub open spec fn part_or_zero(parts: Seq<i32>, i: int) -> i32 {
    if 0 <= i < parts.len() {
        parts[i]
    } else {
        0
    }
}

/// Whether two magnitudes have the same parts, where a shorter one is taken to go on with zeros.
pub open spec fn same_magnitude(a: Seq<i32>, b: Seq<i32>) -> bool {
    forall|i: int| 0 <= i ==> #[trigger] part_or_zero(a, i) == part_or_zero(b, i)
}

impl DecimalView {
    /// Whether two decimal numbers count as equal: the same sign, scale and precision, and
    /// magnitudes that differ at most in trailing zero parts.
    pub open spec fn equal(self, other: DecimalView) -> bool {
        &&& same_magnitude(self.int_parts, other.int_parts)
        &&& self.is_positive == other.is_positive
        &&& self.scale == other.scale
        &&& self.precision == other.precision
    }
}

impl PartialEq for DecimalParts {
    fn eq(&self, other: &DecimalParts) -> (r: bool) {
        let n: usize = if self.int_parts.len() > other.int_parts.len() {
            self.int_parts.len()
        } else {
            other.int_parts.len()
        };
        let mut i: usize = 0;
        while i < n
            invariant
                i <= n,
                n >= self.int_parts@.len(),
                n >= other.int_parts@.len(),
                forall|k: int|
                    0 <= k < i ==> #[trigger] part_or_zero(self.int_parts@, k) == part_or_zero(
                        other.int_parts@,
                        k,
                    ),
            decreases n - i,
        {
            let a: i32 = if i < self.int_parts.len() {
                self.int_parts[i]
            } else {
                0
            };
            let b: i32 = if i < other.int_parts.len() {
                other.int_parts[i]
            } else {
                0
            };
            assert(a == part_or_zero(self.int_parts@, i as int));
            assert(b == part_or_zero(other.int_parts@, i as int));
            if a != b {
                return false;
            }
            i += 1;
        }
        assert(same_magnitude(self.int_parts@, other.int_parts@));
        self.is_positive == other.is_positive && self.scale == other.scale && self.precision
            == other.precision
    }
}

impl vstd::std_specs::cmp::PartialEqSpecImpl for DecimalParts {
    open spec fn obeys_eq_spec() -> bool {
        true
    }

    open spec fn eq_spec(&self, other: &DecimalParts) -> bool {
        self@.equal(other@)
    }
}

/// Equality of decimal numbers is reflexive.
pub proof fn law_decimal_equal_reflexive(a: DecimalView)
    ensures
        a.equal(a),
{
}

/// Equality of decimal numbers is symmetric.
pub proof fn law_decimal_equal_symmetric(a: DecimalView, b: DecimalView)
    ensures
        a.equal(b) == b.equal(a),
{
    if a.equal(b) {
        assert forall|i: int| 0 <= i implies #[trigger] part_or_zero(b.int_parts, i)
            == part_or_zero(a.int_parts, i) by {
            assert(part_or_zero(a.int_parts, i) == part_or_zero(b.int_parts, i));
        }
    }
    if b.equal(a) {
        assert forall|i: int| 0 <= i implies #[trigger] part_or_zero(a.int_parts, i)
            == part_or_zero(b.int_parts, i) by {
            assert(part_or_zero(b.int_parts, i) == part_or_zero(a.int_parts, i));
        }
    }
}

/// Equality of decimal numbers is transitive.
pub proof fn law_decimal_equal_transitive(a: DecimalView, b: DecimalView, c: DecimalView)
    requires
        a.equal(b),
        b.equal(c),
    ensures
        a.equal(c),
{
    assert forall|i: int| 0 <= i implies #[trigger] part_or_zero(a.int_parts, i) == part_or_zero(
        c.int_parts,
        i,
    ) by {
        assert(part_or_zero(a.int_parts, i) == part_or_zero(b.int_parts, i));
        assert(part_or_zero(b.int_parts, i) == part_or_zero(c.int_parts, i));
    }
}

/// Zero parts at the end of a magnitude do not count.
pub proof fn law_decimal_trailing_zeros(a: DecimalView, n: nat)
    ensures
        a.equal(DecimalView { int_parts: a.int_parts + Seq::new(n, |i: int| 0i32), ..a }),
{
    let b = a.int_parts + Seq::new(n, |i: int| 0i32);
    assert forall|i: int| 0 <= i implies #[trigger] part_or_zero(a.int_parts, i) == part_or_zero(
        b,
        i,
    ) by {}
}

/// `2^(32 i)`.
pub open spec fn pow32(i: nat) -> nat
    decreases i,
{
    if i == 0 {
        1
    } else {
        0x1_0000_0000 * pow32((i - 1) as nat)
    }
}

/// A part of a magnitude, as a number from 0 to `2^32 - 1`.
pub open spec fn part_value(part: i32) -> nat {
    part as u32 as nat
}

/// A part counts as the number that its 32 bits are without a sign.
pub proof fn law_part_value(part: i32)
    ensures
        part_value(part) == part || part_value(part) == part + 0x1_0000_0000,
        0 <= part_value(part) < 0x1_0000_0000,
{
    assert(part >= 0 ==> part as u32 == part) by (bit_vector);
    assert(part < 0 ==> part as u32 == part + 0x1_0000_0000) by (bit_vector);
}

/// The number that the parts of a magnitude make, least significant first.
pub open spec fn magnitude(parts: Seq<i32>) -> nat
    decreases parts.len(),
{
    if parts.len() == 0 {
        0
    } else {
        part_value(parts[0]) + 0x1_0000_0000 * magnitude(parts.drop_first())
    }
}

/// The lowest 32 bits of `n`, as a part.
pub open spec fn low_part(n: nat) -> i32 {
    (n % 0x1_0000_0000) as u32 as i32
}

/// The magnitude `n` in `k` parts, least significant first.
pub open spec fn parts_of(n: nat, k: nat) -> Seq<i32>
    decreases k,
{
    if k == 0 {
        Seq::empty()
    } else {
        seq![low_part(n)] + parts_of(n / 0x1_0000_0000, (k - 1) as nat)
    }
}

/// How many parts it takes to hold `n`, at least one.
pub open spec fn part_count(n: nat) -> nat
    decreases n,
{
    if n < 0x1_0000_0000 {
        1
    } else {
        1 + part_count(n / 0x1_0000_0000)
    }
}

/// How many bytes it takes to hold `n` as a two's complement number.
pub open spec fn signed_byte_len(n: nat) -> nat
    decreases n,
{
    if n < 128 {
        1
    } else {
        1 + signed_byte_len(n / 256)
    }
}

/// How many parts it takes to hold `n` as a two's complement number.
pub open spec fn signed_part_count(n: nat) -> nat {
    (signed_byte_len(n) + 3) / 4
}

/// A part taken out of a number has that value.
proof fn lemma_low_part(n: nat)
    ensures
        part_value(low_part(n)) == n % 0x1_0000_0000,
{
    let x = (n % 0x1_0000_0000) as u32;
    assert((x as i32) as u32 == x) by (bit_vector);
}

/// The parts of a number make up the number, where there are enough of them.
pub proof fn law_parts_make_number(n: nat, k: nat)
    requires
        n < pow32(k),
    ensures
        parts_of(n, k).len() == k,
        magnitude(parts_of(n, k)) == n,
    decreases k,
{
    if k > 0 {
        assert(n / 0x1_0000_0000 < pow32((k - 1) as nat));
        law_parts_make_number(n / 0x1_0000_0000, (k - 1) as nat);
        lemma_low_part(n);
        assert(parts_of(n, k).drop_first() =~= parts_of(n / 0x1_0000_0000, (k - 1) as nat));
    }
}

/// `part_count` parts are enough.
proof fn lemma_part_count(n: nat)
    ensures
        n < pow32(part_count(n)),
    decreases n,
{
    reveal_with_fuel(pow32, 2);
    if n >= 0x1_0000_0000 {
        lemma_part_count(n / 0x1_0000_0000);
    }
}

/// `signed_byte_len` bytes are enough.
proof fn lemma_signed_byte_len(n: nat)
    ensures
        signed_byte_len(n) >= 1,
        2 * n < pow256(signed_byte_len(n)),
    decreases n,
{
    reveal_with_fuel(pow256, 2);
    if n >= 128 {
        lemma_signed_byte_len(n / 256);
    }
}

/// `pow32` counts in groups of four bytes.
pub proof fn lemma_pow32_pow256(k: nat)
    ensures
        pow32(k) == pow256(4 * k),
    decreases k,
{
    reveal_with_fuel(pow256, 5);
    if k > 0 {
        lemma_pow32_pow256((k - 1) as nat);
        assert(4 * k - 4 == 4 * (k - 1));
    }
}

/// More bytes hold more.
proof fn lemma_pow256_monotone(a: nat, b: nat)
    requires
        a <= b,
    ensures
        0 < pow256(a) <= pow256(b),
    decreases b,
{
    if a < b {
        lemma_pow256_monotone(a, (b - 1) as nat);
    } else if a > 0 {
        lemma_pow256_monotone((a - 1) as nat, (b - 1) as nat);
    }
}

/// `signed_part_count` parts are enough.
proof fn lemma_signed_part_count(n: nat)
    ensures
        n < pow32(signed_part_count(n)),
{
    lemma_signed_byte_len(n);
    lemma_pow32_pow256(signed_part_count(n));
    lemma_pow256_monotone(signed_byte_len(n), 4 * signed_part_count(n));
}

/// `n` and what is left of it after `j` bytes have been taken off.
proof fn lemma_byte_at(n: nat, len: nat, j: nat)
    ensures
        j < len ==> le_bytes(n, len)[j as int] as nat == (n / pow256(j)) % 256,
        pow256(j) > 0,
    decreases j,
{
    lemma_pow256_monotone(0, j);
    lemma_le_bytes_len(n, len);
    if j < len {
        if j == 0 {
            assert(n / 1 == n);
        } else {
            lemma_byte_at(n / 256, (len - 1) as nat, (j - 1) as nat);
            lemma_le_bytes_len(n / 256, (len - 1) as nat);
            assert(le_bytes(n, len)[j as int] == le_bytes(n / 256, (len - 1) as nat)[j - 1]);
            vstd::arithmetic::div_mod::lemma_div_denominator(
                n as int,
                256,
                pow256((j - 1) as nat) as int,
            );
        }
    }
}

/// The part at index `i` of a number.
proof fn lemma_parts_index(n: nat, k: nat, i: nat)
    requires
        i < k,
    ensures
        parts_of(n, k).len() == k,
        parts_of(n, k)[i as int] == low_part(n / pow32(i)),
        pow32(i) > 0,
    decreases k,
{
    lemma_parts_len(n, k);
    lemma_pow32_pow256(i);
    lemma_pow256_monotone(0, 4 * i);
    if i == 0 {
        assert(n / 1 == n);
    } else {
        lemma_parts_index(n / 0x1_0000_0000, (k - 1) as nat, (i - 1) as nat);
        vstd::arithmetic::div_mod::lemma_div_denominator(
            n as int,
            0x1_0000_0000,
            pow32((i - 1) as nat) as int,
        );
    }
}

/// The number of parts asked for is the number given.
proof fn lemma_parts_len(n: nat, k: nat)
    ensures
        parts_of(n, k).len() == k,
    decreases k,
{
    if k > 0 {
        lemma_parts_len(n / 0x1_0000_0000, (k - 1) as nat);
    }
}

/// A number below `256^len` has only zero bytes from byte `len` on.
proof fn lemma_byte_past_end(n: nat, len: nat, j: nat)
    requires
        n < pow256(len),
        len <= j,
    ensures
        (n / pow256(j)) % 256 == 0,
{
    lemma_pow256_monotone(len, j);
    vstd::arithmetic::div_mod::lemma_basic_div(n as int, pow256(j) as int);
}

/// Dividing by one more byte.
proof fn lemma_div_next_byte(n: nat, j: nat)
    ensures
        n / pow256(j + 1) == (n / pow256(j)) / 256,
{
    lemma_pow256_monotone(0, j);
    vstd::arithmetic::div_mod::lemma_div_denominator(n as int, pow256(j) as int, 256);
    assert(pow256(j) * 256 == pow256(j + 1));
}

/// Four bytes make a part.
#[verifier::rlimit(60)]
#[verifier::spinoff_prover]
proof fn lemma_four_bytes(n: nat, i: nat)
    ensures
        ({
            let j = 4 * i;
            (n / pow32(i)) % 0x1_0000_0000 == (n / pow256(j)) % 256 + 0x100 * ((n / pow256(j + 1))
                % 256) + 0x1_0000 * ((n / pow256(j + 2)) % 256) + 0x100_0000 * ((n / pow256(j + 3))
                % 256)
        }),
{
    let j = 4 * i;
    lemma_pow32_pow256(i);
    lemma_div_next_byte(n, j);
    lemma_div_next_byte(n, j + 1);
    lemma_div_next_byte(n, j + 2);
    let m = n / pow256(j);
    assert(j + 1 + 1 == j + 2 && j + 2 + 1 == j + 3);
    assert(m % 0x1_0000_0000 == m % 256 + 0x100 * ((m / 256) % 256) + 0x1_0000 * (((m / 256) / 256)
        % 256) + 0x100_0000 * ((((m / 256) / 256) / 256) % 256));
}

/// `10^scale` where it fits; `10^38` is the largest that does.
fn pow10(scale: u8) -> (p: u128)
    requires
        pow(10, scale as nat) <= u128::MAX,
    ensures
        p == pow(10, scale as nat),
{
    let mut p: u128 = 1;
    let mut i: u8 = 0;
    proof {
        lemma_pow0(10);
    }
    while i < scale
        invariant
            i <= scale,
            p == pow(10, i as nat),
            pow(10, scale as nat) <= u128::MAX,
        decreases scale - i,
    {
        proof {
            reveal(pow);
            lemma_pow_increases(10, (i + 1) as nat, scale as nat);
            assert(pow(10, (i + 1) as nat) == 10 * pow(10, i as nat));
        }
        p = p * 10;
        i = i + 1;
    }
    p
}

/// The powers of ten that fit into 128 bits.
proof fn lemma_pow10_bounds(scale: u8)
    requires
        scale <= 38,
    ensures
        0 < pow(10, scale as nat) <= u128::MAX,
        scale <= 19 ==> pow(10, scale as nat) <= 10_000_000_000_000_000_000,
{
    lemma_pow_positive(10, scale as nat);
    assert(pow(10, 19) == 10_000_000_000_000_000_000) by {
        reveal(pow);
        reveal_with_fuel(pow, 20);
    }
    lemma_pow_adds(10, 19, 19);
    lemma_pow_increases(10, scale as nat, 38);
    if scale <= 19 {
        lemma_pow_increases(10, scale as nat, 19);
    }
}

/// Where the decimal point goes into the digits of a number in units of `10^-scale`.
pub open spec fn with_point(digits: Seq<char>, scale: nat) -> Seq<char> {
    if scale == 0 {
        digits
    } else if digits.len() <= scale {
        "0."@ + zeros((scale - digits.len()) as nat) + digits
    } else {
        digits.take(digits.len() - scale) + "."@ + digits.skip(digits.len() - scale)
    }
}

/// The decimal notation of a signed number.
pub open spec fn signed_decimal(n: int) -> Seq<char> {
    if n < 0 {
        "-"@ + decimal((-n) as nat)
    } else {
        decimal(n as nat)
    }
}

/// The decimal notation of a signed number.
fn signed_text(n: i32) -> (s: String)
    ensures
        s@ == signed_decimal(n as int),
{
    if n < 0 {
        let mut s = String::from_str("-");
        s.append(decimal_text((-(n as i64)) as u128).as_str());
        s
    } else {
        decimal_text(n as u128)
    }
}

/// The notations of parts, separated by spaces.
pub open spec fn parts_text(parts: Seq<i32>) -> Seq<char>
    decreases parts.len(),
{
    if parts.len() == 0 {
        Seq::empty()
    } else if parts.len() == 1 {
        signed_decimal(parts[0] as int)
    } else {
        parts_text(parts.drop_last()) + " "@ + signed_decimal(parts.last() as int)
    }
}

impl DecimalView {
    /// A description of the fields for people, with the text of the number as a floating-point
    /// number.
    pub open spec fn description(self, f64_value: Seq<char>) -> Seq<char> {
        "Decimal: "@ + (if self.is_positive {
            Seq::empty()
        } else {
            "-"@
        }) + parts_text(self.int_parts) + " Precision "@ + decimal(self.precision as nat)
            + " Scale "@ + decimal(self.scale as nat) + " F64 value: "@ + f64_value
    }

    /// The decimal notation of the number.
    pub open spec fn notation(self) -> Seq<char> {
        let unsigned = with_point(decimal(magnitude(self.int_parts)), self.scale as nat);
        if self.is_positive {
            unsigned
        } else {
            "-"@ + unsigned
        }
    }
}

/// A text as a number, as `bigdecimal::BigDecimal::from_str` reads it: whether it is negative, its
/// digits as a number, and how many of them follow the decimal point. `None` where it is no number.
pub uninterp spec fn parsed_decimal(text: Seq<char>) -> Option<(bool, nat, int)>;

/// A decimal number as it was read from a text: sign, digits as bytes of a number, least
/// significant first, and how many digits follow the decimal point.
pub struct ParsedDecimal {
    pub negative: bool,
    pub digits: Vec<u8>,
    pub scale: i64,
}

impl ParsedDecimal {
    /// The digits, as a number.
    pub open spec fn number(&self) -> nat {
        le_nat(self.digits@, 0, self.digits@.len())
    }
}

/// Calls `bigdecimal::BigDecimal::from_str` (through `parse`) and takes its result apart. What it takes
/// for a number is not stated beyond its name; the error is its message.
#[verifier::external_body]
fn parse_decimal(text: &str) -> (r: Result<ParsedDecimal, String>)
    ensures
        match r {
            Ok(d) => parsed_decimal(text@) == Some((d.negative, d.number(), d.scale as int)),
            Err(_) => parsed_decimal(text@) is None,
        },
{
    match text.parse::<BigDecimal>() {
        Ok(d) => {
            let (int_val, scale) = d.into_bigint_and_exponent();
            let (sign, digits) = int_val.to_bytes_le();
            Ok(ParsedDecimal { negative: sign == Sign::Minus, digits, scale })
        },
        Err(e) => Err(e.to_string()),
    }
}

/// Calls `num_bigint::BigInt`'s `*`, `pow` and `to_signed_bytes_le`: the number that the bytes hold,
/// least significant first, times `10^k`, as the shortest two's complement bytes.
#[verifier::external_body]
fn scaled_signed_bytes(digits: &Vec<u8>, k: u32) -> (r: Vec<u8>)
    requires
        k <= 255,
    ensures
        r@ == le_bytes(
            le_nat(digits@, 0, digits@.len()) * (pow(10, k as nat) as nat),
            signed_byte_len(le_nat(digits@, 0, digits@.len()) * (pow(10, k as nat) as nat)),
        ),
{
    let n = BigInt::from_bytes_le(Sign::Plus, digits) * BigInt::from(10u64).pow(k);
    n.to_signed_bytes_le()
}

/// Calls `to_string` of `num_bigint::BigInt`, on the number that two's complement bytes hold, least
/// significant first: its decimal notation, of which the length is given.
#[verifier::external_body]
fn decimal_digit_count(bytes: &Vec<u8>) -> (n: usize)
    requires
        bytes@.len() >= 1,
        bytes@.last() < 128,
    ensures
        n == decimal(le_nat(bytes@, 0, bytes@.len())).len(),
{
    BigInt::from_signed_bytes_le(bytes).to_string().len()
}

/// Whether there are decimal numbers of this precision and scale: of 1 to 38 digits, of which no more
/// than there are follow the decimal point.
pub open spec fn valid_precision(precision: u8, scale: u8) -> bool {
    1 <= precision <= 38 && scale <= precision
}

/// The decimal number that a text stands for, once it has been read as `parsed`; `minus` is whether
/// the text starts with a minus sign.
pub open spec fn decimal_from_parsed(
    minus: bool,
    parsed: (bool, nat, int),
    precision: u8,
    scale: u8,
) -> Result<DecimalView, ErrorKind> {
    let (negative, digits, input_scale) = parsed;
    if !valid_precision(precision, scale) || input_scale > scale {
        Err(ErrorKind::TypeConversion)
    } else if digits == 0 {
        Ok(DecimalView { is_positive: !minus, scale, precision, int_parts: seq![0i32] })
    } else {
        let n = digits * (pow(10, (scale - input_scale) as nat) as nat);
        if decimal(n).len() > precision {
            Err(ErrorKind::TypeConversion)
        } else {
            Ok(
                DecimalView {
                    is_positive: !negative,
                    scale,
                    precision,
                    int_parts: parts_of(n, signed_part_count(n)),
                },
            )
        }
    }
}

/// The decimal number that a text stands for.
pub open spec fn decimal_from_text(text: Seq<char>, precision: u8, scale: u8) -> Result<
    DecimalView,
    ErrorKind,
> {
    let t = trimmed(text);
    match parsed_decimal(t) {
        None => Err(ErrorKind::TypeConversion),
        Some(parsed) => decimal_from_parsed(t.len() > 0 && t[0] == '-', parsed, precision, scale),
    }
}

impl DecimalParts {
    /// The whole number `value` as a decimal number of this precision and scale. The magnitude must
    /// fit into 128 bits, which it does up to scale 19; the precision is not checked.
    pub fn from_i64(value: i64, precision: u8, scale: u8) -> (r: TdsResult<DecimalParts>)
        requires
            scale <= 38,
            scale > 19 ==> (if value >= 0 {
                value as int
            } else {
                -value
            }) * pow(10, scale as nat) <= u128::MAX,
        ensures
            ({
                let abs = if value >= 0 {
                    value as int
                } else {
                    -value
                };
                let n = (abs * pow(10, scale as nat)) as nat;
                r matches Ok(d) && d@ == (DecimalView {
                    is_positive: value >= 0,
                    scale,
                    precision,
                    int_parts: parts_of(n, part_count(n)),
                })
            }),
    {
        let is_positive: bool = value >= 0;
        let abs_value: u128 = if value >= 0 {
            value as u128
        } else {
            (-(value as i128)) as u128
        };
        let ghost abs = if value >= 0 {
            value as int
        } else {
            -value
        };
        proof {
            lemma_pow10_bounds(scale);
            if scale <= 19 {
                assert(abs * pow(10, scale as nat) <= 0x8000_0000_0000_0000
                    * 10_000_000_000_000_000_000) by (nonlinear_arith)
                    requires
                        0 <= abs <= 0x8000_0000_0000_0000,
                        0 < pow(10, scale as nat) <= 10_000_000_000_000_000_000,
                ;
            }
        }
        let scaled_value: u128 = abs_value * pow10(scale);
        let ghost n = scaled_value as nat;
        let mut int_parts: Vec<i32> = Vec::new();
        let mut remaining: u128 = scaled_value;
        let mut first: bool = true;
        proof {
            lemma_pow_positive(10, scale as nat);
            assert(abs * pow(10, scale as nat) >= 0) by (nonlinear_arith)
                requires
                    abs >= 0,
                    pow(10, scale as nat) > 0,
            ;
        }
        while remaining > 0 || first
            invariant
                first ==> int_parts@.len() == 0 && remaining == n,
                !first && remaining == 0 ==> int_parts@ == parts_of(n, part_count(n)),
                first || remaining > 0 ==> parts_of(n, part_count(n)) == int_parts@ + parts_of(
                    remaining as nat,
                    part_count(remaining as nat),
                ),
            decreases remaining, first as int,
        {
            let low: u32 = (remaining % 0x1_0000_0000) as u32;
            let ghost before = int_parts@;
            int_parts.push(low as i32);
            proof {
                let k = part_count(remaining as nat);
                let rest = remaining as nat / 0x1_0000_0000;
                assert(parts_of(remaining as nat, k) == seq![low as i32] + parts_of(
                    rest,
                    (k - 1) as nat,
                ));
                if remaining < 0x1_0000_0000 {
                    assert(k == 1);
                    assert(parts_of(rest, 0) =~= Seq::<i32>::empty());
                    assert(int_parts@ =~= parts_of(n, part_count(n)));
                } else {
                    assert(k - 1 == part_count(rest));
                    assert(before + (seq![low as i32] + parts_of(rest, (k - 1) as nat))
                        =~= int_parts@ + parts_of(rest, (k - 1) as nat));
                }
            }
            remaining = remaining / 0x1_0000_0000;
            first = false;
        }
        Ok(DecimalParts { is_positive, scale, precision, int_parts })
    }

    /// The decimal number that was read from a text as `parsed`; `minus` is whether the text starts
    /// with a minus sign. A conversion error where there are no numbers of this precision and scale,
    /// where the text has more digits after the decimal point than `scale`, or where the number takes
    /// more than `precision` digits.
    pub fn from_parsed(minus: bool, parsed: &ParsedDecimal, precision: u8, scale: u8) -> (r:
        TdsResult<DecimalParts>)
        ensures
            match decimal_from_parsed(
                minus,
                (parsed.negative, parsed.number(), parsed.scale as int),
                precision,
                scale,
            ) {
                Ok(v) => r matches Ok(d) && d@ == v,
                Err(k) => r matches Err(e) && e.kind() == k,
            },
    {
        if precision < 1 || precision > 38 || scale > precision {
            return Err(
                Error::TypeConversionError(
                    number_message(
                        "Invalid precision ",
                        precision as u128,
                        number_message(" and scale ", scale as u128, "").as_str(),
                    ),
                ),
            );
        }
        if parsed.scale > scale as i64 {
            return Err(
                Error::TypeConversionError(
                    number_message(
                        "Input decimal scale ",
                        parsed.scale as u128,
                        number_message(" exceeds target scale ", scale as u128, "").as_str(),
                    ),
                ),
            );
        }
        if is_zero(&parsed.digits) {
            let mut int_parts: Vec<i32> = Vec::new();
            int_parts.push(0);
            return Ok(DecimalParts { is_positive: !minus, scale, precision, int_parts });
        }
        let k: i128 = scale as i128 - parsed.scale as i128;
        let ghost digits = parsed.number();
        let ghost n = digits * (pow(10, k as nat) as nat);
        proof {
            lemma_pow_positive(10, k as nat);
            assert(n >= digits && n >= pow(10, k as nat)) by (nonlinear_arith)
                requires
                    digits >= 1,
                    pow(10, k as nat) > 0,
                    n == digits * (pow(10, k as nat) as nat),
            ;
        }
        if k > 255 {
            proof {
                lemma_decimal_lower(n, k as nat);
            }
            return Err(precision_exceeded(k as u128 + 1, precision));
        }
        let bytes = scaled_signed_bytes(&parsed.digits, k as u32);
        proof {
            lemma_signed_byte_len(n);
            lemma_le_bytes_len(n, signed_byte_len(n));
            crate::bytes::law_le_round_trip(n, signed_byte_len(n));
            lemma_last_byte_small(n);
        }
        let digit_count: usize = decimal_digit_count(&bytes);
        if digit_count > precision as usize {
            return Err(precision_exceeded(digit_count as u128, precision));
        }
        let int_parts = parts_from_bytes(&bytes, Ghost(n));
        Ok(DecimalParts { is_positive: !parsed.negative, scale, precision, int_parts })
    }

    /// The decimal number that a text stands for, such as `123.45` or `-0.01`. A conversion error
    /// where the text is no number, where there are no numbers of this precision and scale, where the
    /// text has more digits after the decimal point than `scale`, or where the number takes more than
    /// `precision` digits.
    pub fn from_string(s: &str, precision: u8, scale: u8) -> (r: TdsResult<DecimalParts>)
        ensures
            match decimal_from_text(s@, precision, scale) {
                Ok(v) => r matches Ok(d) && d@ == v,
                Err(k) => r matches Err(e) && e.kind() == k,
            },
    {
        let t = trim(s);
        let minus: bool = t.as_str().unicode_len() > 0 && t.as_str().get_char(0) == '-';
        match parse_decimal(t.as_str()) {
            Ok(parsed) => Self::from_parsed(minus, &parsed, precision, scale),
            Err(message) => Err(
                Error::TypeConversionError(
                    text_message(
                        "Invalid decimal string '",
                        s,
                        text_message("': ", message.as_str(), "").as_str(),
                    ),
                ),
            ),
        }
    }

    /// The magnitude as a number.
    pub fn to_u128(&self) -> (n: u128)
        requires
            self.int_parts@.len() <= 4,
        ensures
            n == magnitude(self.int_parts@),
    {
        let mut n: u128 = 0;
        let mut i: usize = self.int_parts.len();
        proof {
            reveal_with_fuel(pow32, 5);
            assert(self.int_parts@.skip(i as int) =~= Seq::<i32>::empty());
        }
        while i > 0
            invariant
                i <= self.int_parts@.len() <= 4,
                n == magnitude(self.int_parts@.skip(i as int)),
                n < pow32((self.int_parts@.len() - i) as nat),
                pow32(4) == 0x1_0000_0000_0000_0000_0000_0000_0000_0000,
            decreases i,
        {
            proof {
                lemma_pow32_step((self.int_parts@.len() - i) as nat, 3);
                assert(self.int_parts@.skip(i - 1).drop_first() =~= self.int_parts@.skip(i as int));
            }
            i = i - 1;
            n = n * 0x1_0000_0000 + (self.int_parts[i] as u32) as u128;
        }
        assert(self.int_parts@.skip(0) =~= self.int_parts@);
        n
    }

    /// A description of the fields for people; `f64_value` is the text of the number as a
    /// floating-point number.
    pub fn debug_string(&self, f64_value: &str) -> (s: String)
        ensures
            s@ == self@.description(f64_value@),
    {
        let mut s = String::from_str("Decimal: ");
        if !self.is_positive {
            s.append("-");
        }
        let ghost head = s@;
        let mut i: usize = 0;
        assert(head + parts_text(self.int_parts@.take(0)) =~= head);
        while i < self.int_parts.len()
            invariant
                i <= self.int_parts@.len(),
                s@ == head + parts_text(self.int_parts@.take(i as int)),
            decreases self.int_parts@.len() - i,
        {
            let ghost before = s@;
            if i > 0 {
                s.append(" ");
            }
            s.append(signed_text(self.int_parts[i]).as_str());
            proof {
                let t = self.int_parts@.take(i + 1);
                assert(t.drop_last() =~= self.int_parts@.take(i as int));
                assert(s@ =~= head + parts_text(t));
            }
            i += 1;
        }
        assert(self.int_parts@.take(i as int) =~= self.int_parts@);
        s.append(" Precision ");
        s.append(decimal_text(self.precision as u128).as_str());
        s.append(" Scale ");
        s.append(decimal_text(self.scale as u128).as_str());
        s.append(" F64 value: ");
        s.append(f64_value);
        assert(s@ =~= self@.description(f64_value@)) by {
            assert("Decimal: "@ + Seq::<char>::empty() =~= "Decimal: "@);
        }
        s
    }

    /// The decimal notation of the number, such as `123.45` or `-0.01`.
    pub fn to_decimal_string(&self) -> (s: String)
        requires
            self.int_parts@.len() <= 4,
        ensures
            s@ == self@.notation(),
    {
        let digits = decimal_text(self.to_u128());
        let len: usize = digits.as_str().unicode_len();
        let scale: usize = self.scale as usize;
        let unsigned: String = if scale == 0 {
            digits
        } else if len <= scale {
            let mut t = String::from_str("0.");
            t.append(zeros_text(scale - len).as_str());
            t.append(digits.as_str());
            t
        } else {
            let split: usize = len - scale;
            let mut t = String::from_str(digits.as_str().substring_char(0, split));
            t.append(".");
            t.append(digits.as_str().substring_char(split, len));
            assert(digits@.subrange(0, split as int) =~= digits@.take(split as int));
            assert(digits@.subrange(split as int, len as int) =~= digits@.skip(split as int));
            t
        };
        if self.is_positive {
            unsigned
        } else {
            let mut t = String::from_str("-");
            t.append(unsigned.as_str());
            t
        }
    }
}

/// One part more.
proof fn lemma_pow32_step(a: nat, b: nat)
    requires
        a <= b,
    ensures
        pow32(a + 1) == 0x1_0000_0000 * pow32(a),
        pow32(a + 1) <= pow32(b + 1),
{
    lemma_pow32_pow256(a + 1);
    lemma_pow32_pow256(b + 1);
    lemma_pow256_monotone(4 * (a + 1), 4 * (b + 1));
}

/// The error of a number with too many digits.
fn precision_exceeded(digits: u128, precision: u8) -> (e: Error)
    ensures
        e.kind() == ErrorKind::TypeConversion,
{
    Error::TypeConversionError(
        number_message(
            "Decimal value has ",
            digits,
            number_message(" digits, exceeds target precision ", precision as u128, "").as_str(),
        ),
    )
}

/// A number of at least `10^k` has more than `k` digits.
proof fn lemma_decimal_lower(n: nat, k: nat)
    requires
        n >= pow(10, k),
    ensures
        decimal(n).len() > k,
    decreases k,
{
    reveal(pow);
    if k > 0 {
        lemma_pow_positive(10, (k - 1) as nat);
        assert(n / 10 >= pow(10, (k - 1) as nat)) by (nonlinear_arith)
            requires
                n >= 10 * pow(10, (k - 1) as nat),
        ;
        lemma_decimal_lower(n / 10, (k - 1) as nat);
    } else {
        lemma_decimal_nonempty(n);
    }
}

/// The last of the shortest two's complement bytes of a number is below 128.
proof fn lemma_last_byte_small(n: nat)
    ensures
        le_bytes(n, signed_byte_len(n)).len() >= 1,
        le_bytes(n, signed_byte_len(n)).last() < 128,
    decreases n,
{
    lemma_signed_byte_len(n);
    lemma_le_bytes_len(n, signed_byte_len(n));
    if n < 128 {
        assert(le_bytes(n, 1).last() == (n % 256) as u8);
    } else {
        lemma_last_byte_small(n / 256);
        lemma_signed_byte_len(n / 256);
        lemma_le_bytes_len(n / 256, signed_byte_len(n / 256));
        assert(le_bytes(n, signed_byte_len(n)).last() == le_bytes(
            n / 256,
            signed_byte_len(n / 256),
        ).last());
    }
}

/// Whether the bytes hold the number 0.
fn is_zero(bytes: &Vec<u8>) -> (b: bool)
    ensures
        b == (le_nat(bytes@, 0, bytes@.len()) == 0),
{
    let mut i: usize = bytes.len();
    while i > 0
        invariant
            i <= bytes@.len(),
            le_nat(bytes@, i as int, (bytes@.len() - i) as nat) == 0,
        decreases i,
    {
        i = i - 1;
        if bytes[i] != 0 {
            proof {
                lemma_nonzero_above(bytes@, 0, i as nat, bytes@.len());
            }
            return false;
        }
    }
    true
}

/// A byte that is not zero makes the number that holds it not zero.
proof fn lemma_nonzero_above(s: Seq<u8>, at: int, i: nat, n: nat)
    requires
        i < n,
        s[at + i] != 0,
    ensures
        le_nat(s, at, n) > 0,
    decreases i,
{
    if i > 0 {
        lemma_nonzero_above(s, at + 1, (i - 1) as nat, (n - 1) as nat);
    }
}

/// The byte at an index, 0 past the end.
fn byte_or_zero(bytes: &Vec<u8>, i: usize) -> (b: u8)
    ensures
        b == (if i < bytes@.len() {
            bytes@[i as int]
        } else {
            0u8
        }),
{
    if i < bytes.len() {
        bytes[i]
    } else {
        0
    }
}

/// The parts of the number `n` out of its bytes.
fn parts_from_bytes(bytes: &Vec<u8>, n: Ghost<nat>) -> (parts: Vec<i32>)
    requires
        bytes@ == le_bytes(n@, bytes@.len()),
        n@ < pow256(bytes@.len()),
    ensures
        parts@ == parts_of(n@, (bytes@.len() + 3) / 4),
{
    let mut parts: Vec<i32> = Vec::new();
    let mut i: usize = 0;
    let ghost k = (bytes@.len() + 3) / 4;
    proof {
        lemma_parts_len(n@, k);
        assert(parts_of(n@, k).take(0) =~= Seq::<i32>::empty());
    }
    while i < bytes.len()
        invariant
            i % 4 == 0,
            i / 4 <= k,
            i < bytes@.len() + 4,
            k == (bytes@.len() + 3) / 4,
            bytes@ == le_bytes(n@, bytes@.len()),
            n@ < pow256(bytes@.len()),
            parts@ == parts_of(n@, k).take(i as int / 4),
            parts_of(n@, k).len() == k,
            i >= bytes@.len() ==> i / 4 == k,
        decreases bytes@.len() + 4 - i,
    {
        let b0: u8 = bytes[i];
        let b1: u8 = byte_or_zero(bytes, index_behind(i, 1));
        let b2: u8 = byte_or_zero(bytes, index_behind(i, 2));
        let b3: u8 = byte_or_zero(bytes, index_behind(i, 3));
        let part: u32 = b0 as u32 + 0x100 * (b1 as u32) + 0x1_0000 * (b2 as u32) + 0x100_0000 * (
        b3 as u32);
        proof {
            let g = (i / 4) as nat;
            let len = bytes@.len();
            assert(4 * g == i);
            lemma_byte_at(n@, len, i as nat);
            lemma_byte_at(n@, len, (i + 1) as nat);
            lemma_byte_at(n@, len, (i + 2) as nat);
            lemma_byte_at(n@, len, (i + 3) as nat);
            if i + 1 >= len {
                lemma_byte_past_end(n@, len, (i + 1) as nat);
            }
            if i + 2 >= len {
                lemma_byte_past_end(n@, len, (i + 2) as nat);
            }
            if i + 3 >= len {
                lemma_byte_past_end(n@, len, (i + 3) as nat);
            }
            lemma_four_bytes(n@, g);
            lemma_parts_index(n@, k, g);
            assert(part as nat == (n@ / pow32(g)) % 0x1_0000_0000);
            assert(parts@.push(part as i32) =~= parts_of(n@, k).take(g as int + 1));
        }
        parts.push(part as i32);
        if bytes.len() - i <= 4 {
            assert(parts_of(n@, k).take(k as int) =~= parts_of(n@, k));
            return parts;
        }
        i = i + 4;
    }
    assert(parts_of(n@, k).take(k as int) =~= parts_of(n@, k));
    parts
}

/// The index `j` behind `i`, or the largest index where there is none.
fn index_behind(i: usize, j: usize) -> (r: usize)
    ensures
        i + j <= usize::MAX ==> r == i + j,
        i + j > usize::MAX ==> r == usize::MAX,
{
    if i <= usize::MAX - j {
        i + j
    } else {
        usize::MAX
    }
}

/// What `from_i64` gives stands for the value: its magnitude is the value's, in units of
/// `10^-scale`.
pub proof fn law_from_i64_magnitude(n: nat)
    ensures
        magnitude(parts_of(n, part_count(n))) == n,
{
    lemma_part_count(n);
    law_parts_make_number(n, part_count(n));
}

/// What is read from a text stands for the number in the text: its magnitude is the number's, in
/// units of `10^-scale`.
pub proof fn law_from_parsed_magnitude(
    minus: bool,
    parsed: (bool, nat, int),
    precision: u8,
    scale: u8,
)
    ensures
        decimal_from_parsed(minus, parsed, precision, scale) matches Ok(d) ==> magnitude(
            d.int_parts,
        ) == parsed.1 * (pow(10, (scale - parsed.2) as nat) as nat),
{
    let n = parsed.1 * (pow(10, (scale - parsed.2) as nat) as nat);
    if parsed.1 == 0 {
        assert(0 * pow(10, (scale - parsed.2) as nat) == 0);
        assert(0i32 as u32 == 0u32) by (bit_vector);
        assert(seq![0i32].drop_first() =~= Seq::<i32>::empty());
        reveal_with_fuel(magnitude, 2);
    } else {
        lemma_signed_part_count(n);
        law_parts_make_number(n, signed_part_count(n));
    }
}

/// Magnitudes count as equal where they are the same number, and only there.
pub proof fn law_same_magnitude_same_number(a: Seq<i32>, b: Seq<i32>)
    ensures
        same_magnitude(a, b) == (magnitude(a) == magnitude(b)),
    decreases a.len() + b.len(),
{
    assert(0i32 as u32 == 0u32) by (bit_vector);
    if a.len() > 0 || b.len() > 0 {
        let x = if a.len() > 0 {
            a.drop_first()
        } else {
            a
        };
        let y = if b.len() > 0 {
            b.drop_first()
        } else {
            b
        };
        let i0 = part_or_zero(a, 0);
        let j0 = part_or_zero(b, 0);
        law_same_magnitude_same_number(x, y);
        assert(magnitude(a) == part_value(i0) + 0x1_0000_0000 * magnitude(x));
        assert(magnitude(b) == part_value(j0) + 0x1_0000_0000 * magnitude(y));
        if same_magnitude(a, b) {
            assert forall|i: int| 0 <= i implies #[trigger] part_or_zero(x, i) == part_or_zero(
                y,
                i,
            ) by {
                assert(part_or_zero(a, i + 1) == part_or_zero(b, i + 1));
            }
        }
        if magnitude(a) == magnitude(b) {
            assert(i0 as u32 == j0 as u32 ==> i0 == j0) by (bit_vector);
            assert forall|i: int| 0 <= i implies #[trigger] part_or_zero(a, i) == part_or_zero(
                b,
                i,
            ) by {
                if i > 0 {
                    assert(part_or_zero(x, i - 1) == part_or_zero(y, i - 1));
                }
            }
        }
    }
}

/// A number of no more than so many digits, of 1 to 38, fits the parts that there are for them.
pub proof fn lemma_digits_fit(n: nat, precision: u8)
    requires
        1 <= precision <= 38,
        n < pow(10, precision as nat),
    ensures
        precision <= 9 ==> n < pow32(1),
        precision <= 19 ==> n < pow32(2),
        precision <= 28 ==> n < pow32(3),
        n < pow32(4),
{
    reveal_with_fuel(pow32, 5);
    assert(pow(10, 9) == 1_000_000_000 && pow(10, 19) == 10_000_000_000_000_000_000 && pow(10, 28)
        == 10_000_000_000_000_000_000_000_000_000 && pow(10, 38)
        == 100_000_000_000_000_000_000_000_000_000_000_000_000) by {
        reveal(pow);
        reveal_with_fuel(pow, 40);
    }
    if precision <= 9 {
        lemma_pow_increases(10, precision as nat, 9);
    }
    if precision <= 19 {
        lemma_pow_increases(10, precision as nat, 19);
    }
    if precision <= 28 {
        lemma_pow_increases(10, precision as nat, 28);
    }
    lemma_pow_increases(10, precision as nat, 38);
}

/// What is read from a text takes no more digits than the precision says.
pub proof fn law_from_parsed_digits(
    minus: bool,
    parsed: (bool, nat, int),
    precision: u8,
    scale: u8,
)
    ensures
        decimal_from_parsed(minus, parsed, precision, scale) matches Ok(d) ==> magnitude(d.int_parts)
            < pow(10, precision as nat),
{
    law_from_parsed_magnitude(minus, parsed, precision, scale);
    lemma_pow_positive(10, precision as nat);
    let n = parsed.1 * (pow(10, (scale - parsed.2) as nat) as nat);
    if parsed.1 == 0 {
        assert(0 * pow(10, (scale - parsed.2) as nat) == 0);
    } else if n >= pow(10, precision as nat) {
        lemma_decimal_lower(n, precision as nat);
    }
}

/// A number that was read from a text is taken where the precision is one of 38 and holds the scale, the
/// number has no more digits behind the point than the scale, and in units of `10^-scale` no more digits than
/// the precision. It has that precision and scale, and its sign; for zero that is the one before the text.
pub proof fn law_decimal_is_taken(minus: bool, parsed: (bool, nat, int), precision: u8, scale: u8)
    ensures
        decimal_from_parsed(minus, parsed, precision, scale) is Ok == (1 <= precision <= 38 && scale
            <= precision && parsed.2 <= scale && parsed.1 * pow(10, (scale - parsed.2) as nat) < pow(
            10,
            precision as nat,
        )),
        decimal_from_parsed(minus, parsed, precision, scale) matches Ok(d) ==> d.precision == precision
            && d.scale == scale && d.is_positive == (if parsed.1 == 0 {
            !minus
        } else {
            !parsed.0
        }),
{
    let k = (scale - parsed.2) as nat;
    let n = parsed.1 * (pow(10, k) as nat);
    if 1 <= precision <= 38 && scale <= precision && parsed.2 <= scale {
        lemma_pow_positive(10, k);
        lemma_pow_positive(10, precision as nat);
        if parsed.1 == 0 {
            assert(0 * pow(10, k) == 0);
        } else {
            lemma_len_of_decimal(n);
            if decimal(n).len() > precision {
                lemma_pow_increases(10, precision as nat, (decimal(n).len() - 1) as nat);
                assert(n > 0) by (nonlinear_arith)
                    requires
                        parsed.1 > 0,
                        pow(10, k) > 0,
                        n == parsed.1 * pow(10, k),
                ;
            } else {
                lemma_pow_increases(10, decimal(n).len(), precision as nat);
            }
        }
    }
}

/// A number of so many digits.
proof fn lemma_len_of_decimal(n: nat)
    ensures
        n < pow(10, decimal(n).len()),
        n > 0 ==> n >= pow(10, (decimal(n).len() - 1) as nat),
    decreases n,
{
    reveal(pow);
    if n >= 10 {
        lemma_len_of_decimal(n / 10);
        assert(pow(10, decimal(n).len()) == 10 * pow(10, (decimal(n).len() - 1) as nat));
    } else {
        assert(pow(10, 0) == 1);
        assert(pow(10, 1) == 10 * pow(10, 0));
    }
}

/// The digits of a number are the number.
proof fn lemma_numeral_of_decimal(n: nat)
    ensures
        is_numeral(decimal(n)),
        numeral(decimal(n)) == n,
    decreases n,
{
    let s = decimal(n);
    law_decimal_digits(n, 0);
    lemma_numeral_push(s);
    assert(pow(10, 0) == 1) by {
        reveal(pow);
    }
    if n >= 10 {
        let t = decimal(n / 10);
        lemma_numeral_of_decimal(n / 10);
        assert(s.drop_last() =~= t);
        assert forall|i: int| 0 <= i < s.len() implies 48 <= (#[trigger] s[i]) as u32 <= 57 by {
            if i < t.len() {
                assert(s[i] == t[i]);
            }
        }
    } else {
        assert(s.drop_last() =~= Seq::<char>::empty());
        assert(numeral(Seq::empty()) == 0);
    }
}

/// Zeros before digits do not count.
proof fn lemma_leading_zeros(n: nat, s: Seq<char>)
    requires
        is_numeral(s),
    ensures
        is_numeral(zeros(n) + s),
        numeral(zeros(n) + s) == numeral(s),
    decreases n,
{
    let t = zeros(n) + s;
    if n == 0 {
        assert(t =~= s);
    } else {
        lemma_leading_zeros((n - 1) as nat, s);
        assert(t.drop_first() =~= zeros((n - 1) as nat) + s);
        assert(t[0] == '0' && '0' as u32 == 48);
        assert(0 * pow(10, (t.len() - 1) as nat) == 0);
        assert forall|i: int| 0 <= i < t.len() implies 48 <= (#[trigger] t[i]) as u32 <= 57 by {
            if i > 0 {
                assert(t[i] == t.drop_first()[i - 1]);
            }
        }
    }
}

/// The digits before and behind the point of a decimal number in writing.
pub open spec fn is_notation(text: Seq<char>, positive: bool, scale: nat, n: nat, whole: Seq<char>, rest: Seq<char>) -> bool {
    &&& is_numeral(whole + rest)
    &&& whole.len() > 0
    &&& rest.len() == scale
    &&& numeral(whole + rest) == n
    &&& text == (if positive {
        Seq::empty()
    } else {
        seq!['-']
    }) + whole + (if scale == 0 {
        Seq::empty()
    } else {
        seq!['.'] + rest
    })
}

/// A decimal number in writing: a minus sign where it is negative, digits, and where the scale is not 0 a
/// point and as many digits as the scale says. Without the point they are the digits of the magnitude.
pub proof fn law_notation(d: DecimalView)
    ensures
        exists|whole: Seq<char>, rest: Seq<char>|
            #[trigger] is_notation(
                d.notation(),
                d.is_positive,
                d.scale as nat,
                magnitude(d.int_parts),
                whole,
                rest,
            ),
{
    let n = magnitude(d.int_parts);
    let digits = decimal(n);
    let scale = d.scale as nat;
    lemma_numeral_of_decimal(n);
    reveal_strlit("0.");
    reveal_strlit(".");
    reveal_strlit("-");
    assert("-"@ =~= seq!['-']);
    assert("."@ =~= seq!['.']);
    assert("0."@ =~= seq!['0'] + seq!['.']);
    let (whole, rest) = if scale == 0 {
        (digits, Seq::empty())
    } else if digits.len() <= scale {
        (seq!['0'], zeros((scale - digits.len()) as nat) + digits)
    } else {
        (digits.take(digits.len() - scale), digits.skip(digits.len() - scale))
    };
    if scale == 0 {
        assert(whole + rest =~= digits);
    } else if digits.len() <= scale {
        let k = (scale - digits.len()) as nat;
        lemma_leading_zeros(k + 1, digits);
        assert(whole + rest =~= zeros(k + 1) + digits);
    } else {
        assert(whole + rest =~= digits);
    }
    assert(d.notation() =~= (if d.is_positive {
        Seq::empty()
    } else {
        seq!['-']
    }) + whole + (if scale == 0 {
        Seq::empty()
    } else {
        seq!['.'] + rest
    }));
    assert(is_notation(d.notation(), d.is_positive, scale, n, whole, rest));
}

/// The notation of a number has a minus sign where the number is below zero, and nothing before its digits
/// otherwise. Those of several parts stand in their order, with one blank between two.
pub proof fn law_parts_text(n: int, parts: Seq<i32>, part: i32)
    ensures
        n >= 0 ==> signed_decimal(n) == decimal(n as nat),
        n < 0 ==> signed_decimal(n) == seq!['-'] + decimal((-n) as nat),
        parts_text(seq![part]) == signed_decimal(part as int),
        parts.len() > 0 ==> parts_text(parts.push(part)) == parts_text(parts) + seq![' '] + signed_decimal(
            part as int,
        ),
{
    reveal_strlit("-");
    reveal_strlit(" ");
    assert("-"@ =~= seq!['-']);
    assert(" "@ =~= seq![' ']);
    assert(parts.push(part).drop_last() =~= parts);
}

/// A description differs where the sign, a part, the precision or the scale does: with the same text behind,
/// it is a minus sign longer for a number below zero.
pub proof fn law_description(d: DecimalView, text: Seq<char>)
    ensures
        ({
            let plus = DecimalView { is_positive: true, ..d };
            let minus = DecimalView { is_positive: false, ..d };
            let front = "Decimal: "@;
            let rest = parts_text(d.int_parts) + " Precision "@ + decimal(d.precision as nat) + " Scale "@
                + decimal(d.scale as nat) + " F64 value: "@ + text;
            &&& plus.description(text) == front + rest
            &&& minus.description(text) == front + seq!['-'] + rest
        }),
{
    reveal_strlit("-");
    assert("-"@ =~= seq!['-']);
    let plus = DecimalView { is_positive: true, ..d };
    let minus = DecimalView { is_positive: false, ..d };
    let front = "Decimal: "@;
    let rest = parts_text(d.int_parts) + " Precision "@ + decimal(d.precision as nat) + " Scale "@
        + decimal(d.scale as nat) + " F64 value: "@ + text;
    assert(plus.description(text) =~= front + rest);
    assert(minus.description(text) =~= front + seq!['-'] + rest);
}

/// A text is taken as a decimal number by what it is as one, without the white space around it; its sign is
/// that of the number, and for zero that of its first character. A text that is no number is refused.
pub proof fn law_text_is_taken(text: Seq<char>, precision: u8, scale: u8)
    ensures
        parsed_decimal(trimmed(text)) is None ==> decimal_from_text(text, precision, scale) == Err::<
            DecimalView,
            ErrorKind,
        >(ErrorKind::TypeConversion),
        parsed_decimal(trimmed(text)) matches Some((negative, digits, _)) ==> (decimal_from_text(
            text,
            precision,
            scale,
        ) matches Ok(d) ==> d.precision == precision && d.scale == scale && d.is_positive == !(if digits == 0 {
            trimmed(text).len() > 0 && trimmed(text)[0] == '-'
        } else {
            negative
        })),
        trimmed(text) == text ==> decimal_from_text(seq![' '] + text, precision, scale)
            == decimal_from_text(text, precision, scale),
{
    if trimmed(text) == text {
        let s = seq![' '] + text;
        assert(s.drop_first() =~= text);
        assert(trimmed(s) == trimmed(text));
    }
}

} // verus!

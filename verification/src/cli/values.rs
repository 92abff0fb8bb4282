//! `--cpu` and `--mem` values: `0.5c`, `1.5g`, `512m`.
//!
//! The decimal part is parsed, scaled and rounded with `rust_decimal`,
//! exactly as the numbers are written; everything around it (suffixes,
//! units, notation checks, range checks) is checked here.

use vstd::prelude::*;

use crate::engine::types::{CpuLimit, MemoryLimit};
use crate::text::{
    ascii_lower, ascii_lowercase, chars_of, digits, parse_bounded_spec, parse_unsigned,
    pow10, zero_pad,
};

verus! {

pub const BYTES_PER_KIB: u64 = 1024;
pub const BYTES_PER_MIB: u64 = 1048576;
pub const BYTES_PER_GIB: u64 = 1073741824;
pub const BYTES_PER_TIB: u64 = 1099511627776;

/// The largest mantissa magnitude a `rust_decimal::Decimal` holds
/// (96 bits).
pub const DECIMAL_MAX_MANTISSA: i128 = 0xFFFF_FFFF_FFFF_FFFF_FFFF_FFFF;
/// The largest scale of a `rust_decimal::Decimal`.
pub const DECIMAL_MAX_SCALE: u32 = 28;

/// A decimal number `mantissa / 10^scale`, as `rust_decimal` stores it.
#[derive(Debug, Clone, Copy, PartialEq, Eq, Structural)]
pub struct DecimalParts {
    pub mantissa: i128,
    pub scale: u32,
}

impl DecimalParts {
    /// A value `rust_decimal` can represent.
    pub open spec fn is_valid(self) -> bool {
        &&& self.scale <= DECIMAL_MAX_SCALE
        &&& -DECIMAL_MAX_MANTISSA <= self.mantissa <= DECIMAL_MAX_MANTISSA
    }
}

/// What `Decimal::from_str` makes of a string, as mantissa and scale.
pub uninterp spec fn decimal_parse_result(s: Seq<char>) -> Option<DecimalParts>;

/// What `Decimal::checked_mul` gives for two values.
pub uninterp spec fn decimal_product_result(a: DecimalParts, b: DecimalParts) -> Option<DecimalParts>;


pub open spec fn abs(i: int) -> nat {
    if i < 0 { (-i) as nat } else { i as nat }
}

pub open spec fn with_sign(negative: bool, magnitude: nat) -> int {
    if negative { -(magnitude as int) } else { magnitude as int }
}

/// `Decimal::round_dp_with_strategy(0, MidpointAwayFromZero)`: the
/// nearest integer, ties away from zero.
pub open spec fn round_half_away_spec(a: DecimalParts) -> DecimalParts {
    if a.scale == 0 {
        a
    } else if a.mantissa == 0 {
        DecimalParts { mantissa: 0, scale: 0 }
    } else {
        let p = pow10(a.scale as nat);
        let q = abs(a.mantissa as int) / p;
        let rem = abs(a.mantissa as int) % p;
        let up = if rem >= 5 * pow10((a.scale - 1) as nat) { q + 1 } else { q };
        DecimalParts { mantissa: with_sign(a.mantissa < 0, up) as i128, scale: 0 }
    }
}

/// `Decimal::trunc`: the integer part, rounded toward zero.
pub open spec fn trunc_spec(a: DecimalParts) -> DecimalParts {
    DecimalParts {
        mantissa: with_sign(a.mantissa < 0, abs(a.mantissa as int) / pow10(a.scale as nat)) as i128,
        scale: 0,
    }
}

/// The digits of a plain decimal read as one integer, the dot skipped:
/// `12.5` gives 125.
pub open spec fn plain_mantissa(s: Seq<char>) -> nat
    decreases s.len(),
{
    if s.len() == 0 {
        0
    } else if s.last() == '.' {
        plain_mantissa(s.drop_last())
    } else {
        plain_mantissa(s.drop_last()) * 10 + crate::text::digit_value(s.last())
    }
}

/// How many digits of a plain decimal follow its dot: `12.5` gives 1.
pub open spec fn frac_len(s: Seq<char>) -> nat
    decreases s.len(),
{
    if s.len() == 0 || s.last() == '.' {
        0
    } else if s.drop_last().contains('.') {
        frac_len(s.drop_last()) + 1
    } else {
        0
    }
}

/// The value a plain decimal writes, as mantissa and scale.
pub open spec fn plain_parts(s: Seq<char>) -> DecimalParts {
    DecimalParts { mantissa: plain_mantissa(s) as i128, scale: frac_len(s) as u32 }
}

/// Parses `s` with `Decimal::from_str` and gives its mantissa and scale.
/// A plain decimal (digits with at most one dot, not ending in it) of at
/// most 28 characters is read exactly: its digits, dot skipped, are the
/// mantissa and the digits after the dot count as the scale. What other
/// text gives is only named.
#[verifier::external_body]
fn decimal_from_str(s: &str) -> (r: Option<DecimalParts>)
    ensures
        r == decimal_parse_result(s@),
        r matches Some(p) ==> p.is_valid(),
        plain_decimal(s@) && s@.len() <= 28 ==> r == Some(plain_parts(s@)),
{
    match s.parse::<rust_decimal::Decimal>() {
        Ok(d) => Some(DecimalParts { mantissa: d.mantissa(), scale: d.scale() }),
        Err(_) => None,
    }
}

/// `Decimal::checked_mul`. When the product of the mantissas fits in
/// 96 bits and the scales add up to at most 28, the product is exact;
/// a zero product comes back as `0` with scale 0.
#[verifier::external_body]
fn decimal_checked_mul(a: DecimalParts, b: DecimalParts) -> (r: Option<DecimalParts>)
    requires
        a.is_valid(),
        b.is_valid(),
    ensures
        r == decimal_product_result(a, b),
        r matches Some(p) ==> p.is_valid(),
        a.scale + b.scale <= DECIMAL_MAX_SCALE && abs(a.mantissa * b.mantissa) <= DECIMAL_MAX_MANTISSA
            ==> r == Some(
            if a.mantissa * b.mantissa == 0 {
                DecimalParts { mantissa: 0, scale: 0 }
            } else {
                DecimalParts { mantissa: (a.mantissa * b.mantissa) as i128, scale: (a.scale + b.scale) as u32 }
            },
        ),
{
    let x = rust_decimal::Decimal::from_i128_with_scale(a.mantissa, a.scale);
    let y = rust_decimal::Decimal::from_i128_with_scale(b.mantissa, b.scale);
    match x.checked_mul(y) {
        Some(d) => Some(DecimalParts { mantissa: d.mantissa(), scale: d.scale() }),
        None => None,
    }
}

/// `Decimal::round_dp_with_strategy(0, RoundingStrategy::MidpointAwayFromZero)`.
#[verifier::external_body]
fn decimal_round_half_away(a: DecimalParts) -> (r: DecimalParts)
    requires
        a.is_valid(),
    ensures
        r == round_half_away_spec(a),
        r.is_valid(),
{
    let d = rust_decimal::Decimal::from_i128_with_scale(a.mantissa, a.scale)
        .round_dp_with_strategy(0, rust_decimal::RoundingStrategy::MidpointAwayFromZero);
    DecimalParts { mantissa: d.mantissa(), scale: d.scale() }
}

/// `Decimal::trunc`.
#[verifier::external_body]
fn decimal_trunc(a: DecimalParts) -> (r: DecimalParts)
    requires
        a.is_valid(),
    ensures
        r == trunc_spec(a),
        r.is_valid(),
{
    let d = rust_decimal::Decimal::from_i128_with_scale(a.mantissa, a.scale).trunc();
    DecimalParts { mantissa: d.mantissa(), scale: d.scale() }
}

/// How `Decimal`'s `Display` writes a value: a `-` for a negative one,
/// the digits of the mantissa padded with zeros to at least `scale`
/// digits, and a dot before the last `scale` of them, with a `0` in
/// front when no digit is left before it (`0.05`, `12.5`, `0`).
pub open spec fn decimal_text(a: DecimalParts) -> Seq<char> {
    let magnitude = abs(a.mantissa as int);
    let padded = zero_pad(if magnitude == 0 { Seq::empty() } else { digits(magnitude) }, a.scale as nat);
    let whole_len = padded.len() - a.scale;
    let whole = if whole_len == 0 { seq!['0'] } else { padded.take(whole_len) };
    (if a.mantissa < 0 { seq!['-'] } else { Seq::empty() })
        + if a.scale == 0 { whole } else { whole + seq!['.'] + padded.skip(whole_len) }
}

/// A whole value that is not negative is written as its digits.
proof fn lemma_decimal_text_integer(a: DecimalParts)
    requires
        a.scale == 0,
        a.mantissa >= 0,
    ensures
        decimal_text(a) == digits(a.mantissa as nat),
{
    let m = a.mantissa as nat;
    crate::text::lemma_digits_len(m);
    if m == 0 {
        assert(zero_pad(Seq::<char>::empty(), 0) =~= Seq::<char>::empty());
        assert(digits(0) =~= seq!['0']);
    } else {
        let d = digits(m);
        assert(zero_pad(d, 0) == d);
        assert(d.take(d.len() as int) =~= d);
    }
    assert(decimal_text(a) =~= digits(m));
}

/// `Decimal`'s `Display`, as `decimal_text` states it.
#[verifier::external_body]
fn decimal_to_string(a: DecimalParts) -> (r: String)
    requires
        a.is_valid(),
    ensures
        r@ == decimal_text(a),
{
    rust_decimal::Decimal::from_i128_with_scale(a.mantissa, a.scale).to_string()
}


/// Which flag a value belongs to.
#[derive(Debug, Clone, Copy, PartialEq, Eq, Structural)]
pub enum LimitKind {
    Cpu,
    Memory,
}

impl LimitKind {
    pub open spec fn label(self) -> Seq<char> {
        match self {
            LimitKind::Cpu => "cpu limit"@,
            LimitKind::Memory => "memory limit"@,
        }
    }

    pub fn label_str(self) -> (r: &'static str)
        ensures
            r@ == self.label(),
    {
        match self {
            LimitKind::Cpu => "cpu limit",
            LimitKind::Memory => "memory limit",
        }
    }
}

/// Why a `--cpu` or `--mem` value was refused.
#[derive(Debug, Clone, Copy, PartialEq, Eq, Structural)]
pub enum LimitError {
    MissingCpuSuffix,
    MissingValueAndUnit,
    UnknownMemoryUnit,
    MissingNumber(LimitKind),
    NotPlainDecimal(LimitKind),
    InvalidDecimal(LimitKind),
    NotPositive(LimitKind),
    OutOfRange(LimitKind),
    CpuBelowMinimum,
    MemoryBelowMinimum,
}

impl LimitError {
    pub open spec fn message_spec(self) -> Seq<char> {
        match self {
            LimitError::MissingCpuSuffix => "cpu limit must end with 'c'"@,
            LimitError::MissingValueAndUnit => "memory limit requires a value and unit"@,
            LimitError::UnknownMemoryUnit => "memory limit unit must be one of b, k, m, g, t"@,
            LimitError::MissingNumber(k) => k.label() + " requires a numeric value"@,
            LimitError::NotPlainDecimal(k) => k.label() + " must use plain decimal notation"@,
            LimitError::InvalidDecimal(k) => k.label() + " is not a valid decimal"@,
            LimitError::NotPositive(k) => k.label() + " must be greater than zero"@,
            LimitError::OutOfRange(k) => k.label() + " exceeds supported range"@,
            LimitError::CpuBelowMinimum => "cpu limit must be at least 1 centi-core"@,
            LimitError::MemoryBelowMinimum => "memory limit must be at least 1 MiB"@,
        }
    }

    /// The error message shown to the user.
    pub fn message(&self) -> (r: String)
        ensures
            r@ == self.message_spec(),
    {
        let mut s = String::new();
        match self {
            LimitError::MissingCpuSuffix => s.append("cpu limit must end with 'c'"),
            LimitError::MissingValueAndUnit => s.append("memory limit requires a value and unit"),
            LimitError::UnknownMemoryUnit => s.append("memory limit unit must be one of b, k, m, g, t"),
            LimitError::MissingNumber(k) => {
                s.append(k.label_str());
                s.append(" requires a numeric value");
            },
            LimitError::NotPlainDecimal(k) => {
                s.append(k.label_str());
                s.append(" must use plain decimal notation");
            },
            LimitError::InvalidDecimal(k) => {
                s.append(k.label_str());
                s.append(" is not a valid decimal");
            },
            LimitError::NotPositive(k) => {
                s.append(k.label_str());
                s.append(" must be greater than zero");
            },
            LimitError::OutOfRange(k) => {
                s.append(k.label_str());
                s.append(" exceeds supported range");
            },
            LimitError::CpuBelowMinimum => s.append("cpu limit must be at least 1 centi-core"),
            LimitError::MemoryBelowMinimum => s.append("memory limit must be at least 1 MiB"),
        }
        assert(s@ =~= self.message_spec());
        s
    }
}

pub open spec fn is_ascii_digit(c: char) -> bool {
    '0' <= c && c <= '9'
}

/// The grammar of a limit's number: `[0-9]+(\.[0-9]+)?` or `\.[0-9]+`.
/// Only digits and dots, at most one dot, and never a dot at the end.
pub open spec fn plain_decimal(s: Seq<char>) -> bool {
    &&& s.len() > 0
    &&& forall|i: int| 0 <= i < s.len() ==> is_ascii_digit(#[trigger] s[i]) || s[i] == '.'
    &&& forall|i: int, j: int| #![trigger s[i], s[j]] 0 <= i < j < s.len() && s[i] == '.' ==> s[j] != '.'
    &&& s.last() != '.'
}

/// Whether `s` is written in the plain decimal grammar.
pub fn is_plain_decimal(s: &str) -> (r: bool)
    ensures
        r == plain_decimal(s@),
{
    let chars = chars_of(s);
    let n = chars.len();
    if n == 0 {
        return false;
    }
    let mut seen_dot = false;
    let mut i: usize = 0;
    while i < n
        invariant
            n == chars@.len(),
            chars@ == s@,
            i <= n,
            forall|k: int| 0 <= k < i ==> is_ascii_digit(#[trigger] chars@[k]) || chars@[k] == '.',
            forall|k: int, j: int| #![trigger chars@[k], chars@[j]] 0 <= k < j < i && chars@[k] == '.' ==> chars@[j] != '.',
            seen_dot <==> exists|k: int| 0 <= k < i && #[trigger] chars@[k] == '.',
        decreases n - i,
    {
        let c = chars[i];
        if c == '.' {
            if seen_dot {
                let ghost k = choose|k: int| 0 <= k < i && #[trigger] chars@[k] == '.';
                assert(chars@[k] == '.' && k < i);
                return false;
            }
            seen_dot = true;
        } else if !('0' <= c && c <= '9') {
            assert(!(is_ascii_digit(chars@[i as int]) || chars@[i as int] == '.'));
            return false;
        }
        i = i + 1;
    }
    chars[n - 1] != '.'
}

/// A positive plain decimal `number` multiplied by `scale` and rounded
/// to the nearest integer, ties away from zero. Text outside the plain
/// decimal grammar (signs, exponents, separators) is refused before it
/// reaches the decimal parser.
pub open spec fn rounded_positive_spec(number: Seq<char>, scale: DecimalParts, kind: LimitKind) -> Result<u64, LimitError> {
    if number.len() == 0 {
        Err(LimitError::MissingNumber(kind))
    } else if !plain_decimal(number) {
        Err(LimitError::NotPlainDecimal(kind))
    } else {
        match decimal_parse_result(number) {
            None => Err(LimitError::InvalidDecimal(kind)),
            Some(value) => if value.mantissa <= 0 {
                Err(LimitError::NotPositive(kind))
            } else {
                match decimal_product_result(value, scale) {
                    None => Err(LimitError::OutOfRange(kind)),
                    Some(scaled) => match parse_bounded_spec(
                        decimal_text(trunc_spec(round_half_away_spec(scaled))),
                        0xffff_ffff_ffff_ffff,
                    ) {
                        Some(n) => Ok(n as u64),
                        None => Err(LimitError::OutOfRange(kind)),
                    },
                }
            },
        }
    }
}

/// `n / 10^k` rounded to the nearest integer, ties up.
pub open spec fn rounded_half_up(n: nat, k: nat) -> nat {
    if k == 0 {
        n
    } else {
        let p = pow10(k);
        if n % p >= 5 * pow10((k - 1) as nat) { n / p + 1 } else { n / p }
    }
}

/// The plain decimal `number` times `factor`, rounded half up.
pub open spec fn plain_scaled(number: Seq<char>, factor: nat) -> nat {
    rounded_half_up(plain_mantissa(number) * factor, frac_len(number))
}

/// A plain decimal of at most 28 characters whose digits times `factor`
/// still fit a decimal's mantissa: on such input the result is fixed by
/// the written value alone.
pub open spec fn plain_in_reach(number: Seq<char>, factor: nat) -> bool {
    &&& plain_decimal(number)
    &&& number.len() <= 28
    &&& plain_mantissa(number) * factor <= DECIMAL_MAX_MANTISSA
}

/// What a limit's number gives when it is in reach: zero is refused,
/// else the scaled and rounded value if it fits a `u64`.
pub open spec fn plain_rounded_result(number: Seq<char>, factor: nat, kind: LimitKind) -> Result<u64, LimitError> {
    if plain_mantissa(number) == 0 {
        Err(LimitError::NotPositive(kind))
    } else if plain_scaled(number, factor) <= u64::MAX {
        Ok(plain_scaled(number, factor) as u64)
    } else {
        Err(LimitError::OutOfRange(kind))
    }
}

proof fn lemma_frac_len_bound(s: Seq<char>)
    ensures
        frac_len(s) <= s.len(),
    decreases s.len(),
{
    if s.len() > 0 {
        lemma_frac_len_bound(s.drop_last());
    }
}

proof fn lemma_rounding_bound(n: nat, k: nat)
    requires
        k >= 1,
    ensures
        rounded_half_up(n, k) <= n + 1,
{
    crate::text::lemma_pow10_positive(k);
    let p = pow10(k);
    assert(n / p <= n) by (nonlinear_arith)
        requires
            p >= 1;
}

fn parse_rounded_positive(number: &str, scale: DecimalParts, kind: LimitKind) -> (r: Result<u64, LimitError>)
    requires
        scale.is_valid(),
    ensures
        r == rounded_positive_spec(number@, scale, kind),
        scale.scale == 0 && scale.mantissa >= 1 && plain_in_reach(number@, scale.mantissa as nat)
            ==> r == plain_rounded_result(number@, scale.mantissa as nat, kind),
{
    let ghost in_reach = scale.scale == 0 && scale.mantissa >= 1 && plain_in_reach(number@, scale.mantissa as nat);
    let ghost m = plain_mantissa(number@);
    let ghost k = frac_len(number@);
    let ghost f = scale.mantissa as nat;
    proof {
        if in_reach {
            lemma_frac_len_bound(number@);
            assert(m <= m * f) by (nonlinear_arith)
                requires
                    f >= 1;
        }
    }
    if number.unicode_len() == 0 {
        return Err(LimitError::MissingNumber(kind));
    }
    if !is_plain_decimal(number) {
        return Err(LimitError::NotPlainDecimal(kind));
    }
    let value = match decimal_from_str(number) {
        Some(v) => v,
        None => {
            return Err(LimitError::InvalidDecimal(kind));
        },
    };
    proof {
        if in_reach {
            assert(value.mantissa == m && value.scale == k);
        }
    }
    if value.mantissa <= 0 {
        return Err(LimitError::NotPositive(kind));
    }
    let scaled = match decimal_checked_mul(value, scale) {
        Some(p) => p,
        None => {
            return Err(LimitError::OutOfRange(kind));
        },
    };
    proof {
        if in_reach {
            assert(value.mantissa * scale.mantissa == m * f);
            assert(abs(value.mantissa * scale.mantissa) == m * f);
            assert(m * f > 0) by (nonlinear_arith)
                requires
                    m > 0,
                    f >= 1;
            assert(scaled.mantissa == m * f && scaled.scale == k);
        }
    }
    let rounded = decimal_round_half_away(scaled);
    proof {
        if in_reach {
            if k == 0 {
                assert(rounded.mantissa == m * f);
            } else {
                lemma_rounding_bound((m * f) as nat, k);
                assert(abs(scaled.mantissa as int) == m * f);
                let n: nat = (m * f) as nat;
                let up = rounded_half_up(n, k);
                assert(up <= n + 1);
                assert(scaled.scale != 0 && scaled.mantissa != 0);
                assert(round_half_away_spec(scaled).mantissa == with_sign(false, up) as i128);
                assert(with_sign(false, up) == up as int);
                assert(rounded.mantissa == up);
            }
            assert(rounded.mantissa == plain_scaled(number@, f));
            assert(rounded.scale == 0);
        }
    }
    let rounded = decimal_trunc(rounded);
    proof {
        if in_reach {
            reveal_with_fuel(pow10, 1);
            assert(pow10(0) == 1);
            assert(rounded.mantissa == plain_scaled(number@, f));
        }
    }
    let text = decimal_to_string(rounded);
    proof {
        if in_reach {
            lemma_decimal_text_integer(rounded);
            crate::text::lemma_parse_digits(plain_scaled(number@, f), 0xffff_ffff_ffff_ffff);
        }
    }
    match parse_unsigned(text.as_str(), 0xffff_ffff_ffff_ffff) {
        Some(n) => Ok(n as u64),
        None => Err(LimitError::OutOfRange(kind)),
    }
}

/// `CpuLimit::parse`: an ASCII-case-insensitive decimal ending in `c`,
/// in hundredths of a core, rounded half away from zero, at least 1.
pub open spec fn cpu_parse_spec(raw: Seq<char>) -> Result<u32, LimitError> {
    let normalized = ascii_lower(raw);
    if normalized.len() == 0 || normalized.last() != 'c' {
        Err(LimitError::MissingCpuSuffix)
    } else {
        match rounded_positive_spec(
            normalized.drop_last(),
            DecimalParts { mantissa: 100, scale: 0 },
            LimitKind::Cpu,
        ) {
            Err(e) => Err(e),
            Ok(centi) => if centi > 0xffff_ffff {
                Err(LimitError::OutOfRange(LimitKind::Cpu))
            } else if centi == 0 {
                Err(LimitError::CpuBelowMinimum)
            } else {
                Ok(centi as u32)
            },
        }
    }
}

/// The byte multiplier of a memory unit (`b k m g t`, 1024-based).
pub open spec fn unit_multiplier(unit: char) -> Option<u64> {
    if unit == 'b' {
        Some(1u64)
    } else if unit == 'k' {
        Some(BYTES_PER_KIB)
    } else if unit == 'm' {
        Some(BYTES_PER_MIB)
    } else if unit == 'g' {
        Some(BYTES_PER_GIB)
    } else if unit == 't' {
        Some(BYTES_PER_TIB)
    } else {
        None
    }
}

/// The memory units and their sizes: `b`, `k`, `m`, `g` and `t` stand for
/// 1, 2^10, 2^20, 2^30 and 2^40 bytes, each 1024 times the one before,
/// and no other letter is a unit.
pub proof fn lemma_memory_unit_sizes()
    ensures
        unit_multiplier('b') == Some(1u64),
        unit_multiplier('k') == Some(1024u64),
        unit_multiplier('m') == Some(1_048_576u64),
        unit_multiplier('g') == Some(1_073_741_824u64),
        unit_multiplier('t') == Some(1_099_511_627_776u64),
        unit_multiplier('k').unwrap() == 1024 * unit_multiplier('b').unwrap(),
        unit_multiplier('m').unwrap() == 1024 * unit_multiplier('k').unwrap(),
        unit_multiplier('g').unwrap() == 1024 * unit_multiplier('m').unwrap(),
        unit_multiplier('t').unwrap() == 1024 * unit_multiplier('g').unwrap(),
        forall|c: char| #[trigger] unit_multiplier(c) is Some <==> (c == 'b' || c == 'k' || c == 'm' || c == 'g' || c == 't'),
{
}

/// A `--mem` value in reach is its written number times the size of its
/// unit letter, whatever the letter's case: `1t` is 2^40 bytes.
pub proof fn lemma_memory_value_by_unit(raw: Seq<char>)
    requires
        memory_in_reach(raw),
    ensures
        ({
            let normalized = ascii_lower(raw);
            let unit = normalized.last();
            let size: nat = if unit == 'b' { 1 } else if unit == 'k' { 1024 } else if unit == 'm' { 1_048_576 }
                else if unit == 'g' { 1_073_741_824 } else { 1_099_511_627_776 };
            &&& unit == 'b' || unit == 'k' || unit == 'm' || unit == 'g' || unit == 't'
            &&& memory_value_law(normalized.drop_last(), unit_multiplier(unit).unwrap() as nat)
                == memory_value_law(normalized.drop_last(), size)
        }),
{
    lemma_memory_unit_sizes();
}

/// `MemoryLimit::parse`: an ASCII-case-insensitive decimal followed by
/// one unit letter, in bytes, rounded half away from zero, at least
/// 1 MiB.
pub open spec fn memory_parse_spec(raw: Seq<char>) -> Result<u64, LimitError> {
    let normalized = ascii_lower(raw);
    if normalized.len() == 0 {
        Err(LimitError::MissingValueAndUnit)
    } else {
        match unit_multiplier(normalized.last()) {
            None => Err(LimitError::UnknownMemoryUnit),
            Some(multiplier) => match rounded_positive_spec(
                normalized.drop_last(),
                DecimalParts { mantissa: multiplier as i128, scale: 0 },
                LimitKind::Memory,
            ) {
                Err(e) => Err(e),
                Ok(bytes) => if bytes < BYTES_PER_MIB {
                    Err(LimitError::MemoryBelowMinimum)
                } else {
                    Ok(bytes)
                },
            },
        }
    }
}

/// The value `raw` splits at a character boundary before its last
/// byte: it is empty or ends with an ASCII character.
pub open spec fn ends_ascii(raw: Seq<char>) -> bool {
    raw.len() == 0 || (raw.last() as u32) < 128
}

/// The CPU limit a written number gives, by the value it writes: zero
/// is refused, else hundredths of a core rounded half up, which must be
/// at least 1 and fit a `u32`.
pub open spec fn cpu_value_law(number: Seq<char>) -> Result<u32, LimitError> {
    let v = plain_scaled(number, 100);
    if plain_mantissa(number) == 0 {
        Err(LimitError::NotPositive(LimitKind::Cpu))
    } else if v > 0xffff_ffff {
        Err(LimitError::OutOfRange(LimitKind::Cpu))
    } else if v == 0 {
        Err(LimitError::CpuBelowMinimum)
    } else {
        Ok(v as u32)
    }
}

/// The memory limit a written number and unit multiplier give, by the
/// value written: zero is refused, else bytes rounded half up, which
/// must be at least 1 MiB and fit a `u64`.
pub open spec fn memory_value_law(number: Seq<char>, multiplier: nat) -> Result<u64, LimitError> {
    let v = plain_scaled(number, multiplier);
    if plain_mantissa(number) == 0 {
        Err(LimitError::NotPositive(LimitKind::Memory))
    } else if v > u64::MAX {
        Err(LimitError::OutOfRange(LimitKind::Memory))
    } else if v < BYTES_PER_MIB {
        Err(LimitError::MemoryBelowMinimum)
    } else {
        Ok(v as u64)
    }
}

/// The value of `--cpu` ends in `c` and its number keeps to the plain
/// decimal grammar within the exactly parsed range.
pub open spec fn cpu_in_reach(raw: Seq<char>) -> bool {
    let normalized = ascii_lower(raw);
    normalized.len() > 0 && normalized.last() == 'c' && plain_in_reach(normalized.drop_last(), 100)
}

/// The value of `--mem` ends in a unit letter and its number keeps to
/// the plain decimal grammar within the exactly parsed range.
pub open spec fn memory_in_reach(raw: Seq<char>) -> bool {
    let normalized = ascii_lower(raw);
    normalized.len() > 0 && (unit_multiplier(normalized.last()) matches Some(mult)
        && plain_in_reach(normalized.drop_last(), mult as nat))
}

impl CpuLimit {
    pub fn parse(raw: &str) -> (r: Result<CpuLimit, LimitError>)
        ensures
            match r {
                Ok(limit) => cpu_parse_spec(raw@) == Ok::<u32, LimitError>(limit.spec_centi_cores()),
                Err(e) => cpu_parse_spec(raw@) == Err::<u32, LimitError>(e),
            },
            cpu_in_reach(raw@) ==> cpu_parse_spec(raw@) == cpu_value_law(ascii_lower(raw@).drop_last()),
    {
        let normalized = ascii_lowercase(raw);
        let len = normalized.as_str().unicode_len();
        if len == 0 || normalized.as_str().get_char(len - 1) != 'c' {
            return Err(LimitError::MissingCpuSuffix);
        }
        let number = normalized.as_str().substring_char(0, len - 1);
        assert(number@ =~= ascii_lower(raw@).drop_last());
        let centi = match parse_rounded_positive(number, DecimalParts { mantissa: 100, scale: 0 }, LimitKind::Cpu) {
            Ok(c) => c,
            Err(e) => {
                return Err(e);
            },
        };
        if centi > 0xffff_ffff {
            return Err(LimitError::OutOfRange(LimitKind::Cpu));
        }
        if centi == 0 {
            return Err(LimitError::CpuBelowMinimum);
        }
        Ok(CpuLimit::from_centi_cores(centi as u32))
    }
}

impl MemoryLimit {
    pub fn parse(raw: &str) -> (r: Result<MemoryLimit, LimitError>)
        requires
            ends_ascii(raw@),
        ensures
            match r {
                Ok(limit) => memory_parse_spec(raw@) == Ok::<u64, LimitError>(limit.spec_bytes()),
                Err(e) => memory_parse_spec(raw@) == Err::<u64, LimitError>(e),
            },
            memory_in_reach(raw@) ==> memory_parse_spec(raw@) == memory_value_law(
                ascii_lower(raw@).drop_last(),
                unit_multiplier(ascii_lower(raw@).last()).unwrap() as nat,
            ),
            memory_in_reach(raw@) ==> memory_parse_spec(raw@) == memory_value_law(
                ascii_lower(raw@).drop_last(),
                if ascii_lower(raw@).last() == 'b' { 1nat } else if ascii_lower(raw@).last() == 'k' { 1024nat }
                else if ascii_lower(raw@).last() == 'm' { 1_048_576nat }
                else if ascii_lower(raw@).last() == 'g' { 1_073_741_824nat } else { 1_099_511_627_776nat },
            ),
    {
        proof {
            lemma_memory_unit_sizes();
        }
        let normalized = ascii_lowercase(raw);
        let len = normalized.as_str().unicode_len();
        if len == 0 {
            return Err(LimitError::MissingValueAndUnit);
        }
        let unit = normalized.as_str().get_char(len - 1);
        let multiplier: u64 = if unit == 'b' {
            1
        } else if unit == 'k' {
            BYTES_PER_KIB
        } else if unit == 'm' {
            BYTES_PER_MIB
        } else if unit == 'g' {
            BYTES_PER_GIB
        } else if unit == 't' {
            BYTES_PER_TIB
        } else {
            return Err(LimitError::UnknownMemoryUnit);
        };
        let number = normalized.as_str().substring_char(0, len - 1);
        assert(number@ =~= ascii_lower(raw@).drop_last());
        let bytes = match parse_rounded_positive(
            number,
            DecimalParts { mantissa: multiplier as i128, scale: 0 },
            LimitKind::Memory,
        ) {
            Ok(b) => b,
            Err(e) => {
                return Err(e);
            },
        };
        if bytes < BYTES_PER_MIB {
            return Err(LimitError::MemoryBelowMinimum);
        }
        Ok(MemoryLimit::from_bytes(bytes))
    }
}

pub fn parse_cpu_limit(raw: &str) -> (r: Result<CpuLimit, LimitError>)
    ensures
        match r {
            Ok(limit) => cpu_parse_spec(raw@) == Ok::<u32, LimitError>(limit.spec_centi_cores()),
            Err(e) => cpu_parse_spec(raw@) == Err::<u32, LimitError>(e),
        },
        cpu_in_reach(raw@) ==> cpu_parse_spec(raw@) == cpu_value_law(ascii_lower(raw@).drop_last()),
{
    CpuLimit::parse(raw)
}

pub fn parse_memory_limit(raw: &str) -> (r: Result<MemoryLimit, LimitError>)
    requires
        ends_ascii(raw@),
    ensures
        match r {
            Ok(limit) => memory_parse_spec(raw@) == Ok::<u64, LimitError>(limit.spec_bytes()),
            Err(e) => memory_parse_spec(raw@) == Err::<u64, LimitError>(e),
        },
        memory_in_reach(raw@) ==> memory_parse_spec(raw@) == memory_value_law(
            ascii_lower(raw@).drop_last(),
            unit_multiplier(ascii_lower(raw@).last()).unwrap() as nat,
        ),
        memory_in_reach(raw@) ==> memory_parse_spec(raw@) == memory_value_law(
            ascii_lower(raw@).drop_last(),
            if ascii_lower(raw@).last() == 'b' { 1nat } else if ascii_lower(raw@).last() == 'k' { 1024nat }
            else if ascii_lower(raw@).last() == 'm' { 1_048_576nat }
            else if ascii_lower(raw@).last() == 'g' { 1_073_741_824nat } else { 1_099_511_627_776nat },
        ),
{
    MemoryLimit::parse(raw)
}

} // verus!


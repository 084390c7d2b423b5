use vstd::prelude::*;

use crate::error::Error;
use crate::text::{
    all_decimal_digits, digit_value, digits_of, is_decimal_digit, lemma_digits_of_are_digits,
    lemma_split_ignores_ascii_case, lemma_split_of_count_then_suffix, letters_of, lowercase_all,
    lowercased, same_ignoring_ascii_case, split_digits,
};
use crate::unit::{lemma_multiplier_range, SizeUnit};

verus! {

/// The number that `text` spells in base ten, most significant digit first.
pub open spec fn decimal_value(text: Seq<char>) -> nat
    decreases text.len(),
{
    if text.len() == 0 {
        0
    } else {
        10 * decimal_value(text.drop_last()) + digit_value(text.last())
    }
}

/// The signed 64-bit number that `text` spells, if it is a non-empty run of
/// decimal digits whose value fits.
pub open spec fn spec_parse_decimal(text: Seq<char>) -> Option<i64> {
    if text.len() > 0 && all_decimal_digits(text) && decimal_value(text) <= i64::MAX {
        Some(decimal_value(text) as i64)
    } else {
        None
    }
}

/// A prefix of a numeral never spells more than the whole numeral.
pub proof fn lemma_decimal_value_prefix(text: Seq<char>, i: int)
    requires
        0 <= i <= text.len(),
    ensures
        decimal_value(text.take(i)) <= decimal_value(text),
    decreases text.len(),
{
    if i == text.len() {
        assert(text.take(i) =~= text);
    } else {
        lemma_decimal_value_prefix(text.drop_last(), i);
        assert(text.drop_last().take(i) =~= text.take(i));
    }
}

/// Reads a non-empty run of decimal digits as a signed 64-bit number.
pub fn parse_decimal(text: &[char]) -> (value: Option<i64>)
    ensures
        value == spec_parse_decimal(text@),
{
    if text.len() == 0 {
        return None;
    }
    let mut acc: i64 = 0;
    let mut i: usize = 0;
    assert(text@.take(0) =~= Seq::<char>::empty());
    while i < text.len()
        invariant
            i <= text.len(),
            0 <= acc,
            acc == decimal_value(text@.take(i as int)),
            all_decimal_digits(text@.take(i as int)),
        decreases text.len() - i,
    {
        let c: char = text[i];
        if !(c >= '0' && c <= '9') {
            return None;
        }
        let digit: i64 = (c as u8 - '0' as u8) as i64;
        proof {
            assert(text@.take(i + 1).drop_last() =~= text@.take(i as int));
            assert(decimal_value(text@.take(i + 1)) == 10 * acc + digit);
            lemma_decimal_value_prefix(text@, i + 1);
        }
        if acc > (i64::MAX - digit) / 10 {
            return None;
        }
        acc = acc * 10 + digit;
        i += 1;
    }
    assert(text@.take(text@.len() as int) =~= text@);
    Some(acc)
}

/// A number of bytes.
#[derive(Debug, Clone, Copy, PartialEq, Eq, Structural)]
pub struct Bytes(pub i64);

impl Bytes {
    /// The suffix as it is looked up: a single letter other than `b` stands
    /// for that letter followed by `b`.
    pub open spec fn normalized_suffix(suffix: Seq<char>) -> Seq<char> {
        if suffix.len() == 1 && suffix[0] != 'b' {
            suffix.push('b')
        } else {
            suffix
        }
    }

    /// The unit that a lower-case suffix selects: bytes for no suffix at all,
    /// otherwise the unit that the normalized suffix names.
    pub open spec fn spec_unit_for(suffix: Seq<char>) -> Option<SizeUnit> {
        if suffix.len() == 0 {
            Some(SizeUnit::Byte)
        } else {
            SizeUnit::spec_from_suffix(Self::normalized_suffix(suffix))
        }
    }

    /// What a size made of the digits `digits` and the lower-case suffix
    /// `suffix` parses to. The checks come in this order: digits present,
    /// unit known, number in range. The product wraps around as 64-bit
    /// two's complement multiplication does.
    pub open spec fn spec_from_parts(digits: Seq<char>, suffix: Seq<char>) -> Result<Bytes, Error> {
        if digits.len() == 0 {
            Err(Error::NoDigits)
        } else {
            match Self::spec_unit_for(suffix) {
                None => Err(Error::UnknownUnit),
                Some(unit) => match spec_parse_decimal(digits) {
                    None => Err(Error::InvalidNumber),
                    Some(count) => Ok(Bytes(count.wrapping_mul(unit.spec_multiplier() as i64))),
                },
            }
        }
    }

    /// What `text` parses to: all its decimal digits, wherever they stand,
    /// spell the count, and all its other characters, in lower case, name
    /// the unit.
    pub open spec fn spec_from_str(text: Seq<char>) -> Result<Bytes, Error> {
        Self::spec_from_parts(digits_of(text), lowercased(letters_of(text)))
    }

    /// Selects the unit for a lower-case suffix.
    pub fn unit_for(suffix: &[char]) -> (unit: Option<SizeUnit>)
        ensures
            unit == Self::spec_unit_for(suffix@),
    {
        if suffix.len() == 0 {
            Some(SizeUnit::Byte)
        } else if suffix.len() == 1 && suffix[0] != 'b' {
            let mut normalized: Vec<char> = Vec::new();
            normalized.push(suffix[0]);
            normalized.push('b');
            assert(normalized@ =~= Self::normalized_suffix(suffix@));
            SizeUnit::from_suffix(normalized.as_slice())
        } else {
            SizeUnit::from_suffix(suffix)
        }
    }

    /// Builds a size from its digits and its lower-case suffix.
    pub fn from_parts(digits: &[char], suffix: &[char]) -> (parsed: Result<Bytes, Error>)
        ensures
            parsed == Self::spec_from_parts(digits@, suffix@),
    {
        if digits.len() == 0 {
            return Err(Error::NoDigits);
        }
        let unit = match Self::unit_for(suffix) {
            Some(unit) => unit,
            None => {
                return Err(Error::UnknownUnit);
            },
        };
        match parse_decimal(digits) {
            Some(count) => Ok(Bytes(count.wrapping_mul(unit.multiplier()))),
            None => Err(Error::InvalidNumber),
        }
    }
}

impl std::str::FromStr for Bytes {
    type Err = Error;

    /// Parses a size such as `100MB`, `1gb` or `512`: a decimal count and
    /// an optional binary unit, in either case. A single letter stands for
    /// its unit (`1k` is `1kb`). Digits count wherever they stand, so
    /// `1MB2` reads as `12MB`.
    fn from_str(text: &str) -> (parsed: Result<Bytes, Error>)
        ensures
            parsed == Bytes::spec_from_str(text@),
    {
        let (digits, letters) = split_digits(text);
        let suffix = lowercase_all(letters.as_slice());
        Bytes::from_parts(digits.as_slice(), suffix.as_slice())
    }
}

/// Case does not matter: two texts that differ at most in the case of
/// ASCII letters parse to the same result.
pub proof fn lemma_case_insensitive(a: Seq<char>, b: Seq<char>)
    requires
        same_ignoring_ascii_case(a, b),
    ensures
        Bytes::spec_from_str(a) == Bytes::spec_from_str(b),
{
    lemma_split_ignores_ascii_case(a, b);
}

/// The plain way to write a size: a count and, right behind it, a suffix
/// without digits. Such a text parses as its two parts do, the suffix in
/// lower case.
pub proof fn lemma_count_then_suffix(count: Seq<char>, suffix: Seq<char>)
    requires
        all_decimal_digits(count),
        forall|i: int| 0 <= i < suffix.len() ==> !is_decimal_digit(#[trigger] suffix[i]),
    ensures
        Bytes::spec_from_str(count + suffix) == Bytes::spec_from_parts(count, lowercased(suffix)),
{
    lemma_split_of_count_then_suffix(count, suffix);
}

/// Which texts are refused, and why: each error comes on exactly the texts
/// named here, and every other text parses.
pub proof fn lemma_from_str_outcome(text: Seq<char>)
    ensures
        Bytes::spec_from_str(text) == Err::<Bytes, Error>(Error::NoDigits) <==> digits_of(
            text,
        ).len() == 0,
        Bytes::spec_from_str(text) == Err::<Bytes, Error>(Error::UnknownUnit) <==> {
            &&& digits_of(text).len() > 0
            &&& Bytes::spec_unit_for(lowercased(letters_of(text))) is None
        },
        Bytes::spec_from_str(text) == Err::<Bytes, Error>(Error::InvalidNumber) <==> {
            &&& digits_of(text).len() > 0
            &&& Bytes::spec_unit_for(lowercased(letters_of(text))) is Some
            &&& decimal_value(digits_of(text)) > i64::MAX
        },
        Bytes::spec_from_str(text) is Ok <==> {
            &&& digits_of(text).len() > 0
            &&& Bytes::spec_unit_for(lowercased(letters_of(text))) is Some
            &&& decimal_value(digits_of(text)) <= i64::MAX
        },
{
    lemma_digits_of_are_digits(text);
}

/// Where the product of the count and the unit fits a signed 64-bit
/// integer, the parsed size is that product.
pub proof fn lemma_from_str_in_range(text: Seq<char>, unit: SizeUnit)
    requires
        digits_of(text).len() > 0,
        Bytes::spec_unit_for(lowercased(letters_of(text))) == Some(unit),
        decimal_value(digits_of(text)) * unit.spec_multiplier() <= i64::MAX,
    ensures
        Bytes::spec_from_str(text) == Ok::<Bytes, Error>(
            Bytes((decimal_value(digits_of(text)) * unit.spec_multiplier()) as i64),
        ),
{
    lemma_digits_of_are_digits(text);
    lemma_multiplier_range(unit);
    let count = decimal_value(digits_of(text)) as int;
    let factor = unit.spec_multiplier();
    assert(count <= count * factor && 0 <= count * factor) by (nonlinear_arith)
        requires
            0 <= count,
            1 <= factor,
    ;
}

} // verus!

use std::str::FromStr;

use memwaster::bytes::parse_decimal;
use memwaster::{Bytes, Error, SizeUnit};

fn chars(text: &str) -> Vec<char> {
    text.chars().collect()
}

#[test]
fn parses_plain_numbers() {
    assert_eq!(Bytes::from_str("0"), Ok(Bytes(0)));
    assert_eq!(Bytes::from_str("100"), Ok(Bytes(100)));
    assert_eq!(Bytes::from_str("512"), Ok(Bytes(512)));
}

#[test]
fn parses_the_byte_unit() {
    assert_eq!(Bytes::from_str("1b"), Ok(Bytes(1)));
    assert_eq!(Bytes::from_str("1B"), Ok(Bytes(1)));
    assert_eq!(Bytes::from_str("37b"), Ok(Bytes(37)));
}

#[test]
fn parses_kilobytes() {
    assert_eq!(Bytes::from_str("1kb"), Ok(Bytes(1024)));
    assert_eq!(Bytes::from_str("1k"), Ok(Bytes(1024)));
    assert_eq!(Bytes::from_str("3kb"), Ok(Bytes(3072)));
}

#[test]
fn parses_larger_units() {
    assert_eq!(Bytes::from_str("1MB"), Ok(Bytes(1048576)));
    assert_eq!(Bytes::from_str("2gb"), Ok(Bytes(2147483648)));
    assert_eq!(Bytes::from_str("1tb"), Ok(Bytes(1099511627776)));
    assert_eq!(Bytes::from_str("1pb"), Ok(Bytes(1125899906842624)));
    assert_eq!(Bytes::from_str("1eb"), Ok(Bytes(1152921504606846976)));
    assert_eq!(Bytes::from_str("100MB"), Ok(Bytes(104857600)));
    assert_eq!(Bytes::from_str("10MB"), Ok(Bytes(10485760)));
    assert_eq!(Bytes::from_str("20MB"), Ok(Bytes(20971520)));
}

#[test]
fn a_single_letter_stands_for_its_unit() {
    assert_eq!(Bytes::from_str("1k"), Bytes::from_str("1kb"));
    assert_eq!(Bytes::from_str("1m"), Ok(Bytes(1048576)));
    assert_eq!(Bytes::from_str("1g"), Ok(Bytes(1073741824)));
    assert_eq!(Bytes::from_str("1t"), Ok(Bytes(1099511627776)));
    assert_eq!(Bytes::from_str("1p"), Ok(Bytes(1125899906842624)));
    assert_eq!(Bytes::from_str("1e"), Ok(Bytes(1152921504606846976)));
    assert_eq!(Bytes::from_str("5G"), Ok(Bytes(5368709120)));
}

#[test]
fn case_does_not_matter() {
    let upper = Bytes::from_str("1MB");
    assert_eq!(upper, Ok(Bytes(1048576)));
    assert_eq!(Bytes::from_str("1mb"), upper);
    assert_eq!(Bytes::from_str("1Mb"), upper);
    assert_eq!(Bytes::from_str("1mB"), upper);
    assert_eq!(Bytes::from_str("7Tb"), Bytes::from_str("7tB"));
}

#[test]
fn input_without_digits_is_refused() {
    assert_eq!(Bytes::from_str(""), Err(Error::NoDigits));
    assert_eq!(Bytes::from_str("mb"), Err(Error::NoDigits));
    assert_eq!(Bytes::from_str("xx"), Err(Error::NoDigits));
    assert_eq!(Bytes::from_str(" "), Err(Error::NoDigits));
}

#[test]
fn unknown_units_are_refused() {
    assert_eq!(Bytes::from_str("100xx"), Err(Error::UnknownUnit));
    assert_eq!(Bytes::from_str("1bb"), Err(Error::UnknownUnit));
    assert_eq!(Bytes::from_str("1x"), Err(Error::UnknownUnit));
    assert_eq!(Bytes::from_str("1kib"), Err(Error::UnknownUnit));
    assert_eq!(Bytes::from_str("1bit"), Err(Error::UnknownUnit));
    assert_eq!(Bytes::from_str("1 kb"), Err(Error::UnknownUnit));
    assert_eq!(Bytes::from_str("1.5mb"), Err(Error::UnknownUnit));
    assert_eq!(Bytes::from_str("-1"), Err(Error::UnknownUnit));
    assert_eq!(Bytes::from_str("1kbb"), Err(Error::UnknownUnit));
    assert_eq!(Bytes::from_str("1zb"), Err(Error::UnknownUnit));
}

#[test]
fn numbers_beyond_the_range_are_refused() {
    assert_eq!(Bytes::from_str("9223372036854775807"), Ok(Bytes(i64::MAX)));
    assert_eq!(Bytes::from_str("9223372036854775808"), Err(Error::InvalidNumber));
    assert_eq!(Bytes::from_str("99999999999999999999"), Err(Error::InvalidNumber));
    assert_eq!(Bytes::from_str("99999999999999999999kb"), Err(Error::InvalidNumber));
}

#[test]
fn the_unit_is_checked_before_the_number() {
    assert_eq!(Bytes::from_str("99999999999999999999xx"), Err(Error::UnknownUnit));
}

#[test]
fn leading_zeros_are_accepted() {
    assert_eq!(Bytes::from_str("007"), Ok(Bytes(7)));
    assert_eq!(Bytes::from_str("0000000000000000000000001kb"), Ok(Bytes(1024)));
}

#[test]
fn digits_count_wherever_they_stand() {
    assert_eq!(Bytes::from_str("1MB2"), Ok(Bytes(12 * 1048576)));
    assert_eq!(Bytes::from_str("1MB2"), Bytes::from_str("12MB"));
    assert_eq!(Bytes::from_str("MB5"), Ok(Bytes(5 * 1048576)));
    assert_eq!(Bytes::from_str("k1b0"), Ok(Bytes(10240)));
}

#[test]
fn the_product_wraps_around() {
    assert_eq!(Bytes::from_str("7eb"), Ok(Bytes(8070450532247928832)));
    assert_eq!(Bytes::from_str("8eb"), Ok(Bytes(i64::MIN)));
    assert_eq!(Bytes::from_str("16eb"), Ok(Bytes(0)));
    assert_eq!(Bytes::from_str("17eb"), Ok(Bytes(1152921504606846976)));
    assert_eq!(
        Bytes::from_str("9223372036854775807kb"),
        Ok(Bytes(i64::MAX.wrapping_mul(1024)))
    );
}

#[test]
fn letters_beyond_ascii_are_lowered_by_their_unicode_mapping() {
    // U+212A, the Kelvin sign, has the small letter k as its lower case.
    assert_eq!(Bytes::from_str("1\u{212A}"), Ok(Bytes(1024)));
    assert_eq!(Bytes::from_str("1\u{212A}B"), Ok(Bytes(1024)));
    assert_eq!(Bytes::from_str("1\u{C9}"), Err(Error::UnknownUnit));
    assert_eq!(Bytes::from_str("1\u{130}"), Err(Error::UnknownUnit));
}

#[test]
fn only_ascii_digits_are_digits() {
    // U+0661 is the Arabic-Indic digit one.
    assert_eq!(Bytes::from_str("\u{661}"), Err(Error::NoDigits));
    assert_eq!(Bytes::from_str("1\u{661}"), Err(Error::UnknownUnit));
}

#[test]
fn sizes_are_built_from_their_parts() {
    assert_eq!(Bytes::from_parts(&chars("12"), &chars("mb")), Ok(Bytes(12582912)));
    assert_eq!(Bytes::from_parts(&chars("12"), &chars("m")), Ok(Bytes(12582912)));
    assert_eq!(Bytes::from_parts(&chars("12"), &chars("")), Ok(Bytes(12)));
    assert_eq!(Bytes::from_parts(&chars(""), &chars("mb")), Err(Error::NoDigits));
    assert_eq!(Bytes::from_parts(&chars("12"), &chars("MB")), Err(Error::UnknownUnit));
    assert_eq!(Bytes::from_parts(&chars("1x"), &chars("mb")), Err(Error::InvalidNumber));
    assert_eq!(Bytes::from_parts(&chars("+1"), &chars("mb")), Err(Error::InvalidNumber));
    assert_eq!(Bytes::from_parts(&chars("1x"), &chars("xx")), Err(Error::UnknownUnit));
}

#[test]
fn a_suffix_selects_its_unit() {
    assert_eq!(Bytes::unit_for(&chars("")), Some(SizeUnit::Byte));
    assert_eq!(Bytes::unit_for(&chars("b")), Some(SizeUnit::Byte));
    assert_eq!(Bytes::unit_for(&chars("k")), Some(SizeUnit::Kilobyte));
    assert_eq!(Bytes::unit_for(&chars("kb")), Some(SizeUnit::Kilobyte));
    assert_eq!(Bytes::unit_for(&chars("e")), Some(SizeUnit::Exabyte));
    assert_eq!(Bytes::unit_for(&chars("bb")), None);
    assert_eq!(Bytes::unit_for(&chars("x")), None);
    assert_eq!(Bytes::unit_for(&chars("K")), None);
    assert_eq!(Bytes::unit_for(&chars("kbs")), None);
}

#[test]
fn decimal_numerals_are_read() {
    assert_eq!(parse_decimal(&chars("0")), Some(0));
    assert_eq!(parse_decimal(&chars("42")), Some(42));
    assert_eq!(parse_decimal(&chars("0042")), Some(42));
    assert_eq!(parse_decimal(&chars("9223372036854775807")), Some(i64::MAX));
    assert_eq!(parse_decimal(&chars("9223372036854775808")), None);
    assert_eq!(parse_decimal(&chars("92233720368547758070")), None);
    assert_eq!(parse_decimal(&chars("")), None);
    assert_eq!(parse_decimal(&chars("4a")), None);
    assert_eq!(parse_decimal(&chars("-4")), None);
    assert_eq!(parse_decimal(&chars("99999999999999999999x")), None);
}

#[test]
fn errors_describe_themselves() {
    assert_eq!(Error::UnknownUnit.description(), "Unrecognized byte prefix");
    assert_eq!(Error::NoDigits.description(), "Unparseable byte size");
    assert_eq!(Error::InvalidNumber.description(), "Unparseable byte size");
}

use easy_rs::cold_path::ticks::num_to_tick_u64;
use easy_rs::cold_path::ticks::{parse_decimal_to_scaled_u64, PRICE_DECIMALS, PRICE_TICK_SCALE};
use num_decimal::Num;
use std::str::FromStr;

#[test]
fn parses_price() {
    let n = Num::from_str("123.45").unwrap();
    let t = num_to_tick_u64(&n).unwrap();
    assert_eq!(t as u128, 123_45000000u128);
}

#[test]
fn parse_decimal_to_scaled() {
    assert_eq!(
        parse_decimal_to_scaled_u64("10.5", 8).unwrap() as u128,
        1_050_000_000u128
    );
}

#[test]
fn scale_matches_decimals() {
    assert_eq!(PRICE_TICK_SCALE, 10u128.pow(PRICE_DECIMALS));
}

#[test]
fn integer_and_fraction_only_forms() {
    assert_eq!(parse_decimal_to_scaled_u64("7", 8), Some(700_000_000));
    assert_eq!(parse_decimal_to_scaled_u64("7.", 8), Some(700_000_000));
    assert_eq!(parse_decimal_to_scaled_u64(".25", 8), Some(25_000_000));
    assert_eq!(parse_decimal_to_scaled_u64("0.00000001", 8), Some(1));
    assert_eq!(parse_decimal_to_scaled_u64("12", 0), Some(12));
}

#[test]
fn rejects_empty_and_bare_punctuation() {
    assert_eq!(parse_decimal_to_scaled_u64("", 8), None);
    assert_eq!(parse_decimal_to_scaled_u64("   ", 8), None);
    assert_eq!(parse_decimal_to_scaled_u64(".", 8), None);
    assert_eq!(parse_decimal_to_scaled_u64("-", 8), None);
    assert_eq!(parse_decimal_to_scaled_u64("+", 0), None);
}

#[test]
fn whitespace_is_trimmed() {
    assert_eq!(parse_decimal_to_scaled_u64("  1.5\t\n", 2), Some(150));
    assert_eq!(parse_decimal_to_scaled_u64("\u{3000}2\u{00A0}", 1), Some(20));
}

#[test]
fn negative_values_rejected() {
    assert_eq!(parse_decimal_to_scaled_u64("-1.5", 8), None);
    assert_eq!(parse_decimal_to_scaled_u64("-0", 8), None);
}

#[test]
fn fraction_is_truncated_not_rounded() {
    assert_eq!(parse_decimal_to_scaled_u64("1.999", 2), Some(199));
    assert_eq!(parse_decimal_to_scaled_u64("0.123456789", 8), Some(12_345_678));
}

#[test]
fn plus_sign_accepted_like_unsigned_literal() {
    assert_eq!(parse_decimal_to_scaled_u64("+1.5", 2), Some(150));
    assert_eq!(parse_decimal_to_scaled_u64("+.", 8), Some(0));
    assert_eq!(parse_decimal_to_scaled_u64("++1", 0), None);
}

#[test]
fn non_digits_rejected() {
    assert_eq!(parse_decimal_to_scaled_u64("1a.5", 8), None);
    assert_eq!(parse_decimal_to_scaled_u64("1.5x", 8), None);
    assert_eq!(parse_decimal_to_scaled_u64("1.2.3", 8), None);
    assert_eq!(parse_decimal_to_scaled_u64("1 .5", 8), None);
}

#[test]
fn non_digits_past_the_cut_are_ignored() {
    assert_eq!(parse_decimal_to_scaled_u64("1.5x", 1), Some(15));
}

#[test]
fn overflow_is_none() {
    assert_eq!(
        parse_decimal_to_scaled_u64("18446744073709551615", 0),
        Some(u64::MAX)
    );
    assert_eq!(parse_decimal_to_scaled_u64("18446744073709551616", 0), None);
    assert_eq!(parse_decimal_to_scaled_u64("184467440737.09551616", 8), None);
    assert_eq!(parse_decimal_to_scaled_u64("1", 20), None);
    assert_eq!(parse_decimal_to_scaled_u64("0.0", 4_000), Some(0));
}

#[test]
fn num_conversion_of_whole_and_negative_numbers() {
    assert_eq!(num_to_tick_u64(&Num::from(42)), Some(4_200_000_000));
    assert_eq!(num_to_tick_u64(&Num::from_str("-1.25").unwrap()), None);
    assert_eq!(num_to_tick_u64(&Num::new(1, 3)), Some(33_333_333));
}

#[test]
fn tick_text_round_trip() {
    for n in [0u64, 1, 99_999_999, 100_000_000, 12_345_000_000, 123_456_789_012, u64::MAX] {
        let text = format!("{}.{:08}", n / 100_000_000, n % 100_000_000);
        assert_eq!(parse_decimal_to_scaled_u64(&text, 8), Some(n));
    }
}

use kkcrypto::numeric::{parse_fixed, parse_i32, u64_to_string};
use kkcrypto::strutil::{ascii_lowercase, split_char, str_eq_str, str_starts_with};

#[test]
fn parse_fixed_plain_decimals() {
    assert_eq!(parse_fixed("0"), 0);
    assert_eq!(parse_fixed("1"), 100_000_000);
    assert_eq!(parse_fixed("101.5"), 10_150_000_000);
    assert_eq!(parse_fixed("0.00000001"), 1);
    assert_eq!(parse_fixed("42.25"), 4_225_000_000);
    assert_eq!(parse_fixed("00042.25"), 4_225_000_000);
}

#[test]
fn parse_fixed_trailing_point_and_truncation() {
    assert_eq!(parse_fixed("1."), 100_000_000);
    // digits beyond the eighth decimal place are truncated
    assert_eq!(parse_fixed("0.123456789"), 12_345_678);
    assert_eq!(parse_fixed("0.999999999"), 99_999_999);
}

#[test]
fn parse_fixed_malformed_degrades_to_zero() {
    assert_eq!(parse_fixed(""), 0);
    assert_eq!(parse_fixed("."), 0);
    assert_eq!(parse_fixed(".5"), 0);
    assert_eq!(parse_fixed("abc"), 0);
    assert_eq!(parse_fixed("1e5"), 0);
    assert_eq!(parse_fixed("-1"), 0);
    assert_eq!(parse_fixed("12.34.5"), 0);
    assert_eq!(parse_fixed("12x.5"), 0);
    assert_eq!(parse_fixed("12.5x"), 0);
}

#[test]
fn parse_fixed_range_edge() {
    // u64::MAX units is 184467440737.09551615
    assert_eq!(parse_fixed("184467440737.09551615"), u64::MAX);
    assert_eq!(parse_fixed("184467440737.09551616"), 0);
    assert_eq!(parse_fixed("184467440738"), 0);
    assert_eq!(parse_fixed("99999999999999999999999999"), 0);
}

#[test]
fn parse_i32_accepts_signed_decimals() {
    assert_eq!(parse_i32("0"), Some(0));
    assert_eq!(parse_i32("42"), Some(42));
    assert_eq!(parse_i32("+7"), Some(7));
    assert_eq!(parse_i32("-13"), Some(-13));
    assert_eq!(parse_i32("2147483647"), Some(i32::MAX));
    assert_eq!(parse_i32("-2147483648"), Some(i32::MIN));
    assert_eq!(parse_i32("007"), Some(7));
}

#[test]
fn parse_i32_rejects_malformed_and_out_of_range() {
    assert_eq!(parse_i32(""), None);
    assert_eq!(parse_i32("+"), None);
    assert_eq!(parse_i32("-"), None);
    assert_eq!(parse_i32("12a"), None);
    assert_eq!(parse_i32("1.5"), None);
    assert_eq!(parse_i32("2147483648"), None);
    assert_eq!(parse_i32("-2147483649"), None);
    assert_eq!(parse_i32("99999999999999999999"), None);
}

#[test]
fn u64_to_string_renders_decimal() {
    assert_eq!(u64_to_string(0), "0");
    assert_eq!(u64_to_string(7), "7");
    assert_eq!(u64_to_string(26947949610), "26947949610");
    assert_eq!(u64_to_string(u64::MAX), "18446744073709551615");
}

#[test]
fn string_helpers() {
    assert!(str_eq_str("abc", "abc"));
    assert!(!str_eq_str("abc", "abd"));
    assert!(!str_eq_str("abc", "ab"));
    assert!(str_starts_with("publicTrade.BTCUSDT", "publicTrade."));
    assert!(!str_starts_with("tickers.BTCUSDT", "publicTrade."));
    assert!(!str_starts_with("pub", "publicTrade."));
    assert_eq!(ascii_lowercase("BTCUSDT"), "btcusdt");
    assert_eq!(ascii_lowercase("EthUsd-42"), "ethusd-42");
}

#[test]
fn split_char_fields() {
    assert_eq!(split_char("1,BTCUSDT,binance,spot", ','), vec![
        "1".to_string(),
        "BTCUSDT".to_string(),
        "binance".to_string(),
        "spot".to_string()
    ]);
    assert_eq!(split_char("", ','), vec!["".to_string()]);
    assert_eq!(split_char("a,,b,", ','), vec![
        "a".to_string(),
        "".to_string(),
        "b".to_string(),
        "".to_string()
    ]);
}

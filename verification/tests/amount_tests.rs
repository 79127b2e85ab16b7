use std::str::FromStr;

use tx_ledger::amount::Amount;

#[test]
fn zero_amount_has_value_zero() {
    let amount = Amount::zero();
    assert_eq!(amount.0, 0);
}

#[test]
fn checked_add_returns_correct_sum() {
    let a = Amount(100);
    let b = Amount(200);
    let result = a.checked_add(b);
    assert_eq!(result, Some(Amount(300)));
}

#[test]
fn checked_add_returns_none_on_overflow() {
    let a = Amount(i64::MAX);
    let b = Amount(1);
    let result = a.checked_add(b);
    assert!(result.is_none());
}

#[test]
fn checked_sub_returns_correct_difference() {
    let a = Amount(300);
    let b = Amount(200);
    let result = a.checked_sub(b);
    assert_eq!(result, Some(Amount(100)));
}

#[test]
fn checked_sub_returns_none_on_underflow() {
    let a = Amount(i64::MIN);
    let b = Amount(1);
    let result = a.checked_sub(b);
    assert!(result.is_none());
}

#[test]
fn is_negative_returns_true_for_negative_amount() {
    let amount = Amount(-1);
    assert!(amount.is_negative());
}

#[test]
fn is_negative_returns_false_for_non_negative_amount() {
    let amount = Amount(0);
    assert!(!amount.is_negative());
}

#[test]
fn parse_4dp_parses_valid_string() {
    let result = Amount::parse_4dp("123.4567").unwrap();
    assert_eq!(result, Amount(1234567));
}

#[test]
fn parse_4dp_handles_negative_values() {
    let result = Amount::parse_4dp("-123.4567").unwrap();
    assert_eq!(result, Amount(-1234567));
}

#[test]
fn parse_4dp_rounds_half_up() {
    let result = Amount::parse_4dp("123.45675").unwrap();
    assert_eq!(result, Amount(1234568));
}

#[test]
fn parse_4dp_returns_error_on_empty_string() {
    let result = Amount::parse_4dp("");
    assert!(result.is_err());
}

#[test]
fn parse_4dp_returns_error_on_malformed_int() {
    let result = Amount::parse_4dp("abc.1234");
    assert!(result.is_err());
}

#[test]
fn parse_4dp_returns_error_on_malformed_frac() {
    let result = Amount::parse_4dp("123.abc");
    assert!(result.is_err());
}

#[test]
fn parse_4dp_returns_error_on_overflow() {
    let result = Amount::parse_4dp(&format!("{}.1234", i64::MAX));
    assert!(result.is_err());
}

#[test]
fn from_str_parses_valid_string() {
    let result = Amount::from_str("123.4567").unwrap();
    assert_eq!(result, Amount(1234567));
}

#[test]
fn from_str_returns_error_on_invalid_string() {
    let result = Amount::from_str("invalid");
    assert!(result.is_err());
}

#[test]
fn display_formats_correctly() {
    let amount = Amount(1234567);
    assert_eq!(amount.format_4dp(), "123.4567");
}

#[test]
fn display_formats_negative_correctly() {
    let amount = Amount(-1234567);
    assert_eq!(amount.format_4dp(), "-123.4567");
}

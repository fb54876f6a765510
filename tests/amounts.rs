use disperse_api::amount::{parse_amounts, parse_optional_amount, sum_amounts, Amount, AmountError};

const MAX_TEXT: &str = "115792089237316195423570985008687907853269984665640564039457584007913129639935";
const BOUND_TEXT: &str = "115792089237316195423570985008687907853269984665640564039457584007913129639936";

fn parse_amount(s: &str) -> Result<Amount, AmountError> {
    parse_amounts(&vec![s.to_string()]).map(|v| v[0])
}

fn amount(n: u64) -> Amount {
    Amount { limbs: [n, 0, 0, 0] }
}

#[test]
fn parses_small_decimal() {
    assert_eq!(parse_amount("123").unwrap().limbs, [123, 0, 0, 0]);
}

#[test]
fn empty_text_is_zero() {
    assert_eq!(parse_amount("").unwrap().limbs, [0, 0, 0, 0]);
}

#[test]
fn parses_value_across_limbs() {
    // 2^64
    assert_eq!(parse_amount("18446744073709551616").unwrap().limbs, [0, 1, 0, 0]);
}

#[test]
fn parses_largest_amount() {
    assert_eq!(parse_amount(MAX_TEXT).unwrap().limbs, [u64::MAX; 4]);
}

#[test]
fn two_to_the_256_is_too_large() {
    assert_eq!(parse_amount(BOUND_TEXT).unwrap_err(), AmountError::InvalidLength);
}

#[test]
fn non_digit_is_invalid_character() {
    assert_eq!(parse_amount("12a").unwrap_err(), AmountError::InvalidCharacter);
    assert_eq!(parse_amount("-1").unwrap_err(), AmountError::InvalidCharacter);
    assert_eq!(parse_amount(" 1").unwrap_err(), AmountError::InvalidCharacter);
}

#[test]
fn overflow_before_bad_character_is_too_large() {
    let text = format!("{}0x", MAX_TEXT);
    assert_eq!(parse_amount(&text).unwrap_err(), AmountError::InvalidLength);
}

#[test]
fn bad_character_before_overflow_is_invalid_character() {
    let text = format!("x{}0", MAX_TEXT);
    assert_eq!(parse_amount(&text).unwrap_err(), AmountError::InvalidCharacter);
}

#[test]
fn error_messages() {
    assert_eq!(AmountError::InvalidCharacter.message(), "a character is not in the range 0-9");
    assert_eq!(AmountError::InvalidLength.message(), "the number is too large for the type");
}

#[test]
fn parses_list_in_order() {
    let texts = vec!["1".to_string(), "20".to_string(), "300".to_string()];
    let parsed = parse_amounts(&texts).unwrap();
    let limbs: Vec<u64> = parsed.iter().map(|a| a.limbs[0]).collect();
    assert_eq!(limbs, vec![1, 20, 300]);
}

#[test]
fn list_reports_first_error() {
    let texts = vec!["1".to_string(), "x".to_string(), BOUND_TEXT.to_string()];
    assert_eq!(parse_amounts(&texts).unwrap_err(), AmountError::InvalidCharacter);
    let texts = vec!["1".to_string(), BOUND_TEXT.to_string(), "x".to_string()];
    assert_eq!(parse_amounts(&texts).unwrap_err(), AmountError::InvalidLength);
}

#[test]
fn empty_list_parses() {
    assert!(parse_amounts(&Vec::new()).unwrap().is_empty());
}

#[test]
fn absent_percentage_is_zero() {
    assert_eq!(parse_optional_amount(&None).unwrap().limbs, [0, 0, 0, 0]);
    assert_eq!(parse_optional_amount(&Some("15".to_string())).unwrap().limbs, [15, 0, 0, 0]);
    assert_eq!(parse_optional_amount(&Some("1.5".to_string())).unwrap_err(), AmountError::InvalidCharacter);
}

#[test]
fn sums_amounts() {
    assert_eq!(sum_amounts(&vec![amount(1), amount(2), amount(3)]).unwrap().limbs, [6, 0, 0, 0]);
}

#[test]
fn sum_of_nothing_is_zero() {
    assert_eq!(sum_amounts(&Vec::new()).unwrap().limbs, [0, 0, 0, 0]);
}

#[test]
fn sum_carries_into_next_limb() {
    assert_eq!(sum_amounts(&vec![amount(u64::MAX), amount(1)]).unwrap().limbs, [0, 1, 0, 0]);
}

#[test]
fn sum_detects_overflow() {
    assert!(sum_amounts(&vec![Amount::max_value(), amount(1)]).is_none());
    assert!(sum_amounts(&vec![amount(5), Amount::max_value(), amount(0)]).is_none());
}

#[test]
fn sum_reaching_largest_amount_fits() {
    let almost = Amount { limbs: [u64::MAX - 1, u64::MAX, u64::MAX, u64::MAX] };
    assert_eq!(sum_amounts(&vec![almost, amount(1)]).unwrap().limbs, [u64::MAX; 4]);
}

use casa::amount::{Amount, Rate, MAX_MINOR, MAX_RATE, MINOR_PER_UNIT, RATE_SCALE};
use casa::error::ParseFailure;

fn minor_of(text: &str) -> i64 {
    Amount::parse(text).unwrap().minor()
}

#[test]
fn amount_is_read_with_dot_or_comma() {
    assert_eq!(minor_of("21.37"), 2137);
    assert_eq!(minor_of("21,37"), 2137);
    assert_eq!(minor_of("100"), 10_000);
    assert_eq!(minor_of("0.5"), 50);
    assert_eq!(minor_of("0,05"), 5);
    assert_eq!(minor_of("007"), 700);
    assert_eq!(minor_of("0"), 0);
}

#[test]
fn amount_is_read_with_sign() {
    assert_eq!(minor_of("-5"), -500);
    assert_eq!(minor_of("+0,5"), 50);
    assert_eq!(minor_of("-21.37"), -2137);
    assert_eq!(minor_of("-0"), 0);
}

#[test]
fn malformed_amount_is_refused() {
    for text in [
        "", "-", "+", ".", ",", "1.", ".5", "1.234", "1e3", "1 000", "abc", "1.2.3", "1,2,3",
        "--1", "+-1", " 1", "1 ", "1.x", "x.1", "NaN", "inf", "١٢",
    ] {
        assert_eq!(Amount::parse(text), Err(ParseFailure::Amount), "{text}");
    }
}

#[test]
fn amount_beyond_the_limit_is_refused() {
    assert_eq!(minor_of("10000000000"), MAX_MINOR);
    assert_eq!(minor_of("-10000000000.00"), -MAX_MINOR);
    assert_eq!(Amount::parse("10000000000.01"), Err(ParseFailure::Amount));
    assert_eq!(Amount::parse("10000000001"), Err(ParseFailure::Amount));
    assert_eq!(Amount::parse("99999999999999999999999999999"), Err(ParseFailure::Amount));
    assert!(Amount::from_minor(MAX_MINOR).is_some());
    assert!(Amount::from_minor(-MAX_MINOR).is_some());
    assert!(Amount::from_minor(MAX_MINOR + 1).is_none());
    assert!(Amount::from_minor(-MAX_MINOR - 1).is_none());
    assert!(Amount::from_minor(i64::MIN).is_none());
}

#[test]
fn amount_counts_hundredths() {
    assert_eq!(MINOR_PER_UNIT, 100);
    assert_eq!(MAX_MINOR, 1_000_000_000_000);
    assert_eq!(Amount::from_minor(2137).unwrap().minor(), 2137);
}

#[test]
fn magnitude_is_written_without_trailing_zeros() {
    let written = |minor: i64| Amount::from_minor(minor).unwrap().magnitude_string();
    assert_eq!(written(2137), "21.37");
    assert_eq!(written(2130), "21.3");
    assert_eq!(written(2100), "21");
    assert_eq!(written(5), "0.05");
    assert_eq!(written(-50), "0.5");
    assert_eq!(written(0), "0");
    assert_eq!(written(-MAX_MINOR), "10000000000");
    assert_eq!(written(100_001), "1000.01");
}

#[test]
fn written_magnitude_reads_back() {
    for minor in [0, 1, 9, 10, 99, 100, 101, 110, 2137, 999_999, MAX_MINOR] {
        let amount = Amount::from_minor(minor).unwrap();
        assert_eq!(Amount::parse(&amount.magnitude_string()), Ok(amount));
    }
}

#[test]
fn negative_amount_is_an_income() {
    let expense = Amount::from_minor(450).unwrap();
    let income = expense.negated();
    assert_eq!(income.minor(), -450);
    assert!(income.is_income());
    assert!(!expense.is_income());
    assert!(!Amount::from_minor(0).unwrap().is_income());
    assert_eq!(income.negated(), expense);
}

#[test]
fn rate_counts_ten_thousandths() {
    assert_eq!(RATE_SCALE, 10_000);
    assert_eq!(Rate::from_scaled(2_500).unwrap().scaled(), 2_500);
    assert!(Rate::from_scaled(0).is_some());
    assert!(Rate::from_scaled(MAX_RATE).is_some());
    assert!(Rate::from_scaled(MAX_RATE + 1).is_none());
}

use casa::text::{
    chars_of, decimal_chars, digit_of, find_first, parse_decimal, push_chars, same_text, signed_chars,
};

fn text_of(chars: Vec<char>) -> String {
    chars.into_iter().collect()
}

#[test]
fn characters_come_in_order() {
    assert_eq!(chars_of("zł 1"), vec!['z', 'ł', ' ', '1']);
    assert_eq!(chars_of(""), Vec::<char>::new());
}

#[test]
fn digits_are_the_ascii_ones() {
    assert_eq!(digit_of(0), '0');
    assert_eq!(digit_of(7), '7');
    assert_eq!(digit_of(9), '9');
}

#[test]
fn number_is_written_in_base_ten() {
    assert_eq!(text_of(decimal_chars(0)), "0");
    assert_eq!(text_of(decimal_chars(7)), "7");
    assert_eq!(text_of(decimal_chars(10)), "10");
    assert_eq!(text_of(decimal_chars(2022)), "2022");
    assert_eq!(text_of(decimal_chars(u64::MAX)), "18446744073709551615");
}

#[test]
fn signed_number_is_written_with_its_sign() {
    assert_eq!(text_of(signed_chars(0)), "0");
    assert_eq!(text_of(signed_chars(42)), "42");
    assert_eq!(text_of(signed_chars(-42)), "-42");
    assert_eq!(text_of(signed_chars(i64::MAX)), "9223372036854775807");
    assert_eq!(text_of(signed_chars(i64::MIN)), "-9223372036854775808");
}

#[test]
fn numeral_is_read_within_its_limit() {
    let chars = chars_of("x0123y");
    assert_eq!(parse_decimal(&chars, 1, 5, 1000), Some(123));
    assert_eq!(parse_decimal(&chars, 1, 5, 123), Some(123));
    assert_eq!(parse_decimal(&chars, 1, 5, 122), None);
    assert_eq!(parse_decimal(&chars, 2, 3, 9), Some(1));
    assert_eq!(parse_decimal(&chars, 1, 1, 9), None);
    assert_eq!(parse_decimal(&chars, 0, 5, 1000), None);
    assert_eq!(parse_decimal(&chars, 1, 6, 1000), None);
    let large = chars_of("18446744073709551615");
    assert_eq!(parse_decimal(&large, 0, 20, u64::MAX), Some(u64::MAX));
    let larger = chars_of("18446744073709551616");
    assert_eq!(parse_decimal(&larger, 0, 20, u64::MAX), None);
}

#[test]
fn first_separator_is_found() {
    let chars = chars_of("12,5.0");
    assert_eq!(find_first(&chars, 0, '.', ','), 2);
    assert_eq!(find_first(&chars, 3, '.', ','), 4);
    assert_eq!(find_first(&chars, 5, '.', ','), 6);
    assert_eq!(find_first(&chars, 6, '.', ','), 6);
    assert_eq!(find_first(&chars, 0, '-', '-'), 6);
    assert_eq!(find_first(&chars, 2, '.', ','), 2);
}

#[test]
fn characters_are_appended() {
    let mut text = "ab".to_string();
    push_chars(&mut text, &vec!['c', 'ż']);
    assert_eq!(text, "abcż");
    push_chars(&mut text, &Vec::new());
    assert_eq!(text, "abcż");
}

#[test]
fn texts_are_compared_by_their_characters() {
    assert!(same_text("PLN", "PLN"));
    assert!(same_text("", ""));
    assert!(!same_text("PLN", "PLn"));
    assert!(!same_text("PLN", "PL"));
    assert!(!same_text("", " "));
}

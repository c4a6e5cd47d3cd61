use weather_banner::parse::{parse_fixed, parse_i32, same_text, FIXED_LIMIT};
use weather_banner::text::{decimal_to_string, int_to_string};

#[test]
fn whole_numbers_are_written_in_decimal() {
    assert_eq!(int_to_string(0), "0");
    assert_eq!(int_to_string(7), "7");
    assert_eq!(int_to_string(-7), "-7");
    assert_eq!(int_to_string(1_000_000), "1000000");
    assert_eq!(int_to_string(i128::MAX), format!("{}", i128::MAX));
    assert_eq!(int_to_string(i128::MIN), format!("{}", i128::MIN));
    for i in [-1024i128, -99, -10, -9, 9, 10, 11, 99, 100, 101, 65_535] {
        assert_eq!(int_to_string(i), format!("{}", i));
    }
}

#[test]
fn fractions_are_rounded_to_the_nearest_digit() {
    assert_eq!(decimal_to_string(45_300, 1000, 1), "45.3");
    assert_eq!(decimal_to_string(45_349, 1000, 1), "45.3");
    assert_eq!(decimal_to_string(45_351, 1000, 1), "45.4");
    assert_eq!(decimal_to_string(-45_351, 1000, 1), "-45.4");
    assert_eq!(decimal_to_string(1, 3, 4), "0.3333");
    assert_eq!(decimal_to_string(2, 3, 4), "0.6667");
    assert_eq!(decimal_to_string(7, 2, 0), "4");
    assert_eq!(decimal_to_string(5, 2, 0), "2");
    assert_eq!(decimal_to_string(999, 1000, 1), "1.0");
    assert_eq!(decimal_to_string(5, 1000, 2), "0.00");
    assert_eq!(decimal_to_string(15, 1000, 2), "0.02");
    assert_eq!(decimal_to_string(-4, 1000, 1), "-0.0");
    assert_eq!(decimal_to_string(0, 7, 3), "0.000");
    assert_eq!(decimal_to_string(12, 1, 9), "12.000000000");
}

#[test]
fn halves_round_to_the_even_digit() {
    assert_eq!(decimal_to_string(250, 1000, 1), "0.2");
    assert_eq!(decimal_to_string(350, 1000, 1), "0.4");
    assert_eq!(decimal_to_string(1, 2, 0), "0");
    assert_eq!(decimal_to_string(3, 2, 0), "2");
    assert_eq!(decimal_to_string(-3, 2, 0), "-2");
}

#[test]
fn whole_numbers_are_read() {
    assert_eq!(parse_i32("0"), Some(0));
    assert_eq!(parse_i32("24"), Some(24));
    assert_eq!(parse_i32("+24"), Some(24));
    assert_eq!(parse_i32("-24"), Some(-24));
    assert_eq!(parse_i32("007"), Some(7));
    assert_eq!(parse_i32("2147483647"), Some(i32::MAX));
    assert_eq!(parse_i32("-2147483648"), Some(i32::MIN));
    assert_eq!(parse_i32("2147483648"), None);
    assert_eq!(parse_i32("-2147483649"), None);
    assert_eq!(parse_i32("99999999999999999999999999"), None);
    assert_eq!(parse_i32(""), None);
    assert_eq!(parse_i32("-"), None);
    assert_eq!(parse_i32("+"), None);
    assert_eq!(parse_i32(" 1"), None);
    assert_eq!(parse_i32("1 "), None);
    assert_eq!(parse_i32("1.0"), None);
    assert_eq!(parse_i32("--1"), None);
    assert_eq!(parse_i32("٣"), None);
    for text in ["0", "24", "+24", "-24", "007", "2147483648", "", "-", "1a", "+-3"] {
        assert_eq!(parse_i32(text), text.parse::<i32>().ok());
    }
}

#[test]
fn decimal_numbers_are_read_in_thousandths() {
    assert_eq!(parse_fixed("45.3", 3), Some(45_300));
    assert_eq!(parse_fixed("-12.4", 3), Some(-12_400));
    assert_eq!(parse_fixed("+12.4", 3), Some(12_400));
    assert_eq!(parse_fixed("0.00", 3), Some(0));
    assert_eq!(parse_fixed("0.01", 3), Some(10));
    assert_eq!(parse_fixed("9999.9", 3), Some(9_999_900));
    assert_eq!(parse_fixed("7", 3), Some(7_000));
    assert_eq!(parse_fixed("7.", 3), Some(7_000));
    assert_eq!(parse_fixed(".5", 3), Some(500));
    assert_eq!(parse_fixed("-.5", 3), Some(-500));
    assert_eq!(parse_fixed("-0", 3), Some(0));
    assert_eq!(parse_fixed("1.2344", 3), Some(1_234));
    assert_eq!(parse_fixed("1.2345", 3), Some(1_235));
    assert_eq!(parse_fixed("1.23449999", 3), Some(1_234));
    assert_eq!(parse_fixed("0.9995", 3), Some(1_000));
    assert_eq!(parse_fixed("-8.266667", 6), Some(-8_266_667));
    assert_eq!(parse_fixed("12.5", 0), Some(13));
    assert_eq!(parse_fixed("12.4", 0), Some(12));
}

#[test]
fn what_is_no_decimal_number_is_not_read() {
    for text in ["", ".", "-", "+", "-.", "1e3", "1.2.3", "inf", "NaN", " 1", "1 ", "1,5", "--1", "1-"] {
        assert_eq!(parse_fixed(text, 3), None);
    }
}

#[test]
fn numbers_beyond_the_limit_are_not_read() {
    assert_eq!(parse_fixed("1000000000000", 3), Some(FIXED_LIMIT));
    assert_eq!(parse_fixed("-1000000000000", 3), Some(-FIXED_LIMIT));
    assert_eq!(parse_fixed("1000000000000.0004", 3), Some(FIXED_LIMIT));
    assert_eq!(parse_fixed("1000000000000.0005", 3), None);
    assert_eq!(parse_fixed("1000000000000.001", 3), None);
    assert_eq!(parse_fixed("1000000000001", 3), None);
    assert_eq!(parse_fixed("99999999999999999999999999999999999999999999", 3), None);
    assert_eq!(parse_fixed("00000000000000000000000000000000000000000001.5", 3), Some(1_500));
}

#[test]
fn texts_are_compared_by_their_characters() {
    assert!(same_text("", ""));
    assert!(same_text("99.99", "99.99"));
    assert!(!same_text("99.99", "99.9"));
    assert!(!same_text("99.99", "99.98"));
    assert!(same_text("°′″", "°′″"));
    assert!(!same_text("°′″", "°′'"));
}

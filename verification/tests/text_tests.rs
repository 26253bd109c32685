use conculake::text::{
    decimal_string, parse_i32, parse_u32, parse_u64, signed_decimal_string, split_line,
    strip_newline,
};

#[test]
fn decimal_of_zero_is_one_digit() {
    assert_eq!(decimal_string(0), "0");
}

#[test]
fn decimal_has_no_leading_zero() {
    assert_eq!(decimal_string(7), "7");
    assert_eq!(decimal_string(10), "10");
    assert_eq!(decimal_string(42), "42");
    assert_eq!(decimal_string(1000), "1000");
}

#[test]
fn decimal_of_largest_number() {
    assert_eq!(decimal_string(u64::MAX), "18446744073709551615");
}

#[test]
fn signed_decimal_puts_minus_in_front() {
    assert_eq!(signed_decimal_string(-1), "-1");
    assert_eq!(signed_decimal_string(-2), "-2");
    assert_eq!(signed_decimal_string(0), "0");
    assert_eq!(signed_decimal_string(305), "305");
}

#[test]
fn signed_decimal_of_extremes() {
    assert_eq!(signed_decimal_string(i64::MIN), "-9223372036854775808");
    assert_eq!(signed_decimal_string(i64::MAX), "9223372036854775807");
}

#[test]
fn parse_u32_reads_digits() {
    assert_eq!(parse_u32("0"), Some(0));
    assert_eq!(parse_u32("42"), Some(42));
    assert_eq!(parse_u32("007"), Some(7));
    assert_eq!(parse_u32("+7"), Some(7));
}

#[test]
fn parse_u32_refuses_what_is_no_number() {
    assert_eq!(parse_u32(""), None);
    assert_eq!(parse_u32("+"), None);
    assert_eq!(parse_u32("-1"), None);
    assert_eq!(parse_u32("4 2"), None);
    assert_eq!(parse_u32(" 42"), None);
    assert_eq!(parse_u32("42\n"), None);
    assert_eq!(parse_u32("4_2"), None);
    assert_eq!(parse_u32("++1"), None);
}

#[test]
fn parse_u32_knows_its_bound() {
    assert_eq!(parse_u32("4294967295"), Some(u32::MAX));
    assert_eq!(parse_u32("4294967296"), None);
    assert_eq!(parse_u32("99999999999999999999999999999999"), None);
    assert_eq!(parse_u32("00000000000000000000000000000001"), Some(1));
}

#[test]
fn parse_u64_knows_its_bound() {
    assert_eq!(parse_u64("18446744073709551615"), Some(u64::MAX));
    assert_eq!(parse_u64("18446744073709551616"), None);
    assert_eq!(parse_u64("1539000000"), Some(1539000000));
}

#[test]
fn parse_i32_reads_signs() {
    assert_eq!(parse_i32("-1"), Some(-1));
    assert_eq!(parse_i32("-2"), Some(-2));
    assert_eq!(parse_i32("+3"), Some(3));
    assert_eq!(parse_i32("3"), Some(3));
    assert_eq!(parse_i32("-0"), Some(0));
}

#[test]
fn parse_i32_knows_its_bounds() {
    assert_eq!(parse_i32("2147483647"), Some(i32::MAX));
    assert_eq!(parse_i32("2147483648"), None);
    assert_eq!(parse_i32("-2147483648"), Some(i32::MIN));
    assert_eq!(parse_i32("-2147483649"), None);
}

#[test]
fn parse_i32_refuses_what_is_no_number() {
    assert_eq!(parse_i32(""), None);
    assert_eq!(parse_i32("-"), None);
    assert_eq!(parse_i32("+"), None);
    assert_eq!(parse_i32("--1"), None);
    assert_eq!(parse_i32("1-"), None);
    assert_eq!(parse_i32("one"), None);
}

#[test]
fn parse_agrees_with_std() {
    for text in ["0", "12", "+12", "-12", "", "+", "-", "1a", "4294967295", "4294967296", "٣"] {
        assert_eq!(parse_u32(text), text.parse::<u32>().ok(), "{:?}", text);
        assert_eq!(parse_i32(text), text.parse::<i32>().ok(), "{:?}", text);
        assert_eq!(parse_u64(text), text.parse::<u64>().ok(), "{:?}", text);
    }
}

#[test]
fn written_numbers_are_read_back() {
    for n in [0u32, 1, 9, 10, 99, 100, 65535, u32::MAX] {
        assert_eq!(parse_u32(&decimal_string(n as u64)), Some(n));
    }
    for i in [i32::MIN, -10, -1, 0, 1, 10, i32::MAX] {
        assert_eq!(parse_i32(&signed_decimal_string(i as i64)), Some(i));
    }
}

#[test]
fn split_line_cuts_after_the_first_newline() {
    assert_eq!(split_line("a\nb\nc"), ("a\n", "b\nc"));
    assert_eq!(split_line("\nrest"), ("\n", "rest"));
    assert_eq!(split_line("no newline"), ("no newline", ""));
    assert_eq!(split_line(""), ("", ""));
    assert_eq!(split_line("ñu\nño"), ("ñu\n", "ño"));
}

#[test]
fn only_a_newline_is_stripped() {
    assert_eq!(strip_newline("12\n"), "12");
    assert_eq!(strip_newline("12"), "12");
    assert_eq!(strip_newline(""), "");
    assert_eq!(strip_newline("\n"), "");
    assert_eq!(strip_newline("12\n\n"), "12\n");
    assert_eq!(strip_newline("añ"), "añ");
    assert_eq!(strip_newline("añ\n"), "añ");
}

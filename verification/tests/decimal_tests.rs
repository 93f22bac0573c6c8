use rust_lessons::decimal::{parse_i32, parse_natural, write_integer, write_natural};

#[test]
fn parse_i32_reads_plain_numbers() {
    assert_eq!(parse_i32("0"), Some(0));
    assert_eq!(parse_i32("7"), Some(7));
    assert_eq!(parse_i32("42"), Some(42));
    assert_eq!(parse_i32("-42"), Some(-42));
    assert_eq!(parse_i32("+42"), Some(42));
    assert_eq!(parse_i32("007"), Some(7));
    assert_eq!(parse_i32("-0"), Some(0));
    assert_eq!(parse_i32("+0"), Some(0));
}

#[test]
fn parse_i32_reads_the_ends_of_the_range() {
    assert_eq!(parse_i32("2147483647"), Some(i32::MAX));
    assert_eq!(parse_i32("-2147483648"), Some(i32::MIN));
    assert_eq!(parse_i32("+2147483647"), Some(i32::MAX));
    assert_eq!(parse_i32("0000000002147483647"), Some(i32::MAX));
}

#[test]
fn parse_i32_refuses_what_does_not_fit() {
    assert_eq!(parse_i32("2147483648"), None);
    assert_eq!(parse_i32("-2147483649"), None);
    assert_eq!(parse_i32("99999999999999999999999999"), None);
    assert_eq!(parse_i32("-99999999999999999999999999"), None);
    assert_eq!(parse_i32("18446744073709551616"), None);
}

#[test]
fn parse_i32_refuses_what_is_no_number() {
    assert_eq!(parse_i32(""), None);
    assert_eq!(parse_i32("+"), None);
    assert_eq!(parse_i32("-"), None);
    assert_eq!(parse_i32("++1"), None);
    assert_eq!(parse_i32("+-1"), None);
    assert_eq!(parse_i32("1-"), None);
    assert_eq!(parse_i32(" 1"), None);
    assert_eq!(parse_i32("1 "), None);
    assert_eq!(parse_i32("12a"), None);
    assert_eq!(parse_i32("1.0"), None);
    assert_eq!(parse_i32("１２"), None);
    assert_eq!(parse_i32("exit"), None);
}

#[test]
fn parse_i32_is_what_std_parses() {
    let samples: Vec<&str> = vec![
        "", "0", "-0", "+0", "1", "-1", "+1", "10", "0010", "2147483647", "2147483648",
        "-2147483648", "-2147483649", "+2147483648", "4294967296", "abc", "1a", "a1", "-", "+",
        "--1", "1e3", "0x10", " 5", "5\n", "٣", "123456789", "-123456789", "1234567890123",
    ];
    for sample in samples {
        assert_eq!(parse_i32(sample), sample.parse::<i32>().ok(), "{:?}", sample);
    }
}

#[test]
fn parse_natural_keeps_to_its_limit() {
    assert_eq!(parse_natural("12", 12), Some(12));
    assert_eq!(parse_natural("13", 12), None);
    assert_eq!(parse_natural("0", 0), Some(0));
    assert_eq!(parse_natural("1", 0), None);
    assert_eq!(parse_natural("000", 0), Some(0));
    assert_eq!(parse_natural("18446744073709551615", u64::MAX), Some(u64::MAX));
    assert_eq!(parse_natural("18446744073709551616", u64::MAX), None);
    assert_eq!(parse_natural("184467440737095516150", u64::MAX), None);
}

#[test]
fn parse_natural_takes_digits_only() {
    assert_eq!(parse_natural("", 100), None);
    assert_eq!(parse_natural("+5", 100), None);
    assert_eq!(parse_natural("-5", 100), None);
    assert_eq!(parse_natural("5 ", 100), None);
    assert_eq!(parse_natural("5x", 100), None);
    assert_eq!(parse_natural("999999999999999999999x", 100), None);
}

#[test]
fn write_natural_writes_decimal() {
    let values: Vec<u64> = vec![0, 1, 9, 10, 11, 99, 100, 101, 4294967295, u64::MAX];
    for value in values {
        let mut out: String = String::new();
        write_natural(&mut out, value);
        assert_eq!(out, value.to_string());
    }
}

#[test]
fn write_natural_appends() {
    let mut out: String = String::from("n = ");
    write_natural(&mut out, 120);
    assert_eq!(out, "n = 120");
}

#[test]
fn write_integer_writes_the_sign() {
    let values: Vec<i64> = vec![0, 1, -1, 10, -10, 255, -256, i64::MAX, i64::MIN, i64::MIN + 1];
    for value in values {
        let mut out: String = String::new();
        write_integer(&mut out, value);
        assert_eq!(out, value.to_string());
    }
}

#[test]
fn what_is_written_reads_back() {
    let values: Vec<i32> = vec![0, 1, -1, 12, -12, 1000, i32::MAX, i32::MIN];
    for value in values {
        let mut out: String = String::new();
        write_integer(&mut out, value as i64);
        assert_eq!(parse_i32(&out), Some(value));
    }
}

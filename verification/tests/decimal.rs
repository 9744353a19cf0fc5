use statusline::decimal::{char_is_digit, parse_i64, parse_u8, push_decimal};

fn chars(s: &str) -> Vec<char> {
    s.chars().collect()
}

fn written(n: u128) -> String {
    let mut out = String::from(">");
    push_decimal(&mut out, n);
    out
}

#[test]
fn digits_are_zero_to_nine() {
    for c in "0123456789".chars() {
        assert!(char_is_digit(c));
    }
    for c in ['/', ':', 'a', ' ', '+', '-', '.', '٣', '３'] {
        assert!(!char_is_digit(c));
    }
}

#[test]
fn parse_u8_reads_numbers_up_to_255() {
    assert_eq!(parse_u8(&chars("0")), Some(0));
    assert_eq!(parse_u8(&chars("57")), Some(57));
    assert_eq!(parse_u8(&chars("100")), Some(100));
    assert_eq!(parse_u8(&chars("255")), Some(255));
    assert_eq!(parse_u8(&chars("+7")), Some(7));
    assert_eq!(parse_u8(&chars("007")), Some(7));
    assert_eq!(parse_u8(&chars("0000000000000000000000000000000255")), Some(255));
}

#[test]
fn parse_u8_refuses_everything_else() {
    let refused = [
        "", "+", "-", "-0", "-1", "256", "1000", "99999999999999999999999", "1 ", " 1", "1.0",
        "0x10", "++1", "1+", "12a", "٣",
    ];
    for s in refused {
        assert_eq!(parse_u8(&chars(s)), None);
    }
}

#[test]
fn parse_u8_agrees_with_the_standard_library() {
    for s in ["", "0", "9", "10", "99", "255", "256", "+255", "+256", "-0", "00", "+", "a", "2 5"] {
        assert_eq!(parse_u8(&chars(s)), s.parse::<u8>().ok());
    }
}

#[test]
fn parse_i64_reads_signed_numbers() {
    assert_eq!(parse_i64(&chars("0")), Some(0));
    assert_eq!(parse_i64(&chars("-0")), Some(0));
    assert_eq!(parse_i64(&chars("12345000")), Some(12_345_000));
    assert_eq!(parse_i64(&chars("+12345000")), Some(12_345_000));
    assert_eq!(parse_i64(&chars("-12345000")), Some(-12_345_000));
    assert_eq!(parse_i64(&chars("9223372036854775807")), Some(i64::MAX));
    assert_eq!(parse_i64(&chars("-9223372036854775808")), Some(i64::MIN));
    assert_eq!(parse_i64(&chars("-000000000000000000000000000042")), Some(-42));
}

#[test]
fn parse_i64_refuses_everything_else() {
    for s in [
        "",
        "+",
        "-",
        "+-1",
        "--1",
        "9223372036854775808",
        "-9223372036854775809",
        "18446744073709551616",
        "99999999999999999999999999999999999999999",
        "1.5",
        "1e3",
        "12 ",
        " 12",
        "1_000",
        "twelve",
    ] {
        assert_eq!(parse_i64(&chars(s)), None);
    }
}

#[test]
fn parse_i64_agrees_with_the_standard_library() {
    let texts = [
        "", "0", "-0", "+0", "7", "-7", "+7", "9223372036854775807", "9223372036854775808",
        "-9223372036854775808", "-9223372036854775809", "-", "+", "1-", "a",
    ];
    for s in texts {
        assert_eq!(parse_i64(&chars(s)), s.parse::<i64>().ok());
    }
}

#[test]
fn push_decimal_writes_at_the_end() {
    assert_eq!(written(0), ">0");
    assert_eq!(written(7), ">7");
    assert_eq!(written(10), ">10");
    assert_eq!(written(92), ">92");
    assert_eq!(written(100), ">100");
    assert_eq!(written(1_000_000_007), ">1000000007");
    assert_eq!(written(u64::MAX as u128), ">18446744073709551615");
    assert_eq!(written(u128::MAX), ">340282366920938463463374607431768211455");
}

#[test]
fn push_decimal_agrees_with_the_standard_library() {
    for n in (0u128..3000).chain([9_999, 10_000, 99_999, 100_000, u32::MAX as u128]) {
        assert_eq!(written(n), format!(">{}", n));
    }
}

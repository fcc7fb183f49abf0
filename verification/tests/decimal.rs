use load_balancer::utils::decimal::{parse_u16, parse_u64, push_decimal};

#[test]
fn parse_u16_reads_plain_and_signed_digits() {
    assert_eq!(parse_u16("8080"), Some(8080));
    assert_eq!(parse_u16("+42"), Some(42));
    assert_eq!(parse_u16("0"), Some(0));
    assert_eq!(parse_u16("007"), Some(7));
    assert_eq!(parse_u16("65535"), Some(65535));
}

#[test]
fn parse_u16_refuses_what_str_parse_refuses() {
    for text in ["", "+", "-1", "65536", "70000", " 1", "1 ", "12a", "0x10", "++1", "١٢"] {
        assert_eq!(parse_u16(text), None, "{:?}", text);
        assert!(text.parse::<u16>().is_err());
    }
}

#[test]
fn parse_u16_agrees_with_str_parse() {
    for text in ["1", "+1", "99999", "65535", "65536", "", "-0", "+0", "0000000000000000000123", "1.5"] {
        assert_eq!(parse_u16(text), text.parse::<u16>().ok(), "{:?}", text);
    }
}

#[test]
fn parse_u64_reads_the_whole_range() {
    assert_eq!(parse_u64("18446744073709551615"), Some(u64::MAX));
    assert_eq!(parse_u64("18446744073709551616"), None);
    assert_eq!(parse_u64("250"), Some(250));
    assert_eq!(parse_u64("99999999999999999999999"), None);
    assert_eq!(parse_u64("1e3"), None);
}

#[test]
fn push_decimal_writes_without_leading_zeros() {
    let mut out = String::from("n=");
    push_decimal(&mut out, 0);
    assert_eq!(out, "n=0");
    let mut out = String::new();
    push_decimal(&mut out, 1234567890);
    assert_eq!(out, "1234567890");
    let mut out = String::new();
    push_decimal(&mut out, u64::MAX);
    assert_eq!(out, u64::MAX.to_string());
}

#[test]
fn written_numbers_read_back() {
    for n in [0u64, 9, 10, 99, 100, 7777, 65535] {
        let mut out = String::new();
        push_decimal(&mut out, n);
        assert_eq!(parse_u64(&out), Some(n));
        assert_eq!(parse_u16(&out), Some(n as u16));
    }
    let mut out = String::new();
    push_decimal(&mut out, 65536);
    assert_eq!(parse_u16(&out), None);
    assert_eq!(parse_u64(&out), Some(65536));
}

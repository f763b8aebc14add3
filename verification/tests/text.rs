use shielded_sync::text::{decimal, parse_decimal, parse_u32, parse_u64, push_decimal, str_eq};

#[test]
fn numbers_are_read_in_decimal() {
    assert_eq!(parse_u32("0"), Some(0));
    assert_eq!(parse_u32("7"), Some(7));
    assert_eq!(parse_u32("+7"), Some(7));
    assert_eq!(parse_u32("0042"), Some(42));
    assert_eq!(parse_u32("4294967295"), Some(4294967295));
    assert_eq!(parse_u32("+4294967295"), Some(4294967295));
    assert_eq!(parse_u32("0000000000004294967295"), Some(4294967295));
    assert_eq!(parse_u32("4294967296"), None);
    assert_eq!(parse_u32("99999999999999999999999999999999999999999999"), None);
    assert_eq!(parse_u32(""), None);
    assert_eq!(parse_u32("+"), None);
    assert_eq!(parse_u32("++1"), None);
    assert_eq!(parse_u32("-1"), None);
    assert_eq!(parse_u32("-0"), None);
    assert_eq!(parse_u32(" 1"), None);
    assert_eq!(parse_u32("1 "), None);
    assert_eq!(parse_u32("1+"), None);
    assert_eq!(parse_u32("12a"), None);
    assert_eq!(parse_u32("0x10"), None);
    assert_eq!(parse_u32("1_000"), None);
    assert_eq!(parse_u32("１２"), None);
    assert_eq!(parse_u32("é"), None);
    assert_eq!(parse_u32("1é"), None);
}

#[test]
fn numbers_are_read_up_to_their_bound() {
    assert_eq!(parse_u64("18446744073709551615"), Some(u64::MAX));
    assert_eq!(parse_u64("18446744073709551616"), None);
    assert_eq!(parse_u64("4294967296"), Some(4294967296));
    assert_eq!(parse_decimal("10", 10), Some(10));
    assert_eq!(parse_decimal("11", 10), None);
    assert_eq!(parse_decimal("0", 0), Some(0));
    assert_eq!(parse_decimal("1", 0), None);
    assert_eq!(parse_decimal("184467440737095516150", u64::MAX), None);
}

#[test]
fn numbers_are_written_in_decimal() {
    assert_eq!(decimal(0), "0");
    assert_eq!(decimal(9), "9");
    assert_eq!(decimal(10), "10");
    assert_eq!(decimal(1234567890), "1234567890");
    assert_eq!(decimal(u64::MAX), "18446744073709551615");
    let mut out = "height ".to_string();
    push_decimal(&mut out, 300);
    assert_eq!(out, "height 300");
}

#[test]
fn written_numbers_are_read_back() {
    for n in [0u64, 1, 9, 10, 11, 99, 100, 4294967295, 4294967296, u64::MAX - 1, u64::MAX] {
        assert_eq!(parse_u64(&decimal(n)), Some(n));
        if n <= u32::MAX as u64 {
            assert_eq!(parse_u32(&decimal(n)), Some(n as u32));
        } else {
            assert_eq!(parse_u32(&decimal(n)), None);
        }
    }
}

#[test]
fn texts_are_compared_by_their_characters() {
    assert!(str_eq("", ""));
    assert!(str_eq("inner_tx", "inner_tx"));
    assert!(!str_eq("inner_tx", "inner_tx "));
    assert!(!str_eq("inner_tx", "inner_ty"));
    assert!(!str_eq("Inner_tx", "inner_tx"));
    assert!(!str_eq("", "a"));
    assert!(str_eq("é√", "é√"));
    assert!(!str_eq("é", "e"));
}

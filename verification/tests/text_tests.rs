use pulse_player::text::{parse_u64, to_decimal, find, starts_with, str_equal, substring};

#[test]
fn parsing_numbers() {
    assert_eq!(parse_u64("0"), Some(0));
    assert_eq!(parse_u64("+42"), Some(42));
    assert_eq!(parse_u64("18446744073709551615"), Some(u64::MAX));
    assert_eq!(parse_u64("18446744073709551616"), None);
    assert_eq!(parse_u64(""), None);
    assert_eq!(parse_u64("+"), None);
    assert_eq!(parse_u64("-1"), None);
    assert_eq!(parse_u64(" 1"), None);
    assert_eq!(parse_u64("007"), Some(7));
}

#[test]
fn formatting_numbers() {
    assert_eq!(to_decimal(0), "0");
    assert_eq!(to_decimal(1234567890), "1234567890");
    assert_eq!(to_decimal(u64::MAX), "18446744073709551615");
}

#[test]
fn searching() {
    assert_eq!(find("abcabc", "ca"), Some(2));
    assert_eq!(find("abc", ""), Some(0));
    assert_eq!(find("abc", "x"), None);
    assert_eq!(find("ñandú", "dú"), Some(3));
    assert!(starts_with("bytes=1-2", "bytes="));
    assert!(!starts_with("byte", "bytes="));
    assert!(str_equal("día", "día"));
    assert!(!str_equal("dia", "día"));
    assert_eq!(substring("canción", 2, 5), "nci");
}

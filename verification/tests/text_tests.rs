use gpjc_api::text::{format_i32, has_substring, nth_field, parse_i32};

#[test]
fn parse_i32_accepts_signed_decimals() {
    assert_eq!(parse_i32("42"), Some(42));
    assert_eq!(parse_i32("-42"), Some(-42));
    assert_eq!(parse_i32("+7"), Some(7));
    assert_eq!(parse_i32("007"), Some(7));
    assert_eq!(parse_i32("0"), Some(0));
    assert_eq!(parse_i32("2147483647"), Some(i32::MAX));
    assert_eq!(parse_i32("-2147483648"), Some(i32::MIN));
}

#[test]
fn parse_i32_refuses_what_from_str_refuses() {
    assert_eq!(parse_i32(""), None);
    assert_eq!(parse_i32("-"), None);
    assert_eq!(parse_i32("+"), None);
    assert_eq!(parse_i32("4a"), None);
    assert_eq!(parse_i32(" 4"), None);
    assert_eq!(parse_i32("4\n"), None);
    assert_eq!(parse_i32("2147483648"), None);
    assert_eq!(parse_i32("-2147483649"), None);
    assert_eq!(parse_i32("99999999999999999999"), None);
    assert_eq!(parse_i32("--1"), None);
    assert_eq!(parse_i32("٣"), None);
}

#[test]
fn parse_i32_agrees_with_std() {
    for s in ["12", "-0", "+0", "1_0", "0x10", "123456789", "-99", "3.5", "", "+-3"] {
        assert_eq!(parse_i32(s), s.parse::<i32>().ok(), "input {:?}", s);
    }
}

#[test]
fn format_i32_writes_decimal() {
    assert_eq!(format_i32(0), "0");
    assert_eq!(format_i32(7), "7");
    assert_eq!(format_i32(-5), "-5");
    assert_eq!(format_i32(1230), "1230");
    assert_eq!(format_i32(i32::MAX), "2147483647");
    assert_eq!(format_i32(i32::MIN), "-2147483648");
}

#[test]
fn transaction_id_round_trip_on_values() {
    for v in [0, 1, -1, 10, -10, 4711, i32::MAX, i32::MIN] {
        assert_eq!(parse_i32(&format_i32(v)), Some(v));
        assert_eq!(format_i32(v), v.to_string());
    }
}

#[test]
fn nth_field_splits_at_every_space() {
    assert_eq!(nth_field("a b  c", 0), Some("a".to_string()));
    assert_eq!(nth_field("a b  c", 1), Some("b".to_string()));
    assert_eq!(nth_field("a b  c", 2), Some("".to_string()));
    assert_eq!(nth_field("a b  c", 3), Some("c".to_string()));
    assert_eq!(nth_field("a b  c", 4), None);
    assert_eq!(nth_field("", 0), Some("".to_string()));
    assert_eq!(nth_field("", 1), None);
    assert_eq!(nth_field("x ", 1), Some("".to_string()));
    assert_eq!(nth_field("héllo wörld", 1), Some("wörld".to_string()));
}

#[test]
fn nth_field_agrees_with_split() {
    let s = "Intersection size is 5\n and more";
    let pieces: Vec<&str> = s.split(' ').collect();
    for n in 0..8 {
        assert_eq!(nth_field(s, n), pieces.get(n).map(|p| p.to_string()));
    }
}

#[test]
fn has_substring_finds_patterns() {
    assert!(has_substring("sanction-lists/UN_List.csv", "UN_List.csv"));
    assert!(has_substring("abc", ""));
    assert!(has_substring("abc", "abc"));
    assert!(!has_substring("abc", "abcd"));
    assert!(!has_substring("UN_test.csv", "UN_List.csv"));
    assert!(has_substring("aaab", "aab"));
}

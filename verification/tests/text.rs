use docker_registry_manager::json::{JsonNumber, JsonValue};
use docker_registry_manager::text::{
    chars_of, contains_text, decimal_string, equals_ignoring_ascii_case, is_whitespace, join,
    parse_u64, prefixed, same_text, starts_with_text, string_from, trim_at,
};

#[test]
fn decimal_rendering() {
    assert_eq!(decimal_string(0), "0");
    assert_eq!(decimal_string(7), "7");
    assert_eq!(decimal_string(10), "10");
    assert_eq!(decimal_string(1234567890), "1234567890");
    assert_eq!(decimal_string(u64::MAX), "18446744073709551615");
}

#[test]
fn decimal_parsing() {
    assert_eq!(parse_u64("0"), Some(0));
    assert_eq!(parse_u64("007"), Some(7));
    assert_eq!(parse_u64("+42"), Some(42));
    assert_eq!(parse_u64("18446744073709551615"), Some(u64::MAX));
    assert_eq!(parse_u64("18446744073709551616"), None);
    assert_eq!(parse_u64("99999999999999999999999"), None);
    assert_eq!(parse_u64(""), None);
    assert_eq!(parse_u64("+"), None);
    assert_eq!(parse_u64("-1"), None);
    assert_eq!(parse_u64(" 1"), None);
    assert_eq!(parse_u64("1 "), None);
    assert_eq!(parse_u64("12a"), None);
    assert_eq!(parse_u64("++1"), None);
    for s in ["0", "+5", "1x", "", "18446744073709551615", "18446744073709551616", "٣"] {
        assert_eq!(parse_u64(s), s.parse::<u64>().ok());
    }
}

#[test]
fn white_space_is_unicode_white_space() {
    for code in 0u32..0x3100 {
        if let Some(c) = char::from_u32(code) {
            assert_eq!(is_whitespace(c), c.is_whitespace(), "U+{:04X}", code);
        }
    }
    assert!(!is_whitespace('\u{FEFF}'));
}

#[test]
fn trimming_gives_the_bounds_of_the_trimmed_text() {
    for s in ["", " ", "a", "  a b \t", "\u{3000}x\u{a0}", "abc"] {
        let chars = chars_of(s);
        let (a, b) = trim_at(&chars, 0, chars.len());
        let trimmed: String = chars[a..b].iter().collect();
        assert_eq!(trimmed, s.trim());
    }
}

#[test]
fn texts_are_compared_and_searched() {
    assert!(same_text("abc", "abc"));
    assert!(!same_text("abc", "abd"));
    assert!(!same_text("abc", "ab"));
    assert!(contains_text("hello world", "o w"));
    assert!(contains_text("hello", ""));
    assert!(contains_text("", ""));
    assert!(!contains_text("hello", "world"));
    assert!(!contains_text("ab", "abc"));
    assert!(contains_text("aab", "ab"));
    assert!(starts_with_text("Basic x", "Basic "));
    assert!(!starts_with_text("Basi", "Basic "));
    assert!(equals_ignoring_ascii_case("Content-Length", "content-length"));
    assert!(!equals_ignoring_ascii_case("Content-Length", "content-lengt"));
    assert!(!equals_ignoring_ascii_case("ä", "Ä"));
    assert_eq!(prefixed("ab", "cd"), "abcd");
    assert_eq!(string_from(&chars_of("héllo")), "héllo");
    assert_eq!(join(&vec!["a".to_string(), "b".to_string(), "c".to_string()], ", "), "a, b, c");
    assert_eq!(join(&vec!["a".to_string()], ", "), "a");
    assert_eq!(join(&vec![], ", "), "");
}

fn tree() -> JsonValue {
    JsonValue::Object(vec![
        ("n".to_string(), JsonValue::Number(JsonNumber::Negative(-5))),
        ("big".to_string(), JsonValue::Number(JsonNumber::Unsigned(3000000000))),
        ("max".to_string(), JsonValue::Number(JsonNumber::Unsigned(u64::MAX))),
        ("f".to_string(), JsonValue::Number(JsonNumber::Float)),
        ("t".to_string(), JsonValue::Text("x".to_string())),
        ("l".to_string(), JsonValue::Array(vec![JsonValue::Text("a".to_string()), JsonValue::Null])),
        ("t".to_string(), JsonValue::Text("second".to_string())),
    ])
}

#[test]
fn members_are_found_by_name() {
    let value = tree();
    assert_eq!(value.get("t"), Some(&JsonValue::Text("x".to_string())));
    assert_eq!(value.get("missing"), None);
    assert_eq!(JsonValue::Null.get("t"), None);
    assert_eq!(JsonValue::Array(vec![]).get("t"), None);
    assert_eq!(value.get("l").unwrap().as_array().map(|l| l.len()), Some(2));
    assert_eq!(value.get("t").unwrap().as_text().map(|s| s.as_str()), Some("x"));
    assert_eq!(value.get("n").unwrap().as_text(), None);
    assert_eq!(value.get("n").unwrap().as_number(), Some(JsonNumber::Negative(-5)));
    assert_eq!(value.get("t").unwrap().as_number(), None);
    assert_eq!(value.get("t").unwrap().as_array(), None);
}

#[test]
fn members_are_read_by_their_type() {
    let value = tree();
    assert_eq!(value.i32_member("n"), Some(-5));
    assert_eq!(value.i32_member("big"), None);
    assert_eq!(value.i32_member("f"), None);
    assert_eq!(value.u64_member("big"), Some(3000000000));
    assert_eq!(value.u64_member("max"), Some(u64::MAX));
    assert_eq!(value.u64_member("n"), None);
    assert_eq!(value.u64_member("f"), None);
    assert_eq!(value.text_member("t"), Some("x".to_string()));
    assert_eq!(value.text_member("n"), None);
    assert_eq!(value.array_member("l").map(|l| l.len()), Some(1 + 1));
    assert!(value.array_member("t").is_none());
    let edge = JsonValue::Object(vec![
        ("a".to_string(), JsonValue::Number(JsonNumber::Unsigned(2147483647))),
        ("b".to_string(), JsonValue::Number(JsonNumber::Unsigned(2147483648))),
        ("c".to_string(), JsonValue::Number(JsonNumber::Negative(-2147483648))),
        ("d".to_string(), JsonValue::Number(JsonNumber::Negative(-2147483649))),
    ]);
    assert_eq!(edge.i32_member("a"), Some(i32::MAX));
    assert_eq!(edge.i32_member("b"), None);
    assert_eq!(edge.i32_member("c"), Some(i32::MIN));
    assert_eq!(edge.i32_member("d"), None);
}

use ai_chat::json::escape_json;
use ai_chat::native::parse_client_id as parse_i64;
use ai_chat::text::{chars_of, contains, decimal_string, trim_chars, trim_str};

#[test]
fn decimal_rendering() {
    assert_eq!(decimal_string(0), "0");
    assert_eq!(decimal_string(7), "7");
    assert_eq!(decimal_string(1024), "1024");
    assert_eq!(decimal_string(u64::MAX), u64::MAX.to_string());
}

#[test]
fn integer_parsing() {
    assert_eq!(parse_i64("42"), Some(42));
    assert_eq!(parse_i64("+5"), Some(5));
    assert_eq!(parse_i64("-0"), Some(0));
    assert_eq!(parse_i64("-17"), Some(-17));
    assert_eq!(parse_i64("9223372036854775807"), Some(i64::MAX));
    assert_eq!(parse_i64("-9223372036854775808"), Some(i64::MIN));
    assert_eq!(parse_i64("9223372036854775808"), None);
    assert_eq!(parse_i64(""), None);
    assert_eq!(parse_i64("-"), None);
    assert_eq!(parse_i64("+"), None);
    assert_eq!(parse_i64(" 1"), None);
    assert_eq!(parse_i64("12a"), None);
}

#[test]
fn decimal_text_reads_back() {
    for n in [1u64, 9, 10, 12345, i64::MAX as u64] {
        assert_eq!(parse_i64(&decimal_string(n)), Some(n as i64));
    }
}

#[test]
fn trimming_unicode_white_space() {
    assert_eq!(trim_str("\u{3000}\t hello world \n\u{a0}"), "hello world");
    assert_eq!(trim_str("   "), "");
    assert_eq!(trim_str("x"), "x");
    assert_eq!(trim_str(" a b "), " a b ".trim());
    let v = chars_of(" \u{2003}z\u{85}");
    assert_eq!(trim_chars(&v), vec!['z']);
}

#[test]
fn substring_search() {
    assert!(contains("error sending request: dns error", "dns"));
    assert!(contains("abc", ""));
    assert!(!contains("ab", "abc"));
    assert!(!contains("Connection refused", "connection"));
}

#[test]
fn json_string_literals() {
    assert_eq!(escape_json("plain"), "\"plain\"");
    assert_eq!(escape_json("a\"b\\c"), "\"a\\\"b\\\\c\"");
    assert_eq!(escape_json("l1\nl2\t\r\u{8}\u{c}"), "\"l1\\nl2\\t\\r\\b\\f\"");
    assert_eq!(escape_json("\u{1}\u{1f}"), "\"\\u0001\\u001f\"");
    assert_eq!(escape_json("中文/"), "\"中文/\"");
    for s in ["", "x\u{7f}y", "\u{0}", "tab\tquote\"", "答案"] {
        assert_eq!(escape_json(s), serde_json::to_string(s).unwrap());
    }
}

#[test]
fn white_space_matches_std() {
    for code in 0u32..=0x10FFFF {
        if let Some(c) = char::from_u32(code) {
            assert_eq!(ai_chat::text::is_whitespace(c), c.is_whitespace(), "{:x}", code);
        }
    }
}

#[test]
fn parsing_matches_std() {
    for s in ["0", "007", "-12", "+3", "--1", "1_000", "١", "18446744073709551615", "-9223372036854775809"] {
        assert_eq!(parse_i64(s), s.parse::<i64>().ok(), "{}", s);
    }
}


#[test]
fn json_literals_decode_back() {
    for s in ["", "a\"b", "\u{0}\u{1f}\t\n", "中文 \\ /", "\u{7f}\u{80}"] {
        let lit = escape_json(s);
        assert!(lit.starts_with('"') && lit.ends_with('"'));
        assert!(!lit.chars().any(|c| (c as u32) < 0x20));
        assert_eq!(serde_json::from_str::<String>(&lit).unwrap(), s);
    }
    assert_eq!(escape_json("a\"b"), r#""a\"b""#);
}

use ometa::text::{
    decimal_string, join, parse_u64, starts_with, take_chars, trim,
    trim_end_matches, utf8_encode,
};

#[test]
fn trim_end_matches_removes_every_repetition() {
    assert_eq!(trim_end_matches("a///", "/"), "a");
    assert_eq!(trim_end_matches("x/api/api", "/api"), "x");
    assert_eq!(trim_end_matches("aaa", "aa"), "a");
    assert_eq!(trim_end_matches("abc", ""), "abc");
}

#[test]
fn trim_removes_unicode_white_space() {
    assert_eq!(trim("  yes\n"), "yes");
    assert_eq!(trim("\u{3000}y\u{a0}"), "y");
    assert_eq!(trim(" \t "), "");
}

#[test]
fn parse_u64_follows_str_parse() {
    for s in ["0", "42", "+7", "18446744073709551615", "18446744073709551616", "", "+", "-1", "1 ", "x"] {
        assert_eq!(parse_u64(s), s.parse::<u64>().ok(), "{s}");
    }
}

#[test]
fn decimal_string_matches_to_string() {
    for n in [0u64, 9, 10, 123, u64::MAX] {
        assert_eq!(decimal_string(n), n.to_string());
    }
}

#[test]
fn utf8_encode_matches_std() {
    for c in ['a', 'é', '€', '😀', '\u{7f}', '\u{80}', '\u{ffff}', '\u{10000}'] {
        let mut buf = [0u8; 4];
        assert_eq!(utf8_encode(c), c.encode_utf8(&mut buf).as_bytes().to_vec());
    }
}

#[test]
fn text_helpers() {
    assert!(starts_with("/api/x", "/api"));
    assert!(!starts_with("/ap", "/api"));
    assert_eq!(take_chars("héllo", 2), "hé");
    assert_eq!(join(&vec!["a".to_string(), "b".to_string()], ", "), "a, b");
    assert_eq!(join(&vec![], ","), "");
}

#[test]
fn trim_matches_str_trim() {
    let mut samples: Vec<String> = vec!["".into(), " a b ".into(), "x".into(), "\u{200b}x\u{200b}".into()];
    for c in (0u32..0x3100).filter_map(char::from_u32) {
        samples.push(format!("{c}y{c}"));
    }
    for s in &samples {
        assert_eq!(trim(s), s.trim(), "{:?}", s);
    }
}

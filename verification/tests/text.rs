use nhl_input::text::{
    chars_of, decimal_len, is_control, is_whitespace, parse_i32_range, push_decimal,
    push_zero_padded, str_contains, str_equal, string_from_chars, trim_str,
};

fn parse(s: &str) -> Option<i32> {
    let v = chars_of(s);
    parse_i32_range(&v, 0, v.len())
}

#[test]
fn parse_i32_like_std() {
    for s in ["0", "-0", "+7", "42", "-2147483648", "2147483647", "2147483648", "-2147483649", "", "+", "-", " 1", "1 ", "1.5", "0x10", "00012", "99999999999999999999"] {
        assert_eq!(parse(s), s.parse::<i32>().ok(), "{s:?}");
    }
}

#[test]
fn trim_like_std() {
    for s in ["", "  ", " a b ", "\u{3000}x\u{85}", "\t\r\n y \u{2028}", "\u{200b}z"] {
        assert_eq!(trim_str(s), s.trim(), "{s:?}");
    }
}

#[test]
fn char_classes_like_std() {
    for c in (0u32..0x3100).filter_map(char::from_u32) {
        assert_eq!(is_whitespace(c), c.is_whitespace(), "{c:?}");
        assert_eq!(is_control(c), c.is_control(), "{c:?}");
    }
}

#[test]
fn substring_search() {
    assert!(str_contains("main menu", "menu"));
    assert!(str_contains("abc", ""));
    assert!(!str_contains("ab", "abc"));
    assert!(!str_contains("aab", "abb"));
}

#[test]
fn decimal_text() {
    let mut s = String::new();
    push_decimal(&mut s, 0);
    push_decimal(&mut s, 1907);
    push_decimal(&mut s, u64::MAX);
    assert_eq!(s, format!("01907{}", u64::MAX));
    assert_eq!(decimal_len(u64::MAX), 20);
    let mut p = String::new();
    push_zero_padded(&mut p, 5, 3);
    push_zero_padded(&mut p, 12345, 3);
    assert_eq!(p, "00512345");
    assert_eq!(string_from_chars(&vec!['h', 'é']), "hé");
}

#[test]
fn string_equality() {
    assert!(str_equal("", ""));
    assert!(str_equal("PLAY", "PLAY"));
    assert!(!str_equal("PLAY", "PLAYS"));
    assert!(!str_equal("PLAY", "PLAx"));
    assert!(!str_equal("é", "e"));
}

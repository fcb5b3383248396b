use beadsd::text::{
    chars_of, contains, is_text, is_whitespace, join, split, split_once, starts_with, strip_prefix,
    to_decimal, trim,
};

#[test]
fn whitespace_is_unicode_white_space() {
    for n in 0u32..0x11_0000 {
        if let Some(c) = char::from_u32(n) {
            assert_eq!(is_whitespace(c), c.is_whitespace(), "{:x}", n);
        }
    }
}

#[test]
fn trim_agrees_with_the_standard_library() {
    for s in ["", " ", "\t\r\n", "a", " a ", "a b", "\u{3000}é b\u{85}", "\u{200b}x\u{200b}"] {
        assert_eq!(trim(s), s.trim());
    }
}

#[test]
fn split_keeps_empty_pieces() {
    assert_eq!(split("", '\n'), vec![""]);
    assert_eq!(split("a\n\nb\n", '\n'), vec!["a", "", "b", ""]);
    assert_eq!(split("é=ü", '='), vec!["é", "ü"]);
}

#[test]
fn split_once_takes_the_first_separator() {
    assert_eq!(split_once("a=b=c", '='), Some(("a".to_string(), "b=c".to_string())));
    assert_eq!(split_once("=", '='), Some((String::new(), String::new())));
    assert_eq!(split_once("abc", '='), None);
}

#[test]
fn prefixes() {
    assert!(starts_with("--db=x", "--db="));
    assert!(!starts_with("--db", "--db="));
    assert!(starts_with("é", ""));
    assert_eq!(strip_prefix("--url=http://h", "--url="), Some("http://h".to_string()));
    assert_eq!(strip_prefix("--url", "--url="), None);
}

#[test]
fn contains_agrees_with_the_standard_library() {
    for (hay, needle) in [
        ("On branch main\nnothing to commit, working tree clean\n", "nothing to commit"),
        ("nothing to comm", "nothing to commit"),
        ("", ""),
        ("abc", ""),
        ("", "a"),
        ("aab", "ab"),
        ("éüé", "üé"),
        ("abc", "cb"),
    ] {
        assert_eq!(contains(hay, needle), hay.contains(needle), "{} in {}", needle, hay);
    }
}

#[test]
fn decimals_agree_with_the_standard_library() {
    for n in [0u32, 7, 9, 10, 11, 99, 100, 20, 4_000_000_000, u32::MAX] {
        assert_eq!(to_decimal(n), n.to_string());
    }
}

#[test]
fn small_things() {
    assert_eq!(chars_of("aé"), vec!['a', 'é']);
    assert!(is_text(&"x".to_string(), "x"));
    assert!(!is_text(&"x".to_string(), "xy"));
    assert_eq!(join(&vec![], ", "), "");
    assert_eq!(join(&vec!["a".to_string()], ", "), "a");
    assert_eq!(join(&vec!["a".to_string(), "b".to_string(), "c".to_string()], ", "), "a, b, c");
}

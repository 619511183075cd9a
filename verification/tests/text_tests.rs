use invoker::text::{
    is_whitespace, parse_i16, parse_i32, parse_i64, split_whitespace, str_eq, trim,
};

fn words(s: &str) -> Vec<String> {
    split_whitespace(s)
}

#[test]
fn whitespace_characters() {
    for c in ['\t', '\n', '\u{0b}', '\u{0c}', '\r', ' ', '\u{85}', '\u{a0}', '\u{1680}', '\u{2000}',
        '\u{200a}', '\u{2028}', '\u{2029}', '\u{202f}', '\u{205f}', '\u{3000}'] {
        assert!(is_whitespace(c), "{:?}", c);
        assert!(c.is_whitespace());
    }
    for c in ['a', '0', '\u{200b}', '\u{1f}', '\u{2060}', '-', '\0'] {
        assert!(!is_whitespace(c), "{:?}", c);
        assert!(!c.is_whitespace());
    }
}

#[test]
fn string_equality() {
    assert!(str_eq("abc", "abc"));
    assert!(!str_eq("abc", "abd"));
    assert!(!str_eq("abc", "ab"));
    assert!(str_eq("", ""));
}

#[test]
fn splitting_at_whitespace() {
    assert_eq!(words("  load  test.rs \t\n"), vec!["load", "test.rs"]);
    assert_eq!(words(""), Vec::<String>::new());
    assert_eq!(words("   \t "), Vec::<String>::new());
    assert_eq!(words("call add2 1 2"), vec!["call", "add2", "1", "2"]);
    assert_eq!(words("\u{3000}x\u{a0}y"), vec!["x", "y"]);
    let line = " a\u{2028}bc  d ";
    let expected: Vec<String> = line.split_whitespace().map(|w| w.to_string()).collect();
    assert_eq!(words(line), expected);
}

#[test]
fn split_words_are_words() {
    for line in ["a b", "  x\ty  z ", "\u{85}q\u{85}", "one"] {
        for w in words(line) {
            assert!(!w.is_empty());
            assert!(!w.chars().any(|c| c.is_whitespace()));
        }
    }
}

#[test]
fn trimming() {
    assert_eq!(trim("  /usr/lib/rust\n"), "/usr/lib/rust");
    assert_eq!(trim(""), "");
    assert_eq!(trim(" \t\n"), "");
    assert_eq!(trim("a b"), "a b");
    assert_eq!(trim("\u{3000}a b\u{a0}"), "a b");
}

#[test]
fn trimming_twice_is_trimming_once() {
    for s in ["  x  ", "\n\ty z\r\n", "", "  ", "abc"] {
        let once = trim(s);
        assert_eq!(trim(&once), once);
    }
}

#[test]
fn parsing_i32() {
    assert_eq!(parse_i32("123"), Some(123));
    assert_eq!(parse_i32("+7"), Some(7));
    assert_eq!(parse_i32("-0"), Some(0));
    assert_eq!(parse_i32("-2147483648"), Some(i32::MIN));
    assert_eq!(parse_i32("2147483647"), Some(i32::MAX));
    assert_eq!(parse_i32("2147483648"), None);
    assert_eq!(parse_i32("-2147483649"), None);
    assert_eq!(parse_i32(""), None);
    assert_eq!(parse_i32("-"), None);
    assert_eq!(parse_i32("+"), None);
    assert_eq!(parse_i32("12a"), None);
    assert_eq!(parse_i32(" 1"), None);
    assert_eq!(parse_i32("1 "), None);
    assert_eq!(parse_i32("--1"), None);
    assert_eq!(parse_i32("007"), Some(7));
}

#[test]
fn parsing_i16_and_i64() {
    assert_eq!(parse_i16("32767"), Some(32767));
    assert_eq!(parse_i16("32768"), None);
    assert_eq!(parse_i16("-32768"), Some(-32768));
    assert_eq!(parse_i16("-32769"), None);
    assert_eq!(parse_i64("9223372036854775807"), Some(i64::MAX));
    assert_eq!(parse_i64("-9223372036854775808"), Some(i64::MIN));
    assert_eq!(parse_i64("9223372036854775808"), None);
    assert_eq!(parse_i64("-9223372036854775809"), None);
    assert_eq!(parse_i64("99999999999999999999999999999999"), None);
    assert_eq!(parse_i64("99999999999999999999999999999999x"), None);
}

#[test]
fn parsing_agrees_with_std() {
    for s in ["0", "-1", "+12", "40000", "-40000", "3000000000", "x", "", "1e3", "٣"] {
        assert_eq!(parse_i16(s), s.parse::<i16>().ok(), "{:?}", s);
        assert_eq!(parse_i32(s), s.parse::<i32>().ok(), "{:?}", s);
        assert_eq!(parse_i64(s), s.parse::<i64>().ok(), "{:?}", s);
    }
}

#[test]
fn parsing_widens() {
    for s in ["123", "-32768", "+5"] {
        let v = parse_i16(s).unwrap();
        assert_eq!(parse_i32(s), Some(v as i32));
        assert_eq!(parse_i64(s), Some(v as i64));
    }
}

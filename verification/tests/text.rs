use kovi_plugins::text::{
    int_to_string, is_whitespace, join, parse_i32, parse_i64, parse_usize, split_whitespace,
    text_contains, text_eq, text_starts_with,
};

#[test]
fn parse_i64_accepts_signed_numerals() {
    assert_eq!(parse_i64("42"), Some(42));
    assert_eq!(parse_i64("-7"), Some(-7));
    assert_eq!(parse_i64("+5"), Some(5));
    assert_eq!(parse_i64("007"), Some(7));
    assert_eq!(parse_i64("9223372036854775807"), Some(i64::MAX));
    assert_eq!(parse_i64("-9223372036854775808"), Some(i64::MIN));
}

#[test]
fn parse_i64_rejects_what_std_rejects() {
    for s in ["", "-", "+", "abc", "1 2", " 1", "1.0", "9223372036854775808", "-9223372036854775809", "１２", "+-1"] {
        assert_eq!(parse_i64(s), s.parse::<i64>().ok(), "input {:?}", s);
        assert_eq!(parse_i64(s), None, "input {:?}", s);
    }
}

#[test]
fn parse_agrees_with_std_on_samples() {
    for s in ["0", "-0", "+0", "2147483647", "2147483648", "-2147483648", "-2147483649", "18446744073709551615", "18446744073709551616", "-1", "12345678901234567890123"] {
        assert_eq!(parse_i64(s), s.parse::<i64>().ok(), "i64 {:?}", s);
        assert_eq!(parse_i32(s), s.parse::<i32>().ok(), "i32 {:?}", s);
        assert_eq!(parse_usize(s), s.parse::<usize>().ok(), "usize {:?}", s);
    }
}

#[test]
fn parse_usize_rejects_minus() {
    assert_eq!(parse_usize("-0"), None);
    assert_eq!(parse_usize("3"), Some(3));
    assert_eq!(parse_usize("+3"), Some(3));
}

#[test]
fn decimal_formatting_matches_to_string() {
    for n in [0i64, 7, 10, 99, 100, -1, -10, 123456789, i64::MAX, i64::MIN] {
        assert_eq!(int_to_string(n), n.to_string());
    }
}

#[test]
fn decimal_reads_back() {
    for n in [0i64, 5, -5, 1000000007, i64::MAX, i64::MIN] {
        assert_eq!(parse_i64(&int_to_string(n)), Some(n));
    }
}

#[test]
fn whitespace_matches_std() {
    for c in ['\t', '\n', ' ', '\u{3000}', '\u{85}', '\u{A0}', '\u{2009}', 'a', '猫', '\u{200B}', '0', '\u{1680}', '\u{205F}'] {
        assert_eq!(is_whitespace(c), c.is_whitespace(), "char {:?}", c);
    }
}

#[test]
fn split_whitespace_matches_std() {
    for s in ["", "   ", "$cmd", "  $shell  new ", "a\tb\u{3000}c\n", "猫娘 来了"] {
        let ours = split_whitespace(s);
        let std_words: Vec<String> = s.split_whitespace().map(|x| x.to_string()).collect();
        assert_eq!(ours, std_words, "input {:?}", s);
    }
}

#[test]
fn join_matches_std() {
    let words = vec!["let".to_string(), "x".to_string(), "=".to_string(), "1".to_string()];
    assert_eq!(join(&words, " "), "let x = 1");
    assert_eq!(join(&Vec::new(), " "), "");
    assert_eq!(join(&vec!["a".to_string()], "\n"), "a");
}

#[test]
fn contains_and_prefix() {
    assert!(text_contains("我是猫娘喵", "猫娘"));
    assert!(!text_contains("我是猫喵", "猫娘"));
    assert!(text_contains("abc", ""));
    assert!(!text_contains("ab", "abc"));
    assert!(text_starts_with("$shell new", "$"));
    assert!(!text_starts_with("shell", "$"));
    assert!(text_starts_with("", ""));
    assert!(text_eq("group", "group"));
    assert!(!text_eq("group", "groups"));
}

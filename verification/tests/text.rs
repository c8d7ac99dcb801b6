use tvgrep::text::{
    blank, chars_of, decimal_string, find_chars, is_whitespace, parse_u64, trim_str, utf8_length,
};

#[test]
fn whitespace_is_unicode_white_space() {
    for c in [' ', '\t', '\n', '\r', '\u{0b}', '\u{0c}', '\u{85}', '\u{a0}', '\u{2003}', '\u{3000}'] {
        assert!(is_whitespace(c));
        assert_eq!(is_whitespace(c), c.is_whitespace());
    }
    for c in ['a', '0', '\u{200b}', '_'] {
        assert!(!is_whitespace(c));
        assert_eq!(is_whitespace(c), c.is_whitespace());
    }
}

#[test]
fn trim_matches_str_trim() {
    for s in ["", "  ", " a b ", "\tx\n", "\u{a0}y\u{3000}", "z"] {
        assert_eq!(trim_str(s), s.trim());
    }
}

#[test]
fn blank_texts() {
    assert!(blank(""));
    assert!(blank(" \n\t"));
    assert!(!blank(" a "));
}

#[test]
fn find_first_occurrence() {
    let t = chars_of("abcabc");
    assert_eq!(find_chars(&t, &chars_of("bc")), Some(1));
    assert_eq!(find_chars(&t, &chars_of("x")), None);
    assert_eq!(find_chars(&t, &chars_of("")), Some(0));
    assert_eq!(find_chars(&chars_of("ab"), &chars_of("abc")), None);
}

#[test]
fn utf8_lengths() {
    assert_eq!(utf8_length(&chars_of("abc")), Some(3));
    assert_eq!(utf8_length(&chars_of("é€😀")), Some("é€😀".len()));
    assert_eq!(utf8_length(&chars_of("")), Some(0));
}

#[test]
fn parse_u64_like_std() {
    for s in ["0", "42", "+7", "18446744073709551615", "18446744073709551616", "", "+", "-1", "1a", " 1"] {
        assert_eq!(parse_u64(s), s.parse::<u64>().ok(), "{s}");
    }
}

#[test]
fn decimal_strings() {
    assert_eq!(decimal_string(0), "0");
    assert_eq!(decimal_string(1234), "1234");
}

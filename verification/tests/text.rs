use alice::text::{decimal_string, is_whitespace, parse_u64, split_words};

#[test]
fn decimal_strings() {
    assert_eq!(decimal_string(0), "0");
    assert_eq!(decimal_string(7), "7");
    assert_eq!(decimal_string(10), "10");
    assert_eq!(decimal_string(1234567890), "1234567890");
    assert_eq!(decimal_string(u64::MAX), u64::MAX.to_string());
}

#[test]
fn whitespace_matches_std() {
    for c in ['\t', '\n', '\x0B', '\x0C', '\r', ' ', '\u{85}', '\u{A0}', '\u{1680}', '\u{2000}', '\u{200A}', '\u{2028}', '\u{2029}', '\u{202F}', '\u{205F}', '\u{3000}', 'a', '0', '\u{200B}', '\u{FEFF}', '\u{180E}'] {
        assert_eq!(is_whitespace(c), c.is_whitespace(), "char {:?}", c);
    }
    for n in 0u32..0x3100 {
        if let Some(c) = char::from_u32(n) {
            assert_eq!(is_whitespace(c), c.is_whitespace(), "char {:?}", c);
        }
    }
}

#[test]
fn words_split_as_std_does() {
    for s in ["", " ", "a", " a  b\tc\n", "x\u{85}y", "αβ γ"] {
        let expected: Vec<String> = s.split_whitespace().map(|w| w.to_string()).collect();
        assert_eq!(split_words(s), expected);
    }
}

#[test]
fn numbers() {
    assert_eq!(parse_u64("123"), Some(123));
    assert_eq!(parse_u64("+123"), Some(123));
    assert_eq!(parse_u64("12a"), None);
}

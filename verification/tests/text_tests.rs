use focusflow::text::{
    decimal, is_blank, is_whitespace, padded_integer_text, parse_whole_number, text_after_last_dash,
    zero_padded,
};

#[test]
fn decimal_writes_digits() {
    assert_eq!(decimal(0), "0");
    assert_eq!(decimal(7), "7");
    assert_eq!(decimal(1500), "1500");
    assert_eq!(decimal(u64::MAX), "18446744073709551615");
}

#[test]
fn zero_padded_matches_format() {
    for n in [0u64, 5, 9, 10, 59, 99, 100, 12345] {
        assert_eq!(zero_padded(n, 2), format!("{:02}", n));
        assert_eq!(zero_padded(n, 4), format!("{:04}", n));
    }
    assert_eq!(zero_padded(3, 0), "3");
}

#[test]
fn padded_integer_matches_format_with_sign() {
    for v in [-12345i64, -5, -1, 0, 1, 7, 2024, i64::MIN, i64::MAX] {
        assert_eq!(padded_integer_text(v, 4), format!("{:04}", v));
        assert_eq!(padded_integer_text(v, 2), format!("{:02}", v));
        assert_eq!(padded_integer_text(v, 0), format!("{}", v));
    }
}

#[test]
fn whitespace_follows_char_is_whitespace() {
    for c in ['\t', '\n', '\u{0B}', '\u{0C}', '\r', ' ', '\u{85}', '\u{A0}', '\u{1680}', '\u{2000}',
        '\u{200A}', '\u{2028}', '\u{2029}', '\u{202F}', '\u{205F}', '\u{3000}', 'a', '0', '\u{200B}', '_'] {
        assert_eq!(is_whitespace(c), c.is_whitespace(), "{:?}", c);
    }
}

#[test]
fn blank_means_empty_once_trimmed() {
    for s in ["", " ", "\t\n", "\u{3000} ", "a", " a ", "Refactor the UI"] {
        assert_eq!(is_blank(s), s.trim().is_empty(), "{:?}", s);
    }
}

#[test]
fn text_after_last_dash_matches_split() {
    for s in ["2024-03-07", "07", "", "-", "a-", "-b", "a-b-c"] {
        assert_eq!(text_after_last_dash(s), s.split('-').last().unwrap_or(""), "{:?}", s);
    }
}

#[test]
fn parse_whole_number_matches_std() {
    for s in ["25", "+25", "0", "007", "", "+", "-", "-5", "-0", " 5", "5 ", "4294967295", "4294967296",
        "99999999999999999999", "12a", "1.5", "+-1"] {
        assert_eq!(parse_whole_number(s), s.parse::<u32>().ok(), "{:?}", s);
    }
}

#[test]
fn parse_reads_back_decimal() {
    for n in [0u32, 1, 9, 10, 60, 120, 65535, u32::MAX] {
        assert_eq!(parse_whole_number(&decimal(n as u64)), Some(n));
    }
}

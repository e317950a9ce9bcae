use breadshot::text::{
    chars_of, decimal_string, find_char, is_white_space_char, join_strings, parse_i64_in,
    trim_text,
};

#[test]
fn trim_matches_str_trim() {
    for s in ["  a b  ", "\u{3000}x\u{85}", "", "   ", "\t\n\r1,2\u{2028}", "a"] {
        assert_eq!(trim_text(s), s.trim());
    }
}

#[test]
fn whitespace_matches_char_is_whitespace() {
    for c in ['\u{0}', ' ', '\t', '\u{b}', '\u{85}', '\u{a0}', '\u{1680}', '\u{2000}', '\u{200a}', '\u{200b}', '\u{202f}', '\u{205f}', '\u{3000}', 'x', '\u{feff}'] {
        assert_eq!(is_white_space_char(c), c.is_whitespace());
    }
}

#[test]
fn parse_matches_str_parse() {
    for s in ["0", "-0", "+7", "-", "+", "", "12a", "9223372036854775807", "9223372036854775808", "-9223372036854775808", "-9223372036854775809", "007", " 1", "١"] {
        let cs = chars_of(s);
        assert_eq!(parse_i64_in(&cs, 0, cs.len()), s.parse::<i64>().ok(), "{s:?}");
    }
}

#[test]
fn decimal_matches_display() {
    for v in [0i128, 7, -7, 10, 1234567890, i64::MIN as i128, i64::MAX as i128, i128::MAX, i128::MIN + 1] {
        assert_eq!(decimal_string(v), v.to_string());
    }
}

#[test]
fn find_char_finds_first() {
    let cs = chars_of("a,b,c");
    assert_eq!(find_char(&cs, 0, 5, ','), Some(1));
    assert_eq!(find_char(&cs, 2, 5, ','), Some(3));
    assert_eq!(find_char(&cs, 4, 5, ','), None);
}

#[test]
fn join_matches_slice_join() {
    let parts = vec![String::from("a"), String::from(""), String::from("bc")];
    assert_eq!(join_strings(&parts, ", "), parts.join(", "));
    assert_eq!(join_strings(&vec![], "\n"), "");
}

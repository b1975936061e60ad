use plexus_music::text::{
    append_str, chars_of, decimal_string, find_in_range, line_bounds, parse_u64, push_decimal,
    same_text, string_from_chars, string_from_range, trim, trim_bounds, white_space,
};

fn lines_via_bounds(s: &str) -> Vec<String> {
    let v = chars_of(s);
    line_bounds(&v)
        .iter()
        .map(|&(a, b)| string_from_range(&v, a, b))
        .collect()
}

#[test]
fn parse_u64_matches_str_parse() {
    let samples = [
        "0",
        "42",
        "+7",
        "",
        "+",
        "-1",
        "4a",
        " 5",
        "007",
        "18446744073709551615",
        "18446744073709551616",
        "99999999999999999999999",
        "++1",
    ];
    for s in samples {
        assert_eq!(parse_u64(s), s.parse::<u64>().ok(), "input {:?}", s);
    }
}

#[test]
fn parse_u64_exact_values() {
    assert_eq!(parse_u64("42"), Some(42));
    assert_eq!(parse_u64("+7"), Some(7));
    assert_eq!(parse_u64("18446744073709551615"), Some(u64::MAX));
    assert_eq!(parse_u64("18446744073709551616"), None);
    assert_eq!(parse_u64(""), None);
    assert_eq!(parse_u64("-1"), None);
}

#[test]
fn trim_matches_str_trim() {
    let samples = ["  hi \t", "\u{3000}x\u{a0}", "", "   ", "a b", "\n\r\u{2028}z\u{85}", "\u{200b}y"];
    for s in samples {
        assert_eq!(trim(s), s.trim(), "input {:?}", s);
    }
}

#[test]
fn trim_bounds_of_a_range() {
    let v = chars_of("ab  cd  ef");
    let (a, b) = trim_bounds(&v, 2, 8);
    assert_eq!((a, b), (4, 6));
    assert_eq!(string_from_range(&v, a, b), "cd");
}

#[test]
fn white_space_is_unicode_white_space() {
    for c in [' ', '\t', '\n', '\u{b}', '\u{c}', '\r', '\u{85}', '\u{a0}', '\u{1680}', '\u{2000}', '\u{200a}', '\u{2028}', '\u{2029}', '\u{202f}', '\u{205f}', '\u{3000}'] {
        assert!(white_space(c), "{:?}", c);
        assert!(c.is_whitespace());
    }
    for c in ['a', '0', '\u{200b}', '\u{feff}', '_'] {
        assert!(!white_space(c), "{:?}", c);
        assert_eq!(white_space(c), c.is_whitespace());
    }
}

#[test]
fn decimal_text() {
    assert_eq!(decimal_string(0), "0");
    assert_eq!(decimal_string(1234), "1234");
    assert_eq!(decimal_string(u64::MAX), u64::MAX.to_string());
    let mut s = "n=".to_owned();
    push_decimal(&mut s, 907);
    assert_eq!(s, "n=907");
}

#[test]
fn string_building() {
    let mut s = "ab".to_owned();
    append_str(&mut s, "cé");
    assert_eq!(s, "abcé");
    let v = chars_of("héllo");
    assert_eq!(v.len(), 5);
    assert_eq!(string_from_chars(&v), "héllo");
    assert_eq!(string_from_range(&v, 1, 3), "él");
    assert!(same_text("abc", "abc"));
    assert!(!same_text("abc", "abd"));
}

#[test]
fn find_in_range_finds_first_occurrence_after_start() {
    let v = chars_of("a:b:c");
    assert_eq!(find_in_range(&v, 0, 5, ':'), Some(1));
    assert_eq!(find_in_range(&v, 2, 5, ':'), Some(1));
    assert_eq!(find_in_range(&v, 4, 5, ':'), None);
    assert_eq!(find_in_range(&v, 0, 1, ':'), None);
}

#[test]
fn line_bounds_split_like_str_lines() {
    let samples = ["", "\n", "a", "a\n", "a\nb", "a\r\nb\r\n", "a\rb", "\n\nx\n", "x\r", "x\r\r\n", "one\ntwo\n\nthree"];
    for s in samples {
        let expected: Vec<String> = s.lines().map(|l| l.to_owned()).collect();
        assert_eq!(lines_via_bounds(s), expected, "input {:?}", s);
    }
}

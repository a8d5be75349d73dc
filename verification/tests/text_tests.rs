use transcrever::text::{
    decimal_string, eq_ignore_ascii_case, parse_u32_chars, to_ascii_lowercase, trim,
};

fn parse(s: &str) -> Option<u32> {
    parse_u32_chars(&s.chars().collect())
}

#[test]
fn trim_removes_unicode_white_space_at_both_ends() {
    assert_eq!(trim("\u{3000}\t abc def \n\u{a0}"), "abc def");
    assert_eq!(trim("   "), "");
    assert_eq!(trim(""), "");
    assert_eq!(trim("x"), "x");
}

#[test]
fn ascii_case_folding_leaves_other_characters() {
    assert_eq!(to_ascii_lowercase("MiXeD-Ção"), "mixed-Ção");
    assert!(eq_ignore_ascii_case("WAV", "wav"));
    assert!(!eq_ignore_ascii_case("wav", "wave"));
}

#[test]
fn decimal_rendering_matches_to_string() {
    assert_eq!(decimal_string(0), "0");
    assert_eq!(decimal_string(7), "7");
    assert_eq!(decimal_string(12345), "12345");
    assert_eq!(decimal_string(u64::MAX as u128), u64::MAX.to_string());
}

#[test]
fn parsing_follows_u32_from_str() {
    assert_eq!(parse("42"), Some(42));
    assert_eq!(parse("+7"), Some(7));
    assert_eq!(parse("007"), Some(7));
    assert_eq!(parse("4294967295"), Some(u32::MAX));
    assert_eq!(parse("4294967296"), None);
    assert_eq!(parse("99999999999999999999"), None);
    assert_eq!(parse(""), None);
    assert_eq!(parse("+"), None);
    assert_eq!(parse("-1"), None);
    assert_eq!(parse("12a"), None);
    assert_eq!(parse(" 1"), None);
}

#[test]
fn parsing_reads_back_rendered_numbers() {
    for n in [0u32, 1, 9, 10, 65_535, u32::MAX] {
        assert_eq!(parse(&decimal_string(n as u128)), Some(n));
    }
}

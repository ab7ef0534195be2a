use tt_demo::text::{decimal_string, find_str, parse_u64, trim_end_str, trim_str};

#[test]
fn decimal_strings() {
    for n in [0u64, 7, 10, 99, 100, 65535, u64::MAX] {
        assert_eq!(decimal_string(n), n.to_string());
    }
}

#[test]
fn parse_u64_matches_std() {
    for s in ["0", "42", "+42", "", "+", "-1", "4x", "18446744073709551615", "18446744073709551616", "007"] {
        assert_eq!(parse_u64(s), s.parse::<u64>().ok(), "input {s:?}");
    }
}

#[test]
fn trims_match_std() {
    for s in ["", "  a ", "\u{3000}x\u{2028}", "a\tb\n", "\u{85}"] {
        assert_eq!(trim_str(s), s.trim());
        assert_eq!(trim_end_str(s), s.trim_end());
    }
}

#[test]
fn find_counts_chars() {
    assert_eq!(find_str("ab—cd", "cd"), Some(3));
    assert_eq!(find_str("abc", "x"), None);
    assert_eq!(find_str("abc", ""), Some(0));
}

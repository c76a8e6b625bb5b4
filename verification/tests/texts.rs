use observability_lib::text::{
    is_white_space, lowercase_starts_with, same, starts_with, to_decimal, trim,
};

#[test]
fn prefixes_of_texts() {
    assert!(starts_with("abc", ""));
    assert!(starts_with("abc", "abc"));
    assert!(!starts_with("abc", "abcd"));
    assert!(!starts_with("abc", "b"));
    assert!(starts_with("", ""));
}

#[test]
fn equality_of_texts() {
    assert!(same("", ""));
    assert!(same("request", "request"));
    assert!(!same("request", "requests"));
    assert!(!same("requests", "request"));
}

#[test]
fn lower_case_is_ascii_only() {
    assert!(lowercase_starts_with("ABCÉ", "abcÉ"));
    assert!(!lowercase_starts_with("É", "é"));
    assert!(lowercase_starts_with("Z@[", "z@["));
}

#[test]
fn decimals_of_numbers() {
    for n in [0u16, 7, 9, 10, 19, 99, 100, 101, 200, 1000, 65535] {
        assert_eq!(to_decimal(n), n.to_string());
    }
}

#[test]
fn trimming_takes_white_space_off_both_ends() {
    for s in ["", " ", "a", " a b ", "\u{b}x\u{3000}", "\u{200b}x", "\u{85}\u{1680}", "x\u{180e}"] {
        assert_eq!(trim(s), s.trim());
        assert_eq!(trim(&trim(s)), s.trim());
    }
}

#[test]
fn white_space_is_what_unicode_says() {
    for c in '\0'..=char::MAX {
        assert_eq!(is_white_space(c), c.is_whitespace());
    }
}

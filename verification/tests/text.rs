use symphony::text::{
    decimal_text, eq_ignore_ascii_case, is_blank_text, is_listed, is_white_space,
    precedes_or_equals, signed_decimal_text, starts_with, take_chars, trim,
};
use symphony::worker::worker_issue;

#[test]
fn white_space_is_that_of_the_standard_library() {
    for n in 0..=0x10ffffu32 {
        if let Some(c) = char::from_u32(n) {
            assert_eq!(is_white_space(c), c.is_whitespace(), "{n:x}");
        }
    }
}

#[test]
fn trimming_agrees_with_the_standard_library() {
    for s in ["", " ", "a", " a b\t", "\r\n a\u{3000}", "\u{a0}\u{e9}\u{2028}", "a\u{200b} "] {
        assert_eq!(trim(s), s.trim());
        assert_eq!(is_blank_text(s), s.trim().is_empty());
    }
}

#[test]
fn order_agrees_with_the_standard_library() {
    let words = ["", "a", "ab", "b", "B", "\u{e9}", "\u{ffff}", "\u{10000}", "a\u{0}", "MT-10", "MT-9"];
    for a in words {
        for b in words {
            assert_eq!(precedes_or_equals(a, b), a <= b, "{a:?} {b:?}");
        }
    }
}

fn in_small_letters(state: &str) -> String {
    let mut issue = worker_issue("a", "A");
    issue.state = state.into();
    issue.state_normalized()
}

#[test]
fn small_letters() {
    assert_eq!(in_small_letters("In PROGRESS"), "in progress");
    assert_eq!(in_small_letters("\u{c9}T\u{c9}"), "\u{e9}t\u{e9}");
    assert_eq!(in_small_letters("\u{130}"), "\u{130}".to_lowercase());
    assert!(is_listed("DONE", &vec!["Todo".into(), "done".into()]));
    assert!(!is_listed("Doing", &vec!["Todo".into(), "done".into()]));
    assert!(is_listed("\u{c9}t", &vec!["\u{e9}T".into()]));
}

#[test]
fn case_of_ascii_letters_only() {
    assert!(eq_ignore_ascii_case("Todo", "tODO"));
    assert!(!eq_ignore_ascii_case("\u{c9}", "\u{e9}"));
    assert!(!eq_ignore_ascii_case("Todo", "Todo "));
}

#[test]
fn prefixes_and_first_characters() {
    assert!(starts_with("Bearer x", "Bearer "));
    assert!(!starts_with("Bear", "Bearer "));
    assert_eq!(take_chars("\u{e9}\u{e8}abc", 3), "\u{e9}\u{e8}a");
    assert_eq!(take_chars("ab", 3), "ab");
}

#[test]
fn decimal_numbers() {
    for n in [0, 7, 10, 999, 1000, u64::MAX] {
        assert_eq!(decimal_text(n), n.to_string());
    }
    for n in [0, -1, 42, i64::MIN, i64::MAX] {
        assert_eq!(signed_decimal_text(n), n.to_string());
    }
}

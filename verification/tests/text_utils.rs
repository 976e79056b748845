use census::text::{ends_with, push_signed, push_unsigned, trim_end_matches};

#[test]
fn unsigned_numbers_are_written_in_decimal() {
    let mut s = String::from("n=");
    push_unsigned(&mut s, 0);
    assert_eq!(s, "n=0");
    let mut s = String::new();
    push_unsigned(&mut s, 1234567890);
    assert_eq!(s, "1234567890");
    let mut s = String::new();
    push_unsigned(&mut s, u64::MAX);
    assert_eq!(s, "18446744073709551615");
}

#[test]
fn signed_numbers_are_written_in_decimal() {
    let mut s = String::new();
    push_signed(&mut s, -7);
    assert_eq!(s, "-7");
    let mut s = String::new();
    push_signed(&mut s, 42);
    assert_eq!(s, "42");
    let mut s = String::new();
    push_signed(&mut s, i64::MIN);
    assert_eq!(s, "-9223372036854775808");
}

#[test]
fn suffix_test_matches_std() {
    assert!(ends_with("https://x/none_64.png", "none_64.png"));
    assert!(!ends_with("none_64.png.bak", "none_64.png"));
    assert!(ends_with("", ""));
    assert!(!ends_with("png", "none_64.png"));
    assert!(ends_with("h\u{e9}llo", "\u{e9}llo"));
}

#[test]
fn trailing_repetitions_are_all_removed() {
    assert_eq!(trim_end_matches("abc-256-256", "-256"), "abc");
    assert_eq!(trim_end_matches("abc-256x", "-256"), "abc-256x");
    assert_eq!(trim_end_matches("aaa", "aa"), "a");
    assert_eq!(trim_end_matches("abc", ""), "abc");
    assert_eq!(trim_end_matches("-256", "-256"), "");
    for (s, p) in [("abc-256-256", "-256"), ("aaaa", "aa"), ("x\u{e9}\u{e9}", "\u{e9}")] {
        assert_eq!(trim_end_matches(s, p), s.trim_end_matches(p));
    }
}

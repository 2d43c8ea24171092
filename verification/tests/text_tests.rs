use job_scraper::text::{
    collapse_whitespace_str, is_white_space_char, join_strings, str_contains, trim_end_matches_str,
    trim_whitespace,
};

#[test]
fn collapse_whitespace_joins_words_with_single_spaces() {
    assert_eq!(collapse_whitespace_str("  a \t b\n\nc  "), "a b c");
    assert_eq!(collapse_whitespace_str(""), "");
    assert_eq!(collapse_whitespace_str(" \n\t "), "");
    assert_eq!(collapse_whitespace_str("\u{a0}x\u{3000}y\u{2028}"), "x y");
    assert_eq!(collapse_whitespace_str("one"), "one");
}

#[test]
fn collapse_whitespace_agrees_with_split_whitespace() {
    let samples = ["a  b", "\u{85}tab\tsep\u{1680}x", " lead", "trail ", "\u{200b}zero width"];
    for s in samples {
        let expected = s.split_whitespace().collect::<Vec<_>>().join(" ");
        assert_eq!(collapse_whitespace_str(s), expected);
    }
}

#[test]
fn collapse_whitespace_twice_is_once() {
    let once = collapse_whitespace_str("  x   y \n z ");
    assert_eq!(collapse_whitespace_str(&once), once);
}

#[test]
fn white_space_matches_std() {
    for u in 0u32..0x3100 {
        if let Some(c) = char::from_u32(u) {
            assert_eq!(is_white_space_char(c), c.is_whitespace(), "{:?}", c);
        }
    }
}

#[test]
fn trim_end_matches_removes_every_trailing_copy() {
    assert_eq!(trim_end_matches_str("https://x.com/jobs/1/apply/apply", "/apply"), "https://x.com/jobs/1");
    assert_eq!(trim_end_matches_str("https://x.com/apply/jobs", "/apply"), "https://x.com/apply/jobs");
    assert_eq!(trim_end_matches_str("/apply", "/apply"), "");
    assert_eq!(trim_end_matches_str("abc", ""), "abc");
}

#[test]
fn trim_whitespace_removes_both_ends() {
    assert_eq!(trim_whitespace(" \n a b \t"), "a b");
    assert_eq!(trim_whitespace("   "), "");
    assert_eq!(trim_whitespace("x"), "x");
}

#[test]
fn join_strings_puts_separator_between() {
    let parts = vec!["a".to_string(), "b".to_string(), "c".to_string()];
    assert_eq!(join_strings(&parts, " "), "a b c");
    assert_eq!(join_strings(&Vec::new(), " "), "");
    assert_eq!(join_strings(&vec!["only".to_string()], ", "), "only");
}

#[test]
fn contains_finds_substrings() {
    assert!(str_contains("https://boards.greenhouse.io/x", "greenhouse.io"));
    assert!(str_contains("abc", ""));
    assert!(!str_contains("abc", "abcd"));
    assert!(!str_contains("greenhouse", "greenhouse.io"));
}

#[test]
fn collapse_whitespace_keeps_collapsed_text() {
    for t in ["a b c", "", "x", "one two"] {
        assert_eq!(collapse_whitespace_str(t), t);
    }
}

use llogin::text::{
    first_word_of, second_word_of, split_lines, split_second_of, str_contains, str_eq,
    str_starts_with, trim_end_matches_str, trim_str,
};

#[test]
fn trim_removes_unicode_white_space() {
    assert_eq!(trim_str("  \t hello world \r\n"), "hello world");
    assert_eq!(trim_str("\u{3000}x\u{a0}"), "x");
    assert_eq!(trim_str("   "), "");
    assert_eq!(trim_str(""), "");
}

#[test]
fn lines_follow_str_lines() {
    let text = "a\r\nb\n\nc\r";
    let expected: Vec<String> = text.lines().map(|l| l.to_string()).collect();
    assert_eq!(split_lines(text), expected);
    assert_eq!(split_lines(text), vec!["a", "b", "", "c\r"]);
    assert_eq!(split_lines("x\n"), vec!["x"]);
    assert_eq!(split_lines("\n"), vec![""]);
    assert!(split_lines("").is_empty());
}

#[test]
fn contains_and_starts_with() {
    assert!(str_contains("yes:LPU-Hostel", "LPU"));
    assert!(!str_contains("Block", "LPU"));
    assert!(str_contains("abc", ""));
    assert!(str_starts_with("Block 34", "Block"));
    assert!(!str_starts_with("Blo", "Block"));
    assert!(str_eq("same", "same"));
    assert!(!str_eq("same", "sam"));
}

#[test]
fn words_follow_split_whitespace() {
    assert_eq!(first_word_of("  alice (default)"), Some("alice".to_string()));
    assert_eq!(first_word_of(" \t "), None);
    assert_eq!(second_word_of("\tInterface wlan0"), Some("wlan0".to_string()));
    assert_eq!(second_word_of("Interface"), None);
}

#[test]
fn trim_end_matches_removes_every_copy() {
    assert_eq!(trim_end_matches_str("12345@lpu.com", "@lpu.com"), "12345");
    assert_eq!(trim_end_matches_str("12345@lpu.com@lpu.com", "@lpu.com"), "12345");
    assert_eq!(trim_end_matches_str("12345", "@lpu.com"), "12345");
    assert_eq!(trim_end_matches_str("abc", ""), "abc");
}

#[test]
fn split_second_follows_split_nth() {
    let line = "           SSID: LPU-Wireless";
    assert_eq!(
        split_second_of(line, "SSID: "),
        line.split("SSID: ").nth(1).map(|s| s.to_string())
    );
    assert_eq!(split_second_of("aXbXc", "X"), Some("b".to_string()));
    assert_eq!(split_second_of("abc", "X"), None);
}

#[test]
fn trimming_twice_changes_nothing() {
    for s in ["  a b  ", "\u{2003}x\t", "", "@lpu.com"] {
        let once = trim_str(s);
        assert_eq!(trim_str(&once), once);
        let stripped = trim_end_matches_str(s, "@lpu.com");
        assert_eq!(trim_end_matches_str(&stripped, "@lpu.com"), stripped);
    }
}

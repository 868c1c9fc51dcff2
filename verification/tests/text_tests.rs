use arcader_imager::text::{
    chars_of, contains, ends_with, eq_ignore_ascii_case, lines, parse_u64, replace_all, starts_with,
    strip_prefix, strip_suffix, trim, trim_end_matches, trim_start_matches,
};

fn c(s: &str) -> Vec<char> {
    s.chars().collect()
}

fn s(v: &[char]) -> String {
    v.iter().collect()
}

#[test]
fn chars_of_keeps_every_character() {
    assert_eq!(chars_of("héllo"), c("héllo"));
    assert_eq!(chars_of(""), c(""));
}

#[test]
fn trim_removes_unicode_white_space() {
    assert_eq!(s(&trim(&c("  \t disk \n"))), "disk");
    assert_eq!(s(&trim(&c("\u{3000}x\u{a0}"))), "x");
    assert_eq!(s(&trim(&c("   "))), "");
    assert_eq!(s(&trim(&c("a b"))), "a b");
    for text in ["", " x ", "\r\n\tline\u{2009}", "no-space"] {
        assert_eq!(s(&trim(&c(text))), text.trim());
    }
}

#[test]
fn lines_match_str_lines() {
    for text in ["", "a", "a\n", "a\nb", "a\r\nb\r\n", "\n\n", "x\r", "one\n\ntwo\r\nthree"] {
        let got: Vec<String> = lines(&c(text)).iter().map(|l| s(l)).collect();
        let want: Vec<String> = text.lines().map(|l| l.to_string()).collect();
        assert_eq!(got, want, "lines of {:?}", text);
    }
}

#[test]
fn replace_matches_str_replace() {
    let cases = [("it's", "'", "'\\''"), ("a\\b\"c", "\\", "\\\\"), ("aaa", "aa", "b"), ("none", "x", "y")];
    for (text, pat, rep) in cases {
        assert_eq!(s(&replace_all(&c(text), &c(pat), &c(rep))), text.replace(pat, rep));
    }
}

#[test]
fn prefix_suffix_and_search() {
    assert!(starts_with(&c("https://x"), &c("https://")));
    assert!(!starts_with(&c("http"), &c("https://")));
    assert!(ends_with(&c("disk2</string>"), &c("</string>")));
    assert!(contains(&c("  <key>WholeDisks</key>"), &c("WholeDisks")));
    assert!(!contains(&c("abc"), &c("abd")));
    assert!(contains(&c("abc"), &c("")));
    assert_eq!(strip_prefix(&c("<string>x"), &c("<string>")).map(|v| s(&v)), Some("x".to_string()));
    assert_eq!(strip_prefix(&c("x"), &c("<string>")), None);
    assert_eq!(strip_suffix(&c("7</integer>"), &c("</integer>")).map(|v| s(&v)), Some("7".to_string()));
    assert_eq!(s(&trim_start_matches(&c("ababc"), &c("ab"))), "ababc".trim_start_matches("ab"));
    assert_eq!(s(&trim_end_matches(&c("cabab"), &c("ab"))), "cabab".trim_end_matches("ab"));
}

#[test]
fn parse_u64_matches_str_parse() {
    for text in ["0", "42", "+7", "", "+", "-1", "18446744073709551615", "18446744073709551616", "1a", " 1", "007"] {
        assert_eq!(parse_u64(&c(text)), text.parse::<u64>().ok(), "parse of {:?}", text);
    }
}

#[test]
fn ascii_case_comparison() {
    assert!(eq_ignore_ascii_case(&c("USB"), &c("usb")));
    assert!(eq_ignore_ascii_case(&c("Usb"), &c("uSB")));
    assert!(!eq_ignore_ascii_case(&c("usb3"), &c("usb")));
    assert!(!eq_ignore_ascii_case(&c("SCSI"), &c("usb")));
}

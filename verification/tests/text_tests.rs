use vdsleep::text::{
    blank, chars_of, concat_chars, contains_chars, contains_str, eq_ignore_ascii_case, is_whitespace,
    nonblank_parts, push_decimal, push_signed, replace_char, str_blank, sub_chars, text_less,
    trim_chars, trim_start_matches, upper_chars,
};

fn v(s: &str) -> Vec<char> {
    s.chars().collect()
}

fn s(v: &[char]) -> String {
    v.iter().collect()
}

#[test]
fn chars_and_string_round_trip() {
    assert_eq!(chars_of("héllo"), v("héllo"));
    assert_eq!(s(&concat_chars(&v("ab"), &v("cd"))), "abcd");
    assert_eq!(s(&sub_chars(&v("abcdef"), 1, 4)), "bcd");
}

#[test]
fn whitespace_matches_std() {
    for c in ['\t', '\n', '\r', ' ', '\u{85}', '\u{a0}', '\u{2003}', '\u{3000}', 'a', '0', '\u{200b}', '#'] {
        assert_eq!(is_whitespace(c), c.is_whitespace(), "{:?}", c);
    }
}

#[test]
fn trim_matches_std_trim() {
    for t in ["  a b \t", "", "   ", "x", "\u{3000}ok\u{a0}", " a "] {
        assert_eq!(s(&trim_chars(&v(t))), t.trim());
    }
    assert!(blank(&v(" \t\n")));
    assert!(!blank(&v(" x ")));
    assert!(str_blank(""));
    assert!(!str_blank(" ·"));
}

#[test]
fn substring_search() {
    assert!(contains_chars(&v("DISPLAY#ABC"), &v("ABC")));
    assert!(contains_chars(&v("abc"), &v("")));
    assert!(!contains_chars(&v("ab"), &v("abc")));
    assert!(contains_str(&v("Virtual Desktop Streamer.exe"), "Desktop"));
    assert!(!contains_str(&v("VirtualDesktop"), "desktop"));
}

#[test]
fn ascii_case_insensitive_compare() {
    assert!(eq_ignore_ascii_case(&v("display"), "DISPLAY"));
    assert!(eq_ignore_ascii_case(&v("MoNiToR"), "MONITOR"));
    assert!(!eq_ignore_ascii_case(&v("DISPLAYS"), "DISPLAY"));
    assert!(!eq_ignore_ascii_case(&v("dïsplay"), "DISPLAY"));
}

#[test]
fn text_order_matches_string_order() {
    let words = ["", "a", "ab", "b", "Z", "é", "abc"];
    for a in words {
        for b in words {
            assert_eq!(text_less(&v(a), &v(b)), a < b, "{} {}", a, b);
        }
    }
}

#[test]
fn prefix_stripping_repeats() {
    assert_eq!(s(&trim_start_matches(&v("\\\\?\\\\\\?\\X"), "\\\\?\\")), "X");
    assert_eq!(s(&trim_start_matches(&v("abab c"), "ab")), " c");
    assert_eq!(s(&trim_start_matches(&v("xab"), "ab")), "xab");
}

#[test]
fn replace_backslashes() {
    assert_eq!(s(&replace_char(&v("a\\b\\c"), '\\', '#')), "a#b#c");
}

#[test]
fn split_keeps_nonblank_pieces() {
    let parts = nonblank_parts(&v("\\\\?\\DISPLAY#DEL40B7# #x\\y"), &vec!['#', '\\']);
    let got: Vec<String> = parts.iter().map(|p| s(p)).collect();
    let want: Vec<String> = "\\\\?\\DISPLAY#DEL40B7# #x\\y"
        .split(['#', '\\'])
        .filter(|p| !p.trim().is_empty())
        .map(|p| p.to_string())
        .collect();
    assert_eq!(got, want);
    assert_eq!(got, vec!["?", "DISPLAY", "DEL40B7", "x", "y"]);
    assert!(nonblank_parts(&v(""), &vec!['#']).is_empty());
}

#[test]
fn decimal_formatting() {
    let mut out = v("n=");
    push_decimal(&mut out, 0);
    assert_eq!(s(&out), "n=0");
    let mut out = Vec::new();
    push_decimal(&mut out, 1920);
    assert_eq!(s(&out), "1920");
    let mut out = Vec::new();
    push_signed(&mut out, -1280);
    assert_eq!(s(&out), "-1280");
    let mut out = Vec::new();
    push_signed(&mut out, i64::MIN);
    assert_eq!(s(&out), i64::MIN.to_string());
    let mut out = Vec::new();
    push_decimal(&mut out, u64::MAX);
    assert_eq!(s(&out), u64::MAX.to_string());
}

#[test]
fn uppercase_is_std_uppercase() {
    assert_eq!(s(&upper_chars(&v("abc-ß"))), "ABC-SS");
    assert_eq!(s(&upper_chars(&v("dell u2720q"))), "DELL U2720Q");
}

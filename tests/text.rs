use jade::text::{chars_of, drop_ticks, find, is_space_char, slice, text_of, trimmed};

fn v(s: &str) -> Vec<char> {
    s.chars().collect()
}

#[test]
fn find_gives_the_first_occurrence() {
    assert_eq!(find(&v("abcabc"), &v("bc")), Some(1));
    assert_eq!(find(&v("abc"), &v("")), Some(0));
    assert_eq!(find(&v("abc"), &v("cd")), None);
    assert_eq!(find(&v("ab"), &v("abc")), None);
}

#[test]
fn trimming_whitespace_and_backticks() {
    assert_eq!(trimmed(&v(" \t a b \n"), false), v("a b"));
    assert_eq!(trimmed(&v("` ls `"), false), v("` ls `"));
    assert_eq!(trimmed(&v("` ls `"), true), v("ls"));
    assert_eq!(trimmed(&v("\u{3000}x\u{a0}"), false), v("x"));
    assert_eq!(trimmed(&v("   "), false), v(""));
}

#[test]
fn whitespace_matches_std() {
    for c in ['\t', '\n', '\u{b}', '\u{c}', '\r', ' ', '\u{85}', '\u{a0}', '\u{1680}', '\u{2000}', '\u{200a}', '\u{2028}', '\u{2029}', '\u{202f}', '\u{205f}', '\u{3000}', 'a', '`', '\u{200b}', '\u{feff}'] {
        assert_eq!(is_space_char(c), c.is_whitespace(), "{:?}", c);
    }
}

#[test]
fn backticks_are_removed() {
    assert_eq!(drop_ticks(&v("`a`b``c")), v("abc"));
}

#[test]
fn conversions_round_trip() {
    assert_eq!(chars_of("héllo"), v("héllo"));
    assert_eq!(text_of(&v("héllo")), "héllo");
    assert_eq!(slice(&v("abcdef"), 2, 4), v("cd"));
}

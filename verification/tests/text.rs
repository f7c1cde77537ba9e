use yt_transcriber::text::{
    chars_of, is_space_char, join, lines, same_chars, slice_of, split, starts_with, string_of,
    trim,
};

fn chars(s: &str) -> Vec<char> {
    s.chars().collect()
}

fn all(parts: &[&str]) -> Vec<Vec<char>> {
    parts.iter().map(|p| chars(p)).collect()
}

#[test]
fn chars_and_back() {
    assert_eq!(chars_of("a\u{e9}\u{1f600}"), vec!['a', '\u{e9}', '\u{1f600}']);
    assert_eq!(string_of(&vec!['a', '\u{e9}', '\u{1f600}']), "a\u{e9}\u{1f600}");
    assert_eq!(chars_of(""), Vec::<char>::new());
}

#[test]
fn whitespace_is_what_std_calls_whitespace() {
    for u in 0..0x110000u32 {
        if let Some(c) = char::from_u32(u) {
            assert_eq!(is_space_char(c), c.is_whitespace());
        }
    }
}

#[test]
fn trim_matches_std() {
    for s in ["", " ", "a", "  a b  ", "\t\r\nx\u{a0}\u{3000}", "\u{2003}", "x ", " x", "a\u{feff}"] {
        assert_eq!(string_of(&trim(&chars(s))), s.trim());
    }
}

#[test]
fn split_matches_std() {
    for s in ["", "a", ":", "a:b", "a::b", ":a:", "::", "a:b:c"] {
        let want: Vec<Vec<char>> = s.split(':').map(chars).collect();
        assert_eq!(split(&chars(s), ':'), want);
    }
}

#[test]
fn lines_drop_only_the_final_empty_piece() {
    assert_eq!(lines(&chars("")), all(&[]));
    assert_eq!(lines(&chars("\n")), all(&[""]));
    assert_eq!(lines(&chars("a")), all(&["a"]));
    assert_eq!(lines(&chars("a\n")), all(&["a"]));
    assert_eq!(lines(&chars("a\n\nb")), all(&["a", "", "b"]));
    assert_eq!(lines(&chars("a\n\n")), all(&["a", ""]));
    assert_eq!(lines(&chars("a\r\nb")), all(&["a\r", "b"]));
}

#[test]
fn join_puts_the_separator_between() {
    assert_eq!(join(&all(&[]), ", "), chars(""));
    assert_eq!(join(&all(&["a"]), ", "), chars("a"));
    assert_eq!(join(&all(&["a", "b", "c"]), ", "), chars("a, b, c"));
    assert_eq!(join(&all(&["", ""]), "-"), chars("-"));
    assert_eq!(join(&all(&["a", "b"]), ""), chars("ab"));
}

#[test]
fn prefix_slice_and_equality() {
    assert!(starts_with(&chars("hello"), "he"));
    assert!(starts_with(&chars("hello"), ""));
    assert!(starts_with(&chars("hello"), "hello"));
    assert!(!starts_with(&chars("hello"), "hello!"));
    assert!(!starts_with(&chars("hello"), "el"));
    assert_eq!(slice_of(&chars("hello"), 1, 3), chars("el"));
    assert_eq!(slice_of(&chars("hello"), 2, 2), chars(""));
    assert!(same_chars(&chars("ab"), &chars("ab")));
    assert!(!same_chars(&chars("ab"), &chars("abc")));
    assert!(!same_chars(&chars("ab"), &chars("ac")));
}

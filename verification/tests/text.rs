use find_my_operations::chan::chan_service::text_mentions_operation;
use find_my_operations::text::{
    chars_of, contains_chars, decimal_string, is_white_space_char, split_words, str_contains,
};

#[test]
fn words_of_text() {
    assert_eq!(split_words("  hello \t world\n"), vec!["hello", "world"]);
    assert_eq!(split_words("a\u{a0}b\u{3000}c"), vec!["a", "b", "c"]);
    assert!(split_words("").is_empty());
    assert!(split_words(" \n\t ").is_empty());
    assert_eq!(split_words("one"), vec!["one"]);
    let s = "x  y\u{2003}z\u{85}w";
    let ours = split_words(s);
    let std_words: Vec<&str> = s.split_whitespace().collect();
    assert_eq!(ours, std_words);
}

#[test]
fn white_space_matches_std() {
    for u in 0u32..0x3100 {
        if let Some(c) = char::from_u32(u) {
            assert_eq!(is_white_space_char(c), c.is_whitespace(), "at {:#x}", u);
        }
    }
}

#[test]
fn substring_search() {
    assert!(str_contains("abcdef", "cde"));
    assert!(str_contains("abc", ""));
    assert!(str_contains("", ""));
    assert!(!str_contains("ab", "abc"));
    assert!(!str_contains("abcabd", "abe"));
    assert!(str_contains("aaab", "aab"));
    assert!(contains_chars(&vec!['x', 'y'], &vec!['y']));
}

#[test]
fn decimal_rendering() {
    assert_eq!(decimal_string(0), "0");
    assert_eq!(decimal_string(175), "175");
    assert_eq!(decimal_string(-7), "-7");
    assert_eq!(decimal_string(i32::MAX), "2147483647");
    assert_eq!(decimal_string(i32::MIN), "-2147483648");
}

#[test]
fn std_text_queries() {
    assert!(text_mentions_operation("operat\u{131}on"));
    assert!(text_mentions_operation("Cooperation"));
    assert!(!text_mentions_operation("opera tion"));
    assert_eq!(chars_of("h\u{e9}!"), vec!['h', '\u{e9}', '!']);
}

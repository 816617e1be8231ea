use graphoid::text::{append_decimal, is_word, str_contains_char, str_eq, str_starts_with, strip_line_ending};

#[test]
fn decimal_rendering() {
    let mut s = String::from("n=");
    append_decimal(&mut s, 0);
    assert_eq!(s, "n=0");
    let mut t = String::new();
    append_decimal(&mut t, 1234567);
    assert_eq!(t, "1234567");
}

#[test]
fn string_predicates() {
    assert!(str_eq("abc", "abc"));
    assert!(!str_eq("abc", "abd"));
    assert!(str_starts_with("struct:Point", "struct:"));
    assert!(!str_starts_with("str", "struct:"));
    assert!(str_contains_char("a/b", '/'));
    assert!(!str_contains_char("ab", '/'));
}

#[test]
fn words_are_letters_and_underscores() {
    assert!(is_word("map"));
    assert!(is_word("with_ruleset"));
    assert!(is_word("größe"));
    assert!(!is_word(""));
    assert!(!is_word("a1"));
    assert!(!is_word("=="));
}

#[test]
fn line_endings_are_stripped_once() {
    assert_eq!(strip_line_ending("hello\n"), "hello");
    assert_eq!(strip_line_ending("hello\r\n"), "hello");
    assert_eq!(strip_line_ending("hello"), "hello");
    assert_eq!(strip_line_ending("hello\r"), "hello\r");
    assert_eq!(strip_line_ending("two\n\n"), "two\n");
    assert_eq!(strip_line_ending("\n"), "");
    assert_eq!(strip_line_ending(""), "");
}

use keep_in_touch::text::{
    chars_of, contains, copy_texts, has_text, is_white_space, join, le_text, matches_at,
    same_chars, same_text, same_texts, split_on, starts_with, string_of,
};

fn strings(items: &[&str]) -> Vec<String> {
    items.iter().map(|s| s.to_string()).collect()
}

#[test]
fn chars_and_back() {
    let v = chars_of("héllo");
    assert_eq!(v, vec!['h', 'é', 'l', 'l', 'o']);
    assert_eq!(string_of(&v), "héllo");
    assert_eq!(string_of(&Vec::new()), "");
}

#[test]
fn same_text_compares_characters() {
    assert!(same_text("abc", "abc"));
    assert!(!same_text("abc", "abd"));
    assert!(!same_text("abc", "ab"));
    assert!(same_text("", ""));
    assert!(same_chars(&vec!['a'], &vec!['a']));
    assert!(!same_chars(&vec!['a'], &vec!['b']));
}

#[test]
fn contains_finds_a_run_anywhere() {
    assert!(contains("hello world", "lo w"));
    assert!(contains("hello", "hello"));
    assert!(contains("hello", ""));
    assert!(contains("", ""));
    assert!(!contains("hello", "world"));
    assert!(!contains("hi", "hello"));
    assert!(contains("aab", "ab"));
    assert!(contains("xyz", "z"));
}

#[test]
fn matches_at_checks_one_place() {
    let s = chars_of("abcabc");
    let sub = chars_of("bc");
    assert!(matches_at(&s, &sub, 1));
    assert!(matches_at(&s, &sub, 4));
    assert!(!matches_at(&s, &sub, 0));
    assert!(!matches_at(&s, &sub, 5));
    assert!(!matches_at(&s, &sub, 100));
}

#[test]
fn starts_with_tests_the_beginning() {
    assert!(starts_with("PhoneNumber2", "PhoneNumber"));
    assert!(starts_with("PhoneNumber", "PhoneNumber"));
    assert!(!starts_with("Phone", "PhoneNumber"));
    assert!(!starts_with("xPhoneNumber", "PhoneNumber"));
    assert!(starts_with("abc", ""));
}

#[test]
fn split_on_cuts_at_every_separator() {
    assert_eq!(split_on("a,b,c", ','), strings(&["a", "b", "c"]));
    assert_eq!(split_on("", ','), strings(&[""]));
    assert_eq!(split_on("abc", ','), strings(&["abc"]));
    assert_eq!(split_on("a,", ','), strings(&["a", ""]));
    assert_eq!(split_on(",a", ','), strings(&["", "a"]));
    assert_eq!(split_on("a,,b", ','), strings(&["a", "", "b"]));
}

#[test]
fn join_puts_the_separator_between() {
    assert_eq!(join(&strings(&["a", "b", "c"]), ","), "a,b,c");
    assert_eq!(join(&strings(&["a"]), ","), "a");
    assert_eq!(join(&strings(&[]), ","), "");
    assert_eq!(join(&strings(&["", ""]), ", "), ", ");
}

#[test]
fn split_then_join_gives_the_text_back() {
    for s in ["", "a", "a,b", ",", ",,", "tag one,tag two,"] {
        assert_eq!(join(&split_on(s, ','), ","), s);
    }
}

#[test]
fn le_text_orders_by_code_point() {
    assert!(le_text("", ""));
    assert!(le_text("", "a"));
    assert!(!le_text("a", ""));
    assert!(le_text("abc", "abd"));
    assert!(!le_text("abd", "abc"));
    assert!(le_text("abc", "abc"));
    assert!(le_text("ab", "abc"));
    assert!(!le_text("abc", "ab"));
    assert!(le_text("Zed", "alice"));
    assert!(!le_text("alice", "Zed"));
    assert!(le_text("z", "é"));
}

#[test]
fn le_text_agrees_with_the_order_of_str() {
    let samples = ["", "a", "A", "ab", "b", "é", "Zoé", "zoe", "10", "9"];
    for a in samples {
        for b in samples {
            assert_eq!(le_text(a, b), a <= b);
        }
    }
}

#[test]
fn runs_of_texts_compare_and_copy() {
    let a = strings(&["x", "y"]);
    assert!(same_texts(&a, &strings(&["x", "y"])));
    assert!(!same_texts(&a, &strings(&["y", "x"])));
    assert!(!same_texts(&a, &strings(&["x"])));
    assert_eq!(copy_texts(&a), a);
    assert!(has_text(&a, "y"));
    assert!(!has_text(&a, "z"));
}

#[test]
fn white_space_is_what_unicode_says() {
    for c in [' ', '\t', '\n', '\u{b}', '\u{c}', '\r', '\u{85}', '\u{a0}', '\u{1680}', '\u{2000}'] {
        assert!(is_white_space(c));
    }
    for c in ['\u{200a}', '\u{2028}', '\u{2029}', '\u{202f}', '\u{205f}', '\u{3000}'] {
        assert!(is_white_space(c));
    }
    for c in ['a', '0', '\u{8}', '\u{e}', '\u{1f}', '!', '\u{200b}', '\u{180e}', '\u{feff}'] {
        assert!(!is_white_space(c));
    }
}

#[test]
fn white_space_agrees_with_char_on_every_character() {
    let mut n: u32 = 0;
    while n <= 0x10ffff {
        if let Some(c) = char::from_u32(n) {
            assert_eq!(is_white_space(c), c.is_whitespace(), "U+{:04X}", n);
        }
        n += 1;
    }
}

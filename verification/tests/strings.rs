use rust_exercises::artifact::{check_new_id, keywords_from_line, NewId};
use rust_exercises::string_edit::{append_char, append_word, pop_char, remove_word, to_lowercase, to_uppercase};
use rust_exercises::text::{parse_i32, parse_u32, split_words, trim};

#[test]
fn editing_a_string_step_by_step() {
    let mut s = String::from("Hello");
    append_char(&mut s, '!');
    assert_eq!(s, "Hello!");
    pop_char(&mut s);
    assert_eq!(s, "Hello");
    append_word(&mut s, " world world".to_string());
    assert_eq!(s, "Hello world world");
    remove_word(&mut s, "world".to_string());
    assert_eq!(s, "Hello  ");
    to_uppercase(&mut s);
    assert_eq!(s, "HELLO  ");
    to_lowercase(&mut s);
    assert_eq!(s, "hello  ");
}

#[test]
fn pop_on_empty_and_overlapping_removal() {
    let mut s = String::new();
    pop_char(&mut s);
    assert_eq!(s, "");
    let mut t = String::from("aaaa");
    remove_word(&mut t, "aa".to_string());
    assert_eq!(t, "");
    let mut u = String::from("aaa");
    remove_word(&mut u, "aa".to_string());
    assert_eq!(u, "a");
    let mut w = String::from("abc");
    remove_word(&mut w, String::new());
    assert_eq!(w, "abc");
}

#[test]
fn popping_the_appended_char_restores_the_string() {
    let mut s = String::from("ação");
    append_char(&mut s, 'ß');
    pop_char(&mut s);
    assert_eq!(s, "ação");
}

#[test]
fn case_mapping_follows_unicode() {
    let mut s = String::from("straße");
    to_uppercase(&mut s);
    assert_eq!(s, "STRASSE");
}

#[test]
fn trimming_and_splitting() {
    assert_eq!(trim("  rust \t\n"), "rust");
    assert_eq!(trim("\u{3000}x y\u{a0}"), "x y");
    assert_eq!(trim("   "), "");
    assert_eq!(split_words("  go OR\tc \n"), vec!["go".to_string(), "OR".to_string(), "c".to_string()]);
    assert!(split_words(" \t ").is_empty());
}

#[test]
fn parsing_numbers_like_std() {
    assert_eq!(parse_u32("4294967295"), Some(4294967295));
    assert_eq!(parse_u32("4294967296"), None);
    assert_eq!(parse_u32("+12"), Some(12));
    assert_eq!(parse_u32("-1"), None);
    assert_eq!(parse_u32(""), None);
    assert_eq!(parse_u32("+"), None);
    assert_eq!(parse_i32("-2147483648"), Some(-2147483648));
    assert_eq!(parse_i32("2147483648"), None);
    assert_eq!(parse_i32(" 1"), None);
}

#[test]
fn keywords_are_lowercased_words() {
    assert_eq!(
        keywords_from_line("  Rust  Systems\tPROGRAMMING "),
        vec!["rust".to_string(), "systems".to_string(), "programming".to_string()]
    );
    assert!(keywords_from_line("").is_empty());
}

#[test]
fn new_ids_must_be_numbers_not_in_use() {
    let ids = vec![1, 2, 3];
    assert_eq!(check_new_id("7", &ids), NewId::Accepted(7));
    assert_eq!(check_new_id("2", &ids), NewId::Taken(2));
    assert_eq!(check_new_id("two", &ids), NewId::NotANumber);
}

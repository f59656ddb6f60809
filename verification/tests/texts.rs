//! Trimming, splitting, searching and ordering.
use pro_logue::text::{
    chars_of, contains, copy_texts, is_before, is_same, join, number, split_at, starts_with,
    string_of, strip_leading, trim,
};

#[test]
fn trim_takes_white_space_off_both_ends() {
    assert_eq!(trim("  two words \t\n"), "two words");
    assert_eq!(trim(""), "");
    assert_eq!(trim(" \n\t "), "");
    assert_eq!(trim("bare"), "bare");
}

#[test]
fn trim_knows_every_white_space_character() {
    for u in 0..=0x10ffff {
        if let Some(c) = char::from_u32(u) {
            let s = c.to_string();
            assert_eq!(trim(&s), s.trim(), "U+{:04X}", u);
        }
    }
}

#[test]
fn strip_leading_takes_a_run_off() {
    assert_eq!(strip_leading("***buy milk*", '*'), "buy milk*");
    assert_eq!(strip_leading("none", '*'), "none");
    assert_eq!(strip_leading("**", '*'), "");
}

#[test]
fn contains_finds_parts() {
    assert!(contains("lab notebook", "note"));
    assert!(contains("lab", "lab"));
    assert!(contains("lab", ""));
    assert!(contains("", ""));
    assert!(!contains("lab", "labs"));
    assert!(!contains("aab", "ba"));
    assert!(contains("aaab", "aab"));
}

#[test]
fn starts_with_looks_at_the_start_only() {
    assert!(starts_with("Clock-in: 09:00", "Clock-in:"));
    assert!(!starts_with("My Clock-in:", "Clock-in:"));
    assert!(!starts_with("Clock", "Clock-in:"));
}

#[test]
fn order_is_by_code_point() {
    assert!(is_before("2025_12_17", "2025_12_18"));
    assert!(!is_before("2025_12_18", "2025_12_18"));
    assert!(is_before("a", "ab"));
    assert!(!is_before("ab", "a"));
    assert!(is_before("Z", "a"));
    assert!(is_before("z", "é"));
    assert!(is_before("\u{ffff}", "\u{10000}"));
}

#[test]
fn same_texts_are_told() {
    assert!(is_same("~", "~"));
    assert!(!is_same("~", "~/"));
}

#[test]
fn split_at_cuts_at_every_separator() {
    assert_eq!(split_at("a,b,,c", ','), vec!["a", "b", "", "c"]);
    assert_eq!(split_at("", ','), vec![""]);
    assert_eq!(split_at("ab", ','), vec!["ab"]);
    assert_eq!(split_at(",", ','), vec!["", ""]);
}

#[test]
fn join_puts_a_separator_between() {
    let list = vec!["a".to_string(), "b".to_string(), "c".to_string()];
    assert_eq!(join(&list, ", "), "a, b, c");
    assert_eq!(join(&vec!["a".to_string()], ", "), "a");
    assert_eq!(join(&vec![], ", "), "");
}

#[test]
fn numbers_are_decimal() {
    assert_eq!(number(0), "0");
    assert_eq!(number(9), "9");
    assert_eq!(number(10), "10");
    assert_eq!(number(1234567890), "1234567890");
    assert_eq!(number(usize::MAX), usize::MAX.to_string());
}

#[test]
fn characters_come_one_by_one() {
    let chars = chars_of("a✓é");
    assert_eq!(chars, vec!['a', '✓', 'é']);
    assert_eq!(string_of(&chars, 1, 3), "✓é");
    assert_eq!(string_of(&chars, 2, 2), "");
}

#[test]
fn copies_of_lists_are_equal() {
    let list = vec!["x".to_string(), "y".to_string()];
    assert_eq!(copy_texts(&list), list);
}

use lockscan::snapshot::{LockSnapshot, Package};
use lockscan::text::{
    chars_of, contains_text, contains_word, copy_optional_text, copy_texts, join_texts, same_text, white_space,
};

fn strings(items: &[&str]) -> Vec<String> {
    items.iter().map(|s| s.to_string()).collect()
}

#[test]
fn substring_search() {
    assert!(contains_text("MIT OR Apache-2.0", " OR "));
    assert!(contains_text("abc", "abc"));
    assert!(contains_text("abc", "c"));
    assert!(contains_text("abc", "a"));
    assert!(contains_text("abc", ""));
    assert!(contains_text("", ""));
    assert!(!contains_text("", "a"));
    assert!(!contains_text("abc", "abcd"));
    assert!(!contains_text("abc", "ac"));
    assert!(contains_text("aaab", "aab"));
    assert!(contains_text("h\u{e9}llo w\u{f6}rld", "o w\u{f6}"));
    assert!(!contains_text("h\u{e9}llo", "e"));
}

#[test]
fn text_comparison() {
    assert!(same_text("", ""));
    assert!(same_text("abc", "abc"));
    assert!(!same_text("abc", "abd"));
    assert!(!same_text("abc", "ab"));
    assert!(!same_text("ab", "abc"));
    assert!(!same_text("abc", "ABC"));
    assert!(same_text("\u{e9}", "\u{e9}"));
    assert!(!same_text("\u{e9}", "e"));
}

#[test]
fn joining() {
    assert_eq!(join_texts(&Vec::new(), ", "), "");
    assert_eq!(join_texts(&strings(&["a"]), ", "), "a");
    assert_eq!(join_texts(&strings(&["a", "b", "c"]), ", "), "a, b, c");
    assert_eq!(join_texts(&strings(&["", ""]), "-"), "-");
    assert_eq!(join_texts(&strings(&["a", "b"]), ""), "ab");
}

#[test]
fn characters_and_copies() {
    assert_eq!(chars_of("a\u{e9}b"), vec!['a', '\u{e9}', 'b']);
    assert_eq!(chars_of(""), Vec::<char>::new());
    assert_eq!(copy_texts(&strings(&["x", "", "yz"])), strings(&["x", "", "yz"]));
    assert_eq!(copy_optional_text(&Some("x".to_string())), Some("x".to_string()));
    assert_eq!(copy_optional_text(&None), None);
}

#[test]
fn packages_are_found_by_name() {
    let snapshot = LockSnapshot::new(vec![
        Package::new("a".to_string(), "1.0.0".to_string(), strings(&["b"])),
        Package::new("b".to_string(), "2.0.0".to_string(), Vec::new()),
        Package::new("b".to_string(), "3.0.0".to_string(), Vec::new()),
    ]);
    assert_eq!(snapshot.package_count(), 3);
    assert_eq!(snapshot.find_by_name("a"), Some(0));
    assert_eq!(snapshot.find_by_name("b"), Some(1));
    assert_eq!(snapshot.find_by_name("c"), None);
    assert_eq!(snapshot.find_by_name(""), None);
    assert_eq!(snapshot.root, None);
    assert_eq!(snapshot.packages[0].source, None);
    assert_eq!(snapshot.packages[0].checksum, None);
    assert_eq!(snapshot.packages[0].dependencies, strings(&["b"]));
    assert_eq!(LockSnapshot::new(Vec::new()).find_by_name("a"), None);
}

#[test]
fn white_space_is_what_unicode_calls_white_space() {
    for code in 0u32..=0x10FFFF {
        if let Some(c) = char::from_u32(code) {
            assert_eq!(white_space(c), c.is_whitespace());
        }
    }
    assert!(white_space(' '));
    assert!(white_space('\t'));
    assert!(white_space('\n'));
    assert!(!white_space('('));
    assert!(!white_space('-'));
    assert!(!white_space('a'));
}

#[test]
fn word_search() {
    assert!(contains_word("MIT OR Apache-2.0", "OR"));
    assert!(contains_word("OR", "OR"));
    assert!(contains_word("a OR", "OR"));
    assert!(contains_word("OR a", "OR"));
    assert!(contains_word("a\tOR\tb", "OR"));
    assert!(contains_word("xOR OR", "OR"));
    assert!(contains_word("ORx\nOR\nxOR", "OR"));
    assert!(!contains_word("ORx xOR xORx", "OR"));
    assert!(!contains_word("(OR)", "OR"));
    assert!(!contains_word("", "OR"));
    assert!(!contains_word("O", "OR"));
    assert!(!contains_word("a or b", "OR"));
    assert!(contains_word("", ""));
    assert!(!contains_word("a b", ""));
    assert!(contains_word("a ", ""));
    assert!(contains_word(" a", ""));
    assert!(!contains_word("ab", "a"));
    assert!(contains_word("a b", "b"));
}

use rstream::text::{clean_string, join, str_equal, truncate};

#[test]
fn clean_string_strips_control_characters() {
    assert_eq!(clean_string("a\0b\x1fc\n"), "abc");
    assert_eq!(clean_string("\t"), "");
    assert_eq!(clean_string(""), "");
}

#[test]
fn clean_string_keeps_space_and_above() {
    assert_eq!(clean_string(" ~\u{7f}\u{e9}\u{100}\u{1f600}"), " ~\u{7f}\u{e9}\u{100}\u{1f600}");
}

#[test]
fn clean_string_doubles_quotes() {
    assert_eq!(clean_string("say \"hi\""), "say \"\"hi\"\"");
    assert_eq!(clean_string("it's"), "it''s");
    assert_eq!(clean_string("\"'"), "\"\"''");
}

#[test]
fn truncate_leaves_short_text_alone() {
    assert_eq!(truncate("abc", 3), "abc");
    assert_eq!(truncate("abc", 80), "abc");
    assert_eq!(truncate("", 0), "");
}

#[test]
fn truncate_marks_the_cut() {
    assert_eq!(truncate("abcdef", 3), "abc...");
    assert_eq!(truncate("abc", 0), "...");
    assert_eq!(truncate("\u{e9}t\u{e9}s", 2), "\u{e9}t...");
}

#[test]
fn join_puts_the_separator_between() {
    let parts = vec!["a".to_string(), "b".to_string(), "c".to_string()];
    assert_eq!(join(&parts, ","), "a,b,c");
    assert_eq!(join(&vec!["a".to_string()], ","), "a");
    assert_eq!(join(&Vec::new(), ","), "");
    assert_eq!(join(&vec!["".to_string(), "".to_string()], "--"), "--");
}

#[test]
fn str_equal_compares_characters() {
    assert!(str_equal("id", "id"));
    assert!(!str_equal("id", "ID"));
    assert!(!str_equal("id", "idx"));
    assert!(str_equal("", ""));
    assert!(str_equal("\u{e9}", "\u{e9}"));
    assert!(!str_equal("\u{e9}", "e"));
}

use stellarfiles::text::{
    decimal_string, find_prefixed_line, format_safe_name, replace_text, split_words,
    str_contains, truncate_text,
};

#[test]
fn test_truncate_text() {
    assert_eq!(truncate_text("silver_machine_live_1972.flac", 15), "silver...2.flac");
    assert_eq!(truncate_text("calabiyaumanifold", 10), "cala...old");
    assert_eq!(truncate_text("gong.ogg", 15), "gong.ogg");
    assert_eq!(truncate_text("spacemen3_drugs", 15), "spacemen3_drugs");
    assert_eq!(truncate_text("euler", 2), "...");
    assert_eq!(truncate_text("euler", 3), "...");
}

#[test]
fn truncate_counts_characters_not_bytes() {
    assert_eq!(truncate_text("ééééééééééé", 8), "ééé...éé");
    assert_eq!(truncate_text("", 0), "");
    assert_eq!(truncate_text("ab", 0), "...");
}

#[test]
fn safe_names_do_not_break() {
    assert_eq!(format_safe_name("a b-c", 10), "a\u{00A0}b\u{2011}c");
    assert_eq!(format_safe_name("long name-here.txt", 10), "long...txt");
    assert_eq!(format_safe_name("a b c d e f", 10), "a\u{00A0}b\u{00A0}...e\u{00A0}f");
}

#[test]
fn decimals() {
    assert_eq!(decimal_string(0), "0");
    assert_eq!(decimal_string(7), "7");
    assert_eq!(decimal_string(1234567890), "1234567890");
    assert_eq!(decimal_string(u128::MAX), u128::MAX.to_string());
}

#[test]
fn contains_and_replace() {
    assert!(str_contains("image-x-generic", "image"));
    assert!(str_contains("abc", ""));
    assert!(!str_contains("ab", "abc"));
    assert_eq!(replace_text("a#SEQb#SEQ", "#SEQ", "12"), "a12b12");
    assert_eq!(replace_text("aaa", "aa", "b"), "ba");
    assert_eq!(replace_text("none", "#SEQ", "1"), "none");
}

#[test]
fn words_split_on_white_space() {
    assert_eq!(split_words("  gimp  --new  x "), vec!["gimp", "--new", "x"]);
    assert!(split_words(" \t\n").is_empty());
    assert_eq!(split_words("a\u{00A0}b"), vec!["a", "b"]);
}

#[test]
fn prefixed_lines() {
    let info = "[Trash Info]\nPath=/home/u/a.txt\nDeletionDate=2024\n";
    assert_eq!(find_prefixed_line(info, "Path="), Some("/home/u/a.txt".to_string()));
    assert_eq!(find_prefixed_line("Path=x\r\n", "Path="), Some("x".to_string()));
    assert_eq!(find_prefixed_line("nothing here", "Path="), None);
}

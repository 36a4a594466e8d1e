use stellarfiles::paths::{
    file_name_of, is_parent_of, join, parent_of, paths_equal, starts_with, strip_prefix_text,
    with_file_name,
};

#[test]
fn paths_compare_by_components() {
    assert!(paths_equal("/a/b", "/a//b/"));
    assert!(paths_equal("a/./b", "a/b"));
    assert!(!paths_equal("a/../b", "b"));
    assert!(paths_equal("./a", "./a/"));
    assert!(!paths_equal("./a", "a"));
    assert!(!paths_equal("/a", "a"));
}

#[test]
fn path_prefixes() {
    assert!(starts_with("/home/u/Trash/files/x", "/home/u/Trash/files"));
    assert!(!starts_with("/home/u/Trash/filesx", "/home/u/Trash/files"));
    assert!(starts_with("/a", "/"));
    assert!(starts_with("a", ""));
}

#[test]
fn parents_and_names() {
    assert_eq!(parent_of("/a/b/c.txt"), Some("/a/b".to_string()));
    assert_eq!(parent_of("/a"), Some("/".to_string()));
    assert_eq!(parent_of("/"), None);
    assert_eq!(parent_of(""), None);
    assert_eq!(parent_of("a"), Some(String::new()));
    assert_eq!(parent_of("a//b/./"), Some("a".to_string()));
    assert_eq!(parent_of("./a"), Some(".".to_string()));
    assert_eq!(parent_of("a/.."), Some("a".to_string()));
    assert!(is_parent_of("/a/b", "/a/b/c"));
    assert!(!is_parent_of("/a", "/a/b/c"));
    assert_eq!(file_name_of("/a/b.txt"), Some("b.txt".to_string()));
    assert_eq!(file_name_of("/a/.."), None);
    assert_eq!(file_name_of("/"), None);
}

#[test]
fn joining_and_renaming() {
    assert_eq!(join("/a", "b"), "/a/b");
    assert_eq!(join("/a/", "b"), "/a/b");
    assert_eq!(join("", "b"), "b");
    assert_eq!(join("/a", "/etc"), "/etc");
    assert_eq!(with_file_name("/a/b.txt", "c.txt"), "/a/c.txt");
    assert_eq!(with_file_name("b.txt", "c.txt"), "c.txt");
    assert_eq!(with_file_name("/", "c"), "/c");
}

#[test]
fn joined_name_has_the_directory_as_parent() {
    for dir in ["", "/", "/home/u", "./x", "rel/dir/"] {
        let p = join(dir, "file.txt");
        assert_eq!(file_name_of(&p), Some("file.txt".to_string()));
        assert!(is_parent_of(dir, &p));
    }
}

#[test]
fn stripping_prefixes() {
    assert_eq!(strip_prefix_text("/a/b/c", "/a"), Some("b/c".to_string()));
    assert_eq!(strip_prefix_text("/a/b", "/a/b"), Some(String::new()));
    assert_eq!(strip_prefix_text("/a/b", "/c"), None);
}

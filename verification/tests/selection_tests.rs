use stellarfiles::selection::{accepts_drop, drop_dir_at, entry_shown_at, PathSet};
use stellarfiles::types::FileEntry;

fn entry(path: &str, is_dir: bool) -> FileEntry {
    FileEntry {
        path: path.to_string(),
        name: path.rsplit('/').next().unwrap().to_string(),
        grid_name: String::new(),
        is_dir,
        size_bytes: 0,
        modified: 0,
        size_str: String::new(),
        modified_str: String::new(),
        file_type_str: String::new(),
        icon_name: "",
    }
}

fn sorted(s: &PathSet) -> Vec<String> {
    let mut v = s.to_vec();
    v.sort();
    v
}

fn entries() -> Vec<FileEntry> {
    vec![
        entry("/d/a", true),
        entry("/d/b", false),
        entry("/d/c", false),
        entry("/d/e", false),
        entry("/d/f", false),
    ]
}

#[test]
fn path_set_basics() {
    let mut s = PathSet::new();
    assert!(s.is_empty());
    assert!(s.insert("/a/b".to_string()));
    assert!(!s.insert("/a//b/".to_string()));
    assert_eq!(s.len(), 1);
    assert!(s.contains("/a/./b"));
    assert!(s.remove("/a/b"));
    assert!(!s.remove("/a/b"));
    assert!(s.is_empty());
}

#[test]
fn plain_click_selects_one() {
    let es = entries();
    let filtered = vec![0, 1, 2, 3, 4];
    let mut s = PathSet::new();
    s.insert("/d/c".to_string());
    let last = s.press(1, "/d/b".to_string(), false, false, None, &filtered, &es);
    assert_eq!(last, Some(1));
    assert_eq!(sorted(&s), vec!["/d/b"]);
    let last = s.press(1, "/d/b".to_string(), false, false, Some(7), &filtered, &es);
    assert_eq!(last, Some(7));
    assert_eq!(sorted(&s), vec!["/d/b"]);
}

#[test]
fn ctrl_click_toggles() {
    let es = entries();
    let filtered = vec![0, 1, 2, 3, 4];
    let mut s = PathSet::new();
    s.insert("/d/a".to_string());
    s.press(2, "/d/c".to_string(), false, true, None, &filtered, &es);
    assert_eq!(sorted(&s), vec!["/d/a", "/d/c"]);
    let last = s.press(2, "/d/c".to_string(), false, true, Some(0), &filtered, &es);
    assert_eq!(last, Some(2));
    assert_eq!(sorted(&s), vec!["/d/a"]);
}

#[test]
fn shift_click_adds_the_range() {
    let es = entries();
    let filtered = vec![4, 3, 2, 1, 0];
    let mut s = PathSet::new();
    s.insert("/d/a".to_string());
    let last = s.press(1, "/d/e".to_string(), true, false, Some(3), &filtered, &es);
    assert_eq!(last, Some(3));
    assert_eq!(sorted(&s), vec!["/d/a", "/d/b", "/d/c", "/d/e"]);
    // Without an earlier click, Shift acts as a plain click.
    let mut t = PathSet::new();
    let last = t.press(1, "/d/e".to_string(), true, false, None, &filtered, &es);
    assert_eq!(last, Some(1));
    assert_eq!(sorted(&t), vec!["/d/e"]);
    // Rows past the list add nothing.
    let mut u = PathSet::new();
    u.press(3, "/d/b".to_string(), true, false, Some(usize::MAX), &filtered, &es);
    assert_eq!(sorted(&u), vec!["/d/a", "/d/b"]);
}

#[test]
fn rubber_band_selects_cells() {
    let es = entries();
    let filtered = vec![0, 1, 2, 3, 4];
    let mut s = PathSet::new();
    s.insert("/zzz".to_string());
    // A grid three wide: rows 0..=1, columns 1..=2 cover positions 1, 2, 4, 5.
    s.select_band(0, 1, 1, 2, 3, &filtered, &es);
    assert_eq!(sorted(&s), vec!["/d/b", "/d/c", "/d/f"]);
    // A list is one column wide.
    s.select_band(1, 3, 0, 0, 1, &filtered, &es);
    assert_eq!(sorted(&s), vec!["/d/b", "/d/c", "/d/e"]);
    s.select_band(9, 12, 0, 0, 1, &filtered, &es);
    assert!(s.is_empty());
    s.select_band(0, usize::MAX, 0, usize::MAX, 2, &filtered, &es);
    assert_eq!(s.len(), 5);
}

#[test]
fn select_all_and_retain() {
    let es = entries();
    let mut s = PathSet::new();
    s.select_all(&es);
    assert_eq!(s.len(), 5);
    let fewer = vec![entry("/d/b", false), entry("/d/x", false)];
    s.retain_present(&fewer);
    assert_eq!(sorted(&s), vec!["/d/b"]);
}

#[test]
fn right_click_and_focus() {
    let es = entries();
    let filtered = vec![0, 1, 2, 3, 4];
    let mut s = PathSet::new();
    s.insert("/d/a".to_string());
    s.insert("/d/b".to_string());
    s.right_click("/d/b".to_string());
    assert_eq!(s.len(), 2);
    s.right_click("/d/c".to_string());
    assert_eq!(sorted(&s), vec!["/d/c"]);
    s.focus(3, false, false, &filtered, &es);
    assert_eq!(sorted(&s), vec!["/d/e"]);
    s.focus(4, true, false, &filtered, &es);
    assert_eq!(sorted(&s), vec!["/d/e"]);
    s.focus(10, false, false, &filtered, &es);
    assert_eq!(sorted(&s), vec!["/d/e"]);
}

#[test]
fn drops() {
    let es = entries();
    let filtered = vec![0, 1];
    assert_eq!(drop_dir_at(0, &filtered, &es), Some("/d/a".to_string()));
    assert_eq!(drop_dir_at(1, &filtered, &es), None);
    assert_eq!(drop_dir_at(2, &filtered, &es), None);
    assert_eq!(entry_shown_at(1, &filtered, &es).map(|e| e.path.clone()), Some("/d/b".to_string()));
    let mut s = PathSet::new();
    s.insert("/d/b".to_string());
    assert!(accepts_drop("/d/a", true, "/d", &s));
    assert!(!accepts_drop("/d/a", false, "/d", &s));
    assert!(!accepts_drop("/d/", true, "/d", &s));
    assert!(!accepts_drop("/d/b", true, "/d", &s));
}

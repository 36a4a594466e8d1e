use stellarfiles::list_view::{highlight, row_label, row_marks, shown_range, sort_indicator, Highlight, RowMarks};
use stellarfiles::selection::PathSet;
use stellarfiles::types::{FileEntry, SortDirection, SortKey};

fn entry(path: &str, is_dir: bool) -> FileEntry {
    let name = path.rsplit('/').next().unwrap().to_string();
    FileEntry {
        path: path.to_string(),
        grid_name: name.chars().take(10).collect(),
        name,
        is_dir,
        size_bytes: 0,
        modified: 0,
        size_str: String::new(),
        modified_str: String::new(),
        file_type_str: String::new(),
        icon_name: "",
    }
}

#[test]
fn rows_drawn_around_the_view() {
    // A list scrolled to row 10 with 20 rows in view draws rows 6..34.
    assert_eq!(shown_range(100, 1, 10, 20, false), (6, 34));
    // Near the top, no rows above the first.
    assert_eq!(shown_range(100, 1, 3, 20, false), (0, 28));
    // A grid of 4 columns: 10 entries fill 3 rows, the last one partly.
    assert_eq!(shown_range(10, 4, 0, 3, true), (0, 10));
    assert_eq!(shown_range(40, 4, 5, 1, true), (12, 32));
    // Scrolled past the end: nothing is drawn.
    assert_eq!(shown_range(5, 1, 50, 2, false), (5, 5));
    assert_eq!(shown_range(0, 3, 0, 10, true), (0, 0));
    // Huge values do not overflow.
    assert_eq!(shown_range(usize::MAX, 2, usize::MAX, usize::MAX, false).1, usize::MAX);
}

#[test]
fn marking_rows() {
    let dir = entry("/d/sub", true);
    let file = entry("/d/f.txt", false);
    let mut sel = PathSet::new();
    sel.insert("/d/f.txt".to_string());
    let clip = vec!["/d//sub/".to_string()];

    let m = row_marks(3, &dir, &sel, Some(3), true, false, false, true, &clip);
    assert_eq!(m, RowMarks { selected: false, drop_target: true, hovered: false, cut: true });
    assert_eq!(highlight(m), Highlight::DropTarget);

    let m = row_marks(3, &file, &sel, Some(3), false, false, false, false, &clip);
    assert_eq!(m, RowMarks { selected: true, drop_target: false, hovered: true, cut: false });
    assert_eq!(highlight(m), Highlight::Selected);

    let m = row_marks(2, &dir, &sel, Some(2), false, false, true, true, &[]);
    assert_eq!(m, RowMarks { selected: false, drop_target: false, hovered: false, cut: false });
    assert_eq!(highlight(m), Highlight::Plain);

    let m = row_marks(2, &dir, &sel, Some(2), false, false, false, true, &clip);
    assert_eq!(highlight(m), Highlight::Hovered);
    assert!(m.cut);
}

#[test]
fn labels_of_rows() {
    let e = entry("/d/my long-file name.txt", false);
    assert_eq!(row_label(&e, false, 40), "my\u{a0}long\u{2011}file\u{a0}name.txt");
    assert_eq!(row_label(&e, false, 9), "my\u{a0}...txt");
    assert_eq!(row_label(&e, true, 9), "my\u{a0}long\u{2011}fi");
}

#[test]
fn sort_icons_on_headers() {
    assert_eq!(sort_indicator(SortKey::Name, SortKey::Name, SortDirection::Asc), Some("view-sort-ascending-symbolic"));
    assert_eq!(sort_indicator(SortKey::Size, SortKey::Size, SortDirection::Desc), Some("view-sort-descending-symbolic"));
    assert_eq!(sort_indicator(SortKey::Modified, SortKey::Size, SortDirection::Desc), None);
}

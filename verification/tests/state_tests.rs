use stellarfiles::state::{
    move_cursor, navigate_back, navigate_forward, navigate_to, navigate_up, restore_view, FileSystemState,
};
use stellarfiles::view_memory::ViewMemory;
use stellarfiles::types::{ContextTarget, DiskInfo, FileEntry, Mode, SortDirection, SortKey, ViewMode};
use stellarfiles::ui::UIState;

fn entry(path: &str) -> FileEntry {
    FileEntry {
        path: path.to_string(),
        name: path.rsplit('/').next().unwrap().to_string(),
        grid_name: String::new(),
        is_dir: false,
        size_bytes: 0,
        modified: 0,
        size_str: String::new(),
        modified_str: String::new(),
        file_type_str: String::new(),
        icon_name: "",
    }
}

#[test]
fn a_window_starts_with_its_defaults() {
    let disks = vec![DiskInfo { name: "usb".into(), mount_point: "/media/usb".into() }];
    let fs = FileSystemState::new("/home/u".to_string(), disks);
    assert_eq!(fs.history.current_dir, "/home/u");
    assert!(fs.history.history_back.is_empty() && fs.history.history_forward.is_empty());
    assert!(fs.entries.is_empty() && fs.filtered_entries.is_empty() && fs.selected_files.is_empty());
    assert_eq!(fs.system_disks.len(), 1);

    let ui = UIState::new(Mode::Manager);
    assert_eq!(ui.view_mode, ViewMode::List);
    assert_eq!((ui.sort_key, ui.sort_direction), (SortKey::Name, SortDirection::Asc));
    assert!(!ui.show_hidden && ui.sidebar_visible && !ui.search_visible);
    assert_eq!((ui.compress_format.as_str(), ui.compress_level.as_str()), ("zip", "Normal"));
    assert_eq!(ui.status_msg, "Ready");
    assert_eq!(ui.shown_dialog(), None);
}

#[test]
fn moving_resets_the_listing_and_the_window() {
    let mut fs = FileSystemState::new("/home/u".to_string(), vec![]);
    let mut ui = UIState::new(Mode::Manager);
    fs.entries = vec![entry("/home/u/a")];
    fs.filtered_entries = vec![0];
    fs.selected_files.insert("/home/u/a".to_string());
    ui.search_visible = true;
    ui.search_query = "a".to_string();
    ui.keyboard_cursor = Some(0);
    ui.context_menu = Some(ContextTarget::EmptySpace);
    ui.sort_key = SortKey::Size;
    let mut mem = ViewMemory::new();

    assert!(navigate_to(&mut fs, &mut ui, &mut mem, "/tmp".to_string(), false, 7));
    assert_eq!(fs.history.current_dir, "/tmp");
    assert_eq!(fs.history.history_back, vec!["/home/u".to_string()]);
    assert!(fs.entries.is_empty() && fs.filtered_entries.is_empty());
    assert_eq!(fs.selected_files.len(), 1);
    assert_eq!(ui.path_input, "/tmp");
    assert_eq!(ui.path_version, 1);
    assert!(!ui.search_visible && ui.search_query.is_empty() && ui.keyboard_cursor.is_none());
    assert!(ui.context_menu.is_none());
    assert_eq!(ui.status_msg, "Loading... /tmp...");
    assert_eq!(ui.sort_key, SortKey::Size);

    assert_eq!(navigate_back(&mut fs, &mut ui, &mut mem, 0), (true, false));
    assert_eq!(fs.history.current_dir, "/home/u");
    assert_eq!(fs.history.history_forward, vec!["/tmp".to_string()]);
    assert_eq!(ui.path_version, 2);
    assert_eq!(navigate_forward(&mut fs, &mut ui, &mut mem, 0), (true, false));
    assert_eq!(fs.history.current_dir, "/tmp");
    assert_eq!(navigate_forward(&mut fs, &mut ui, &mut mem, 0), (false, false));
    assert_eq!(ui.path_version, 3);

    assert!(navigate_up(&mut fs, &mut ui, &mut mem, 0));
    assert_eq!(fs.history.current_dir, "/");
    assert!(!navigate_up(&mut fs, &mut ui, &mut mem, 0));
    assert_eq!(fs.history.current_dir, "/");
    assert_eq!(fs.history.history_back, vec!["/home/u".to_string(), "/tmp".to_string()]);
}

#[test]
fn moving_the_cursor() {
    let mut fs = FileSystemState::new("/d".to_string(), vec![]);
    let mut ui = UIState::new(Mode::Manager);
    // An empty list: nothing changes.
    move_cursor(&mut fs, &mut ui, 1, false, false);
    assert!(ui.keyboard_cursor.is_none() && fs.selected_files.is_empty());

    fs.entries = vec![entry("/d/a"), entry("/d/b"), entry("/d/c")];
    fs.filtered_entries = vec![2, 0, 1];
    move_cursor(&mut fs, &mut ui, 1, false, false);
    assert_eq!(ui.keyboard_cursor, Some(0));
    assert_eq!(fs.selected_files.to_vec(), vec!["/d/c".to_string()]);
    move_cursor(&mut fs, &mut ui, 5, false, false);
    assert_eq!(ui.keyboard_cursor, Some(2));
    assert_eq!(fs.selected_files.to_vec(), vec!["/d/b".to_string()]);
    move_cursor(&mut fs, &mut ui, -1, true, false);
    assert_eq!(ui.keyboard_cursor, Some(1));
    assert_eq!(fs.selected_files.to_vec(), vec!["/d/b".to_string()]);
    move_cursor(&mut fs, &mut ui, -9, false, false);
    assert_eq!(ui.keyboard_cursor, Some(0));
}

#[test]
fn the_path_bar_count_wraps() {
    let mut fs = FileSystemState::new("/d".to_string(), vec![]);
    let mut ui = UIState::new(Mode::Manager);
    let mut mem = ViewMemory::new();
    ui.path_version = u64::MAX;
    navigate_to(&mut fs, &mut ui, &mut mem, "/e".to_string(), false, 0);
    assert_eq!(ui.path_version, 0);
    assert!(navigate_back(&mut fs, &mut ui, &mut mem, 0).0);
    assert!(navigate_forward(&mut fs, &mut ui, &mut mem, 0).0);
    assert_eq!(fs.history.current_dir, "/e");
    assert_eq!(fs.history.history_back, vec!["/d".to_string()]);
    assert!(fs.history.history_forward.is_empty());
}

#[test]
fn the_cursor_comes_back_with_its_directory() {
    let mut fs = FileSystemState::new("/d".to_string(), vec![]);
    let mut ui = UIState::new(Mode::Manager);
    let mut mem = ViewMemory::new();
    ui.keyboard_cursor = Some(4);
    // Leaving /d remembers its cursor and scroll offset.
    assert!(navigate_to(&mut fs, &mut ui, &mut mem, "/e".to_string(), false, 1234));
    assert!(ui.keyboard_cursor.is_none());
    // A listing that is not of the current directory changes nothing.
    assert_eq!(restore_view(&fs, &mut ui, &mut mem, "/d"), None);
    // Going back to /d (spelled otherwise) brings its cursor back.
    ui.keyboard_cursor = Some(1);
    assert!(!navigate_to(&mut fs, &mut ui, &mut mem, "/d/".to_string(), false, 99));
    assert_eq!(restore_view(&fs, &mut ui, &mut mem, "//d"), Some(1234));
    assert_eq!(ui.keyboard_cursor, Some(4));
    // /e was remembered too.
    assert!(mem.knows("/e"));
}

#[test]
fn the_memory_forgets_the_least_recently_used_directory() {
    let mut mem = ViewMemory::new();
    for i in 0..51 {
        mem.remember(&format!("/dir{i}"), i, Some(i as usize));
    }
    assert!(!mem.knows("/dir0"));
    assert!(mem.knows("/dir1") && mem.knows("/dir50"));
    // Recalling a directory makes it the most recently used.
    assert_eq!(mem.recall("/dir1"), Some((1, Some(1))));
    mem.remember("/new", 0, None);
    assert!(mem.knows("/dir1"));
    assert!(!mem.knows("/dir2"));
}

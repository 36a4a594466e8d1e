use stellarfiles::tree::{sidebar_rows, FolderTree, SidebarRow};
use stellarfiles::types::{DiskInfo, FileEntry, SidebarItem};

fn entry(path: &str, is_dir: bool) -> FileEntry {
    FileEntry {
        path: path.to_string(),
        name: path.rsplit('/').next().unwrap().to_string(),
        grid_name: String::new(),
        is_dir,
        size_bytes: 0,
        modified: 0,
        size_str: String::new(),
        modified_str: String::new(),
        file_type_str: String::new(),
        icon_name: "folder",
    }
}

fn home() -> Vec<SidebarItem> {
    vec![SidebarItem { name: "Home".to_string(), icon: "user-home-symbolic", path: "/home/u".to_string() }]
}

fn folder(depth: usize, path: &str, expanded: bool, active: bool) -> SidebarRow {
    SidebarRow::Folder {
        depth,
        label: path.rsplit('/').next().unwrap().to_string(),
        path: path.to_string(),
        icon: "folder",
        expanded,
        active,
    }
}

#[test]
fn folded_places_show_only_themselves() {
    let tree = FolderTree::new();
    let rows = sidebar_rows(true, &home(), &[], Some("/home/u/"), &tree);
    assert_eq!(
        rows,
        vec![SidebarRow::Folder {
            depth: 0,
            label: "Home".to_string(),
            path: "/home/u".to_string(),
            icon: "user-home-symbolic",
            expanded: false,
            active: true,
        }]
    );
    assert!(sidebar_rows(false, &home(), &[], None, &tree).is_empty());
}

#[test]
fn unfolding_shows_loading_then_folders() {
    let mut tree = FolderTree::new();
    assert!(tree.toggle("/home/u".to_string()));
    let rows = sidebar_rows(true, &home(), &[], None, &tree);
    assert_eq!(rows.len(), 2);
    assert_eq!(rows[1], SidebarRow::Loading { depth: 0 });

    tree.store_listing(
        "/home/u".to_string(),
        vec![entry("/home/u/docs", true), entry("/home/u/a.txt", false), entry("/home/u/music", true)],
    );
    let rows = sidebar_rows(true, &home(), &[], Some("/home/u/music"), &tree);
    assert_eq!(rows.len(), 3);
    assert_eq!(rows[1], folder(1, "/home/u/docs", false, false));
    assert_eq!(rows[2], folder(1, "/home/u/music", false, true));
}

#[test]
fn nested_folders_follow_their_parent() {
    let mut tree = FolderTree::new();
    tree.toggle("/home/u".to_string());
    tree.store_listing("/home/u".to_string(), vec![entry("/home/u/docs", true), entry("/home/u/music", true)]);
    assert!(tree.toggle("/home/u/docs".to_string()));
    tree.store_listing("/home/u/docs".to_string(), vec![entry("/home/u/docs/work", true)]);
    let rows = sidebar_rows(true, &home(), &[], None, &tree);
    assert_eq!(
        rows[1..].to_vec(),
        vec![
            folder(1, "/home/u/docs", true, false),
            folder(2, "/home/u/docs/work", false, false),
            folder(1, "/home/u/music", false, false),
        ]
    );
    // Folding the place hides everything under it; unfolding it again
    // shows the same rows, from the listings already read.
    assert!(!tree.toggle("/home/u".to_string()));
    assert_eq!(sidebar_rows(true, &home(), &[], None, &tree).len(), 1);
    assert!(tree.toggle("/home/u/".to_string()));
    assert_eq!(sidebar_rows(true, &home(), &[], None, &tree), rows);
}

#[test]
fn a_new_listing_replaces_the_old_one() {
    let mut tree = FolderTree::new();
    tree.toggle("/home/u".to_string());
    tree.store_listing("/home/u".to_string(), vec![entry("/home/u/old", true)]);
    tree.store_listing("/home/u/".to_string(), vec![entry("/home/u/new", true)]);
    let rows = sidebar_rows(true, &home(), &[], None, &tree);
    assert_eq!(rows[1..].to_vec(), vec![folder(1, "/home/u/new", false, false)]);
}

#[test]
fn devices_come_last_with_short_labels() {
    let tree = FolderTree::new();
    let disks = vec![DiskInfo {
        name: "A very long device name indeed".to_string(),
        mount_point: "/media/x".to_string(),
    }];
    let rows = sidebar_rows(true, &home(), &disks, Some("/media/x"), &tree);
    assert_eq!(
        rows[1],
        SidebarRow::Device {
            label: "A very long...name indeed".to_string(),
            mount_point: "/media/x".to_string(),
            active: true,
        }
    );
}

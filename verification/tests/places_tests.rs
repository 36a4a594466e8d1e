use stellarfiles::places::{best_place, sidebar_places, visible_disks};
use stellarfiles::types::{DiskInfo, SidebarItem};

fn raw(name: &str, mp: &str, fs: &str) -> (String, String, String) {
    (name.to_string(), mp.to_string(), fs.to_string())
}

#[test]
fn disks_worth_showing() {
    let list = vec![
        raw("root", "/", "ext4"),
        raw("", "/run/user/1000", "TMPFS"),
        raw("snap", "/snap/core/1", "squashfs"),
        raw("  ", "/media/usb", "vfat"),
        raw("again", "/media//usb/", "vfat"),
        raw("", "/", "btrfs"),
        raw("\t", "/", "overlayX"),
        raw("boot", "/boot", "devtmpfs"),
        raw("", "/", "xfs"),
    ];
    let ds = visible_disks(&list);
    let got: Vec<(String, String)> = ds.iter().map(|d| (d.name.clone(), d.mount_point.clone())).collect();
    assert_eq!(
        got,
        vec![("root".to_string(), "/".to_string()), ("usb".to_string(), "/media/usb".to_string())]
    );
    let only_root = visible_disks(&[raw(" ", "/", "ext4")]);
    assert_eq!(only_root[0].name, "Disk");
}

fn item(path: &str) -> SidebarItem {
    SidebarItem { name: String::new(), icon: "", path: path.to_string() }
}

#[test]
fn the_longest_place_is_highlighted() {
    let items = vec![item("/home/u"), item("/home/u/Documents"), item("")];
    let disks = vec![DiskInfo { name: "root".into(), mount_point: "/".into() }];
    assert_eq!(best_place("/home/u/Documents/x", &items, &disks), Some("/home/u/Documents".to_string()));
    assert_eq!(best_place("/home/u/Music", &items, &disks), Some("/home/u".to_string()));
    assert_eq!(best_place("/etc", &items, &disks), Some("/".to_string()));
    assert_eq!(best_place("rel", &items, &[]), None);
    // Of two places of the same length, the first wins.
    let twins = vec![item("/home/u/"), item("/home//u")];
    assert_eq!(best_place("/home/u/x", &twins, &[]), Some("/home/u/".to_string()));
}

#[test]
fn standard_places() {
    let v = sidebar_places(Some("/home/u".into()), None, Some("/dl".into()), None);
    let got: Vec<(String, &str, String)> = v.iter().map(|s| (s.name.clone(), s.icon, s.path.clone())).collect();
    assert_eq!(
        got,
        vec![
            ("Home".to_string(), "user-home-symbolic", "/home/u".to_string()),
            ("Documents".to_string(), "folder-documents-symbolic", "/home/u/Documents".to_string()),
            ("Downloads".to_string(), "folder-download-symbolic", "/dl".to_string()),
            ("Trash".to_string(), "user-trash-symbolic", "/home/u/.local/share/Trash/files".to_string()),
        ]
    );
    let none = sidebar_places(None, None, None, None);
    assert_eq!(none[0].path, "/");
    assert_eq!(none[1].path, "/Documents");
    assert_eq!(none[3].path, ".local/share/Trash/files");
    let data = sidebar_places(None, None, None, Some("/data".into()));
    assert_eq!(data[3].path, "/data/Trash/files");
}

use stellarfiles::actions::{
    broken_link_details, compress_default_name, cursor_after_move, format_extension, is_trash_dir,
    obfuscated_name, open_with_command, portal_reply, properties_details, rename_for_format,
    shred_action, shred_plan, shred_summary, startup_mode, task_progress_text, trash_info_path,
    trash_original_path, wants_thumbnail, window_title,
};
use stellarfiles::math::{FileKind, MetaInfo};
use stellarfiles::types::Mode;

#[test]
fn trash_locations() {
    let data = Some("/home/u/.local/share".to_string());
    assert!(is_trash_dir("/home/u/.local/share/Trash/files", &data));
    assert!(is_trash_dir("/home/u/.local/share/Trash/files/sub", &data));
    assert!(!is_trash_dir("/home/u/.local/share/Trash", &data));
    assert!(!is_trash_dir("/home/u/.local/share/Trash/files", &None));
    assert_eq!(
        trash_info_path("/home/u/.local/share", "a.txt"),
        "/home/u/.local/share/Trash/info/a.txt.trashinfo"
    );
    assert_eq!(
        trash_original_path("[Trash Info]\nPath=/home/u/a.txt\nDeletionDate=2024-01-01T00:00:00\n"),
        Some("/home/u/a.txt".to_string())
    );
    assert_eq!(trash_original_path("[Trash Info]\n"), None);
}

#[test]
fn titles_and_labels() {
    assert_eq!(window_title("/home/u/Music"), "Music — Stellarfiles");
    assert_eq!(window_title("/"), "Root — Stellarfiles");
    assert!(wants_thumbnail("image-x-generic-symbolic"));
    assert!(wants_thumbnail("video-x-generic-symbolic"));
    assert!(wants_thumbnail("application-pdf-symbolic"));
    assert!(!wants_thumbnail("text-x-generic-symbolic"));
    assert_eq!(task_progress_text(1_500, 0), "1 KB");
    assert_eq!(task_progress_text(1_500, 2_000_000), "1 KB / 2.0 MB");
}

#[test]
fn open_with() {
    assert_eq!(
        open_with_command("  gimp --new-instance "),
        Some(("gimp".to_string(), vec!["--new-instance".to_string()]))
    );
    assert_eq!(open_with_command("   "), None);
}

#[test]
fn portal_answers() {
    assert_eq!(portal_reply(""), (1, None));
    assert_eq!(portal_reply("/home/u/a.txt"), (0, Some("file:///home/u/a.txt".to_string())));
    assert_eq!(startup_mode(true, Some("x".into())), Mode::Open);
    assert_eq!(startup_mode(false, Some("x".into())), Mode::Save("x".into()));
    assert_eq!(startup_mode(false, None), Mode::Manager);
}

#[test]
fn shredding() {
    assert_eq!(shred_plan(1), (1, 2));
    assert_eq!(shred_plan(4096), (4096, 2));
    assert_eq!(shred_plan(10_000), (4096, 3));
    let reg = MetaInfo { kind: FileKind::Regular, nlink: 1 };
    assert_eq!(shred_action(&reg, 10_000), Some(Some((4096, 3))));
    assert_eq!(shred_action(&reg, 0), Some(None));
    assert_eq!(shred_action(&MetaInfo { kind: FileKind::Directory, nlink: 2 }, 4096), Some(None));
    assert_eq!(shred_action(&MetaInfo { kind: FileKind::CharDevice, nlink: 1 }, 0), None);
    assert_eq!(obfuscated_name(&[0, 25, 26, 35, 36, 71]), "az09a9");
    assert_eq!(obfuscated_name(&[u32::MAX; 16]).len(), 16);
    assert_eq!(shred_summary(3), "Securely shredded 3 item(s).");
}

#[test]
fn compression_wizard_names() {
    assert_eq!(format_extension("tar.gz"), ".tar.gz");
    assert_eq!(format_extension("7z"), ".7z");
    assert_eq!(format_extension("rar"), ".zip");
    assert_eq!(compress_default_name(3, "/a/b.txt", "tar.zst"), "Archive.tar.zst");
    assert_eq!(compress_default_name(1, "/a/photos.tar.gz", "zip"), "photos.zip");
    assert_eq!(compress_default_name(1, "/a/notes.txt", "7z"), "notes.7z");
    assert_eq!(compress_default_name(1, "/a/.bashrc", "zip"), ".bashrc.zip");
    assert_eq!(compress_default_name(0, "/", "zip"), ".zip");
    assert_eq!(rename_for_format("Archive.zip", "zip", "tar.gz"), "Archive.tar.gz");
    assert_eq!(rename_for_format("a.zip.zip", "zip", "7z"), "a.7z");
    assert_eq!(rename_for_format("custom.name", "zip", "7z"), "custom.name");
}

#[test]
fn properties() {
    let p = properties_details(
        "/a".into(), "File".into(), 2_500, "c".into(), "m".into(), "a".into(), 1000, 1000, 0o100644,
        None, "text-x-generic-symbolic",
    );
    assert_eq!((p.size_str.as_str(), p.mode_octal), ("2 KB", 0o644));
    let b = broken_link_details("/dangling".into());
    assert_eq!((b.file_type.as_str(), b.size_str.as_str(), b.icon), ("Broken Link", "0 B", "dialog-warning"));
}

#[test]
fn cursor_moves_within_the_list() {
    assert_eq!(cursor_after_move(None, 1, 5), 0);
    assert_eq!(cursor_after_move(Some(2), 1, 5), 3);
    assert_eq!(cursor_after_move(Some(0), -1, 5), 0);
    assert_eq!(cursor_after_move(Some(4), 1, 5), 4);
    assert_eq!(cursor_after_move(Some(9), -1, 5), 4);
}

use stellarfiles::archive::{stored_name_of, walked_entry_name_of};
use stellarfiles::extract::{
    link_target_of, parent_to_create, removal_order, tar_entry_step, zip_entry_step, EntryKind,
    EntryStep, ZipStep,
};
use stellarfiles::selection::PathSet;

fn step_text(s: &EntryStep) -> String {
    match s {
        EntryStep::Skip => "skip".to_string(),
        EntryStep::MakeDir(p) => format!("dir {p}"),
        EntryStep::WriteFile(p) => format!("file {p}"),
        EntryStep::Symlink { out, target } => format!("symlink {out} -> {target}"),
        EntryStep::HardLink { out, source } => format!("hardlink {out} = {source}"),
    }
}

#[test]
fn tar_entries() {
    let d = "/out";
    assert_eq!(step_text(&tar_entry_step(d, "a/b.txt", EntryKind::File, None)), "file /out/a/b.txt");
    assert_eq!(step_text(&tar_entry_step(d, "a/", EntryKind::Dir, None)), "dir /out/a/");
    assert_eq!(step_text(&tar_entry_step(d, "../evil", EntryKind::File, None)), "skip");
    assert_eq!(step_text(&tar_entry_step(d, "/etc/x", EntryKind::File, None)), "skip");
    assert_eq!(
        step_text(&tar_entry_step(d, "l", EntryKind::Symlink, Some("a/b.txt".into()))),
        "symlink /out/l -> a/b.txt"
    );
    assert_eq!(step_text(&tar_entry_step(d, "l", EntryKind::Symlink, Some("/etc/passwd".into()))), "skip");
    assert_eq!(step_text(&tar_entry_step(d, "l", EntryKind::Symlink, None)), "skip");
    assert_eq!(
        step_text(&tar_entry_step(d, "h", EntryKind::HardLink, Some("a/b.txt".into()))),
        "hardlink /out/h = /out/a/b.txt"
    );
}

#[test]
fn zip_entries() {
    let text = |s: ZipStep| match s {
        ZipStep::Skip => "skip".to_string(),
        ZipStep::Link(p) => format!("link {p}"),
        ZipStep::Write(p) => format!("write {p}"),
    };
    assert_eq!(text(zip_entry_step("/out", Some("a.txt".into()), Some(0o100644))), "write /out/a.txt");
    assert_eq!(text(zip_entry_step("/out", Some("a.txt".into()), None)), "write /out/a.txt");
    assert_eq!(text(zip_entry_step("/out", Some("l".into()), Some(0o120777))), "link /out/l");
    assert_eq!(text(zip_entry_step("/out", None, None)), "skip");
    assert_eq!(text(zip_entry_step("/out", Some("../x".into()), None)), "skip");
}

#[test]
fn zip_link_targets() {
    assert_eq!(link_target_of("dir/file\0\0"), Some("dir/file".to_string()));
    assert_eq!(link_target_of("../../etc/passwd"), None);
    assert_eq!(link_target_of("/abs"), None);
    assert_eq!(link_target_of(""), Some(String::new()));
}

#[test]
fn parents_are_created_once() {
    let mut created = PathSet::new();
    assert_eq!(parent_to_create("/out/a/b.txt", &mut created), Some("/out/a".to_string()));
    assert_eq!(parent_to_create("/out/a/c.txt", &mut created), None);
    assert_eq!(parent_to_create("/out//a/d.txt", &mut created), None);
    assert_eq!(parent_to_create("top.txt", &mut created), None);
    assert_eq!(created.len(), 1);
}

#[test]
fn deepest_directories_are_removed_first() {
    let dirs = vec!["/o/a".to_string(), "/o/a/bb".to_string(), "/o/c".to_string(), "/o/é".to_string()];
    assert_eq!(removal_order(&dirs), vec![1, 3, 0, 2]);
    assert!(removal_order(&[]).is_empty());
}

#[test]
fn archived_names_extract_in_place() {
    let rel = walked_entry_name_of("/home/u/pics", "/home/u/pics/trip/b.png").unwrap();
    assert_eq!(rel, "pics/trip/b.png");
    match tar_entry_step("/tmp/out", &rel, EntryKind::File, None) {
        EntryStep::WriteFile(p) => assert_eq!(p, "/tmp/out/pics/trip/b.png"),
        other => panic!("unexpected step {other:?}"),
    }
    match zip_entry_step("/tmp/out/", Some(rel.clone()), Some(0o100644)) {
        ZipStep::Write(p) => assert_eq!(p, "/tmp/out/pics/trip/b.png"),
        other => panic!("unexpected step {other:?}"),
    }
    let name = stored_name_of("/home/u/notes.txt").unwrap();
    match tar_entry_step("/tmp/out", &name, EntryKind::File, None) {
        EntryStep::WriteFile(p) => assert_eq!(p, "/tmp/out/notes.txt"),
        other => panic!("unexpected step {other:?}"),
    }
}

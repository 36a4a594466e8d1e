use stellarfiles::delta::{apply_delta, FsEventKind};
use stellarfiles::types::FileEntry;

fn entry(path: &str, size: u64) -> FileEntry {
    FileEntry {
        path: path.to_string(),
        name: path.rsplit('/').next().unwrap().to_string(),
        grid_name: String::new(),
        is_dir: false,
        size_bytes: size,
        modified: 0,
        size_str: String::new(),
        modified_str: String::new(),
        file_type_str: String::new(),
        icon_name: "",
    }
}

fn paths(es: &[FileEntry]) -> Vec<(String, u64)> {
    es.iter().map(|e| (e.path.clone(), e.size_bytes)).collect()
}

#[test]
fn created_files_inside_the_directory_are_added() {
    let mut es = vec![entry("/d/a", 1)];
    let changed = apply_delta(
        &mut es,
        FsEventKind::Create,
        vec![
            ("/d/b".to_string(), Some(entry("/d/b", 2))),
            ("/d/sub/c".to_string(), Some(entry("/d/sub/c", 3))),
            ("/d/gone".to_string(), None),
        ],
        "/d",
    );
    assert!(changed);
    assert_eq!(paths(&es), vec![("/d/a".to_string(), 1), ("/d/b".to_string(), 2)]);
    let unchanged = apply_delta(&mut es, FsEventKind::Create, vec![("/e/x".to_string(), Some(entry("/e/x", 9)))], "/d");
    assert!(!unchanged);
}

#[test]
fn removed_paths_lose_their_rows() {
    let mut es = vec![entry("/d/a", 1), entry("/d/b", 2), entry("/d/a", 3), entry("/d/c", 4)];
    let changed = apply_delta(&mut es, FsEventKind::Remove, vec![("/d//a".to_string(), None), ("/d/z".to_string(), None)], "/d");
    assert!(changed);
    assert_eq!(paths(&es), vec![("/d/b".to_string(), 2), ("/d/c".to_string(), 4)]);
    assert!(!apply_delta(&mut es, FsEventKind::Remove, vec![("/d/q".to_string(), None)], "/d"));
}

#[test]
fn modified_paths_are_rebuilt() {
    let mut es = vec![entry("/d/a", 1), entry("/d/b", 2), entry("/d/a", 3)];
    let changed = apply_delta(
        &mut es,
        FsEventKind::Modify,
        vec![("/d/a".to_string(), Some(entry("/d/a", 10))), ("/d/b".to_string(), None)],
        "/d",
    );
    assert!(changed);
    assert_eq!(paths(&es), vec![("/d/a".to_string(), 10), ("/d/b".to_string(), 2), ("/d/a".to_string(), 3)]);
    assert!(!apply_delta(&mut es, FsEventKind::Other, vec![("/d/a".to_string(), Some(entry("/d/a", 5)))], "/d"));
    assert_eq!(es.len(), 3);
}

use stellarfiles::menus::MenuItem::{
    BatchRename, Compress, Cut, ExtractHere, MoveToTrash, NewDocument, NewFolder, Open, OpenInTerminal,
    OpenNewWindow, OpenWith, Paste, PermanentlyDelete, Properties, Rename, Restore, SelectAll, Separator, Shred,
};
use stellarfiles::menus::{context_menu, is_archive_path, MenuItem};
use stellarfiles::types::ContextTarget;

fn file(p: &str) -> ContextTarget {
    ContextTarget::File(p.to_string(), "text-x-generic")
}

#[test]
fn archives_are_told_by_extension() {
    assert!(is_archive_path("/d/a.zip"));
    assert!(is_archive_path("/d/b.TAR.GZ"));
    assert!(is_archive_path("/d/c.7Z"));
    assert!(is_archive_path("/d/x.tar.bz3/"));
    assert!(!is_archive_path("/d/.zip"));
    assert!(!is_archive_path("/d/a.zipx"));
    assert!(!is_archive_path("/d/zip"));
    assert!(!is_archive_path("/"));
}

#[test]
fn file_menus() {
    assert_eq!(
        context_menu(&file("/d/notes.txt"), false),
        vec![Open, OpenWith, Separator, Rename, MenuItem::Copy, Cut, Compress, Separator, MoveToTrash, Shred, Separator, Properties]
    );
    assert_eq!(
        context_menu(&file("/d/pics.tgz"), false),
        vec![Open, OpenWith, Separator, Rename, MenuItem::Copy, Cut, ExtractHere, Compress, Separator, MoveToTrash, Shred, Separator, Properties]
    );
    assert_eq!(
        context_menu(&file("/d/pics.tgz"), true),
        vec![Restore, Separator, PermanentlyDelete, Separator, Properties]
    );
}

#[test]
fn empty_space_menus() {
    assert_eq!(
        context_menu(&ContextTarget::EmptySpace, false),
        vec![NewFolder, NewDocument, Separator, BatchRename, Paste, SelectAll, Separator, OpenInTerminal, OpenNewWindow]
    );
    assert_eq!(
        context_menu(&ContextTarget::EmptySpace, true),
        vec![SelectAll, Separator, OpenInTerminal, OpenNewWindow]
    );
}

use stellarfiles::selection::PathSet;
use stellarfiles::errors::AppError;
use stellarfiles::types::{ContextTarget, DestructiveAction, Mode, PropertiesDetails};
use stellarfiles::ui::{
    activation, confirm_question, conflict_message, contains_line, dialog_answer, hover_row, is_double_click,
    start_band, Activation, Dialog, UIState,
};

#[test]
fn hovering() {
    assert_eq!(hover_row(None, 3, true), Some(3));
    assert_eq!(hover_row(Some(3), 3, false), None);
    assert_eq!(hover_row(Some(2), 3, false), Some(2));
}

#[test]
fn double_clicks() {
    let last = Some("/a/b".to_string());
    assert!(is_double_click(&last, "/a//b", Some(499)));
    assert!(!is_double_click(&last, "/a/b", Some(500)));
    assert!(!is_double_click(&last, "/a/c", Some(10)));
    assert!(!is_double_click(&None, "/a/b", Some(10)));
    assert!(!is_double_click(&last, "/a/b", None));
}

#[test]
fn opening_entries() {
    assert_eq!(activation(true, &Mode::Open), Activation::Navigate);
    assert_eq!(activation(false, &Mode::Manager), Activation::OpenExternally);
    assert_eq!(activation(false, &Mode::Save("x".into())), Activation::ConfirmDialog);
}

#[test]
fn dialog_answers() {
    let mut sel = PathSet::new();
    assert_eq!(dialog_answer(&Mode::Save("a".into()), "/home/u", "report.txt", &sel), "/home/u/report.txt");
    assert_eq!(dialog_answer(&Mode::Open, "/home/u", "", &sel), "/home/u");
    sel.insert("/home/u/x.png".into());
    assert_eq!(dialog_answer(&Mode::Open, "/home/u", "", &sel), "/home/u/x.png");
}

#[test]
fn starting_a_band() {
    let mut sel = PathSet::new();
    sel.insert("/a".into());
    assert!(!start_band(&mut sel, true, false));
    assert_eq!(sel.len(), 1);
    assert!(start_band(&mut sel, false, false));
    assert!(sel.is_empty());
}

#[test]
fn closing_dialogs_leaves_only_the_save_window_modal() {
    let mut ui = UIState::new(Mode::Manager);
    assert!(!ui.is_modal_active());
    ui.rename_modal = Some("/tmp/a".to_string());
    ui.context_menu = Some(ContextTarget::EmptySpace);
    ui.batch_rename_modal = true;
    assert!(ui.is_modal_active());
    ui.close_modals();
    assert!(!ui.is_modal_active());
    assert!(ui.context_menu.is_none() && ui.rename_modal.is_none() && !ui.batch_rename_modal);
    assert_eq!(ui.mode, Mode::Manager);

    // A context menu alone does not take the keys.
    ui.context_menu = Some(ContextTarget::EmptySpace);
    assert!(!ui.is_modal_active());

    let mut save = UIState::new(Mode::Save("x.txt".to_string()));
    save.compress_wizard = Some("/tmp".to_string());
    save.close_modals();
    assert!(save.is_modal_active());
}

fn props(path: &str) -> PropertiesDetails {
    PropertiesDetails {
        path: path.to_string(),
        file_type: String::new(),
        size_str: String::new(),
        created: String::new(),
        modified: String::new(),
        accessed: String::new(),
        owner: 0,
        group: 0,
        mode_octal: 0o644,
        items_count: None,
        icon: "",
    }
}

#[test]
fn confirming_a_rename() {
    let mut ui = UIState::new(Mode::Manager);
    assert_eq!(ui.confirm_rename("b.txt"), None);
    ui.rename_modal = Some("/tmp/a.txt".to_string());
    assert_eq!(
        ui.confirm_rename("b.txt"),
        Some(Ok(("/tmp/a.txt".to_string(), "/tmp/b.txt".to_string())))
    );
    assert!(ui.rename_modal.is_none());
    ui.rename_modal = Some("/tmp/a.txt".to_string());
    assert_eq!(
        ui.confirm_rename(" .. "),
        Some(Err(AppError::Security("Invalid filename.".to_string())))
    );
    assert!(ui.rename_modal.is_none());
}

#[test]
fn confirming_a_new_entry_and_an_archive_name() {
    let mut ui = UIState::new(Mode::Manager);
    assert_eq!(ui.confirm_new("/home/u", "x"), None);
    ui.show_new_modal = Some("folder");
    assert_eq!(ui.confirm_new("/home/u", "new dir"), Some(Ok("/home/u/new dir".to_string())));
    ui.show_new_modal = Some("file");
    assert_eq!(
        ui.confirm_new("/home/u", "a/b"),
        Some(Err(AppError::Security("Invalid filename.".to_string())))
    );
    assert!(ui.show_new_modal.is_none());

    ui.compress_wizard = Some("/home/u/pics".to_string());
    assert_eq!(
        ui.confirm_compress("pics.zip"),
        Some(Ok(("/home/u/pics".to_string(), "pics.zip".to_string())))
    );
    assert_eq!(ui.confirm_compress("pics.zip"), None);
}

#[test]
fn confirming_permissions_and_open_with() {
    let mut ui = UIState::new(Mode::Manager);
    assert_eq!(ui.confirm_permissions("755"), None);
    ui.properties_modal = Some(props("/tmp/f"));
    assert_eq!(ui.confirm_permissions("79"), None);
    assert!(ui.properties_modal.is_some());
    assert_eq!(ui.confirm_permissions("755"), Some(("/tmp/f".to_string(), 0o755)));
    assert!(ui.properties_modal.is_none());

    assert_eq!(ui.take_open_with(), None);
    ui.open_with_modal = Some("/tmp/f".to_string());
    ui.context_menu = Some(ContextTarget::EmptySpace);
    assert_eq!(ui.take_open_with(), Some("/tmp/f".to_string()));
    assert!(ui.context_menu.is_none());
}

#[test]
fn the_first_open_dialog_is_drawn() {
    let mut ui = UIState::new(Mode::Manager);
    assert_eq!(ui.shown_dialog(), None);
    ui.compress_wizard = Some("/d".to_string());
    assert_eq!(ui.shown_dialog(), Some(Dialog::Compress));
    ui.conflict_modal = Some(("/a/x".to_string(), "/b/x".to_string()));
    assert_eq!(ui.shown_dialog(), Some(Dialog::Conflict));
    ui.context_menu = Some(ContextTarget::EmptySpace);
    assert_eq!(ui.shown_dialog(), Some(Dialog::ContextMenu));
    ui.close_modals();
    assert_eq!(ui.shown_dialog(), None);
}

#[test]
fn dialog_texts() {
    assert_eq!(conflict_message("/b/photo.png"), "An item named 'photo.png' already exists.");
    assert_eq!(conflict_message("/"), "An item named '' already exists.");
    assert_eq!(
        confirm_question(DestructiveAction::Shred, 3),
        "Are you sure you want to securely shred the selected 3 item(s)?"
    );
    assert_eq!(
        confirm_question(DestructiveAction::Permadelete, 12),
        "Are you sure you want to permanently delete the selected 12 item(s)?"
    );
    assert_eq!(contains_line(Some(42)), "Contains: 42 Items");
    assert_eq!(contains_line(None), "Contains: --");
}

use stellarfiles::keys::{Debouncer, KeyAction, KeyInput, KeyState};

fn state(search: bool, modal: bool, typed: &str, query: &str) -> KeyState {
    KeyState {
        search_visible: search,
        modal_active: modal,
        type_buffer: typed.to_string(),
        search_query: query.to_string(),
    }
}

fn ch(s: &str) -> KeyInput {
    KeyInput::Character(s.to_string())
}

#[test]
fn f5_always_refreshes() {
    let mut s = state(true, true, "x", "x");
    assert_eq!(s.press_key(&KeyInput::F5, true, true, false), KeyAction::Refresh);
}

#[test]
fn typing_searches() {
    let mut s = state(false, false, "ab", "");
    assert_eq!(s.press_key(&ch("c"), false, false, false), KeyAction::Search("abc".to_string()));
    assert!(s.search_visible);
    assert_eq!(s.type_buffer, "abc");
    // After a pause the typed text starts afresh.
    assert_eq!(s.press_key(&ch("z"), false, false, true), KeyAction::Search("z".to_string()));
    // Not while a dialog is open.
    let mut m = state(false, true, "", "");
    assert_eq!(m.press_key(&ch("z"), false, false, false), KeyAction::Nothing);
}

#[test]
fn editing_the_search() {
    let mut s = state(true, false, "héllo", "héllo");
    assert_eq!(s.press_key(&KeyInput::Backspace, false, false, false), KeyAction::Search("héll".to_string()));
    assert_eq!(s.search_query, "héll");
    assert_eq!(s.type_buffer, "héll");
    let mut e = state(true, false, "", "");
    assert_eq!(e.press_key(&KeyInput::Backspace, false, false, false), KeyAction::Search(String::new()));
    assert_eq!(e.press_key(&KeyInput::Escape, false, false, false), KeyAction::CloseSearch);
}

#[test]
fn list_keys() {
    let mut s = state(false, false, "", "");
    assert_eq!(s.press_key(&KeyInput::Delete, false, false, false), KeyAction::Trash);
    assert_eq!(s.press_key(&KeyInput::ArrowUp, false, false, false), KeyAction::MoveCursor(-1));
    assert_eq!(s.press_key(&KeyInput::ArrowDown, false, false, false), KeyAction::MoveCursor(1));
    assert_eq!(s.press_key(&KeyInput::Enter, false, false, false), KeyAction::ActivateCursor);
    assert_eq!(s.press_key(&KeyInput::Backspace, false, false, false), KeyAction::NavigateUp);
    assert_eq!(s.press_key(&KeyInput::Escape, false, false, false), KeyAction::Nothing);
    assert_eq!(s.press_key(&KeyInput::Other, false, false, false), KeyAction::Nothing);
}

#[test]
fn shortcuts() {
    let mut s = state(false, false, "", "");
    assert_eq!(s.press_key(&ch("c"), true, false, false), KeyAction::Copy);
    assert_eq!(s.press_key(&ch("X"), true, false, false), KeyAction::Cut);
    assert_eq!(s.press_key(&ch("v"), true, false, false), KeyAction::Paste);
    assert_eq!(s.press_key(&ch("A"), true, false, false), KeyAction::SelectAll);
    assert_eq!(s.press_key(&ch("q"), true, false, false), KeyAction::Nothing);
    assert_eq!(s.press_key(&KeyInput::ArrowLeft, false, true, false), KeyAction::NavigateUp);
    assert_eq!(s.press_key(&KeyInput::ArrowUp, false, true, false), KeyAction::MoveCursor(-1));
    let mut m = state(false, true, "", "");
    assert_eq!(m.press_key(&KeyInput::ArrowUp, false, true, false), KeyAction::NavigateUp);
    assert_eq!(m.press_key(&ch("c"), true, false, false), KeyAction::Nothing);
    assert_eq!(m.press_key(&KeyInput::Delete, false, false, false), KeyAction::Nothing);
}

#[test]
fn only_the_latest_edit_counts() {
    let mut d = Debouncer::new();
    let first = d.bump();
    let second = d.bump();
    assert!(!d.is_current(first));
    assert!(d.is_current(second));
}

use stellarfiles::nav::{up_dir, History};

fn state(h: &History) -> (String, Vec<String>, Vec<String>) {
    (h.current_dir.clone(), h.history_back.clone(), h.history_forward.clone())
}

#[test]
fn visiting_records_history() {
    let mut h = History::new("/home".to_string());
    h.go_to("/home/docs".to_string());
    h.go_to("/tmp".to_string());
    assert_eq!(state(&h), ("/tmp".to_string(), vec!["/home".to_string(), "/home/docs".to_string()], vec![]));
}

#[test]
fn back_then_forward_returns() {
    let mut h = History::new("/a".to_string());
    h.go_to("/b".to_string());
    h.go_to("/c".to_string());
    let before = state(&h);
    assert!(h.go_back());
    assert_eq!(h.current_dir, "/b");
    assert_eq!(h.history_forward, vec!["/c".to_string()]);
    assert!(h.go_forward());
    assert_eq!(state(&h), before);
}

#[test]
fn nothing_to_go_back_to() {
    let mut h = History::new("/a".to_string());
    assert!(!h.go_back());
    assert!(!h.go_forward());
    assert_eq!(state(&h), ("/a".to_string(), vec![], vec![]));
}

#[test]
fn visiting_clears_forward_and_same_dir_is_no_step() {
    let mut h = History::new("/a".to_string());
    h.go_to("/b".to_string());
    h.go_back();
    h.go_to("/c".to_string());
    assert_eq!(state(&h), ("/c".to_string(), vec!["/a".to_string()], vec![]));
    h.go_to("/c/".to_string());
    assert_eq!(state(&h), ("/c/".to_string(), vec!["/a".to_string()], vec![]));
}

#[test]
fn going_up() {
    assert_eq!(up_dir("/home/u/docs"), "/home/u");
    assert_eq!(up_dir("/"), "/");
    assert_eq!(up_dir("/home"), "/");
    let mut h = History::new("/".to_string());
    h.go_up();
    assert_eq!(state(&h), ("/".to_string(), vec![], vec![]));
    let mut h = History::new("/x/y".to_string());
    h.go_up();
    assert_eq!(state(&h), ("/x".to_string(), vec!["/x/y".to_string()], vec![]));
}

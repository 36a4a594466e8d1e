use stellarfiles::tasks::{DeleteStep, PasteStep, TaskManager};
use stellarfiles::types::{ClipboardAction, DestructiveAction, ProgressMsg};

fn run_info(step: &PasteStep) -> Option<(usize, String, String, bool, bool)> {
    match step {
        PasteStep::Run { id, src, dest, is_cut, overwrite, .. } => {
            Some((*id, src.clone(), dest.clone(), *is_cut, *overwrite))
        }
        _ => None,
    }
}

#[test]
fn clipboard_messages() {
    let mut t = TaskManager::new();
    assert_eq!(t.set_clipboard(vec![], ClipboardAction::Cut), None);
    assert_eq!(t.clipboard_action, ClipboardAction::Copy);
    assert_eq!(
        t.set_clipboard(vec!["/a".into(), "/b".into()], ClipboardAction::Copy),
        Some("Copied 2 items.".to_string())
    );
    assert_eq!(t.set_clipboard(vec!["/a".into()], ClipboardAction::Cut), Some("Cut 1 items.".to_string()));
    assert_eq!(t.clipboard, vec!["/a".to_string()]);
}

#[test]
fn a_paste_runs_its_pairs_last_first() {
    let mut t = TaskManager::new();
    t.set_clipboard(vec!["/src/a.txt".into(), "/src/b".into()], ClipboardAction::Copy);
    assert!(t.start_paste("/dst"));
    assert!(t.clipboard.is_empty());
    let st = t.paste_state.as_ref().unwrap();
    assert_eq!(st.total, 2);
    assert_eq!(
        st.pending,
        vec![("/src/b".to_string(), "/dst/b".to_string()), ("/src/a.txt".to_string(), "/dst/a.txt".to_string())]
    );
    assert_eq!(t.peek_paste(), Some(("/src/a.txt".to_string(), "/dst/a.txt".to_string())));
    let step = t.next_paste(false);
    assert_eq!(run_info(&step), Some((1, "/src/a.txt".to_string(), "/dst/a.txt".to_string(), false, false)));
    assert_eq!(t.active_tasks.get(&1).unwrap().title, "Copying");
    assert_eq!(t.active_tasks.get(&1).unwrap().active_file, "a.txt");
    assert_eq!(t.paste_result(1, Ok(())), None);
    assert!(t.active_tasks.is_empty());
    let step = t.next_paste(false);
    assert_eq!(run_info(&step).unwrap().0, 2);
    assert_eq!(t.paste_result(2, Err("boom".into())), Some("File Error: boom".to_string()));
    match t.next_paste(false) {
        PasteStep::Finished(m) => assert_eq!(m, "Finished with 1 error(s)."),
        _ => panic!("the paste should be finished"),
    }
    assert!(t.paste_state.is_none());
    assert!(matches!(t.next_paste(false), PasteStep::Idle));
}

#[test]
fn pasting_into_itself_is_refused() {
    let mut t = TaskManager::new();
    t.set_clipboard(vec!["/src".into()], ClipboardAction::Cut);
    t.start_paste("/src/inner");
    assert!(matches!(t.next_paste(false), PasteStep::SkipNested));
    let st = t.paste_state.as_ref().unwrap();
    assert_eq!((st.error_count, st.pending.len(), st.is_cut), (1, 0, true));
}

#[test]
fn conflicts_ask_and_resolve() {
    let mut t = TaskManager::new();
    t.set_clipboard(vec!["/a/x".into(), "/a/y".into()], ClipboardAction::Cut);
    t.start_paste("/b");
    match t.next_paste(true) {
        PasteStep::AskOverwrite(s, d) => assert_eq!((s.as_str(), d.as_str()), ("/a/x", "/b/x")),
        _ => panic!("expected a question"),
    }
    assert!(t.resolve_conflict(true, Some(true)));
    let step = t.next_paste(true);
    assert_eq!(run_info(&step), Some((1, "/a/x".to_string(), "/b/x".to_string(), true, true)));
    assert_eq!(t.active_tasks.get(&1).unwrap().title, "Moving");
    assert!(!t.paste_state.as_ref().unwrap().overwrite_approved);
    t.paste_result(1, Ok(()));
    assert!(matches!(t.next_paste(true), PasteStep::AskOverwrite(_, _)));
    assert!(t.resolve_conflict(true, Some(false)));
    assert!(t.paste_state.as_ref().unwrap().pending.is_empty());
    assert!(!t.resolve_conflict(true, None));
    assert!(t.paste_state.is_none());
}

#[test]
fn a_second_paste_joins_the_first() {
    let mut t = TaskManager::new();
    t.set_clipboard(vec!["/a".into()], ClipboardAction::Copy);
    assert!(t.start_paste("/d"));
    t.set_clipboard(vec!["/b".into(), "/c".into()], ClipboardAction::Copy);
    assert!(!t.start_paste("/e"));
    let st = t.paste_state.as_ref().unwrap();
    assert_eq!(st.total, 3);
    assert_eq!(st.pending.len(), 3);
    assert_eq!(st.pending[2], ("/b".to_string(), "/e/b".to_string()));
    assert!(!t.start_paste("/e"));
}

#[test]
fn cancelling_a_paste_empties_it() {
    let mut t = TaskManager::new();
    t.set_clipboard(vec!["/a".into(), "/b".into()], ClipboardAction::Copy);
    t.start_paste("/d");
    t.next_paste(false);
    assert_eq!(t.paste_result(1, Err("Cancelled".into())), Some("Paste cancelled.".to_string()));
    assert!(t.paste_state.as_ref().unwrap().pending.is_empty());
    match t.next_paste(false) {
        PasteStep::Finished(m) => assert_eq!(m, "Paste complete."),
        _ => panic!("expected the end"),
    }
}

#[test]
fn jobs_and_progress() {
    let mut t = TaskManager::new();
    let (id, cancel) = t.begin_task("Extracting".into(), "Archive Contents".into());
    assert_eq!(id, 1);
    t.apply_progress(ProgressMsg::Init { id, total_bytes: 100 });
    t.apply_progress(ProgressMsg::Update { id, bytes_chunk: 40, active_file: "f".into() });
    t.apply_progress(ProgressMsg::Update { id: 9, bytes_chunk: 40, active_file: "g".into() });
    let job = t.active_tasks.get(&id).unwrap();
    assert_eq!((job.current_bytes, job.total_bytes, job.active_file.as_str()), (40, 100, "f"));
    assert!(t.cancel_flag(id).is_some());
    assert!(t.cancel_flag(2).is_none());
    cancel.store(true, std::sync::atomic::Ordering::Relaxed);
    assert!(t.cancel_flag(id).unwrap().load(std::sync::atomic::Ordering::Relaxed));
    assert_eq!(t.command_finished(id, Ok("Extracted successfully".into())), "Extracted successfully");
    assert!(t.active_tasks.is_empty());
    assert_eq!(t.command_finished(0, Err("x".into())), "Error: x");
}

#[test]
fn deleting() {
    let mut t = TaskManager::new();
    assert_eq!(t.request_trash(vec![], false).1, false);
    let (confirm, start) = t.request_trash(vec!["/t/a".into()], true);
    assert_eq!((confirm, start), (Some(vec!["/t/a".to_string()]), false));
    assert!(t.delete_state.is_none());
    let (confirm, start) = t.request_trash(vec!["/a".into(), "/b".into()], false);
    assert_eq!((confirm, start), (None, true));
    match t.next_delete() {
        DeleteStep::Run { target, permanent } => assert_eq!((target.as_str(), permanent), ("/b", false)),
        _ => panic!("expected a deletion"),
    }
    assert_eq!(t.delete_result(Err("denied".into())), Some("Error: denied".to_string()));
    assert!(matches!(t.next_delete(), DeleteStep::Run { .. }));
    assert_eq!(t.delete_result(Ok(())), None);
    match t.next_delete() {
        DeleteStep::Finished(m) => assert_eq!(m, "Finished with 1 error(s)."),
        _ => panic!("expected the end"),
    }
    assert!(matches!(t.next_delete(), DeleteStep::Idle));
    assert!(!t.confirm_destructive(DestructiveAction::Shred, vec!["/x".into()]));
    assert!(t.delete_state.is_none());
    assert!(t.confirm_destructive(DestructiveAction::Permadelete, vec!["/x".into()]));
    assert!(t.delete_state.as_ref().unwrap().is_permanent);
    match t.next_delete() {
        DeleteStep::Run { permanent, .. } => assert!(permanent),
        _ => panic!("expected a deletion"),
    }
    t.delete_result(Ok(()));
    match t.next_delete() {
        DeleteStep::Finished(m) => assert_eq!(m, "Deletion complete."),
        _ => panic!("expected the end"),
    }
}

#[test]
fn delete_counts_stay_within_the_total() {
    let mut t = TaskManager::new();
    t.request_trash(vec!["/a".into(), "/b".into(), "/c".into()], false);
    for outcome in [Ok(()), Err("busy".to_string()), Ok(())] {
        assert!(matches!(t.next_delete(), DeleteStep::Run { .. }));
        let ds = t.delete_state.as_ref().unwrap();
        assert!(ds.completed + ds.error_count + ds.pending.len() < ds.total);
        t.delete_result(outcome);
        let ds = t.delete_state.as_ref().unwrap();
        assert!(ds.completed + ds.error_count + ds.pending.len() <= ds.total);
    }
    let ds = t.delete_state.as_ref().unwrap();
    assert_eq!((ds.completed, ds.error_count, ds.total), (2, 1, 3));
}

#[test]
fn results_without_a_job_set_no_status() {
    let mut t = TaskManager::new();
    assert_eq!(t.paste_result(7, Err("boom".into())), None);
    assert_eq!(t.paste_result(7, Err("Cancelled".into())), None);
    assert_eq!(t.delete_result(Err("denied".into())), None);
    assert!(t.paste_state.is_none() && t.delete_state.is_none());
}

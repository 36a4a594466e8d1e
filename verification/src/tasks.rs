//! The clipboard and the queues of background work: pastes (copies and
//! moves), deletions, and the progress of running jobs.
use std::collections::HashMap;
use std::sync::atomic::AtomicBool;
use std::sync::Arc;

use vstd::prelude::*;

use crate::paths::{file_name, file_name_of, join, joined, path_starts_with, starts_with};
use crate::text::{concat3, contains_text, decimal, decimal_string, str_contains};
use crate::types::{
    BackgroundTask, ClipboardAction, DeleteState, DestructiveAction, PasteState, ProgressMsg,
};

verus! {

broadcast use vstd::std_specs::hash::group_hash_axioms;

/// The text form of a (source, destination) pair.
pub open spec fn pair_view(p: (String, String)) -> (Seq<char>, Seq<char>) {
    (p.0@, p.1@)
}

pub open spec fn pairs_view(v: Seq<(String, String)>) -> Seq<(Seq<char>, Seq<char>)> {
    v.map_values(|p: (String, String)| pair_view(p))
}

pub open spec fn strings_view(v: Seq<String>) -> Seq<Seq<char>> {
    v.map_values(|s: String| s@)
}

/// The name of a path, or empty when it has none.
pub open spec fn name_or_empty(p: Seq<char>) -> Seq<char> {
    match file_name(p) {
        Some(n) => n,
        None => Seq::empty(),
    }
}

/// The (source, destination) pairs of a paste of `clipboard` into
/// `dest_dir`, in the order the queue pops them (the first clipboard entry
/// last, so it is done first).
pub open spec fn paste_pairs(clipboard: Seq<Seq<char>>, dest_dir: Seq<char>) -> Seq<(Seq<char>, Seq<char>)> {
    clipboard.map_values(|src: Seq<char>| (src, joined(dest_dir, name_or_empty(src)))).reverse()
}

/// The message shown when a queue has run out.
pub open spec fn finished_message(errors: nat, done: Seq<char>) -> Seq<char> {
    if errors > 0 {
        "Finished with "@ + decimal(errors) + " error(s)."@
    } else {
        done
    }
}

/// The clipboard, the background jobs and the paste and delete queues.
pub struct TaskManager {
    pub active_tasks: HashMap<usize, BackgroundTask>,
    pub next_task_id: usize,
    pub clipboard: Vec<String>,
    pub clipboard_action: ClipboardAction,
    pub paste_state: Option<PasteState>,
    pub delete_state: Option<DeleteState>,
}

/// What the paste queue asks the caller to do next.
pub enum PasteStep {
    /// There is no paste in progress.
    Idle,
    /// The queue is empty; show the message and reload the directory.
    Finished(String),
    /// The next destination lies inside its source; it was counted as an
    /// error and dropped. Show why and go on with the queue.
    SkipNested,
    /// The destination exists; ask whether to overwrite it.
    AskOverwrite(String, String),
    /// Start the job `id`: copy (or move, when `is_cut`) `src` to `dest`,
    /// replacing it when `overwrite`.
    Run { id: usize, src: String, dest: String, is_cut: bool, overwrite: bool, cancel: Arc<AtomicBool> },
}

/// What the delete queue asks the caller to do next.
pub enum DeleteStep {
    Idle,
    Finished(String),
    /// Delete `target`: for good when `permanent`, otherwise into the trash.
    Run { target: String, permanent: bool },
}

fn file_name_or_empty(p: &str) -> (r: String)
    ensures
        r@ == name_or_empty(p@),
{
    match file_name_of(p) {
        Some(n) => n,
        None => String::new(),
    }
}

impl TaskManager {
    /// The paste's counts stay within its total: the pairs done, failed and
    /// still pending never outnumber the pairs it was given.
    pub open spec fn paste_counts_ok(&self) -> bool {
        match self.paste_state {
            Some(st) => st.completed + st.error_count + st.pending@.len() <= st.total,
            None => true,
        }
    }

    /// The deletion's counts stay within its total: the paths deleted,
    /// failed and still pending never outnumber the paths it was given.
    pub open spec fn delete_counts_ok(&self) -> bool {
        match self.delete_state {
            Some(ds) => ds.completed + ds.error_count + ds.pending@.len() <= ds.total,
            None => true,
        }
    }

    /// A path of the deletion has been handed out and its outcome not yet
    /// recorded.
    pub open spec fn delete_in_flight(&self) -> bool {
        match self.delete_state {
            Some(ds) => ds.completed + ds.error_count + ds.pending@.len() < ds.total,
            None => true,
        }
    }

    /// An empty manager: no jobs, ids start at 1, the clipboard is empty and
    /// set to copy.
    pub fn new() -> (t: Self)
        ensures
            t.active_tasks@ == Map::<usize, BackgroundTask>::empty(),
            t.next_task_id == 1,
            t.clipboard@.len() == 0,
            t.clipboard_action == ClipboardAction::Copy,
            t.paste_state is None,
            t.delete_state is None,
    {
        TaskManager {
            active_tasks: HashMap::new(),
            next_task_id: 1,
            clipboard: Vec::new(),
            clipboard_action: ClipboardAction::Copy,
            paste_state: None,
            delete_state: None,
        }
    }

    /// Puts the selected paths on the clipboard for a copy or a cut. An empty
    /// selection changes nothing. Returns the status message.
    pub fn set_clipboard(&mut self, selected: Vec<String>, action: ClipboardAction) -> (status:
        Option<String>)
        ensures
            selected@.len() == 0 ==> status is None && final(self).clipboard@ == old(self).clipboard@ && final(self).clipboard_action == old(self).clipboard_action,
            selected@.len() > 0 ==> {
                &&& strings_view(final(self).clipboard@) == strings_view(selected@)
                &&& final(self).clipboard_action == action
                &&& status matches Some(m) && m@ == (if action == ClipboardAction::Copy {
                    "Copied "@
                } else {
                    "Cut "@
                }) + decimal(selected@.len()) + " items."@
            },
            final(self).active_tasks@ == old(self).active_tasks@,
            final(self).next_task_id == old(self).next_task_id,
            final(self).paste_state == old(self).paste_state,
            final(self).delete_state == old(self).delete_state,
    {
        if selected.len() == 0 {
            return None;
        }
        let n = selected.len();
        self.clipboard = selected;
        self.clipboard_action = action;
        let count = decimal_string(n as u128);
        let head = match action {
            ClipboardAction::Copy => "Copied ",
            ClipboardAction::Cut => "Cut ",
        };
        Some(concat3(head, count.as_str(), " items."))
    }

    /// Pastes the clipboard into `dest_dir`. The pairs join the running paste
    /// when there is one; otherwise a new paste starts (returns `true`: the
    /// queue must be processed). The clipboard is emptied either way; an
    /// empty clipboard changes nothing.
    pub fn start_paste(&mut self, dest_dir: &str) -> (start: bool)
        requires
            old(self).paste_state matches Some(st) ==> st.total + old(self).clipboard@.len()
                <= usize::MAX,
        ensures
            old(self).paste_counts_ok() ==> final(self).paste_counts_ok(),
            old(self).clipboard@.len() == 0 ==> !start && final(self).paste_state == old(self).paste_state && final(self).clipboard@.len() == 0,
            old(self).clipboard@.len() > 0 ==> {
                let pairs = paste_pairs(strings_view(old(self).clipboard@), dest_dir@);
                &&& final(self).clipboard@.len() == 0
                &&& final(self).paste_state matches Some(st) && match old(self).paste_state {
                    Some(o) => {
                        &&& !start
                        &&& pairs_view(st.pending@) == pairs_view(o.pending@) + pairs
                        &&& st.total == o.total + old(self).clipboard@.len()
                        &&& st.completed == o.completed
                        &&& st.error_count == o.error_count
                        &&& st.is_cut == o.is_cut
                        &&& st.overwrite_approved == o.overwrite_approved
                    },
                    None => {
                        &&& start
                        &&& pairs_view(st.pending@) == pairs
                        &&& st.total == old(self).clipboard@.len()
                        &&& st.completed == 0
                        &&& st.error_count == 0
                        &&& st.is_cut == (old(self).clipboard_action == ClipboardAction::Cut)
                        &&& !st.overwrite_approved
                    },
                }
            },
            final(self).active_tasks@ == old(self).active_tasks@,
            final(self).next_task_id == old(self).next_task_id,
            final(self).clipboard_action == old(self).clipboard_action,
            final(self).delete_state == old(self).delete_state,
    {
        let n = self.clipboard.len();
        if n == 0 {
            return false;
        }
        let ghost clip = strings_view(self.clipboard@);
        let ghost pairs = paste_pairs(clip, dest_dir@);
        let mut new_pending: Vec<(String, String)> = Vec::new();
        let mut k = n;
        while k > 0
            invariant
                k <= n == self.clipboard@.len(),
                clip == strings_view(self.clipboard@),
                pairs == paste_pairs(clip, dest_dir@),
                new_pending@.len() == n - k,
                forall|t: int| 0 <= t < n - k ==> #[trigger] pair_view(new_pending@[t]) == pairs[t],
            decreases k,
        {
            let src = self.clipboard[k - 1].clone();
            let name = file_name_or_empty(src.as_str());
            let dest = join(dest_dir, name.as_str());
            proof {
                assert(pairs[n - k] == (clip[k - 1], joined(dest_dir@, name_or_empty(clip[k - 1]))));
            }
            new_pending.push((src, dest));
            k = k - 1;
        }
        assert(pairs_view(new_pending@) =~= pairs);
        self.clipboard = Vec::new();
        match self.paste_state.take() {
            Some(mut st) => {
                let ghost old_pending = st.pending@;
                let ghost orig = st;
                assert(orig.total + n <= usize::MAX);
                let mut i: usize = 0;
                while i < new_pending.len()
                    invariant
                        i <= new_pending@.len() == n,
                        orig.total + n <= usize::MAX,
                        st.total == orig.total,
                        st.completed == orig.completed,
                        st.error_count == orig.error_count,
                        st.is_cut == orig.is_cut,
                        st.overwrite_approved == orig.overwrite_approved,
                        pairs_view(st.pending@) == pairs_view(old_pending) + pairs_view(
                            new_pending@,
                        ).take(i as int),
                    decreases n - i,
                {
                    let p = (new_pending[i].0.clone(), new_pending[i].1.clone());
                    let ghost prev = st.pending@;
                    st.pending.push(p);
                    assert(pairs_view(st.pending@) =~= pairs_view(prev).push(pair_view(new_pending@[i as int])));
                    assert(pairs_view(new_pending@).take(i + 1) =~= pairs_view(new_pending@).take(
                        i as int,
                    ).push(pair_view(new_pending@[i as int])));
                    assert(pairs_view(st.pending@) =~= pairs_view(old_pending) + pairs_view(
                        new_pending@,
                    ).take(i + 1));
                    i = i + 1;
                }
                assert(pairs_view(new_pending@).take(n as int) =~= pairs_view(new_pending@));
                st.total = st.total + n;
                self.paste_state = Some(st);
                false
            },
            None => {
                self.paste_state = Some(
                    PasteState {
                        total: n,
                        completed: 0,
                        error_count: 0,
                        pending: new_pending,
                        is_cut: self.clipboard_action == ClipboardAction::Cut,
                        overwrite_approved: false,
                    },
                );
                true
            },
        }
    }

    /// The next (source, destination) pair of the paste, if any; the caller
    /// checks whether the destination exists before [`Self::next_paste`].
    pub fn peek_paste(&self) -> (r: Option<(String, String)>)
        ensures
            r is Some <==> (self.paste_state matches Some(st) && st.pending@.len() > 0),
            r matches Some(p) ==> self.paste_state matches Some(st) && pair_view(p) == pair_view(
                st.pending@.last(),
            ),
    {
        match &self.paste_state {
            Some(st) => {
                let n = st.pending.len();
                if n == 0 {
                    None
                } else {
                    Some((st.pending[n - 1].0.clone(), st.pending[n - 1].1.clone()))
                }
            },
            None => None,
        }
    }

    /// Processes the paste queue one step. `dest_exists` says whether the
    /// destination of the next pair exists. A destination inside its own
    /// source is refused (counted as an error and dropped); an existing
    /// destination needs the user's consent unless it was just given;
    /// otherwise the job starts under a fresh id, and the consent is spent.
    /// When the queue is empty the paste ends with a summary.
    pub fn next_paste(&mut self, dest_exists: bool) -> (step: PasteStep)
        requires
            old(self).next_task_id < usize::MAX,
            old(self).paste_state matches Some(st) ==> st.error_count < usize::MAX,
        ensures
            old(self).paste_counts_ok() ==> final(self).paste_counts_ok(),
            final(self).clipboard@ == old(self).clipboard@,
            final(self).clipboard_action == old(self).clipboard_action,
            final(self).delete_state == old(self).delete_state,
            match old(self).paste_state {
                None => step is Idle && final(self).paste_state is None && final(self).active_tasks@
                    == old(self).active_tasks@ && final(self).next_task_id == old(self).next_task_id,
                Some(st) => if st.pending@.len() == 0 {
                    &&& final(self).paste_state is None
                    &&& step matches PasteStep::Finished(m) && m@ == finished_message(
                        st.error_count as nat,
                        "Paste complete."@,
                    )
                    &&& final(self).active_tasks@ == old(self).active_tasks@
                    &&& final(self).next_task_id == old(self).next_task_id
                } else {
                    let p = pair_view(st.pending@.last());
                    let src = p.0;
                    let dest = p.1;
                    &&& final(self).paste_state matches Some(ns)
                    &&& ns.total == st.total
                    &&& ns.completed == st.completed
                    &&& ns.is_cut == st.is_cut
                    &&& if path_starts_with(dest, src) {
                        &&& step is SkipNested
                        &&& ns.error_count == st.error_count + 1
                        &&& pairs_view(ns.pending@) == pairs_view(st.pending@).drop_last()
                        &&& ns.overwrite_approved == st.overwrite_approved
                        &&& final(self).active_tasks@ == old(self).active_tasks@
                        &&& final(self).next_task_id == old(self).next_task_id
                    } else if dest_exists && !st.overwrite_approved {
                        &&& step matches PasteStep::AskOverwrite(s, d) && s@ == src && d@ == dest
                        &&& ns.error_count == st.error_count
                        &&& pairs_view(ns.pending@) == pairs_view(st.pending@)
                        &&& !ns.overwrite_approved
                        &&& final(self).active_tasks@ == old(self).active_tasks@
                        &&& final(self).next_task_id == old(self).next_task_id
                    } else {
                        let id = old(self).next_task_id;
                        &&& step matches PasteStep::Run { id: rid, src: s, dest: d, is_cut, overwrite, .. }
                            && rid == id && s@ == src && d@ == dest && is_cut == st.is_cut
                            && overwrite == st.overwrite_approved
                        &&& ns.error_count == st.error_count
                        &&& pairs_view(ns.pending@) == pairs_view(st.pending@)
                        &&& !ns.overwrite_approved
                        &&& final(self).next_task_id == id + 1
                        &&& final(self).active_tasks@.dom() == old(self).active_tasks@.dom().insert(
                            id,
                        )
                        &&& forall|k: usize| k != id && #[trigger] old(self).active_tasks@.contains_key(k)
                            ==> final(self).active_tasks@[k] == old(self).active_tasks@[k]
                        &&& final(self).active_tasks@[id].title@ == (if st.is_cut {
                            "Moving"@
                        } else {
                            "Copying"@
                        })
                        &&& final(self).active_tasks@[id].current_bytes == 0
                        &&& final(self).active_tasks@[id].total_bytes == 0
                        &&& final(self).active_tasks@[id].active_file@ == name_or_empty(src)
                    }
                },
            },
    {
        let mut st = match self.paste_state.take() {
            None => {
                return PasteStep::Idle;
            },
            Some(st) => st,
        };
        let n = st.pending.len();
        if n == 0 {
            let msg = if st.error_count > 0 {
                concat3("Finished with ", decimal_string(st.error_count as u128).as_str(), " error(s).")
            } else {
                String::from_str("Paste complete.")
            };
            self.paste_state = None;
            return PasteStep::Finished(msg);
        }
        let src = st.pending[n - 1].0.clone();
        let dest = st.pending[n - 1].1.clone();
        if starts_with(dest.as_str(), src.as_str()) {
            st.error_count = st.error_count + 1;
            let _ = st.pending.pop();
            assert(pairs_view(st.pending@) =~= pairs_view(old(self).paste_state->Some_0.pending@).drop_last());
            self.paste_state = Some(st);
            return PasteStep::SkipNested;
        }
        if dest_exists && !st.overwrite_approved {
            self.paste_state = Some(st);
            return PasteStep::AskOverwrite(src, dest);
        }
        let is_cut = st.is_cut;
        let overwrite = st.overwrite_approved;
        st.overwrite_approved = false;
        self.paste_state = Some(st);
        let id = self.next_task_id;
        self.next_task_id = self.next_task_id + 1;
        let cancel = Arc::new(AtomicBool::new(false));
        let title = if is_cut {
            String::from_str("Moving")
        } else {
            String::from_str("Copying")
        };
        let task = BackgroundTask {
            title,
            current_bytes: 0,
            total_bytes: 0,
            active_file: file_name_or_empty(src.as_str()),
            cancel_token: cancel.clone(),
        };
        self.active_tasks.insert(id, task);
        PasteStep::Run { id, src, dest, is_cut, overwrite, cancel }
    }

    /// Records the outcome of paste job `id`: the job is dropped and the
    /// queue's last pair is popped. A failure whose message mentions
    /// "Cancelled" empties the queue; another failure counts as an error.
    /// Returns the status message, if any; the queue goes on either way.
    /// With no paste in progress only the job is dropped, and no status is
    /// returned.
    pub fn paste_result(&mut self, id: usize, res: Result<(), String>) -> (status: Option<String>)
        requires
            old(self).paste_state matches Some(st) ==> st.completed < usize::MAX
                && st.error_count < usize::MAX,
        ensures
            old(self).paste_counts_ok() && (old(self).paste_state matches Some(st) ==> st.pending@.len()
                > 0) ==> final(self).paste_counts_ok(),
            final(self).active_tasks@ == old(self).active_tasks@.remove(id),
            final(self).next_task_id == old(self).next_task_id,
            final(self).clipboard@ == old(self).clipboard@,
            final(self).delete_state == old(self).delete_state,
            match old(self).paste_state {
                None => final(self).paste_state is None && status is None,
                Some(st) => final(self).paste_state matches Some(ns) && ns.total == st.total
                    && ns.is_cut == st.is_cut && ns.overwrite_approved == st.overwrite_approved
                    && match res {
                    Ok(_) => {
                        &&& status is None
                        &&& ns.completed == st.completed + 1
                        &&& ns.error_count == st.error_count
                        &&& pairs_view(ns.pending@) == pairs_view(st.pending@).drop_last()
                            || (st.pending@.len() == 0 && ns.pending@.len() == 0)
                    },
                    Err(e) => if contains_text(e@, "Cancelled"@) {
                        &&& status matches Some(m) && m@ == "Paste cancelled."@
                        &&& ns.completed == st.completed
                        &&& ns.error_count == st.error_count
                        &&& ns.pending@.len() == 0
                    } else {
                        &&& status matches Some(m) && m@ == "File Error: "@ + e@
                        &&& ns.completed == st.completed
                        &&& ns.error_count == st.error_count + 1
                        &&& pairs_view(ns.pending@) == pairs_view(st.pending@).drop_last()
                            || (st.pending@.len() == 0 && ns.pending@.len() == 0)
                    },
                },
            },
    {
        let _ = self.active_tasks.remove(&id);
        match self.paste_state.take() {
            None => None,
            Some(mut st) => {
                let status = match &res {
                    Ok(_) => None,
                    Err(e) => {
                        if str_contains(e.as_str(), "Cancelled") {
                            Some(String::from_str("Paste cancelled."))
                        } else {
                            Some(String::from_str("File Error: ").concat(e.as_str()))
                        }
                    },
                };
                let ghost before = st.pending@;
                let _ = st.pending.pop();
                proof {
                    if before.len() > 0 {
                        assert(pairs_view(st.pending@) =~= pairs_view(before).drop_last());
                    }
                }
                match &res {
                    Ok(_) => {
                        st.completed = st.completed + 1;
                    },
                    Err(e) => {
                        if str_contains(e.as_str(), "Cancelled") {
                            st.pending = Vec::new();
                        } else {
                            st.error_count = st.error_count + 1;
                        }
                    },
                }
                self.paste_state = Some(st);
                status
            },
        }
    }

    /// Answers the overwrite question. With a question open: `Some(true)`
    /// allows the overwrite and `Some(false)` skips the pair, and either way
    /// the queue goes on (returns `true`). Otherwise, or when the question is
    /// dismissed (`None`), the paste is abandoned.
    pub fn resolve_conflict(&mut self, question_open: bool, choice: Option<bool>) -> (go_on: bool)
        ensures
            old(self).paste_counts_ok() ==> final(self).paste_counts_ok(),
            go_on == (question_open && choice is Some),
            go_on && choice == Some(true) ==> match old(self).paste_state {
                Some(st) => final(self).paste_state matches Some(ns) && ns.overwrite_approved
                    && pairs_view(ns.pending@) == pairs_view(st.pending@) && ns.total == st.total
                    && ns.completed == st.completed && ns.error_count == st.error_count && ns.is_cut
                    == st.is_cut,
                None => final(self).paste_state is None,
            },
            go_on && choice == Some(false) ==> match old(self).paste_state {
                Some(st) => final(self).paste_state matches Some(ns) && (pairs_view(ns.pending@)
                    == pairs_view(st.pending@).drop_last() || (st.pending@.len() == 0
                    && ns.pending@.len() == 0)) && ns.overwrite_approved == st.overwrite_approved
                    && ns.total == st.total && ns.completed == st.completed && ns.error_count
                    == st.error_count && ns.is_cut == st.is_cut,
                None => final(self).paste_state is None,
            },
            !go_on ==> final(self).paste_state is None,
            final(self).active_tasks@ == old(self).active_tasks@,
            final(self).next_task_id == old(self).next_task_id,
            final(self).clipboard@ == old(self).clipboard@,
            final(self).delete_state == old(self).delete_state,
    {
        if question_open {
            match choice {
                Some(true) => {
                    match self.paste_state.take() {
                        Some(mut st) => {
                            st.overwrite_approved = true;
                            self.paste_state = Some(st);
                        },
                        None => {},
                    }
                    return true;
                },
                Some(false) => {
                    match self.paste_state.take() {
                        Some(mut st) => {
                            let ghost before = st.pending@;
                            let _ = st.pending.pop();
                            proof {
                                if before.len() > 0 {
                                    assert(pairs_view(st.pending@) =~= pairs_view(before).drop_last());
                                }
                            }
                            self.paste_state = Some(st);
                        },
                        None => {},
                    }
                    return true;
                },
                None => {},
            }
        }
        self.paste_state = None;
        false
    }

    /// Registers a new job under a fresh id (for compressing and
    /// extracting), and hands back its id and cancel flag.
    pub fn begin_task(&mut self, title: String, active_file: String) -> (r: (usize, Arc<AtomicBool>))
        requires
            old(self).next_task_id < usize::MAX,
        ensures
            r.0 == old(self).next_task_id,
            final(self).next_task_id == old(self).next_task_id + 1,
            final(self).active_tasks@.dom() == old(self).active_tasks@.dom().insert(r.0),
            forall|k: usize| k != r.0 && #[trigger] old(self).active_tasks@.contains_key(k)
                ==> final(self).active_tasks@[k] == old(self).active_tasks@[k],
            final(self).active_tasks@[r.0].title == title,
            final(self).active_tasks@[r.0].active_file == active_file,
            final(self).active_tasks@[r.0].current_bytes == 0,
            final(self).active_tasks@[r.0].total_bytes == 0,
            final(self).paste_state == old(self).paste_state,
            final(self).delete_state == old(self).delete_state,
            final(self).clipboard@ == old(self).clipboard@,
    {
        let id = self.next_task_id;
        self.next_task_id = self.next_task_id + 1;
        let cancel = Arc::new(AtomicBool::new(false));
        let task = BackgroundTask {
            title,
            current_bytes: 0,
            total_bytes: 0,
            active_file,
            cancel_token: cancel.clone(),
        };
        self.active_tasks.insert(id, task);
        (id, cancel)
    }

    /// Applies a progress report to the job it names; reports for unknown
    /// jobs are ignored.
    pub fn apply_progress(&mut self, msg: ProgressMsg)
        requires
            msg matches ProgressMsg::Update { id, bytes_chunk, .. } ==> (old(self).active_tasks@.contains_key(id) ==> old(self).active_tasks@[id].current_bytes
                + bytes_chunk <= u64::MAX),
        ensures
            final(self).active_tasks@.dom() == old(self).active_tasks@.dom(),
            final(self).next_task_id == old(self).next_task_id,
            final(self).paste_state == old(self).paste_state,
            final(self).delete_state == old(self).delete_state,
            final(self).clipboard@ == old(self).clipboard@,
            match msg {
                ProgressMsg::Init { id, total_bytes } => forall|k: usize| #[trigger] old(self).active_tasks@.contains_key(k) ==> {
                    let t = old(self).active_tasks@[k];
                    let u = final(self).active_tasks@[k];
                    if k == id {
                        u.total_bytes == total_bytes && u.current_bytes == t.current_bytes
                            && u.active_file == t.active_file && u.title == t.title
                    } else {
                        u == t
                    }
                },
                ProgressMsg::Update { id, bytes_chunk, active_file } => forall|k: usize| #[trigger] old(self).active_tasks@.contains_key(k) ==> {
                    let t = old(self).active_tasks@[k];
                    let u = final(self).active_tasks@[k];
                    if k == id {
                        u.current_bytes == t.current_bytes + bytes_chunk && u.active_file
                            == active_file && u.total_bytes == t.total_bytes && u.title == t.title
                    } else {
                        u == t
                    }
                },
            },
    {
        match msg {
            ProgressMsg::Init { id, total_bytes } => {
                match self.active_tasks.remove(&id) {
                    Some(mut t) => {
                        t.total_bytes = total_bytes;
                        self.active_tasks.insert(id, t);
                        assert(self.active_tasks@.dom() =~= old(self).active_tasks@.dom());
                    },
                    None => {},
                }
            },
            ProgressMsg::Update { id, bytes_chunk, active_file } => {
                match self.active_tasks.remove(&id) {
                    Some(mut t) => {
                        t.current_bytes = t.current_bytes + bytes_chunk;
                        t.active_file = active_file;
                        self.active_tasks.insert(id, t);
                        assert(self.active_tasks@.dom() =~= old(self).active_tasks@.dom());
                    },
                    None => {},
                }
            },
        }
    }

    /// The cancel flag of job `id`, if it runs; the caller sets it.
    pub fn cancel_flag(&self, id: usize) -> (r: Option<Arc<AtomicBool>>)
        ensures
            r is Some <==> self.active_tasks@.contains_key(id),
    {
        match self.active_tasks.get(&id) {
            Some(t) => Some(t.cancel_token.clone()),
            None => None,
        }
    }

    /// Moves the selected paths to the trash. Inside the trash itself the
    /// deletion would be final, so the targets are handed back for the user to
    /// confirm, and nothing starts. Returns (targets to confirm, whether the
    /// delete queue must be processed).
    pub fn request_trash(&mut self, targets: Vec<String>, in_trash: bool) -> (r: (
        Option<Vec<String>>,
        bool,
    ))
        ensures
            targets@.len() == 0 ==> r.0 is None && !r.1 && final(self).delete_state == old(self).delete_state,
            targets@.len() > 0 && in_trash ==> (r.0 matches Some(v) && strings_view(v@)
                == strings_view(targets@) && !r.1 && final(self).delete_state == old(self).delete_state),
            targets@.len() > 0 && !in_trash ==> (r.0 is None && r.1 && (final(self).delete_state matches Some(ds) && ds.total == targets@.len() && ds.completed == 0
                && ds.error_count == 0 && strings_view(ds.pending@) == strings_view(targets@)
                && !ds.is_permanent)),
            old(self).delete_counts_ok() ==> final(self).delete_counts_ok(),
            final(self).paste_state == old(self).paste_state,
            final(self).active_tasks@ == old(self).active_tasks@,
            final(self).next_task_id == old(self).next_task_id,
            final(self).clipboard@ == old(self).clipboard@,
    {
        if targets.len() == 0 {
            return (None, false);
        }
        if in_trash {
            return (Some(targets), false);
        }
        self.delete_state = Some(
            DeleteState {
                total: targets.len(),
                completed: 0,
                error_count: 0,
                pending: targets,
                is_permanent: false,
            },
        );
        (None, true)
    }

    /// Carries out a confirmed destructive action: a permanent deletion
    /// starts the delete queue (returns `true`); a shred is left to the
    /// caller (returns `false`, nothing changes).
    pub fn confirm_destructive(&mut self, action: DestructiveAction, targets: Vec<String>) -> (start:
        bool)
        ensures
            start == (action == DestructiveAction::Permadelete),
            start ==> (final(self).delete_state matches Some(ds) && ds.total == targets@.len()
                && ds.completed == 0 && ds.error_count == 0 && strings_view(ds.pending@)
                == strings_view(targets@) && ds.is_permanent),
            !start ==> final(self).delete_state == old(self).delete_state,
            old(self).delete_counts_ok() ==> final(self).delete_counts_ok(),
            final(self).paste_state == old(self).paste_state,
            final(self).active_tasks@ == old(self).active_tasks@,
            final(self).next_task_id == old(self).next_task_id,
            final(self).clipboard@ == old(self).clipboard@,
    {
        match action {
            DestructiveAction::Shred => false,
            DestructiveAction::Permadelete => {
                self.delete_state = Some(
                    DeleteState {
                        total: targets.len(),
                        completed: 0,
                        error_count: 0,
                        pending: targets,
                        is_permanent: true,
                    },
                );
                true
            },
        }
    }

    /// Processes the delete queue one step: the last pending path is taken
    /// off and handed out; an empty queue ends the deletion with a summary.
    pub fn next_delete(&mut self) -> (step: DeleteStep)
        ensures
            match old(self).delete_state {
                None => step is Idle && final(self).delete_state is None,
                Some(ds) => if ds.pending@.len() == 0 {
                    &&& final(self).delete_state is None
                    &&& step matches DeleteStep::Finished(m) && m@ == finished_message(
                        ds.error_count as nat,
                        "Deletion complete."@,
                    )
                } else {
                    &&& step matches DeleteStep::Run { target, permanent } && target@
                        == ds.pending@.last()@ && permanent == ds.is_permanent
                    &&& final(self).delete_state matches Some(ns) && strings_view(ns.pending@)
                        == strings_view(ds.pending@).drop_last() && ns.total == ds.total
                        && ns.completed == ds.completed && ns.error_count == ds.error_count
                        && ns.is_permanent == ds.is_permanent
                },
            },
            old(self).delete_counts_ok() ==> final(self).delete_counts_ok(),
            old(self).delete_counts_ok() && step is Run ==> final(self).delete_in_flight(),
            final(self).paste_state == old(self).paste_state,
            final(self).active_tasks@ == old(self).active_tasks@,
            final(self).next_task_id == old(self).next_task_id,
            final(self).clipboard@ == old(self).clipboard@,
    {
        match self.delete_state.take() {
            None => DeleteStep::Idle,
            Some(mut ds) => {
                let ghost before = ds.pending@;
                match ds.pending.pop() {
                    Some(target) => {
                        assert(strings_view(ds.pending@) =~= strings_view(before).drop_last());
                        let permanent = ds.is_permanent;
                        self.delete_state = Some(ds);
                        DeleteStep::Run { target, permanent }
                    },
                    None => {
                        let msg = if ds.error_count > 0 {
                            concat3(
                                "Finished with ",
                                decimal_string(ds.error_count as u128).as_str(),
                                " error(s).",
                            )
                        } else {
                            String::from_str("Deletion complete.")
                        };
                        DeleteStep::Finished(msg)
                    },
                }
            },
        }
    }

    /// Records the outcome of a deletion; a failure is counted and its
    /// message returned as "Error: ...". With no deletion in progress
    /// nothing is recorded and no status is returned.
    pub fn delete_result(&mut self, res: Result<(), String>) -> (status: Option<String>)
        requires
            old(self).delete_state matches Some(ds) ==> ds.completed < usize::MAX
                && ds.error_count < usize::MAX,
        ensures
            old(self).delete_state is None ==> status is None,
            old(self).delete_state is Some ==> match res {
                Ok(_) => status is None,
                Err(e) => status matches Some(m) && m@ == "Error: "@ + e@,
            },
            match old(self).delete_state {
                None => final(self).delete_state is None,
                Some(ds) => final(self).delete_state matches Some(ns) && ns.pending == ds.pending
                    && ns.total == ds.total && ns.is_permanent == ds.is_permanent && match res {
                    Ok(_) => ns.completed == ds.completed + 1 && ns.error_count == ds.error_count,
                    Err(_) => ns.completed == ds.completed && ns.error_count == ds.error_count + 1,
                },
            },
            old(self).delete_counts_ok() && old(self).delete_in_flight() ==> final(self).delete_counts_ok(),
            final(self).paste_state == old(self).paste_state,
            final(self).active_tasks@ == old(self).active_tasks@,
            final(self).next_task_id == old(self).next_task_id,
            final(self).clipboard@ == old(self).clipboard@,
    {
        match self.delete_state.take() {
            None => None,
            Some(mut ds) => {
                let status = match res {
                    Ok(_) => {
                        ds.completed = ds.completed + 1;
                        None
                    },
                    Err(e) => {
                        ds.error_count = ds.error_count + 1;
                        Some(String::from_str("Error: ").concat(e.as_str()))
                    },
                };
                self.delete_state = Some(ds);
                status
            },
        }
    }

    /// Records that job `id` (or a command without a job) finished: the job
    /// is dropped, and the status shows its message or "Error: ...".
    pub fn command_finished(&mut self, id: usize, res: Result<String, String>) -> (status: String)
        ensures
            final(self).active_tasks@ == old(self).active_tasks@.remove(id),
            match res {
                Ok(m) => status@ == m@,
                Err(e) => status@ == "Error: "@ + e@,
            },
            final(self).paste_state == old(self).paste_state,
            final(self).delete_state == old(self).delete_state,
            final(self).next_task_id == old(self).next_task_id,
            final(self).clipboard@ == old(self).clipboard@,
    {
        let _ = self.active_tasks.remove(&id);
        match res {
            Ok(m) => m,
            Err(e) => String::from_str("Error: ").concat(e.as_str()),
        }
    }
}

} // verus!

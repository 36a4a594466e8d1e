//! The file manager's directory state, how a window starts, and what
//! moving to another directory resets.
use vstd::prelude::*;

use crate::actions::{cursor_after_move, cursor_target};
use crate::nav::{lemma_back_then_forward, step_back, step_forward, up_dir, up_from, visit, History};
use crate::selection::{shown_at, PathSet};
use crate::paths::SpecComp;
use crate::paths::{paths_equal, same_path};
use crate::text::concat3;
use crate::view_memory::{after_get, after_put, dir_key, lookup, ViewMemory};
use crate::types::{DiskInfo, FileEntry};
use crate::ui::UIState;

verus! {

/// The directory shown and what is known of it: where the window is and
/// has been, the entries read, the positions of those shown (filtered and
/// sorted), the selection, the mounted disks, and the count of file system
/// event batches (so that only the latest is acted upon). The file system
/// watcher and its pending events are kept by the program around the
/// library.
pub struct FileSystemState {
    pub history: History,
    pub entries: Vec<FileEntry>,
    pub filtered_entries: Vec<usize>,
    pub selected_files: PathSet,
    pub system_disks: Vec<DiskInfo>,
    pub fs_debounce_version: u64,
}

impl FileSystemState {
    /// The selection holds no path twice.
    pub open spec fn wf(&self) -> bool {
        self.selected_files.wf()
    }

    /// The state of a window opening at `start`, with the mounted disks
    /// found: nothing behind or ahead, nothing read, shown or selected yet.
    pub fn new(start: String, disks: Vec<DiskInfo>) -> (s: Self)
        ensures
            s.wf(),
            s.history.view() == (start@, Seq::<Seq<char>>::empty(), Seq::<Seq<char>>::empty()),
            s.entries@.len() == 0,
            s.filtered_entries@.len() == 0,
            s.selected_files.view() == Set::<Seq<SpecComp>>::empty(),
            s.system_disks@ == disks@,
            s.fs_debounce_version == 0,
    {
        FileSystemState {
            history: History::new(start),
            entries: Vec::new(),
            filtered_entries: Vec::new(),
            selected_files: PathSet::new(),
            system_disks: disks,
            fs_debounce_version: 0,
        }
    }
}

/// The next count of path bar edits (`+= 1` on a `u64`, wrapping as a
/// release build does: the count is only compared for equality).
pub open spec fn next_version(v: u64) -> u64 {
    if v < u64::MAX {
        (v + 1) as u64
    } else {
        0
    }
}

/// The status line while `path` is being read.
pub open spec fn loading_text(path: Seq<char>) -> Seq<char> {
    "Loading... "@ + path + "..."@
}

/// What moving to `path` does to the window's state, besides the history:
/// the path bar shows `path` (and counts as edited once more, as
/// [`next_version`] states), every
/// dialog closes, the search bar closes and empties, the status line says
/// that `path` is loading, and the keyboard cursor goes. Nothing else
/// changes.
pub open spec fn ui_after_move(before: UIState, after: UIState, path: Seq<char>) -> bool {
    &&& after == UIState {
        path_input: after.path_input,
        search_query: after.search_query,
        status_msg: after.status_msg,
        path_version: next_version(before.path_version),
        search_visible: false,
        keyboard_cursor: None,
        ..before.dialogs_closed()
    }
    &&& after.path_input@ == path
    &&& after.search_query@.len() == 0
    &&& after.status_msg@ == loading_text(path)
}

/// What moving to another directory does to the directory state, besides
/// the history: the entries and the shown positions are emptied (the new
/// directory is read afterwards); the selection, the disks and the event
/// count stay.
pub open spec fn fs_after_move(before: FileSystemState, after: FileSystemState) -> bool {
    &&& after.entries@.len() == 0
    &&& after.filtered_entries@.len() == 0
    &&& after.selected_files == before.selected_files
    &&& after.system_disks@ == before.system_disks@
    &&& after.fs_debounce_version == before.fs_debounce_version
}

/// Moves the window to `path`, the history already stepped for a move
/// along it (`is_historical`).
fn arrive(fs: &mut FileSystemState, ui: &mut UIState, path: String, is_historical: bool)
    ensures
        !is_historical ==> final(fs).history.view() == visit(old(fs).history.view(), path@),
        is_historical ==> final(fs).history.view() == (
            path@,
            old(fs).history.view().1,
            old(fs).history.view().2,
        ),
        fs_after_move(*old(fs), *final(fs)),
        ui_after_move(*old(ui), *final(ui), path@),
{
    ui.path_input = path.clone();
    ui.path_version = ui.path_version.wrapping_add(1);
    ui.close_modals();
    ui.search_query = String::new();
    ui.search_visible = false;
    ui.status_msg = concat3("Loading... ", path.as_str(), "...");
    ui.keyboard_cursor = None;
    if is_historical {
        fs.history.current_dir = path;
    } else {
        fs.history.go_to(path);
    }
    fs.entries = Vec::new();
    fs.filtered_entries = Vec::new();
}

/// What leaving the directory `dir`, scrolled to `scroll_bits` with the
/// cursor at `cursor`, does to the memory of directories: that is
/// remembered of it ([`ViewMemory::remember`]).
pub open spec fn memory_after_leave(
    before: ViewMemory,
    after: ViewMemory,
    dir: Seq<char>,
    scroll_bits: u32,
    cursor: Option<usize>,
) -> bool {
    &&& after.wf()
    &&& after.capacity() == before.capacity()
    &&& after.entries() == after_put(
        before.entries(),
        before.capacity(),
        dir_key(dir),
        (scroll_bits, cursor),
    )
}

/// Moves the window to `path`. First the directory left is remembered
/// with the list's scroll offset (`scroll_bits`, the bits of the window's
/// `f32`) and the keyboard cursor. A move at the user's request then goes
/// through the history as [`visit`] states; a move along the history
/// (`is_historical`, the history already stepped) only makes `path`
/// current. Either way the listing is emptied and the window's state reset
/// as [`fs_after_move`] and [`ui_after_move`] state. Returns whether the
/// list should be scrolled to the top: nothing is remembered of `path`.
pub fn navigate_to(
    fs: &mut FileSystemState,
    ui: &mut UIState,
    memory: &mut ViewMemory,
    path: String,
    is_historical: bool,
    scroll_bits: u32,
) -> (to_top: bool)
    requires
        old(memory).wf(),
    ensures
        !is_historical ==> final(fs).history.view() == visit(old(fs).history.view(), path@),
        is_historical ==> final(fs).history.view() == (
            path@,
            old(fs).history.view().1,
            old(fs).history.view().2,
        ),
        fs_after_move(*old(fs), *final(fs)),
        ui_after_move(*old(ui), *final(ui), path@),
        memory_after_leave(
            *old(memory),
            *final(memory),
            old(fs).history.current_dir@,
            scroll_bits,
            old(ui).keyboard_cursor,
        ),
        to_top == lookup(final(memory).entries(), dir_key(path@)) is None,
{
    memory.remember(fs.history.current_dir.as_str(), scroll_bits, ui.keyboard_cursor);
    let p = path.clone();
    arrive(fs, ui, path, is_historical);
    !memory.knows(p.as_str())
}

/// Goes up to the parent of the current directory (staying at the root),
/// as a move at the user's request ([`navigate_to`]).
pub fn navigate_up(fs: &mut FileSystemState, ui: &mut UIState, memory: &mut ViewMemory, scroll_bits: u32) -> (to_top: bool)
    requires
        old(memory).wf(),
    ensures
        final(fs).history.view() == visit(
            old(fs).history.view(),
            up_from(old(fs).history.current_dir@),
        ),
        fs_after_move(*old(fs), *final(fs)),
        ui_after_move(*old(ui), *final(ui), up_from(old(fs).history.current_dir@)),
        memory_after_leave(
            *old(memory),
            *final(memory),
            old(fs).history.current_dir@,
            scroll_bits,
            old(ui).keyboard_cursor,
        ),
        to_top == lookup(
            final(memory).entries(),
            dir_key(up_from(old(fs).history.current_dir@)),
        ) is None,
{
    let up = up_dir(fs.history.current_dir.as_str());
    navigate_to(fs, ui, memory, up, false, scroll_bits)
}

/// Goes back one step when the back stack holds one ([`step_back`]),
/// remembering the directory left and resetting the window as
/// [`navigate_to`] does; returns whether it moved (nothing changes
/// otherwise) and whether the list should be scrolled to the top.
pub fn navigate_back(fs: &mut FileSystemState, ui: &mut UIState, memory: &mut ViewMemory, scroll_bits: u32) -> (r: (bool, bool))
    requires
        old(memory).wf(),
    ensures
        final(memory).wf(),
        r.0 == (old(fs).history.view().1.len() > 0),
        r.0 ==> {
            let dest = step_back(old(fs).history.view()).0;
            &&& final(fs).history.view() == step_back(old(fs).history.view())
            &&& fs_after_move(*old(fs), *final(fs))
            &&& ui_after_move(*old(ui), *final(ui), dest)
            &&& memory_after_leave(
                *old(memory),
                *final(memory),
                old(fs).history.current_dir@,
                scroll_bits,
                old(ui).keyboard_cursor,
            )
            &&& r.1 == lookup(final(memory).entries(), dir_key(dest)) is None
        },
        !r.0 ==> *final(fs) == *old(fs) && *final(ui) == *old(ui) && *final(memory) == *old(
            memory,
        ) && !r.1,
{
    if fs.history.history_back.len() == 0 {
        return (false, false);
    }
    memory.remember(fs.history.current_dir.as_str(), scroll_bits, ui.keyboard_cursor);
    fs.history.go_back();
    let target = fs.history.current_dir.clone();
    let t2 = target.clone();
    arrive(fs, ui, target, true);
    (true, !memory.knows(t2.as_str()))
}

/// Goes forward one step when the forward stack holds one
/// ([`step_forward`]), remembering the directory left and resetting the
/// window as [`navigate_to`] does; returns whether it moved (nothing
/// changes otherwise) and whether the list should be scrolled to the top.
pub fn navigate_forward(fs: &mut FileSystemState, ui: &mut UIState, memory: &mut ViewMemory, scroll_bits: u32) -> (r: (bool, bool))
    requires
        old(memory).wf(),
    ensures
        final(memory).wf(),
        r.0 == (old(fs).history.view().2.len() > 0),
        r.0 ==> {
            let dest = step_forward(old(fs).history.view()).0;
            &&& final(fs).history.view() == step_forward(old(fs).history.view())
            &&& fs_after_move(*old(fs), *final(fs))
            &&& ui_after_move(*old(ui), *final(ui), dest)
            &&& memory_after_leave(
                *old(memory),
                *final(memory),
                old(fs).history.current_dir@,
                scroll_bits,
                old(ui).keyboard_cursor,
            )
            &&& r.1 == lookup(final(memory).entries(), dir_key(dest)) is None
        },
        !r.0 ==> *final(fs) == *old(fs) && *final(ui) == *old(ui) && *final(memory) == *old(
            memory,
        ) && !r.1,
{
    if fs.history.history_forward.len() == 0 {
        return (false, false);
    }
    memory.remember(fs.history.current_dir.as_str(), scroll_bits, ui.keyboard_cursor);
    fs.history.go_forward();
    let target = fs.history.current_dir.clone();
    let t2 = target.clone();
    arrive(fs, ui, target, true);
    (true, !memory.knows(t2.as_str()))
}

/// Once the listing of `path` has been read: when `path` is still the
/// current directory (as a path) and something is remembered of it, the
/// keyboard cursor goes back where it stood and the remembered scroll
/// offset is returned (the directory's entry becomes the most recently
/// used); otherwise nothing changes and `None` is returned (the list is
/// then scrolled to the top when `path` is current).
pub fn restore_view(fs: &FileSystemState, ui: &mut UIState, memory: &mut ViewMemory, path: &str) -> (r: Option<u32>)
    requires
        old(memory).wf(),
    ensures
        final(memory).wf(),
        final(memory).capacity() == old(memory).capacity(),
        !same_path(path@, fs.history.current_dir@) ==> *final(ui) == *old(ui) && *final(memory)
            == *old(memory) && r is None,
        same_path(path@, fs.history.current_dir@) ==> {
            &&& final(memory).entries() == after_get(old(memory).entries(), dir_key(path@))
            &&& match lookup(old(memory).entries(), dir_key(path@)) {
                Some(v) => r == Some(v.0) && *final(ui) == UIState {
                    keyboard_cursor: v.1,
                    ..*old(ui)
                },
                None => r is None && *final(ui) == *old(ui),
            }
        },
{
    if !paths_equal(path, fs.history.current_dir.as_str()) {
        return None;
    }
    match memory.recall(path) {
        Some((bits, cursor)) => {
            ui.keyboard_cursor = cursor;
            Some(bits)
        },
        None => None,
    }
}

/// Moves the keyboard cursor by `delta` rows. In an empty list nothing
/// changes. Otherwise the cursor goes where [`cursor_target`] says, and,
/// without Ctrl or Shift, the entry shown there becomes the whole
/// selection; nothing else changes.
pub fn move_cursor(fs: &mut FileSystemState, ui: &mut UIState, delta: isize, ctrl: bool, shift: bool)
    requires
        old(fs).wf(),
    ensures
        final(fs).wf(),
        old(fs).filtered_entries@.len() == 0 ==> *final(fs) == *old(fs) && *final(ui) == *old(ui),
        old(fs).filtered_entries@.len() > 0 ==> {
            let k = cursor_target(old(ui).keyboard_cursor, delta, old(fs).filtered_entries@.len());
            let shown = shown_at(old(fs).filtered_entries@, old(fs).entries@, k);
            &&& 0 <= k < old(fs).filtered_entries@.len()
            &&& *final(ui) == UIState { keyboard_cursor: Some(k as usize), ..*old(ui) }
            &&& !ctrl && !shift && shown is Some ==> final(fs).selected_files.view() == set![
                shown->Some_0,
            ]
            &&& !(!ctrl && !shift && shown is Some) ==> final(fs).selected_files.view() == old(
                fs,
            ).selected_files.view()
            &&& final(fs).history == old(fs).history
            &&& final(fs).entries == old(fs).entries
            &&& final(fs).filtered_entries == old(fs).filtered_entries
            &&& final(fs).system_disks == old(fs).system_disks
            &&& final(fs).fs_debounce_version == old(fs).fs_debounce_version
        },
{
    let n = fs.filtered_entries.len();
    if n == 0 {
        return ;
    }
    let k = cursor_after_move(ui.keyboard_cursor, delta, n);
    ui.keyboard_cursor = Some(k);
    fs.selected_files.focus(k, ctrl, shift, &fs.filtered_entries, &fs.entries);
}

/// Going forward right after going back (when there was a step back)
/// moves, and returns the window to the directory it was in with both
/// histories as they were; the listing is emptied for reading again, and
/// the path bar shows that directory. Going back with nothing behind
/// changes nothing.
pub proof fn lemma_back_then_forward_restores(
    fs0: FileSystemState,
    fs1: FileSystemState,
    fs2: FileSystemState,
    ui0: UIState,
    ui1: UIState,
    ui2: UIState,
)
    requires
        fs0.history.view().1.len() > 0,
        fs1.history.view() == step_back(fs0.history.view()),
        fs_after_move(fs0, fs1),
        ui_after_move(ui0, ui1, step_back(fs0.history.view()).0),
        fs2.history.view() == step_forward(fs1.history.view()),
        fs_after_move(fs1, fs2),
        ui_after_move(ui1, ui2, step_forward(fs1.history.view()).0),
    ensures
        fs1.history.view().2.len() > 0,
        fs2.history.view() == fs0.history.view(),
        fs2.selected_files == fs0.selected_files,
        fs2.entries@.len() == 0,
        ui2.path_input@ == fs0.history.view().0,
{
    lemma_back_then_forward(fs0.history.view());
}

} // verus!

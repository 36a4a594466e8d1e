//! Small decisions of the window: hovering, double clicks, opening an
//! entry, and what a file-chooser dialog answers.
use vstd::prelude::*;

use crate::errors::AppError;
use crate::math::{invalid_file_name, sanitize_filename};
use crate::paths::{file_name, file_name_of, join, joined, paths_equal, same_path, with_file_name, with_name};
use crate::text::{concat3, decimal, decimal_string};
use crate::perms::{parse_mode, parse_octal};
use crate::selection::PathSet;
use crate::types::{ContextTarget, DestructiveAction, Mode, PropertiesDetails, SortDirection, SortKey, ViewMode};

verus! {

/// The row under the pointer after it enters (`entering`) or leaves row
/// `idx`: leaving another row than the hovered one changes nothing.
pub fn hover_row(hovered: Option<usize>, idx: usize, entering: bool) -> (r: Option<usize>)
    ensures
        entering ==> r == Some(idx),
        !entering && hovered == Some(idx) ==> r is None,
        !entering && hovered != Some(idx) ==> r == hovered,
{
    if entering {
        Some(idx)
    } else if hovered == Some(idx) {
        None
    } else {
        hovered
    }
}

/// The most milliseconds between the two releases of a double click.
pub const DOUBLE_CLICK_MS: u64 = 500;

/// Whether releasing the button on `path` completes a double click: the
/// previous release was on the same path, less than [`DOUBLE_CLICK_MS`] ago.
pub fn is_double_click(last_path: &Option<String>, path: &str, elapsed_ms: Option<u64>) -> (b: bool)
    ensures
        b == (last_path is Some && elapsed_ms is Some && same_path(last_path->Some_0@, path@)
            && elapsed_ms->Some_0 < DOUBLE_CLICK_MS),
{
    match (last_path, elapsed_ms) {
        (Some(p), Some(ms)) => ms < DOUBLE_CLICK_MS && paths_equal(p.as_str(), path),
        _ => false,
    }
}

/// What opening an entry does.
#[derive(Clone, Copy, Debug, PartialEq, Eq, Structural)]
pub enum Activation {
    /// Show the directory.
    Navigate,
    /// Open the file with its default application.
    OpenExternally,
    /// Answer the file-chooser request with the file.
    ConfirmDialog,
}

/// Opening an entry: a directory is entered; a file is opened by its
/// application when managing files, and chosen in a file-chooser dialog.
pub fn activation(is_dir: bool, mode: &Mode) -> (a: Activation)
    ensures
        is_dir ==> a == Activation::Navigate,
        !is_dir && *mode == Mode::Manager ==> a == Activation::OpenExternally,
        !is_dir && *mode != Mode::Manager ==> a == Activation::ConfirmDialog,
{
    if is_dir {
        Activation::Navigate
    } else {
        match mode {
            Mode::Manager => Activation::OpenExternally,
            _ => Activation::ConfirmDialog,
        }
    }
}

/// The path a file-chooser dialog answers with: in a save dialog, the typed
/// name in the shown directory; otherwise the first selected path, or the
/// shown directory when nothing is selected.
pub fn dialog_answer(mode: &Mode, current_dir: &str, save_input: &str, selected: &PathSet) -> (r: String)
    ensures
        *mode matches Mode::Save(_) ==> r@ == joined(current_dir@, save_input@),
        !(*mode matches Mode::Save(_)) && selected.paths@.len() > 0 ==> r@ == selected.paths@[0]@,
        !(*mode matches Mode::Save(_)) && selected.paths@.len() == 0 ==> r@ == current_dir@,
{
    match mode {
        Mode::Save(_) => join(current_dir, save_input),
        _ => {
            if selected.paths.len() > 0 {
                selected.paths[0].clone()
            } else {
                String::from_str(current_dir)
            }
        },
    }
}

/// Starting a rubber band: without Ctrl or Shift the selection is
/// emptied (and the caller forgets the clicked row and the cursor); returns
/// whether it was.
pub fn start_band(selection: &mut PathSet, ctrl: bool, shift: bool) -> (cleared: bool)
    requires
        old(selection).wf(),
    ensures
        final(selection).wf(),
        cleared == (!ctrl && !shift),
        cleared ==> final(selection).view() == Set::<Seq<crate::paths::SpecComp>>::empty(),
        !cleared ==> final(selection).view() == old(selection).view(),
{
    if !ctrl && !shift {
        selection.clear();
        true
    } else {
        false
    }
}

/// The window's state as plain values: its mode, layout and sorting
/// choices, the path bar, the search bar, the status line, the keyboard
/// cursor, the dialogs (what each is open on) and the text typed into
/// them. Pixel geometry, timers and caches of toolkit images are kept by
/// the window toolkit; where the pointer opened a context menu too.
#[derive(Clone, Debug)]
pub struct UIState {
    pub mode: Mode,
    pub view_mode: ViewMode,
    pub path_input: String,
    /// Counts the edits of the path bar, so that only the latest is acted
    /// upon.
    pub path_version: u64,
    pub search_visible: bool,
    pub search_regex: bool,
    pub search_query: String,
    pub search_version: u64,
    pub search_deep: bool,
    pub type_buffer: String,
    pub show_hidden: bool,
    pub sidebar_visible: bool,
    pub sort_key: SortKey,
    pub sort_direction: SortDirection,
    pub status_msg: String,
    pub keyboard_cursor: Option<usize>,
    pub context_menu: Option<ContextTarget>,
    pub properties_modal: Option<PropertiesDetails>,
    pub properties_mode_input: String,
    pub destructive_action_modal: Option<(DestructiveAction, Vec<String>)>,
    pub rename_modal: Option<String>,
    pub rename_input: String,
    pub conflict_modal: Option<(String, String)>,
    pub show_new_modal: Option<&'static str>,
    pub new_input: String,
    pub compress_wizard: Option<String>,
    pub compress_name_input: String,
    pub compress_format: String,
    pub compress_level: String,
    pub save_dialog_input: String,
    pub batch_rename_modal: bool,
    pub batch_rename_pattern: String,
    pub batch_rename_replace: String,
    pub open_with_modal: Option<String>,
    pub open_with_cmd: String,
}

impl UIState {
    /// No dialog is open.
    pub open spec fn all_closed(&self) -> bool {
        &&& self.context_menu is None
        &&& self.properties_modal is None
        &&& self.destructive_action_modal is None
        &&& self.rename_modal is None
        &&& self.conflict_modal is None
        &&& self.show_new_modal is None
        &&& self.compress_wizard is None
        &&& !self.batch_rename_modal
        &&& self.open_with_modal is None
    }

    /// This state with every dialog and the context menu closed, and
    /// nothing else changed.
    pub open spec fn dialogs_closed(self) -> UIState {
        UIState {
            context_menu: None,
            properties_modal: None,
            destructive_action_modal: None,
            rename_modal: None,
            conflict_modal: None,
            show_new_modal: None,
            compress_wizard: None,
            batch_rename_modal: false,
            open_with_modal: None,
            ..self
        }
    }

    /// Whether keys go to a dialog rather than to the file list: one of
    /// the dialogs with a text field or details is open, or the window is
    /// a save dialog.
    pub open spec fn modal_active(&self) -> bool {
        ||| self.rename_modal is Some
        ||| self.batch_rename_modal
        ||| self.show_new_modal is Some
        ||| self.compress_wizard is Some
        ||| self.open_with_modal is Some
        ||| self.properties_modal is Some
        ||| self.mode is Save
    }

    /// The state of a window opening in `mode`: the list view sorted by
    /// name, ascending; hidden files hidden and the sidebar shown; empty
    /// path and search bars (plain search, not deep); status "Ready"; no
    /// cursor; no dialog open and every input empty, but the compression
    /// wizard's choices, which start at "zip" and "Normal".
    pub fn new(mode: Mode) -> (s: Self)
        ensures
            s.mode == mode,
            s.view_mode == ViewMode::List,
            s.sort_key == SortKey::Name,
            s.sort_direction == SortDirection::Asc,
            !s.show_hidden,
            s.sidebar_visible,
            s.path_input@.len() == 0,
            s.path_version == 0,
            !s.search_visible,
            !s.search_regex,
            !s.search_deep,
            s.search_query@.len() == 0,
            s.search_version == 0,
            s.type_buffer@.len() == 0,
            s.status_msg@ == "Ready"@,
            s.keyboard_cursor is None,
            s.all_closed(),
            s.properties_mode_input@.len() == 0,
            s.rename_input@.len() == 0,
            s.new_input@.len() == 0,
            s.compress_name_input@.len() == 0,
            s.compress_format@ == "zip"@,
            s.compress_level@ == "Normal"@,
            s.save_dialog_input@.len() == 0,
            s.batch_rename_pattern@.len() == 0,
            s.batch_rename_replace@.len() == 0,
            s.open_with_cmd@.len() == 0,
    {
        UIState {
            mode,
            view_mode: ViewMode::List,
            path_input: String::new(),
            path_version: 0,
            search_visible: false,
            search_regex: false,
            search_query: String::new(),
            search_version: 0,
            search_deep: false,
            type_buffer: String::new(),
            show_hidden: false,
            sidebar_visible: true,
            sort_key: SortKey::Name,
            sort_direction: SortDirection::Asc,
            status_msg: String::from_str("Ready"),
            keyboard_cursor: None,
            context_menu: None,
            properties_modal: None,
            properties_mode_input: String::new(),
            destructive_action_modal: None,
            rename_modal: None,
            rename_input: String::new(),
            conflict_modal: None,
            show_new_modal: None,
            new_input: String::new(),
            compress_wizard: None,
            compress_name_input: String::new(),
            compress_format: String::from_str("zip"),
            compress_level: String::from_str("Normal"),
            save_dialog_input: String::new(),
            batch_rename_modal: false,
            batch_rename_pattern: String::new(),
            batch_rename_replace: String::new(),
            open_with_modal: None,
            open_with_cmd: String::new(),
        }
    }

    /// Closes every dialog and the context menu; nothing else changes.
    pub fn close_modals(&mut self)
        ensures
            *final(self) == old(self).dialogs_closed(),
    {
        self.context_menu = None;
        self.properties_modal = None;
        self.destructive_action_modal = None;
        self.conflict_modal = None;
        self.show_new_modal = None;
        self.compress_wizard = None;
        self.rename_modal = None;
        self.batch_rename_modal = false;
        self.open_with_modal = None;
    }

    /// Confirms the rename dialog: closes it and, when the typed name is
    /// acceptable ([`invalid_file_name`]), returns the file and the path it
    /// is to be renamed to (its name replaced by `input`, as
    /// `Path::with_file_name` does); `None` when no rename dialog was open.
    pub fn confirm_rename(&mut self, input: &str) -> (r: Option<Result<(String, String), AppError>>)
        ensures
            *final(self) == (UIState { rename_modal: None, ..*old(self) }),
            old(self).rename_modal is None <==> r is None,
            old(self).rename_modal matches Some(t) ==> (if invalid_file_name(input@) {
                r matches Some(Err(AppError::Security(m))) && m@ == "Invalid filename."@
            } else {
                r matches Some(Ok((from, to))) && from@ == t@ && to@ == with_name(t@, input@)
            }),
    {
        let target = match self.rename_modal.take() {
            Some(t) => t,
            None => return None,
        };
        match sanitize_filename(input) {
            Ok(name) => {
                let to = with_file_name(target.as_str(), name);
                Some(Ok((target, to)))
            },
            Err(e) => Some(Err(e)),
        }
    }

    /// Confirms the new-folder or new-file dialog: closes it and, when the
    /// typed name is acceptable, returns the path to create in
    /// `current_dir`; `None` when no such dialog was open.
    pub fn confirm_new(&mut self, current_dir: &str, input: &str) -> (r: Option<Result<String, AppError>>)
        ensures
            *final(self) == (UIState { show_new_modal: None, ..*old(self) }),
            old(self).show_new_modal is None <==> r is None,
            old(self).show_new_modal is Some ==> (if invalid_file_name(input@) {
                r matches Some(Err(AppError::Security(m))) && m@ == "Invalid filename."@
            } else {
                r matches Some(Ok(p)) && p@ == joined(current_dir@, input@)
            }),
    {
        if self.show_new_modal.take().is_none() {
            return None;
        }
        match sanitize_filename(input) {
            Ok(name) => Some(Ok(join(current_dir, name))),
            Err(e) => Some(Err(e)),
        }
    }

    /// Confirms the compression wizard: closes it and, when the typed
    /// archive name is acceptable, returns what is compressed (the entry
    /// the wizard was opened on) and the name; `None` when the wizard was
    /// not open.
    pub fn confirm_compress(&mut self, input: &str) -> (r: Option<Result<(String, String), AppError>>)
        ensures
            *final(self) == (UIState { compress_wizard: None, ..*old(self) }),
            old(self).compress_wizard is None <==> r is None,
            old(self).compress_wizard matches Some(t) ==> (if invalid_file_name(input@) {
                r matches Some(Err(AppError::Security(m))) && m@ == "Invalid filename."@
            } else {
                r matches Some(Ok((target, name))) && target@ == t@ && name@ == input@
            }),
    {
        let target = match self.compress_wizard.take() {
            Some(t) => t,
            None => return None,
        };
        match sanitize_filename(input) {
            Ok(name) => Some(Ok((target, String::from_str(name)))),
            Err(e) => Some(Err(e)),
        }
    }

    /// Confirms a change of permissions in the properties dialog: when it
    /// is open and `mode_input` is an octal number ([`parse_octal`]),
    /// closes every dialog and returns the file and its new mode;
    /// otherwise changes nothing and returns `None`.
    pub fn confirm_permissions(&mut self, mode_input: &str) -> (r: Option<(String, u32)>)
        ensures
            match (old(self).properties_modal, parse_octal(mode_input@)) {
                (Some(props), Some(mode)) => {
                    &&& r matches Some((p, m)) && p@ == props.path@ && m == mode
                    &&& *final(self) == old(self).dialogs_closed()
                },
                _ => r is None && *final(self) == *old(self),
            },
    {
        let path = match &self.properties_modal {
            Some(props) => props.path.clone(),
            None => return None,
        };
        match parse_mode(mode_input) {
            Some(mode) => {
                self.close_modals();
                Some((path, mode))
            },
            None => None,
        }
    }

    /// Runs the open-with dialog: closes every dialog and returns the
    /// entry it was opened on; `None` (and nothing changed) when it was
    /// not open.
    pub fn take_open_with(&mut self) -> (r: Option<String>)
        ensures
            r == old(self).open_with_modal,
            r is Some ==> *final(self) == old(self).dialogs_closed(),
            r is None ==> *final(self) == *old(self),
    {
        match self.open_with_modal.take() {
            Some(t) => {
                self.close_modals();
                Some(t)
            },
            None => None,
        }
    }

    /// Whether keys go to a dialog, as [`UIState::modal_active`] states.
    pub fn is_modal_active(&self) -> (b: bool)
        ensures
            b == self.modal_active(),
    {
        self.rename_modal.is_some() || self.batch_rename_modal || self.show_new_modal.is_some()
            || self.compress_wizard.is_some() || self.open_with_modal.is_some()
            || self.properties_modal.is_some() || matches!(self.mode, Mode::Save(_))
    }
}

/// Once the dialogs are closed, keys go to a dialog only in a save
/// dialog window.
pub proof fn lemma_closed_means_only_save_is_modal(s: UIState)
    requires
        s.all_closed(),
    ensures
        s.modal_active() == (s.mode is Save),
{
}

/// The dialogs the window can show over the file list.
#[derive(Clone, Copy, Debug, PartialEq, Eq, Structural)]
pub enum Dialog {
    ContextMenu,
    BatchRename,
    NewEntry,
    Properties,
    Conflict,
    Destructive,
    Rename,
    OpenWith,
    Compress,
}

impl UIState {
    /// The dialog drawn over the file list: the first open one in the
    /// order context menu, batch rename, new entry, properties, conflict,
    /// confirmation, rename, open with, compression.
    pub open spec fn dialog_shown(&self) -> Option<Dialog> {
        if self.context_menu is Some {
            Some(Dialog::ContextMenu)
        } else if self.batch_rename_modal {
            Some(Dialog::BatchRename)
        } else if self.show_new_modal is Some {
            Some(Dialog::NewEntry)
        } else if self.properties_modal is Some {
            Some(Dialog::Properties)
        } else if self.conflict_modal is Some {
            Some(Dialog::Conflict)
        } else if self.destructive_action_modal is Some {
            Some(Dialog::Destructive)
        } else if self.rename_modal is Some {
            Some(Dialog::Rename)
        } else if self.open_with_modal is Some {
            Some(Dialog::OpenWith)
        } else if self.compress_wizard is Some {
            Some(Dialog::Compress)
        } else {
            None
        }
    }

    /// The dialog drawn, as [`UIState::dialog_shown`] states.
    pub fn shown_dialog(&self) -> (d: Option<Dialog>)
        ensures
            d == self.dialog_shown(),
    {
        if self.context_menu.is_some() {
            Some(Dialog::ContextMenu)
        } else if self.batch_rename_modal {
            Some(Dialog::BatchRename)
        } else if self.show_new_modal.is_some() {
            Some(Dialog::NewEntry)
        } else if self.properties_modal.is_some() {
            Some(Dialog::Properties)
        } else if self.conflict_modal.is_some() {
            Some(Dialog::Conflict)
        } else if self.destructive_action_modal.is_some() {
            Some(Dialog::Destructive)
        } else if self.rename_modal.is_some() {
            Some(Dialog::Rename)
        } else if self.open_with_modal.is_some() {
            Some(Dialog::OpenWith)
        } else if self.compress_wizard.is_some() {
            Some(Dialog::Compress)
        } else {
            None
        }
    }
}

/// What the conflict dialog says about the destination `dest`.
pub open spec fn conflict_text(dest: Seq<char>) -> Seq<char> {
    "An item named '"@ + match file_name(dest) {
        Some(n) => n,
        None => Seq::empty(),
    } + "' already exists."@
}

/// The conflict dialog's message, as [`conflict_text`] states.
pub fn conflict_message(dest: &str) -> (s: String)
    ensures
        s@ == conflict_text(dest@),
{
    let name = match file_name_of(dest) {
        Some(n) => n,
        None => String::new(),
    };
    concat3("An item named '", name.as_str(), "' already exists.")
}

/// The verb of a destructive action.
pub open spec fn action_verb(action: DestructiveAction) -> Seq<char> {
    match action {
        DestructiveAction::Permadelete => "permanently delete"@,
        DestructiveAction::Shred => "securely shred"@,
    }
}

/// What the confirmation dialog asks before `action` on `count` items.
pub open spec fn confirm_text(action: DestructiveAction, count: nat) -> Seq<char> {
    "Are you sure you want to "@ + action_verb(action) + " the selected "@ + decimal(count)
        + " item(s)?"@
}

/// The confirmation dialog's question, as [`confirm_text`] states.
pub fn confirm_question(action: DestructiveAction, count: usize) -> (s: String)
    ensures
        s@ == confirm_text(action, count as nat),
{
    let verb = match action {
        DestructiveAction::Permadelete => "permanently delete",
        DestructiveAction::Shred => "securely shred",
    };
    let head = concat3("Are you sure you want to ", verb, " the selected ");
    let n = decimal_string(count as u128);
    concat3(head.as_str(), n.as_str(), " item(s)?")
}

/// The "Contains" line of the properties dialog: how many items a folder
/// holds, or "--" for a file.
pub open spec fn contains_text(items: Option<usize>) -> Seq<char> {
    "Contains: "@ + match items {
        Some(c) => decimal(c as nat) + " Items"@,
        None => "--"@,
    }
}

/// The "Contains" line, as [`contains_text`] states.
pub fn contains_line(items: Option<usize>) -> (s: String)
    ensures
        s@ == contains_text(items),
{
    match items {
        Some(c) => {
            let n = decimal_string(c as u128);
            let s = concat3("Contains: ", n.as_str(), " Items");
            assert(s@ =~= "Contains: "@ + (n@ + " Items"@));
            s
        },
        None => {
            let s = String::from_str("Contains: --");
            proof {
                reveal_strlit("Contains: --");
                reveal_strlit("Contains: ");
                reveal_strlit("--");
            }
            assert(s@ =~= "Contains: "@ + "--"@);
            s
        },
    }
}

} // verus!

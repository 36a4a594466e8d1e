//! The data that flows between the file manager's views, its state and its
//! background work. Paths are held as their (lossy) text, and times as
//! nanoseconds relative to the Unix epoch.
use std::sync::atomic::AtomicBool;
use std::sync::Arc;

use vstd::prelude::*;

verus! {

/// What the window is for: managing files, or answering a file-chooser
/// request (open, or save under a suggested name).
#[derive(Clone, Debug, PartialEq)]
pub enum Mode {
    Manager,
    Open,
    Save(String),
}

/// How the directory contents are laid out.
#[derive(Clone, Copy, Debug, PartialEq, Eq, Structural)]
pub enum ViewMode {
    List,
    Grid,
}

/// What a paste does with the clipboard's files.
#[derive(Clone, Copy, Debug, PartialEq, Eq, Structural)]
pub enum ClipboardAction {
    Copy,
    Cut,
}

/// The operations that ask for confirmation because they cannot be undone.
#[derive(Clone, Copy, Debug, PartialEq, Eq, Structural)]
pub enum DestructiveAction {
    Permadelete,
    Shred,
}

/// A mounted disk shown in the sidebar.
#[derive(Clone, Debug)]
pub struct DiskInfo {
    pub name: String,
    pub mount_point: String,
}

/// One row of a directory listing.
#[derive(Clone, Debug)]
pub struct FileEntry {
    pub path: String,
    pub name: String,
    /// The name as the grid view shows it (at most ten characters).
    pub grid_name: String,
    pub is_dir: bool,
    pub size_bytes: u64,
    /// Modification time, in nanoseconds after (or, negative, before) the
    /// Unix epoch.
    pub modified: i128,
    pub size_str: String,
    pub modified_str: String,
    pub file_type_str: String,
    pub icon_name: &'static str,
}

/// A place in the sidebar.
#[derive(Clone, Debug)]
pub struct SidebarItem {
    pub name: String,
    pub icon: &'static str,
    pub path: String,
}

/// What a context menu was opened on.
#[derive(Clone, Debug, PartialEq)]
pub enum ContextTarget {
    File(String, &'static str),
    EmptySpace,
}

/// The contents of the properties dialog.
#[derive(Clone, Debug)]
pub struct PropertiesDetails {
    pub path: String,
    pub file_type: String,
    pub size_str: String,
    pub created: String,
    pub modified: String,
    pub accessed: String,
    pub owner: u32,
    pub group: u32,
    pub mode_octal: u32,
    pub items_count: Option<usize>,
    pub icon: &'static str,
}

/// A paste in progress: the (source, destination) pairs still to do, the
/// next one last.
#[derive(Clone, Debug)]
pub struct PasteState {
    pub total: usize,
    pub completed: usize,
    pub error_count: usize,
    pub pending: Vec<(String, String)>,
    pub is_cut: bool,
    pub overwrite_approved: bool,
}

/// A deletion in progress: the paths still to do, the next one last.
#[derive(Clone, Debug)]
pub struct DeleteState {
    pub total: usize,
    pub completed: usize,
    pub error_count: usize,
    pub pending: Vec<String>,
    pub is_permanent: bool,
}

/// A long-running job shown in the status bar.
#[derive(Debug)]
pub struct BackgroundTask {
    pub title: String,
    pub current_bytes: u64,
    pub total_bytes: u64,
    pub active_file: String,
    /// Set to ask the job to stop.
    pub cancel_token: Arc<AtomicBool>,
}

/// What a background job reports.
#[derive(Clone, Debug)]
pub enum ProgressMsg {
    /// The job's total size is known.
    Init { id: usize, total_bytes: u64 },
    /// More bytes are done, now working on `active_file`.
    Update { id: usize, bytes_chunk: u64, active_file: String },
}

/// The column that the listing is sorted by.
#[derive(Clone, Copy, Debug, PartialEq, Eq, Structural)]
pub enum SortKey {
    Name,
    Size,
    Modified,
}

/// Ascending or descending.
#[derive(Clone, Copy, Debug, PartialEq, Eq, Structural)]
pub enum SortDirection {
    Asc,
    Desc,
}

/// Navigation requests.
#[derive(Clone, Debug)]
pub enum NavMsg {
    Navigate(String),
    NavigateUp,
    NavigateBack,
    NavigateForward,
    NavigateToInput(String),
    PathInputChanged(String),
    PathInputDebounced(String, u64),
    RefreshCurrentDir,
    DirectoryLoaded(String, Vec<FileEntry>),
    DirectoryLoadFailed(String),
}

/// File operations requested by the user.
#[derive(Clone, Debug)]
pub enum FileMsg {
    ActionCopy,
    ActionCut,
    ActionPaste(Option<String>),
    ActionTrash,
    ActionShred,
    ActionRestore(String),
    ConfirmDestructiveAction(DestructiveAction, Vec<String>),
    EmptyTrash,
    ActionExtract(String),
    ActionOpenTerminal,
    ActionSelectAll,
    ActionForkWindow,
    ConfirmRename,
    ConfirmNewFolder,
    ConfirmNewFile,
    ConfirmCompress,
    ConfirmBatchRename,
    ConfirmPermissionsChange,
    ExecuteOpenWith,
}

/// Requests that change what the window shows.
#[derive(Clone, Debug)]
pub enum UIMsg {
    CloseAllModals,
    ToggleSidebar,
    ToggleSidebarNode(String),
    SidebarNodeLoaded(String, Vec<FileEntry>),
    ToggleHiddenFiles,
    SortBy(SortKey),
    ToggleSearch,
    CloseSearch,
    ToggleRegex,
    SearchChanged(String),
    SearchExecute(u64),
    SearchCompleted(Arc<Vec<FileEntry>>, Vec<usize>),
    ToggleDeepSearch,
    OpenBatchRenameModal,
    BatchRenamePatternChanged(String),
    BatchRenameReplaceChanged(String),
    HoverRow(usize, bool),
    ItemPressed(usize, String),
    ItemReleased(String),
    OpenProperties(String, &'static str),
    PropertiesLoaded(PropertiesDetails),
    PropertiesModeChanged(String),
    OpenRenameModal(String),
    RenameInputChanged(String),
    OpenNewFolderModal,
    OpenNewFileModal,
    NewInputChanged(String),
    OpenCompressWizard(String),
    CompressNameChanged(String),
    CompressFormatChanged(String),
    CompressLevelChanged(String),
    OpenWithModal(String),
    OpenWithCmdChanged(String),
    DialogConfirm,
    DialogCancel,
    DialogSaveNameChanged(String),
    ToggleViewMode,
    UpdateWindowTitle(String),
}

/// Steps of the background work queues.
#[derive(Debug)]
pub enum TaskMsg {
    ProcessNextPaste,
    ProcessNextPasteResult(usize, Result<(), String>),
    ResolveConflict(Option<bool>),
    PumpProgress(Option<ProgressMsg>),
    CancelTask(usize),
    ProcessNextDelete,
    ProcessNextDeleteResult(Result<(), String>),
    CommandFinished(usize, Result<String, String>),
}

} // verus!

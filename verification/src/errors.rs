//! The error type of the library's fallible operations.
use vstd::prelude::*;

verus! {

/// What can go wrong in a file operation.
#[derive(Debug, Clone, PartialEq, Eq)]
pub enum AppError {
    /// An I/O failure, with the system's message.
    Io(String),
    /// A request that would be unsafe to carry out.
    Security(String),
    /// The user stopped the operation.
    Cancelled,
    /// The target path is taken.
    AlreadyExists(String),
    /// An archive could not be read or written.
    Archive(String),
    /// A background task failed.
    Task(String),
}

/// The message that a value of [`AppError`] prints.
pub open spec fn error_message(e: AppError) -> Seq<char> {
    match e {
        AppError::Io(m) => "I/O Error: "@ + m@,
        AppError::Security(m) => "Security violation: "@ + m@,
        AppError::Cancelled => "Operation cancelled."@,
        AppError::AlreadyExists(p) => "Target already exists: "@ + p@,
        AppError::Archive(m) => "Archive error: "@ + m@,
        AppError::Task(m) => "Task failed: "@ + m@,
    }
}

impl AppError {
    /// A security violation with the given explanation.
    pub fn security(msg: &str) -> (e: Self)
        ensures
            e matches AppError::Security(m) && m@ == msg@,
    {
        AppError::Security(String::from_str(msg))
    }

    /// The text that describes the error to the user.
    pub fn message(&self) -> (s: String)
        ensures
            s@ == error_message(*self),
    {
        match self {
            AppError::Io(m) => String::from_str("I/O Error: ").concat(m.as_str()),
            AppError::Security(m) => String::from_str("Security violation: ").concat(m.as_str()),
            AppError::Cancelled => String::from_str("Operation cancelled."),
            AppError::AlreadyExists(p) => String::from_str("Target already exists: ").concat(
                p.as_str(),
            ),
            AppError::Archive(m) => String::from_str("Archive error: ").concat(m.as_str()),
            AppError::Task(m) => String::from_str("Task failed: ").concat(m.as_str()),
        }
    }
}

} // verus!

//! Copying: what a copy does with each kind of file, and the byte count of a
//! file transfer, which reports every byte exactly once.
use vstd::prelude::*;

use crate::errors::AppError;
use crate::math::{check_security, is_system_object, FileKind, MetaInfo};
use crate::progress::{copy_report_due, COPY_REPORT_BYTES, REPORT_INTERVAL_MS};

verus! {

/// What copying one source path does.
#[derive(Clone, Copy, Debug, PartialEq, Eq, Structural)]
pub enum CopyStep {
    /// Make a link with the source link's target; first remove what is at
    /// the destination when `replace`.
    Link { replace: bool },
    /// Create the directory and copy each of its entries into it.
    Descend,
    /// Copy the contents: into a new file, or over an existing one when
    /// `overwrite`.
    Contents { overwrite: bool },
}

/// Decides how to copy a source with this metadata: device nodes, FIFOs
/// and sockets are refused; a link is made anew (replacing what is at the
/// destination only when overwriting and something is there); a directory
/// is descended into; anything else has its contents copied.
pub fn copy_step(meta: &MetaInfo, overwrite: bool, dest_exists: bool) -> (r: Result<CopyStep, AppError>)
    ensures
        is_system_object(meta.kind) ==> (r matches Err(AppError::Security(m)) && m@
            == "Target is a system device. Cannot operate safely."@),
        !is_system_object(meta.kind) && meta.kind == FileKind::Symlink ==> r == Ok::<CopyStep, AppError>(
            CopyStep::Link { replace: overwrite && dest_exists },
        ),
        !is_system_object(meta.kind) && meta.kind == FileKind::Directory ==> r == Ok::<CopyStep, AppError>(
            CopyStep::Descend,
        ),
        meta.kind == FileKind::Regular ==> r == Ok::<CopyStep, AppError>(CopyStep::Contents { overwrite }),
{
    match check_security(meta) {
        Err(e) => Err(e),
        Ok(()) => match meta.kind {
            FileKind::Symlink => Ok(CopyStep::Link { replace: overwrite && dest_exists }),
            FileKind::Directory => Ok(CopyStep::Descend),
            _ => Ok(CopyStep::Contents { overwrite }),
        },
    }
}

/// The most bytes one kernel copy call is asked for: 4 MiB.
pub const COPY_CHUNK: u64 = 4_194_304;

/// The byte count of one file transfer: what is left to copy, and what was
/// copied but not reported yet.
pub struct CopyTransfer {
    pub remaining: u64,
    pub bytes_acc: u64,
    /// The size the transfer started with.
    pub size: Ghost<nat>,
    /// The bytes reported so far.
    pub reported: Ghost<nat>,
}

impl CopyTransfer {
    pub open spec fn size(&self) -> nat {
        self.size@
    }

    pub open spec fn reported(&self) -> nat {
        self.reported@
    }

    /// Every byte is either left, or copied and not reported yet, or
    /// reported.
    pub open spec fn wf(&self) -> bool {
        &&& self.reported() + self.bytes_acc + self.remaining == self.size()
        &&& self.size() <= u64::MAX
    }

    /// A transfer of `size` bytes.
    pub fn new(size: u64) -> (t: Self)
        ensures
            t.wf(),
            t.size() == size,
            t.remaining == size,
            t.bytes_acc == 0,
            t.reported() == 0,
    {
        CopyTransfer { remaining: size, bytes_acc: 0, size: Ghost(size as nat), reported: Ghost(0) }
    }

    /// How many bytes the next kernel copy call asks for.
    pub fn next_len(&self) -> (n: u64)
        ensures
            n == (if self.remaining < COPY_CHUNK {
                self.remaining
            } else {
                COPY_CHUNK
            }),
    {
        if self.remaining < COPY_CHUNK {
            self.remaining
        } else {
            COPY_CHUNK
        }
    }

    /// Counts `n` more bytes copied, `elapsed_ms` after the last report.
    /// Returns the bytes to report when a report is due (more than
    /// [`COPY_REPORT_BYTES`] pending and more than [`REPORT_INTERVAL_MS`]
    /// passed); they then count as reported.
    pub fn advance(&mut self, n: u64, elapsed_ms: u64) -> (report: Option<u64>)
        requires
            old(self).wf(),
            n <= old(self).remaining,
        ensures
            final(self).wf(),
            final(self).size() == old(self).size(),
            final(self).remaining == old(self).remaining - n,
            report == (if old(self).bytes_acc + n > COPY_REPORT_BYTES && elapsed_ms > REPORT_INTERVAL_MS {
                Some((old(self).bytes_acc + n) as u64)
            } else {
                None
            }),
            report is Some ==> final(self).bytes_acc == 0,
            report is None ==> final(self).bytes_acc == old(self).bytes_acc + n,
    {
        self.remaining = self.remaining - n;
        self.bytes_acc = self.bytes_acc + n;
        if copy_report_due(self.bytes_acc, elapsed_ms) {
            let c = self.bytes_acc;
            self.bytes_acc = 0;
            self.reported = Ghost(self.reported@ + c as nat);
            Some(c)
        } else {
            None
        }
    }

    /// Ends the transfer: returns the bytes still to report, if any; after
    /// it, every copied byte has been reported exactly once.
    pub fn finish(&mut self) -> (report: Option<u64>)
        requires
            old(self).wf(),
        ensures
            final(self).wf(),
            final(self).size() == old(self).size(),
            final(self).remaining == old(self).remaining,
            final(self).bytes_acc == 0,
            report == (if old(self).bytes_acc > 0 {
                Some(old(self).bytes_acc)
            } else {
                None
            }),
            final(self).reported() == final(self).size() - final(self).remaining,
    {
        if self.bytes_acc > 0 {
            let c = self.bytes_acc;
            self.bytes_acc = 0;
            self.reported = Ghost(self.reported@ + c as nat);
            Some(c)
        } else {
            None
        }
    }
}

} // verus!

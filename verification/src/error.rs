//! What the runtime reads of an I/O error.
use vstd::prelude::*;

verus! {

/// The kinds of I/O error that the runtime tells apart.
#[derive(Debug, Clone, Copy, PartialEq, Eq, Structural)]
pub enum ErrorKind {
    /// The file descriptor is already in the interest list.
    AlreadyExists,
    /// The operation would have to wait.
    WouldBlock,
    /// Every other kind.
    Other,
}

/// An I/O error: its kind, and the error number where it came from the
/// operating system.
#[derive(Debug, Clone, Copy, PartialEq, Eq)]
pub struct IoError {
    pub kind: ErrorKind,
    pub raw_os_error: Option<i32>,
}

} // verus!

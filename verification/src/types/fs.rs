//! What the commands learn from the file system, as plain values.
use vstd::prelude::*;

verus! {

/// The kinds of I/O failure the commands tell apart.
pub enum IoErrorKind {
    NotFound,
    AlreadyExists,
    Other,
}

/// A failed file-system call: its kind and the system's description of it.
pub struct IoFailure {
    pub kind: IoErrorKind,
    pub text: String,
}

/// What looking up a path found.
pub enum Probe {
    /// The lookup failed.
    Failed(IoFailure),
    /// A directory is there.
    Directory,
    /// Something other than a directory is there.
    NotDirectory,
}

} // verus!

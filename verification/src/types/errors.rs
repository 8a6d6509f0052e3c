use vstd::prelude::*;

verus! {

/// What a command can end with besides success.
pub enum ShellError {
    /// The shell should stop, with the given exit status.
    Exit(i32),
    /// No built-in command has this name.
    CommandNotFound(String),
    /// A failure whose message (possibly empty) goes to standard error.
    Generic(String),
}

} // verus!

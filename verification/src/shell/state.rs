use vstd::prelude::*;

verus! {

/// What the shell keeps between commands.
pub struct ShellState {
    /// `exit` has been run.
    pub exit_requested: bool,
    /// The status the shell ends with.
    pub exit_code: i32,
}

impl ShellState {
    /// A fresh shell: no exit asked for, status 0.
    pub fn new() -> (s: Self)
        ensures
            !s.exit_requested,
            s.exit_code == 0,
    {
        ShellState { exit_requested: false, exit_code: 0 }
    }
}

} // verus!

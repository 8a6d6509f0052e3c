use vstd::prelude::*;

verus! {

/// A command line split into the command's name and its arguments.
pub struct ParsedCommand {
    pub name: String,
    pub args: Vec<String>,
}

} // verus!

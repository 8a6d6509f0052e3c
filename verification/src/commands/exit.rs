//! `exit [status]`.
use vstd::prelude::*;
use crate::numbers::{parse_i32, parse_i32_spec};
use crate::shell::state::ShellState;
use crate::text::views;
use crate::types::command::ParsedCommand;
use crate::types::errors::ShellError;

verus! {

/// The status `exit` ends the shell with: its first argument read as an
/// `i32`, or 0 when there is none or it is not such a number.
pub open spec fn exit_status(args: Seq<Seq<char>>) -> i32 {
    if args.len() > 0 {
        match parse_i32_spec(args[0]) {
            Some(n) => n,
            None => 0,
        }
    } else {
        0
    }
}

/// Asks the shell to stop, with the status that the arguments give.
pub fn run(cmd: &ParsedCommand, state: &mut ShellState) -> (r: Result<(), ShellError>)
    ensures
        final(state).exit_requested,
        final(state).exit_code == old(state).exit_code,
        r matches Err(ShellError::Exit(code)) && code == exit_status(views(cmd.args@)),
{
    let mut code: i32 = 0;
    if cmd.args.len() > 0 {
        if let Some(parsed) = parse_i32(cmd.args[0].as_str()) {
            code = parsed;
        }
    }
    state.exit_requested = true;
    Err(ShellError::Exit(code))
}

} // verus!

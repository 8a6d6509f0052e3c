//! `mkdir dir...`.
use vstd::prelude::*;
use crate::constants::fallback::{ERR_FILE_EXISTS, ERR_GENERIC, ERR_MISSING_OPERAND};
use crate::messages::{fill3, file_exists, generic, missing_operand};
use crate::text::fill_first;
use crate::types::command::ParsedCommand;
use crate::types::errors::ShellError;
use crate::types::fs::{IoErrorKind, IoFailure};

verus! {

/// The name shown in `mkdir`'s messages.
pub open spec fn mkdir_name() -> Seq<char> {
    seq!['m', 'k', 'd', 'i', 'r']
}

/// Refuses `mkdir` without operands.
pub fn check(cmd: &ParsedCommand) -> (r: Result<(), ShellError>)
    ensures
        cmd.args@.len() == 0 ==> (r matches Err(ShellError::Generic(m)) && m@ == fill_first(
            ERR_MISSING_OPERAND@,
            mkdir_name(),
        )),
        cmd.args@.len() > 0 ==> r is Ok,
{
    if cmd.args.len() == 0 {
        Err(ShellError::Generic(missing_operand(mkdir_word())))
    } else {
        Ok(())
    }
}

/// The message when creating `dir` failed.
pub fn create_failed(dir: &str, failure: &IoFailure) -> (m: String)
    ensures
        failure.kind is AlreadyExists ==> m@ == fill_first(ERR_FILE_EXISTS@, dir@),
        !(failure.kind is AlreadyExists) ==> m@ == fill3(
            ERR_GENERIC@,
            mkdir_name(),
            dir@,
            failure.text@,
        ),
{
    match failure.kind {
        IoErrorKind::AlreadyExists => file_exists(dir),
        _ => generic(mkdir_word(), dir, failure.text.as_str()),
    }
}


/// The command's name, as `mkdir_name()` states it.
fn mkdir_word() -> (s: &'static str)
    ensures
        s@ == mkdir_name(),
{
    let s = "mkdir";
    proof {
        reveal_strlit("mkdir");
    }
    assert(s@ =~= seq!['m', 'k', 'd', 'i', 'r']);
    s
}

} // verus!

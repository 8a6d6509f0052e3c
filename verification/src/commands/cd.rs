//! `cd [dir]`.
use vstd::prelude::*;
use crate::constants::fallback::{ERR_CD_HOME_NOT_SET, ERR_CD_TOO_MANY_ARGS, ERR_NO_SUCH_FILE_OR_DIR};
use crate::messages::{fill2, no_such_file};
use crate::text::owned;
use crate::types::command::ParsedCommand;
use crate::types::errors::ShellError;

verus! {

/// The directory `cd` goes to: its one argument, or the home directory when
/// it has none; more than one argument, or none without a home directory,
/// is refused.
pub fn target(cmd: &ParsedCommand, home: Option<&str>) -> (r: Result<String, ShellError>)
    ensures
        cmd.args@.len() > 1 ==> (r matches Err(ShellError::Generic(m)) && m@
            == ERR_CD_TOO_MANY_ARGS@),
        cmd.args@.len() == 1 ==> (r matches Ok(t) && t@ == cmd.args@[0]@),
        cmd.args@.len() == 0 && home is Some ==> (r matches Ok(t) && t@ == home->0@),
        cmd.args@.len() == 0 && home is None ==> (r matches Err(ShellError::Generic(m)) && m@
            == ERR_CD_HOME_NOT_SET@),
{
    if cmd.args.len() > 1 {
        return Err(ShellError::Generic(owned(ERR_CD_TOO_MANY_ARGS)));
    }
    if cmd.args.len() == 0 {
        match home {
            Some(h) => Ok(owned(h)),
            None => Err(ShellError::Generic(owned(ERR_CD_HOME_NOT_SET))),
        }
    } else {
        Ok(owned(cmd.args[0].as_str()))
    }
}

/// The failure when the working directory cannot be changed to `target`.
pub fn chdir_failed(target: &str) -> (e: ShellError)
    ensures
        e matches ShellError::Generic(m) && m@ == fill2(ERR_NO_SUCH_FILE_OR_DIR@, seq!['c', 'd'], target@),
{
    ShellError::Generic(no_such_file(cd_word(), target))
}

fn cd_word() -> (s: &'static str)
    ensures
        s@ == seq!['c', 'd'],
{
    let s = "cd";
    proof {
        reveal_strlit("cd");
    }
    assert(s@ =~= seq!['c', 'd']);
    s
}

} // verus!

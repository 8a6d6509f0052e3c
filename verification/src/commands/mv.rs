//! `mv source... dest`: files and directories alike are renamed.
use vstd::prelude::*;
use crate::constants::fallback::{ERR_GENERIC, ERR_NO_SUCH_FILE_OR_DIR};
use crate::messages::{fill2, fill3, generic, no_such_file};
use crate::types::fs::Probe;

verus! {

/// The name shown in `mv`'s messages.
pub open spec fn mv_name() -> Seq<char> {
    seq!['m', 'v']
}

/// The command's name, as `mv_name()` states it.
pub fn mv_word() -> (s: &'static str)
    ensures
        s@ == mv_name(),
{
    let s = "mv";
    proof {
        reveal_strlit("mv");
    }
    assert(s@ =~= seq!['m', 'v']);
    s
}

/// The message for a source `mv` cannot move, from what looking it up found;
/// `None` when it is there to be moved.
pub fn check_source(src: &str, probe: &Probe) -> (m: Option<String>)
    ensures
        probe is Failed ==> (m matches Some(s) && s@ == fill2(
            ERR_NO_SUCH_FILE_OR_DIR@,
            mv_name(),
            src@,
        )),
        !(probe is Failed) ==> m is None,
{
    match probe {
        Probe::Failed(_) => Some(no_such_file(mv_word(), src)),
        _ => None,
    }
}

/// The message when moving `src` failed with `err`.
pub fn move_failed(src: &str, err: &str) -> (m: String)
    ensures
        m@ == fill3(ERR_GENERIC@, mv_name(), src@, err@),
{
    generic(mv_word(), src, err)
}

} // verus!

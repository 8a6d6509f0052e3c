//! `cp source... dest`: files only; a directory source is refused.
use vstd::prelude::*;
use crate::constants::fallback::{ERR_CP_OMITTING_DIR, ERR_GENERIC, ERR_NO_SUCH_FILE_OR_DIR};
use crate::messages::{fill2, fill3, generic, no_such_file, omitting_directory};
use crate::text::fill_first;
use crate::types::fs::Probe;

verus! {

/// The name shown in `cp`'s messages.
pub open spec fn cp_name() -> Seq<char> {
    seq!['c', 'p']
}

/// The command's name, as `cp_name()` states it.
pub fn cp_word() -> (s: &'static str)
    ensures
        s@ == cp_name(),
{
    let s = "cp";
    proof {
        reveal_strlit("cp");
    }
    assert(s@ =~= seq!['c', 'p']);
    s
}

/// The message for a source `cp` cannot copy, from what looking it up found;
/// `None` when it can be copied.
pub fn check_source(src: &str, probe: &Probe) -> (m: Option<String>)
    ensures
        probe is Failed ==> (m matches Some(s) && s@ == fill2(
            ERR_NO_SUCH_FILE_OR_DIR@,
            cp_name(),
            src@,
        )),
        probe is Directory ==> (m matches Some(s) && s@ == fill_first(ERR_CP_OMITTING_DIR@, src@)),
        probe is NotDirectory ==> m is None,
{
    match probe {
        Probe::Failed(_) => Some(no_such_file(cp_word(), src)),
        Probe::Directory => Some(omitting_directory(src)),
        Probe::NotDirectory => None,
    }
}

/// The message when copying `src` failed with `err`.
pub fn copy_failed(src: &str, err: &str) -> (m: String)
    ensures
        m@ == fill3(ERR_GENERIC@, cp_name(), src@, err@),
{
    generic(cp_word(), src, err)
}

} // verus!

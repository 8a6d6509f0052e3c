//! `cat [file...]`: without files it copies standard input.
use vstd::prelude::*;
use crate::constants::fallback::{ERR_GENERIC, ERR_IS_A_DIRECTORY, ERR_NO_SUCH_FILE_OR_DIR};
use crate::messages::{fill2, fill3, generic, is_a_directory, no_such_file};
use crate::types::fs::{IoErrorKind, Probe};

verus! {

/// The name shown in `cat`'s messages.
pub open spec fn cat_name() -> Seq<char> {
    seq!['c', 'a', 't']
}

/// The message for a path `cat` cannot print, from what looking it up found;
/// `None` when it can be opened and printed.
pub fn check_path(path: &str, probe: &Probe) -> (m: Option<String>)
    ensures
        probe matches Probe::Failed(f) ==> (m matches Some(s) && s@ == (if f.kind is NotFound {
            fill2(ERR_NO_SUCH_FILE_OR_DIR@, cat_name(), path@)
        } else {
            fill3(ERR_GENERIC@, cat_name(), path@, f.text@)
        })),
        probe is Directory ==> (m matches Some(s) && s@ == fill2(
            ERR_IS_A_DIRECTORY@,
            cat_name(),
            path@,
        )),
        probe is NotDirectory ==> m is None,
{
    match probe {
        Probe::Failed(f) => match f.kind {
            IoErrorKind::NotFound => Some(no_such_file(cat_word(), path)),
            _ => Some(generic(cat_word(), path, f.text.as_str())),
        },
        Probe::Directory => Some(is_a_directory(cat_word(), path)),
        Probe::NotDirectory => None,
    }
}

/// The message when opening or reading `path` failed with `err`.
pub fn read_failed(path: &str, err: &str) -> (m: String)
    ensures
        m@ == fill3(ERR_GENERIC@, cat_name(), path@, err@),
{
    generic(cat_word(), path, err)
}


/// The command's name, as `cat_name()` states it.
fn cat_word() -> (s: &'static str)
    ensures
        s@ == cat_name(),
{
    let s = "cat";
    proof {
        reveal_strlit("cat");
    }
    assert(s@ =~= seq!['c', 'a', 't']);
    s
}

} // verus!

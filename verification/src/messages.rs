//! The messages the commands print, built from the texts of
//! `constants::fallback` by filling their `{}` placeholders in turn.
use vstd::prelude::*;
use crate::constants::fallback::{
    CMD_NOT_FOUND, ERR_CP_OMITTING_DIR, ERR_FILE_EXISTS, ERR_GENERIC, ERR_IS_A_DIRECTORY,
    ERR_LS_INVALID_OPTION, ERR_MISSING_DEST_OPERAND, ERR_MISSING_OPERAND, ERR_NO_SUCH_FILE_OR_DIR,
    ERR_TARGET_NOT_DIR,
};
use crate::text::{fill, fill_all, fill_first, fill_every, string_of};

verus! {

/// `t` with its first two placeholders filled by `a`, then `b`.
pub open spec fn fill2(t: Seq<char>, a: Seq<char>, b: Seq<char>) -> Seq<char> {
    fill_first(fill_first(t, a), b)
}

/// `t` with its first three placeholders filled by `a`, `b`, then `c`.
pub open spec fn fill3(t: Seq<char>, a: Seq<char>, b: Seq<char>, c: Seq<char>) -> Seq<char> {
    fill_first(fill2(t, a, b), c)
}

/// `<cmd>: <path>: No such file or directory`.
pub fn no_such_file(cmd: &str, path: &str) -> (m: String)
    ensures
        m@ == fill2(ERR_NO_SUCH_FILE_OR_DIR@, cmd@, path@),
{
    let a = fill(ERR_NO_SUCH_FILE_OR_DIR, cmd);
    fill(a.as_str(), path)
}

/// `<cmd>: <path>: <err>`.
pub fn generic(cmd: &str, path: &str, err: &str) -> (m: String)
    ensures
        m@ == fill3(ERR_GENERIC@, cmd@, path@, err@),
{
    let a = fill(ERR_GENERIC, cmd);
    let b = fill(a.as_str(), path);
    fill(b.as_str(), err)
}

/// `<cmd>: <path>: Is a directory`.
pub fn is_a_directory(cmd: &str, path: &str) -> (m: String)
    ensures
        m@ == fill2(ERR_IS_A_DIRECTORY@, cmd@, path@),
{
    let a = fill(ERR_IS_A_DIRECTORY, cmd);
    fill(a.as_str(), path)
}

/// `<cmd>: missing operand`.
pub fn missing_operand(cmd: &str) -> (m: String)
    ensures
        m@ == fill_first(ERR_MISSING_OPERAND@, cmd@),
{
    fill(ERR_MISSING_OPERAND, cmd)
}

/// `<cmd>: missing destination file operand after '<operand>'`.
pub fn missing_destination(cmd: &str, operand: &str) -> (m: String)
    ensures
        m@ == fill2(ERR_MISSING_DEST_OPERAND@, cmd@, operand@),
{
    let a = fill(ERR_MISSING_DEST_OPERAND, cmd);
    fill(a.as_str(), operand)
}

/// `cp: -r not specified; omitting directory '<path>'`.
pub fn omitting_directory(path: &str) -> (m: String)
    ensures
        m@ == fill_first(ERR_CP_OMITTING_DIR@, path@),
{
    fill(ERR_CP_OMITTING_DIR, path)
}

/// `mkdir: cannot create directory '<dir>': File exists`.
pub fn file_exists(dir: &str) -> (m: String)
    ensures
        m@ == fill_first(ERR_FILE_EXISTS@, dir@),
{
    fill(ERR_FILE_EXISTS, dir)
}

/// `<cmd>: target '<target>' is not a directory`.
pub fn target_not_directory(cmd: &str, target: &str) -> (m: String)
    ensures
        m@ == fill2(ERR_TARGET_NOT_DIR@, cmd@, target@),
{
    let a = fill(ERR_TARGET_NOT_DIR, cmd);
    fill(a.as_str(), target)
}

/// `ls: invalid option -- '<c>'`.
pub fn invalid_option(c: char) -> (m: String)
    ensures
        m@ == fill_first(ERR_LS_INVALID_OPTION@, seq![c]),
{
    let v: Vec<char> = vec![c];
    let s = string_of(v.as_slice());
    fill(ERR_LS_INVALID_OPTION, s.as_str())
}

/// The message for a name that is no built-in command: every `{}` of the
/// text is the name.
pub fn command_not_found(name: &str) -> (m: String)
    ensures
        m@ == fill_every(CMD_NOT_FOUND@, name@),
{
    fill_all(CMD_NOT_FOUND, name)
}

} // verus!

//! The texts of the messages the shell prints; each `{}` is filled in turn.
use vstd::prelude::*;

verus! {

/// `<name>` of a command that is not built in.
pub const CMD_NOT_FOUND: &'static str = "Command '{}' not found";

/// `<command>`, `<path>`.
pub const ERR_NO_SUCH_FILE_OR_DIR: &'static str = "{}: {}: No such file or directory";

/// `<command>`, `<path>`, `<system error>`.
pub const ERR_GENERIC: &'static str = "{}: {}: {}";

/// `<command>`, `<path>`.
pub const ERR_IS_A_DIRECTORY: &'static str = "{}: {}: Is a directory";

/// `<command>`.
pub const ERR_MISSING_OPERAND: &'static str = "{}: missing operand";

/// `<command>`, `<the one operand given>`.
pub const ERR_MISSING_DEST_OPERAND: &'static str = "{}: missing destination file operand after '{}'";

/// `<directory>` given to `cp` as a source.
pub const ERR_CP_OMITTING_DIR: &'static str = "cp: -r not specified; omitting directory '{}'";

/// `<directory>` that `mkdir` found already there.
pub const ERR_FILE_EXISTS: &'static str = "mkdir: cannot create directory '{}': File exists";

/// `cd` given more than one operand.
pub const ERR_CD_TOO_MANY_ARGS: &'static str = "cd: too many arguments";

/// `cd` alone with no `HOME` in the environment.
pub const ERR_CD_HOME_NOT_SET: &'static str = "cd: HOME not set";

/// `<command>`, `<target>` that is not a directory though several sources were given.
pub const ERR_TARGET_NOT_DIR: &'static str = "{}: target '{}' is not a directory";

/// `<option letter>` that `ls` does not know.
pub const ERR_LS_INVALID_OPTION: &'static str = "ls: invalid option -- '{}'";

/// `<system error>` from reading the working directory.
pub const ERR_PWD: &'static str = "pwd: {}";

/// What `ls` prints for an entry whose time cannot be formatted.
pub const EPOCH_TIME: &'static str = "Jan  1  1970";

} // verus!

//! The built-in commands, and the choice among them by name.
use vstd::prelude::*;
use crate::shell::state::ShellState;
use crate::constants::fallback::{ERR_MISSING_DEST_OPERAND, ERR_MISSING_OPERAND, ERR_TARGET_NOT_DIR};
use crate::messages::{fill2, missing_destination, missing_operand, target_not_directory};
use crate::text::{chars_of, fill_first, same_chars};
use crate::types::command::ParsedCommand;
use crate::types::errors::ShellError;

pub mod cat;
pub mod cd;
pub mod cp;
pub mod echo;
pub mod exit;
pub mod ls;
pub mod mkdir;
pub mod mv;
pub mod pwd;
pub mod rm;
pub mod walk;

verus! {

/// An argument that is an option: `-` followed by at least one character.
pub open spec fn is_option(a: Seq<char>) -> bool {
    a.len() > 1 && a[0] == '-'
}

/// The arguments that are not options, in order.
pub open spec fn operands(args: Seq<Seq<char>>) -> Seq<Seq<char>>
    decreases args.len(),
{
    if args.len() == 0 {
        seq![]
    } else if is_option(args.last()) {
        operands(args.drop_last())
    } else {
        operands(args.drop_last()).push(args.last())
    }
}

/// The commands built into the shell.
pub enum Builtin {
    Echo,
    Cd,
    Ls,
    Pwd,
    Cat,
    Cp,
    Rm,
    Mv,
    Mkdir,
    Exit,
}

/// The built-in command called `name`, if any.
pub open spec fn builtin_named(name: Seq<char>) -> Option<Builtin> {
    if name == seq!['e', 'c', 'h', 'o'] {
        Some(Builtin::Echo)
    } else if name == seq!['c', 'd'] {
        Some(Builtin::Cd)
    } else if name == seq!['l', 's'] {
        Some(Builtin::Ls)
    } else if name == seq!['p', 'w', 'd'] {
        Some(Builtin::Pwd)
    } else if name == seq!['c', 'a', 't'] {
        Some(Builtin::Cat)
    } else if name == seq!['c', 'p'] {
        Some(Builtin::Cp)
    } else if name == seq!['r', 'm'] {
        Some(Builtin::Rm)
    } else if name == seq!['m', 'v'] {
        Some(Builtin::Mv)
    } else if name == seq!['m', 'k', 'd', 'i', 'r'] {
        Some(Builtin::Mkdir)
    } else if name == seq!['e', 'x', 'i', 't'] {
        Some(Builtin::Exit)
    } else {
        None
    }
}

/// Looks a command up by name.
pub fn lookup_builtin(name: &str) -> (b: Option<Builtin>)
    ensures
        b == builtin_named(name@),
{
    let v = chars_of(name);
    let n = v.as_slice();
    if same_chars(n, &['e', 'c', 'h', 'o']) {
        Some(Builtin::Echo)
    } else if same_chars(n, &['c', 'd']) {
        Some(Builtin::Cd)
    } else if same_chars(n, &['l', 's']) {
        Some(Builtin::Ls)
    } else if same_chars(n, &['p', 'w', 'd']) {
        Some(Builtin::Pwd)
    } else if same_chars(n, &['c', 'a', 't']) {
        Some(Builtin::Cat)
    } else if same_chars(n, &['c', 'p']) {
        Some(Builtin::Cp)
    } else if same_chars(n, &['r', 'm']) {
        Some(Builtin::Rm)
    } else if same_chars(n, &['m', 'v']) {
        Some(Builtin::Mv)
    } else if same_chars(n, &['m', 'k', 'd', 'i', 'r']) {
        Some(Builtin::Mkdir)
    } else if same_chars(n, &['e', 'x', 'i', 't']) {
        Some(Builtin::Exit)
    } else {
        None
    }
}

/// Routes a command: an unknown name is refused, `exit` is carried out here
/// (it only changes the shell's state), and any other built-in is named for
/// the caller to run.
pub fn dispatch_command(cmd: &ParsedCommand, state: &mut ShellState) -> (r: Result<
    Builtin,
    ShellError,
>)
    ensures
        builtin_named(cmd.name@) is None ==> (r matches Err(ShellError::CommandNotFound(n))
            && n@ == cmd.name@) && *final(state) == *old(state),
        builtin_named(cmd.name@) == Some(Builtin::Exit) ==> (r matches Err(ShellError::Exit(c))
            && c == exit::exit_status(crate::text::views(cmd.args@))) && final(state).exit_requested
            && final(state).exit_code == old(state).exit_code,
        builtin_named(cmd.name@) is Some && builtin_named(cmd.name@) != Some(Builtin::Exit) ==> r
            == Ok::<Builtin, ShellError>(builtin_named(cmd.name@).unwrap()) && *final(state)
            == *old(state),
{
    match lookup_builtin(cmd.name.as_str()) {
        None => Err(ShellError::CommandNotFound(cmd.name.clone())),
        Some(Builtin::Exit) => match exit::run(cmd, state) {
            Ok(()) => Ok(Builtin::Exit),
            Err(e) => Err(e),
        },
        Some(b) => Ok(b),
    }
}

/// How a command that works through several operands ends: with an empty
/// failure when any of them failed (its messages are already printed).
pub fn finish(has_failed: bool) -> (r: Result<(), ShellError>)
    ensures
        has_failed ==> (r matches Err(ShellError::Generic(m)) && m@.len() == 0),
        !has_failed ==> r is Ok,
{
    if has_failed {
        Err(ShellError::Generic(String::new()))
    } else {
        Ok(())
    }
}


/// Refuses a copy or move with fewer than two operands: none at all, or a
/// source with no destination.
pub fn check_operands(cmd: &ParsedCommand, word: &str) -> (r: Result<(), ShellError>)
    ensures
        cmd.args@.len() == 0 ==> (r matches Err(ShellError::Generic(m)) && m@ == fill_first(
            ERR_MISSING_OPERAND@,
            word@,
        )),
        cmd.args@.len() == 1 ==> (r matches Err(ShellError::Generic(m)) && m@ == fill2(
            ERR_MISSING_DEST_OPERAND@,
            word@,
            cmd.args@[0]@,
        )),
        cmd.args@.len() >= 2 ==> r is Ok,
{
    if cmd.args.len() == 0 {
        Err(ShellError::Generic(missing_operand(word)))
    } else if cmd.args.len() == 1 {
        Err(ShellError::Generic(missing_destination(word, cmd.args[0].as_str())))
    } else {
        Ok(())
    }
}

/// How a copy or move treats its last operand.
pub enum TransferMode {
    /// Each source goes into the directory named last, under its own name.
    IntoDirectory,
    /// The one source goes to the path named last.
    Single,
}

/// Chooses how a copy or move runs, once it is known whether its last operand
/// is a directory: several sources need a directory there.
pub fn transfer_mode(cmd: &ParsedCommand, word: &str, dest_is_dir: bool) -> (r: Result<
    TransferMode,
    ShellError,
>)
    requires
        cmd.args@.len() >= 2,
    ensures
        dest_is_dir ==> r == Ok::<TransferMode, ShellError>(TransferMode::IntoDirectory),
        !dest_is_dir && cmd.args@.len() == 2 ==> r == Ok::<TransferMode, ShellError>(
            TransferMode::Single,
        ),
        !dest_is_dir && cmd.args@.len() > 2 ==> (r matches Err(ShellError::Generic(m)) && m@
            == fill2(ERR_TARGET_NOT_DIR@, word@, cmd.args@.last()@)),
{
    if dest_is_dir {
        Ok(TransferMode::IntoDirectory)
    } else if cmd.args.len() == 2 {
        Ok(TransferMode::Single)
    } else {
        Err(ShellError::Generic(target_not_directory(word, cmd.args[cmd.args.len() - 1].as_str())))
    }
}


/// The name each built-in command is called by.
pub open spec fn builtin_word(b: Builtin) -> Seq<char> {
    match b {
        Builtin::Echo => seq!['e', 'c', 'h', 'o'],
        Builtin::Cd => seq!['c', 'd'],
        Builtin::Ls => seq!['l', 's'],
        Builtin::Pwd => seq!['p', 'w', 'd'],
        Builtin::Cat => seq!['c', 'a', 't'],
        Builtin::Cp => seq!['c', 'p'],
        Builtin::Rm => seq!['r', 'm'],
        Builtin::Mv => seq!['m', 'v'],
        Builtin::Mkdir => seq!['m', 'k', 'd', 'i', 'r'],
        Builtin::Exit => seq!['e', 'x', 'i', 't'],
    }
}

/// A name finds a built-in only when it is exactly that built-in's name (so
/// `rmdir`, `lsof` or `cpio` find nothing), and each built-in's name finds
/// it.
pub proof fn law_builtins_are_found_by_exact_name(name: Seq<char>, b: Builtin)
    ensures
        builtin_named(builtin_word(b)) == Some(b),
        builtin_named(name) matches Some(found) ==> name == builtin_word(found),
{
    let w = builtin_word(b);
    assert(seq!['e', 'c', 'h', 'o'] != seq!['c', 'd'] && seq!['e', 'c', 'h', 'o'] != seq!['l', 's']);
    if w.len() > 0 {
        assert(w[0] == builtin_word(b)[0]);
    }
    assert(seq!['c', 'd'][1] == 'd');
    assert(seq!['c', 'a', 't'][1] == 'a');
    assert(seq!['c', 'p'][1] == 'p');
    assert(seq!['m', 'v'][1] == 'v');
    assert(seq!['m', 'k', 'd', 'i', 'r'][1] == 'k');
    assert(seq!['e', 'x', 'i', 't'][1] == 'x');
    assert(seq!['e', 'c', 'h', 'o'][1] == 'c');
}

} // verus!

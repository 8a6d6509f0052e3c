//! `rm [-r] target...`.
use vstd::prelude::*;
use crate::constants::fallback::{
    ERR_GENERIC, ERR_IS_A_DIRECTORY, ERR_MISSING_OPERAND, ERR_NO_SUCH_FILE_OR_DIR,
};
use crate::messages::{fill2, fill3, generic, is_a_directory, missing_operand, no_such_file};
use crate::text::{chars_of, fill_first, owned, views};
use crate::types::command::ParsedCommand;
use crate::types::errors::ShellError;
use crate::types::fs::Probe;
use super::{is_option, operands};

verus! {

/// The name shown in `rm`'s messages.
pub open spec fn rm_name() -> Seq<char> {
    seq!['r', 'm']
}

/// The command's name, as `rm_name()` states it.
fn rm_word() -> (s: &'static str)
    ensures
        s@ == rm_name(),
{
    let s = "rm";
    proof {
        reveal_strlit("rm");
    }
    assert(s@ =~= seq!['r', 'm']);
    s
}

/// An option that asks for recursion: one of its characters after the
/// leading `-` is `r` or `R` (so `-r`, `-R`, `-fr` and `--recursive` do).
pub open spec fn asks_recursion(a: Seq<char>) -> bool {
    is_option(a) && exists|i: int| 1 <= i < a.len() && (a[i] == 'r' || a[i] == 'R')
}

/// Some argument asks for recursion.
pub open spec fn recursion_asked(args: Seq<Seq<char>>) -> bool {
    exists|i: int| 0 <= i < args.len() && asks_recursion(#[trigger] args[i])
}

/// What `rm`'s arguments ask for.
pub struct RmArgs {
    /// Remove directories with all they hold.
    pub recursive: bool,
    /// The paths to remove, in order.
    pub targets: Vec<String>,
}

fn option_asks_recursion(a: &str) -> (b: bool)
    ensures
        b == asks_recursion(a@),
{
    let v = chars_of(a);
    if !(v.len() > 1 && v[0] == '-') {
        return false;
    }
    let mut i: usize = 1;
    while i < v.len()
        invariant
            1 <= i <= v@.len(),
            v@ == a@,
            is_option(a@),
            forall|j: int| 1 <= j < i ==> !(v@[j] == 'r' || v@[j] == 'R'),
        decreases v@.len() - i,
    {
        if v[i] == 'r' || v[i] == 'R' {
            assert(a@[i as int] == 'r' || a@[i as int] == 'R');
            return true;
        }
        i = i + 1;
    }
    false
}

/// Sorts `rm`'s arguments into the recursion flag and the targets.
pub fn options(args: &Vec<String>) -> (r: RmArgs)
    ensures
        r.recursive == recursion_asked(views(args@)),
        views(r.targets@) == operands(views(args@)),
{
    let mut recursive = false;
    let mut targets: Vec<String> = Vec::new();
    let mut i: usize = 0;
    while i < args.len()
        invariant
            i <= args@.len(),
            recursive == recursion_asked(views(args@).take(i as int)),
            views(targets@) == operands(views(args@).take(i as int)),
        decreases args@.len() - i,
    {
        let a = args[i].as_str();
        proof {
            assert(views(args@).take(i + 1).drop_last() == views(args@).take(i as int));
            assert(views(args@).take(i + 1).last() == a@);
        }
        let v = chars_of(a);
        if v.len() > 1 && v[0] == '-' {
            if option_asks_recursion(a) {
                recursive = true;
            }
        } else {
            let ghost before = targets@;
            let t = owned(a);
            targets.push(t);
            assert(views(targets@) == views(before).push(t@));
        }
        i = i + 1;
    }
    assert(views(args@).take(args@.len() as int) == views(args@));
    RmArgs { recursive, targets }
}

/// Reads `rm`'s arguments, refusing a call with no target.
pub fn check(cmd: &ParsedCommand) -> (r: Result<RmArgs, ShellError>)
    ensures
        operands(views(cmd.args@)).len() == 0 ==> (r matches Err(ShellError::Generic(m)) && m@
            == fill_first(ERR_MISSING_OPERAND@, rm_name())),
        operands(views(cmd.args@)).len() > 0 ==> (r matches Ok(a) && a.recursive
            == recursion_asked(views(cmd.args@)) && views(a.targets@) == operands(views(cmd.args@))),
{
    let a = options(&cmd.args);
    if a.targets.len() == 0 {
        Err(ShellError::Generic(missing_operand(rm_word())))
    } else {
        Ok(a)
    }
}

/// What to do with one target.
pub enum RmAction {
    /// Report this message; nothing is removed.
    Report(String),
    /// Remove the directory and all it holds.
    RemoveTree,
    /// Remove the file (or link).
    RemoveFile,
}

/// What `rm` does with one target, as a value of the model.
pub enum RmPlan {
    /// Report this message; nothing is removed.
    Report(Seq<char>),
    /// Remove the directory and all it holds.
    RemoveTree,
    /// Remove the file (or link).
    RemoveFile,
}

/// What `rm` does with `target`, from what looking it up found: a target
/// that cannot be looked up is reported missing, a directory is removed with
/// all it holds only under recursion and reported otherwise, anything else is
/// removed.
pub open spec fn plan(target: Seq<char>, probe: Probe, recursive: bool) -> RmPlan {
    match probe {
        Probe::Failed(_) => RmPlan::Report(fill2(ERR_NO_SUCH_FILE_OR_DIR@, rm_name(), target)),
        Probe::Directory => if recursive {
            RmPlan::RemoveTree
        } else {
            RmPlan::Report(fill2(ERR_IS_A_DIRECTORY@, rm_name(), target))
        },
        Probe::NotDirectory => RmPlan::RemoveFile,
    }
}

/// The plan that an action carries out.
pub open spec fn action_plan(a: RmAction) -> RmPlan {
    match a {
        RmAction::Report(m) => RmPlan::Report(m@),
        RmAction::RemoveTree => RmPlan::RemoveTree,
        RmAction::RemoveFile => RmPlan::RemoveFile,
    }
}

/// Decides about one target from what looking it up (without following a
/// link) found.
pub fn decide(target: &str, probe: &Probe, recursive: bool) -> (a: RmAction)
    ensures
        action_plan(a) == plan(target@, *probe, recursive),
{
    match probe {
        Probe::Failed(_) => RmAction::Report(no_such_file(rm_word(), target)),
        Probe::Directory => if recursive {
            RmAction::RemoveTree
        } else {
            RmAction::Report(is_a_directory(rm_word(), target))
        },
        Probe::NotDirectory => RmAction::RemoveFile,
    }
}

/// The message when removing `target` failed with `err`.
pub fn removal_failed(target: &str, err: &str) -> (m: String)
    ensures
        m@ == fill3(ERR_GENERIC@, rm_name(), target@, err@),
{
    generic(rm_word(), target, err)
}


/// With `rm`'s arguments `args`, a directory target is removed with all it
/// holds exactly when some argument asks for recursion (`-r`, `-R`,
/// `--recursive` or a cluster such as `-fr`); otherwise it is reported as a
/// directory, which makes the command fail.
pub proof fn law_directory_removal_needs_recursion(args: Seq<Seq<char>>, target: Seq<char>)
    ensures
        recursion_asked(args) ==> plan(target, Probe::Directory, recursion_asked(args))
            == RmPlan::RemoveTree,
        !recursion_asked(args) ==> plan(target, Probe::Directory, recursion_asked(args))
            == RmPlan::Report(fill2(ERR_IS_A_DIRECTORY@, rm_name(), target)),
        recursion_asked(seq![seq!['-', 'r']] + args),
{
    let a = seq![seq!['-', 'r']] + args;
    assert(a[0] == seq!['-', 'r']);
    assert(asks_recursion(a[0]) && a[0][1] == 'r');
}

} // verus!

//! The read-evaluate loop's decisions: what to do with a line read, what to
//! do with a command's outcome, and what the prompt shows.
use vstd::prelude::*;
use crate::constants::fallback::CMD_NOT_FOUND;
use crate::messages::command_not_found;
use crate::parser::{parse_input, tokenize};
use crate::text::{
    chars_of, fill_every, has_prefix, push_all, push_range, same_chars, starts_with,
    string_of, trim, trimmed, views,
};
use crate::types::command::ParsedCommand;
use crate::types::errors::ShellError;
use state::ShellState;
use crate::commands::exit::exit_status;
use crate::numbers::{decimal, law_i32_numeral_round_trip};

pub mod state;

verus! {

/// What reading a line of input gave.
pub enum InputEvent {
    /// The input is at its end.
    EndOfInput,
    /// A line was read.
    Line(String),
    /// Reading failed.
    ReadFailed,
}

/// What the loop does next after reading.
pub enum Step {
    /// Stop reading; `newline` asks for a line break first.
    Stop { newline: bool },
    /// Nothing to run; prompt again.
    Skip,
    /// Run this command.
    Run(ParsedCommand),
}

/// Decides what a line of input asks for: it is trimmed of white space, and a
/// line with no word in it is skipped.
pub fn on_input(event: InputEvent) -> (s: Step)
    ensures
        event is EndOfInput ==> s == (Step::Stop { newline: true }),
        event is ReadFailed ==> s == (Step::Stop { newline: false }),
        event matches InputEvent::Line(l) ==> {
            let t = tokenize(trimmed(l@));
            &&& t.len() == 0 <==> s is Skip
            &&& t.len() > 0 ==> (s matches Step::Run(cmd) && cmd.name@ == t[0] && views(cmd.args@)
                == t.drop_first())
        },
{
    match event {
        InputEvent::EndOfInput => Step::Stop { newline: true },
        InputEvent::ReadFailed => Step::Stop { newline: false },
        InputEvent::Line(line) => {
            let t = trim(line.as_str());
            if t.as_str().unicode_len() == 0 {
                proof {
                    assert(trimmed(line@) =~= Seq::<char>::empty());
                    lemma_tokenize_empty();
                }
                return Step::Skip;
            }
            match parse_input(t.as_str()) {
                Some(cmd) => Step::Run(cmd),
                None => Step::Skip,
            }
        },
    }
}

proof fn lemma_tokenize_empty()
    ensures
        tokenize(Seq::<char>::empty()).len() == 0,
{
}

/// What the loop does after a command.
pub struct Reaction {
    /// A line for standard error.
    pub message: Option<String>,
    /// Whether the loop stops.
    pub stop: bool,
}

/// The shell's state after a command's outcome: `exit` sets the final status.
pub open spec fn state_after(state: ShellState, result: Result<(), ShellError>) -> ShellState {
    match result {
        Err(ShellError::Exit(code)) => ShellState { exit_code: code, ..state },
        _ => state,
    }
}

/// Whether the loop stops after a command's outcome: after `exit`, or when an
/// exit was asked for.
pub open spec fn stops_after(state: ShellState, result: Result<(), ShellError>) -> bool {
    match result {
        Err(ShellError::Exit(_)) => true,
        _ => state.exit_requested,
    }
}

/// Reacts to a command's outcome: `exit` sets the final status and stops the
/// loop; an unknown command and a non-empty failure message are reported;
/// the loop goes on unless an exit was asked for.
pub fn on_result(state: &mut ShellState, result: Result<(), ShellError>) -> (r: Reaction)
    ensures
        *final(state) == state_after(*old(state), result),
        r.stop == stops_after(*old(state), result),
        result is Ok ==> r.message is None,
        result matches Err(ShellError::Exit(_)) ==> r.message is None,
        result matches Err(ShellError::CommandNotFound(name)) ==> (r.message matches Some(m)
            && m@ == fill_every(CMD_NOT_FOUND@, name@)),
        result matches Err(ShellError::Generic(msg)) ==> (if msg@.len() > 0 {
            r.message matches Some(m) && m@ == msg@
        } else {
            r.message is None
        }),
{
    match result {
        Ok(()) => Reaction { message: None, stop: state.exit_requested },
        Err(ShellError::Exit(code)) => {
            state.exit_code = code;
            Reaction { message: None, stop: true }
        },
        Err(ShellError::CommandNotFound(name)) => Reaction {
            message: Some(command_not_found(name.as_str())),
            stop: state.exit_requested,
        },
        Err(ShellError::Generic(msg)) => {
            if msg.as_str().unicode_len() > 0 {
                Reaction { message: Some(msg), stop: state.exit_requested }
            } else {
                Reaction { message: None, stop: state.exit_requested }
            }
        },
    }
}

/// The directory part of the prompt: the home directory shows as `~`, and a
/// path below it as `~` followed by the rest of the path.
pub open spec fn prompt_path(cwd: Seq<char>, home: Option<Seq<char>>) -> Seq<char> {
    match home {
        Some(h) => if cwd == h {
            seq!['~']
        } else if has_prefix(cwd, h.push('/')) {
            seq!['~'] + cwd.skip(h.len() as int)
        } else {
            cwd
        },
        None => cwd,
    }
}

/// The prompt: the directory part, then ` $ `. When the working directory
/// cannot be read it shows as `/`.
pub fn get_prompt(current_dir: Option<&str>, home: Option<&str>) -> (p: String)
    ensures
        p@ == prompt_path(
            match current_dir {
                Some(d) => d@,
                None => seq!['/'],
            },
            match home {
                Some(h) => Some(h@),
                None => None,
            },
        ) + seq![' ', '$', ' '],
{
    let cwd: Vec<char> = match current_dir {
        Some(d) => chars_of(d),
        None => vec!['/'],
    };
    let mut out: Vec<char> = Vec::new();
    match home {
        Some(h) => {
            let hv = chars_of(h);
            let mut with_slash: Vec<char> = Vec::new();
            push_all(&mut with_slash, hv.as_slice());
            with_slash.push('/');
            assert(with_slash@ =~= h@.push('/'));
            if same_chars(cwd.as_slice(), hv.as_slice()) {
                out.push('~');
            } else if starts_with(cwd.as_slice(), with_slash.as_slice()) {
                out.push('~');
                push_range(&mut out, cwd.as_slice(), hv.len(), cwd.len());
                assert(cwd@.subrange(hv@.len() as int, cwd@.len() as int) == cwd@.skip(
                    h@.len() as int,
                ));
            } else {
                push_all(&mut out, cwd.as_slice());
            }
        },
        None => {
            push_all(&mut out, cwd.as_slice());
        },
    }
    let ghost body = out@;
    assert(cwd@ == match current_dir {
        Some(d) => d@,
        None => seq!['/'],
    });
    out.push(' ');
    out.push('$');
    out.push(' ');
    assert(out@ =~= body + seq![' ', '$', ' ']);
    string_of(out.as_slice())
}


/// `exit N`, for a numeral `N` of a non-negative `i32` (or `-N` for a
/// negative one), makes the loop stop with `N` (or its negation) as the
/// shell's status, whatever follows it.
pub proof fn law_exit_numeral_sets_status(state: ShellState, n: nat, rest: Seq<Seq<char>>)
    requires
        n <= 0x7fff_ffff,
    ensures
        ({
            let code = exit_status(seq![decimal(n)] + rest);
            &&& code == n
            &&& state_after(state, Err(ShellError::Exit(code))).exit_code == n
            &&& stops_after(state, Err(ShellError::Exit(code)))
        }),
        ({
            let code = exit_status(seq![seq!['-'] + decimal(n)] + rest);
            &&& code == 0 - n
            &&& state_after(state, Err(ShellError::Exit(code))).exit_code == 0 - n
            &&& stops_after(state, Err(ShellError::Exit(code)))
        }),
{
    law_i32_numeral_round_trip(n);
    assert((seq![decimal(n)] + rest)[0] == decimal(n));
    assert((seq![seq!['-'] + decimal(n)] + rest)[0] == seq!['-'] + decimal(n));
}

/// The home directory shows as `~`, and a path below it as `~` followed by
/// the rest of the path.
pub proof fn law_prompt_abbreviates_home(home: Seq<char>, below: Seq<char>)
    ensures
        prompt_path(home, Some(home)) == seq!['~'],
        prompt_path(home + seq!['/'] + below, Some(home)) == seq!['~', '/'] + below,
{
    let p = home + seq!['/'] + below;
    if p != home {
        assert(p.take(home.push('/').len() as int) =~= home.push('/'));
        assert(p.skip(home.len() as int) =~= seq!['/'] + below);
        assert(seq!['~'] + (seq!['/'] + below) =~= seq!['~', '/'] + below);
    }
}


/// Until `exit` has run, any outcome other than an exit (success, an unknown
/// command, a failure with or without a message) leaves the shell's state as
/// it was and lets the loop go on to the next prompt.
pub proof fn law_only_exit_stops_the_loop(state: ShellState, result: Result<(), ShellError>)
    requires
        !state.exit_requested,
        !(result matches Err(ShellError::Exit(_))),
    ensures
        !stops_after(state, result),
        state_after(state, result) == state,
{
}

} // verus!

//! The command-line tokenizer: white space separates words, except inside
//! quotes; a backslash outside single quotes takes the next character as is.
use vstd::prelude::*;
use crate::text::{chars_of, string_of, is_whitespace, is_ws, views};
use crate::types::command::ParsedCommand;

pub mod laws;

verus! {

/// Where the tokenizer stands after reading part of a line.
pub struct Scan {
    /// Words finished so far.
    pub tokens: Seq<Seq<char>>,
    /// The word being read.
    pub cur: Seq<char>,
    /// Inside `"..."`.
    pub dq: bool,
    /// Inside `'...'`.
    pub sq: bool,
    /// The last character was an escaping backslash.
    pub esc: bool,
    /// The word being read exists even if empty (a quote or an escape was seen).
    pub added: bool,
}

/// The state before any character is read.
pub open spec fn scan_start() -> Scan {
    Scan { tokens: seq![], cur: seq![], dq: false, sq: false, esc: false, added: false }
}

/// Reads one character.
pub open spec fn scan_step(st: Scan, c: char) -> Scan {
    if st.esc {
        Scan { cur: st.cur.push(c), esc: false, added: true, ..st }
    } else if c == '\\' && !st.sq {
        Scan { esc: true, ..st }
    } else if c == '"' && !st.sq {
        Scan { dq: !st.dq, added: true, ..st }
    } else if c == '\'' && !st.dq {
        Scan { sq: !st.sq, added: true, ..st }
    } else if is_ws(c) && !st.dq && !st.sq {
        if st.cur.len() > 0 || st.added {
            Scan { tokens: st.tokens.push(st.cur), cur: seq![], added: false, ..st }
        } else {
            st
        }
    } else {
        Scan { cur: st.cur.push(c), ..st }
    }
}

/// Reads all of `s`, starting from `st`.
pub open spec fn scan_from(st: Scan, s: Seq<char>) -> Scan
    decreases s.len(),
{
    if s.len() == 0 {
        st
    } else {
        scan_step(scan_from(st, s.drop_last()), s.last())
    }
}

/// The words of the whole line: those finished, and the last one if it
/// exists.
pub open spec fn finish(st: Scan) -> Seq<Seq<char>> {
    if st.cur.len() > 0 || st.added {
        st.tokens.push(st.cur)
    } else {
        st.tokens
    }
}

/// The words of `line`.
pub open spec fn tokenize(line: Seq<char>) -> Seq<Seq<char>> {
    finish(scan_from(scan_start(), line))
}

/// Splits a command line into words: the first is the command's name, the
/// rest its arguments; `None` when there is no word.
pub fn parse_input(line: &str) -> (r: Option<ParsedCommand>)
    ensures
        tokenize(line@).len() == 0 <==> r is None,
        r matches Some(cmd) ==> cmd.name@ == tokenize(line@)[0] && views(cmd.args@)
            == tokenize(line@).drop_first(),
{
    let v = chars_of(line);
    let mut tokens: Vec<String> = Vec::new();
    let mut cur: Vec<char> = Vec::new();
    let mut in_double_quotes = false;
    let mut in_single_quotes = false;
    let mut escaped = false;
    let mut has_added_token = false;
    let mut i: usize = 0;
    while i < v.len()
        invariant
            i <= v@.len(),
            v@ == line@,
            ({
                let st = scan_from(scan_start(), v@.take(i as int));
                &&& views(tokens@) == st.tokens
                &&& cur@ == st.cur
                &&& in_double_quotes == st.dq
                &&& in_single_quotes == st.sq
                &&& escaped == st.esc
                &&& has_added_token == st.added
            }),
        decreases v@.len() - i,
    {
        let c = v[i];
        assert(v@.take(i + 1).drop_last() == v@.take(i as int));
        assert(v@.take(i + 1).last() == c);
        let ghost before = tokens@;
        if escaped {
            cur.push(c);
            escaped = false;
            has_added_token = true;
        } else if c == '\\' && !in_single_quotes {
            escaped = true;
        } else if c == '"' && !in_single_quotes {
            in_double_quotes = !in_double_quotes;
            has_added_token = true;
        } else if c == '\'' && !in_double_quotes {
            in_single_quotes = !in_single_quotes;
            has_added_token = true;
        } else if is_whitespace(c) && !in_double_quotes && !in_single_quotes {
            if cur.len() > 0 || has_added_token {
                let w = string_of(cur.as_slice());
                tokens.push(w);
                cur = Vec::new();
                has_added_token = false;
                assert(tokens@ == before.push(w));
                assert(views(tokens@) == views(before).push(w@));
            }
        } else {
            cur.push(c);
        }
        i = i + 1;
    }
    assert(v@.take(v@.len() as int) == v@);
    if cur.len() > 0 || has_added_token {
        let ghost before = tokens@;
        let w = string_of(cur.as_slice());
        tokens.push(w);
        assert(views(tokens@) == views(before).push(w@));
    }
    if tokens.len() == 0 {
        return None;
    }
    let name = tokens.remove(0);
    proof {
        assert(views(tokens@) == tokenize(line@).drop_first());
    }
    Some(ParsedCommand { name, args: tokens })
}

} // verus!

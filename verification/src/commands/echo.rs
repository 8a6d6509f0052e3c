//! `echo [word...]`.
use vstd::prelude::*;
use crate::parser::laws::{law_quoted_words_round_trip, quotable, quoted_line};
use crate::parser::tokenize;
use crate::text::{join, joined, views};
use crate::types::command::ParsedCommand;

verus! {

/// The line `echo` prints: its arguments separated by single spaces.
pub fn run(cmd: &ParsedCommand) -> (line: String)
    ensures
        line@ == joined(views(cmd.args@), seq![' ']),
{
    let r = join(&cmd.args, " ");
    proof {
        reveal_strlit(" ");
        assert(" "@ == seq![' ']);
    }
    r
}


/// `echo` prints its arguments back, quoted ones whole: a line `echo`
/// followed by quoted words tokenizes to the command `echo` with exactly
/// those words, and `echo` prints them separated by single spaces.
pub proof fn law_echo_prints_quoted_words_back(ws: Seq<Seq<char>>, q: char)
    requires
        q == '"' || q == '\'',
        forall|i: int| 0 <= i < ws.len() ==> quotable(#[trigger] ws[i], q),
    ensures
        ({
            let t = tokenize(quoted_line(seq![seq!['e', 'c', 'h', 'o']] + ws, q));
            &&& t.len() > 0
            &&& t[0] == seq!['e', 'c', 'h', 'o']
            &&& joined(t.drop_first(), seq![' ']) == joined(ws, seq![' '])
        }),
{
    let all = seq![seq!['e', 'c', 'h', 'o']] + ws;
    assert forall|i: int| 0 <= i < all.len() implies quotable(#[trigger] all[i], q) by {
        if i > 0 {
            assert(all[i] == ws[i - 1]);
        }
    }
    law_quoted_words_round_trip(all, q);
    assert(all.drop_first() == ws);
}

} // verus!

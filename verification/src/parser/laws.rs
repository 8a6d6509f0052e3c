//! What the tokenizer promises of whole classes of lines.
use vstd::prelude::*;
use crate::text::{is_ws, joined, words, words_scan};
use super::{Scan, scan_from, scan_start, scan_step, tokenize};

verus! {

/// `s` holds no quote and no backslash.
pub open spec fn plain(s: Seq<char>) -> bool {
    forall|i: int| 0 <= i < s.len() ==> #[trigger] s[i] != '"' && s[i] != '\'' && s[i] != '\\'
}

/// `w` can stand between two `q` quotes and come back unchanged: it holds no
/// `q`, and inside double quotes no backslash either.
pub open spec fn quotable(w: Seq<char>, q: char) -> bool {
    forall|i: int| 0 <= i < w.len() ==> #[trigger] w[i] != q && (q == '"' ==> w[i] != '\\')
}

/// `w` between two `q` quotes.
pub open spec fn quoted(w: Seq<char>, q: char) -> Seq<char> {
    seq![q] + w + seq![q]
}

/// The words `ws`, each quoted with `q`, separated by single spaces.
pub open spec fn quoted_line(ws: Seq<Seq<char>>, q: char) -> Seq<char> {
    joined(ws.map_values(|w: Seq<char>| quoted(w, q)), seq![' '])
}

/// Every character of `w` preceded by a backslash.
pub open spec fn escaped(w: Seq<char>) -> Seq<char>
    decreases w.len(),
{
    if w.len() == 0 {
        seq![]
    } else {
        escaped(w.drop_last()) + seq!['\\', w.last()]
    }
}

/// A state between words: no quote open, no escape pending, no word begun.
pub open spec fn between_words(st: Scan) -> bool {
    !st.dq && !st.sq && !st.esc && !st.added && st.cur.len() == 0
}

/// Reading `a + b` is reading `a`, then `b`.
pub proof fn lemma_scan_concat(st: Scan, a: Seq<char>, b: Seq<char>)
    ensures
        scan_from(st, a + b) == scan_from(scan_from(st, a), b),
    decreases b.len(),
{
    if b.len() == 0 {
        assert(a + b == a);
    } else {
        assert((a + b).drop_last() == a + b.drop_last());
        assert((a + b).last() == b.last());
        lemma_scan_concat(st, a, b.drop_last());
    }
}

/// Reading one character is one step.
proof fn lemma_scan_one(st: Scan, c: char)
    ensures
        scan_from(st, seq![c]) == scan_step(st, c),
{
    assert(seq![c].drop_last() =~= Seq::<char>::empty());
    assert(scan_from(st, Seq::<char>::empty()) == st);
    assert(seq![c].last() == c);
}

/// On a line without quotes or backslashes the tokenizer is whitespace
/// splitting, step by step.
proof fn lemma_plain_scan(s: Seq<char>)
    requires
        plain(s),
    ensures
        scan_from(scan_start(), s) == (Scan {
            tokens: words_scan(s).done,
            cur: words_scan(s).cur,
            dq: false,
            sq: false,
            esc: false,
            added: false,
        }),
    decreases s.len(),
{
    if s.len() > 0 {
        assert(plain(s.drop_last())) by {
            assert forall|i: int| 0 <= i < s.drop_last().len() implies #[trigger] s.drop_last()[i]
                != '"' && s.drop_last()[i] != '\'' && s.drop_last()[i] != '\\' by {
                assert(s.drop_last()[i] == s[i]);
            }
        }
        lemma_plain_scan(s.drop_last());
        assert(s.last() == s[s.len() - 1]);
    }
}

/// A line without quotes or backslashes splits into its white-space
/// separated words.
pub proof fn law_plain_line_splits_on_whitespace(s: Seq<char>)
    requires
        plain(s),
    ensures
        tokenize(s) == words(s),
{
    lemma_plain_scan(s);
}

/// Inside a quote, every character that can stand there joins the word.
proof fn lemma_inside_quotes(st: Scan, w: Seq<char>, q: char)
    requires
        q == '"' || q == '\'',
        q == '"' ==> st.dq && !st.sq,
        q == '\'' ==> st.sq && !st.dq,
        !st.esc,
        quotable(w, q),
    ensures
        scan_from(st, w) == (Scan { cur: st.cur + w, ..st }),
    decreases w.len(),
{
    if w.len() == 0 {
        assert(st.cur + w == st.cur);
    } else {
        assert(quotable(w.drop_last(), q)) by {
            assert forall|i: int| 0 <= i < w.drop_last().len() implies #[trigger] w.drop_last()[i]
                != q && (q == '"' ==> w.drop_last()[i] != '\\') by {
                assert(w.drop_last()[i] == w[i]);
            }
        }
        lemma_inside_quotes(st, w.drop_last(), q);
        assert(w.last() == w[w.len() - 1]);
        assert(st.cur + w.drop_last() + seq![w.last()] == st.cur + w);
        assert((st.cur + w.drop_last()).push(w.last()) == st.cur + w);
    }
}

/// A quoted word read between words leaves that word begun, whatever it holds.
proof fn lemma_quoted_word(st: Scan, w: Seq<char>, q: char)
    requires
        q == '"' || q == '\'',
        between_words(st),
        quotable(w, q),
    ensures
        scan_from(st, quoted(w, q)) == (Scan { cur: w, added: true, ..st }),
{
    let open_st = scan_step(st, q);
    lemma_scan_one(st, q);
    lemma_inside_quotes(open_st, w, q);
    lemma_scan_concat(st, seq![q], w);
    lemma_scan_concat(st, seq![q] + w, seq![q]);
    let mid = scan_from(open_st, w);
    lemma_scan_one(mid, q);
    assert(st.cur + w == w);
}

/// Reading a line of quoted words leaves all but the last finished and the
/// last one begun.
proof fn lemma_quoted_line(ws: Seq<Seq<char>>, q: char)
    requires
        q == '"' || q == '\'',
        ws.len() > 0,
        forall|i: int| 0 <= i < ws.len() ==> quotable(#[trigger] ws[i], q),
    ensures
        scan_from(scan_start(), quoted_line(ws, q)) == (Scan {
            tokens: ws.drop_last(),
            cur: ws.last(),
            dq: false,
            sq: false,
            esc: false,
            added: true,
        }),
    decreases ws.len(),
{
    let f = |w: Seq<char>| quoted(w, q);
    let qs = ws.map_values(f);
    if ws.len() == 1 {
        assert(quoted_line(ws, q) == quoted(ws[0], q));
        lemma_quoted_word(scan_start(), ws[0], q);
        assert(ws.drop_last() =~= Seq::<Seq<char>>::empty());
    } else {
        let front = ws.drop_last();
        assert(forall|i: int| 0 <= i < front.len() ==> quotable(#[trigger] front[i], q)) by {
            assert forall|i: int| 0 <= i < front.len() implies quotable(#[trigger] front[i], q) by {
                assert(front[i] == ws[i]);
            }
        }
        lemma_quoted_line(front, q);
        assert(qs.drop_last() =~= front.map_values(f));
        assert(quoted_line(ws, q) == quoted_line(front, q) + seq![' '] + quoted(ws.last(), q));
        let s1 = scan_from(scan_start(), quoted_line(front, q));
        lemma_scan_concat(scan_start(), quoted_line(front, q), seq![' ']);
        lemma_scan_one(s1, ' ');
        assert(is_ws(' '));
        let s2 = scan_step(s1, ' ');
        assert(front.drop_last().push(front.last()) =~= front);
        assert(s2.tokens == front);
        lemma_quoted_word(s2, ws.last(), q);
        assert(quotable(ws.last(), q)) by {
            assert(ws.last() == ws[ws.len() - 1]);
        }
        lemma_scan_concat(scan_start(), quoted_line(front, q) + seq![' '], quoted(ws.last(), q));
    }
}

/// Quoting each word (with `'` or `"`) and separating them by spaces gives a
/// line that the tokenizer splits back into exactly those words, empty words
/// and words with spaces included.
pub proof fn law_quoted_words_round_trip(ws: Seq<Seq<char>>, q: char)
    requires
        q == '"' || q == '\'',
        ws.len() > 0,
        forall|i: int| 0 <= i < ws.len() ==> quotable(#[trigger] ws[i], q),
    ensures
        tokenize(quoted_line(ws, q)) == ws,
{
    lemma_quoted_line(ws, q);
    assert(ws.drop_last().push(ws.last()) =~= ws);
}

/// Escaped characters join the word being read, whatever they are.
proof fn lemma_escaped(st: Scan, w: Seq<char>)
    requires
        !st.sq,
        !st.esc,
    ensures
        scan_from(st, escaped(w)) == (Scan {
            cur: st.cur + w,
            added: st.added || w.len() > 0,
            ..st
        }),
    decreases w.len(),
{
    if w.len() == 0 {
        assert(st.cur + w == st.cur);
    } else {
        lemma_escaped(st, w.drop_last());
        let mid = scan_from(st, escaped(w.drop_last()));
        lemma_scan_concat(st, escaped(w.drop_last()), seq!['\\', w.last()]);
        lemma_scan_concat(mid, seq!['\\'], seq![w.last()]);
        assert(seq!['\\'] + seq![w.last()] =~= seq!['\\', w.last()]);
        lemma_scan_one(mid, '\\');
        lemma_scan_one(scan_step(mid, '\\'), w.last());
        assert(scan_from(mid, seq!['\\', w.last()]) == scan_step(
            scan_step(mid, '\\'),
            w.last(),
        ));
        assert(st.cur + w.drop_last() + seq![w.last()] == st.cur + w);
        assert((st.cur + w.drop_last()).push(w.last()) == st.cur + w);
    }
}

/// A backslash before every character makes a non-empty text one word, taken
/// literally: quotes, backslashes and white space included.
pub proof fn law_escaped_text_is_one_word(w: Seq<char>)
    requires
        w.len() > 0,
    ensures
        tokenize(escaped(w)) == seq![w],
{
    lemma_escaped(scan_start(), w);
    assert(seq![].push(w) == seq![w]);
    assert(Seq::<char>::empty() + w == w);
}


/// `a` is a bare word: no white space, quote or backslash in it.
pub open spec fn bare_word(a: Seq<char>) -> bool {
    forall|i: int|
        0 <= i < a.len() ==> !is_ws(#[trigger] a[i]) && a[i] != '"' && a[i] != '\'' && a[i]
            != '\\'
}

/// Outside quotes and escapes, a bare word joins the word being read.
proof fn lemma_bare_part(st: Scan, a: Seq<char>)
    requires
        !st.dq,
        !st.sq,
        !st.esc,
        bare_word(a),
    ensures
        scan_from(st, a) == (Scan { cur: st.cur + a, ..st }),
    decreases a.len(),
{
    if a.len() == 0 {
        assert(st.cur + a == st.cur);
    } else {
        assert(bare_word(a.drop_last())) by {
            assert forall|i: int| 0 <= i < a.drop_last().len() implies !is_ws(
                #[trigger] a.drop_last()[i],
            ) && a.drop_last()[i] != '"' && a.drop_last()[i] != '\'' && a.drop_last()[i]
                != '\\' by {
                assert(a.drop_last()[i] == a[i]);
            }
        }
        lemma_bare_part(st, a.drop_last());
        assert(a.last() == a[a.len() - 1]);
        assert((st.cur + a.drop_last()).push(a.last()) == st.cur + a);
    }
}

/// Outside quotes and escapes, a quoted part joins the word being read.
proof fn lemma_quoted_part(st: Scan, w: Seq<char>, q: char)
    requires
        q == '"' || q == '\'',
        !st.dq,
        !st.sq,
        !st.esc,
        quotable(w, q),
    ensures
        scan_from(st, quoted(w, q)) == (Scan { cur: st.cur + w, added: true, ..st }),
{
    let open_st = scan_step(st, q);
    lemma_scan_one(st, q);
    lemma_inside_quotes(open_st, w, q);
    lemma_scan_concat(st, seq![q], w);
    lemma_scan_concat(st, seq![q] + w, seq![q]);
    lemma_scan_one(scan_from(open_st, w), q);
}

/// Quotes do not end a word: a bare word followed by a quoted part, or a
/// quoted part followed by a bare word, is one word made of both, without
/// the quotes (so `name="John Smith"` is the word `name=John Smith`).
pub proof fn law_quoted_part_continues_word(a: Seq<char>, w: Seq<char>, q: char)
    requires
        q == '"' || q == '\'',
        bare_word(a),
        quotable(w, q),
    ensures
        tokenize(a + quoted(w, q)) == seq![a + w],
        tokenize(quoted(w, q) + a) == seq![w + a],
{
    let start = scan_start();
    lemma_bare_part(start, a);
    let s1 = scan_from(start, a);
    assert(Seq::<char>::empty() + a == a);
    lemma_quoted_part(s1, w, q);
    lemma_scan_concat(start, a, quoted(w, q));
    assert(Seq::<Seq<char>>::empty().push(a + w) == seq![a + w]);
    lemma_quoted_part(start, w, q);
    let s2 = scan_from(start, quoted(w, q));
    assert(Seq::<char>::empty() + w == w);
    lemma_bare_part(s2, a);
    lemma_scan_concat(start, quoted(w, q), a);
    assert(Seq::<Seq<char>>::empty().push(w + a) == seq![w + a]);
}

} // verus!

//! `ls [-a] [-l] [-F] [path...]`.
use vstd::prelude::*;
use crate::constants::fallback::{ERR_LS_INVALID_OPTION, ERR_NO_SUCH_FILE_OR_DIR};
use crate::messages::{fill2, invalid_option, no_such_file};
use crate::text::{chars_of, fill_first, owned, push_str, string_of, views};
use crate::types::errors::ShellError;
use super::{is_option, operands};

pub mod entry;
pub mod ids;
pub mod mode;
pub mod render;
pub mod sort;
pub mod time;

verus! {

/// A letter `ls` knows as an option.
pub open spec fn known_letter(c: char) -> bool {
    c == 'a' || c == 'l' || c == 'F'
}

/// The first letter of `a` from index `i` on that `ls` does not know.
pub open spec fn unknown_letter_from(a: Seq<char>, i: nat) -> Option<char>
    decreases a.len() - i,
{
    if i >= a.len() {
        None
    } else if !known_letter(a[i as int]) {
        Some(a[i as int])
    } else {
        unknown_letter_from(a, i + 1)
    }
}

/// The first unknown option letter among the arguments, in order.
pub open spec fn first_unknown_letter(args: Seq<Seq<char>>) -> Option<char>
    decreases args.len(),
{
    if args.len() == 0 {
        None
    } else {
        match first_unknown_letter(args.drop_last()) {
            Some(c) => Some(c),
            None => if is_option(args.last()) {
                unknown_letter_from(args.last(), 1)
            } else {
                None
            },
        }
    }
}

/// `a` holds the letter `f` after its first character.
pub open spec fn letter_in(a: Seq<char>, f: char) -> bool {
    exists|k: int| 1 <= k < a.len() && a[k] == f
}

/// Some option argument holds the letter `f` after its `-`.
pub open spec fn has_letter(args: Seq<Seq<char>>, f: char) -> bool {
    exists|i: int| 0 <= i < args.len() && is_option(#[trigger] args[i]) && letter_in(args[i], f)
}

/// The paths `ls` lists: its operands, or `.` when there are none.
pub open spec fn ls_targets(args: Seq<Seq<char>>) -> Seq<Seq<char>> {
    if operands(args).len() == 0 {
        seq![seq!['.']]
    } else {
        operands(args)
    }
}

/// What `ls`'s arguments ask for.
pub struct LsOptions {
    /// `-a`: show hidden entries, `.` and `..` included.
    pub all: bool,
    /// `-l`: the long format.
    pub long: bool,
    /// `-F`: mark each name with its type.
    pub classify: bool,
    /// The paths to list, in order.
    pub targets: Vec<String>,
}

/// The first unknown letter of `a` from index `i` on.
fn unknown_letter(a: &[char], i: usize) -> (r: Option<char>)
    requires
        i <= a@.len(),
    ensures
        r == unknown_letter_from(a@, i as nat),
    decreases a@.len() - i,
{
    if i == a.len() {
        None
    } else if !(a[i] == 'a' || a[i] == 'l' || a[i] == 'F') {
        Some(a[i])
    } else {
        unknown_letter(a, i + 1)
    }
}

/// Whether `a` holds `f` from index `i` on.
fn holds_letter(a: &[char], f: char) -> (b: bool)
    ensures
        b == letter_in(a@, f),
{
    let mut k: usize = 1;
    while k < a.len()
        invariant
            1 <= k,
            forall|j: int| 1 <= j < k && j < a@.len() ==> a@[j] != f,
        decreases a@.len() - k,
    {
        if a[k] == f {
            return true;
        }
        k = k + 1;
    }
    false
}

/// Reads `ls`'s arguments: options are `-` followed by the letters `a`, `l`
/// and `F` in any mix; the first other letter is refused.
pub fn parse_options(args: &Vec<String>) -> (r: Result<LsOptions, ShellError>)
    ensures
        first_unknown_letter(views(args@)) matches Some(c) ==> (r matches Err(
            ShellError::Generic(m),
        ) && m@ == fill_first(ERR_LS_INVALID_OPTION@, seq![c])),
        first_unknown_letter(views(args@)) is None ==> (r matches Ok(o) && o.all == has_letter(
            views(args@),
            'a',
        ) && o.long == has_letter(views(args@), 'l') && o.classify == has_letter(
            views(args@),
            'F',
        ) && views(o.targets@) == ls_targets(views(args@))),
{
    let ghost va = views(args@);
    let mut all = false;
    let mut long = false;
    let mut classify = false;
    let mut targets: Vec<String> = Vec::new();
    let mut i: usize = 0;
    while i < args.len()
        invariant
            i <= args@.len(),
            va == views(args@),
            first_unknown_letter(va.take(i as int)) is None,
            all == has_letter(va.take(i as int), 'a'),
            long == has_letter(va.take(i as int), 'l'),
            classify == has_letter(va.take(i as int), 'F'),
            views(targets@) == operands(va.take(i as int)),
        decreases args@.len() - i,
    {
        let ghost pre = va.take(i as int);
        let ghost post = va.take(i + 1);
        assert(post.drop_last() == pre);
        assert(post.last() == args@[i as int]@);
        let v = chars_of(args[i].as_str());
        if v.len() > 1 && v[0] == '-' {
            match unknown_letter(v.as_slice(), 1) {
                Some(c) => {
                    proof {
                        lemma_first_unknown_prefix(va, (i + 1) as int);
                    }
                    return Err(ShellError::Generic(invalid_option(c)));
                },
                None => {},
            }
            let a = holds_letter(v.as_slice(), 'a');
            let l = holds_letter(v.as_slice(), 'l');
            let f = holds_letter(v.as_slice(), 'F');
            proof {
                lemma_has_letter_push(pre, post, 'a');
                lemma_has_letter_push(pre, post, 'l');
                lemma_has_letter_push(pre, post, 'F');
            }
            all = all || a;
            long = long || l;
            classify = classify || f;
        } else {
            proof {
                lemma_has_letter_push(pre, post, 'a');
                lemma_has_letter_push(pre, post, 'l');
                lemma_has_letter_push(pre, post, 'F');
            }
            let ghost before = targets@;
            let t = owned(args[i].as_str());
            targets.push(t);
            assert(views(targets@) == views(before).push(t@));
        }
        i = i + 1;
    }
    assert(va.take(args@.len() as int) == va);
    if targets.len() == 0 {
        let dot = owned(".");
        proof {
            reveal_strlit(".");
        }
        assert(dot@ =~= seq!['.']);
        targets.push(dot);
        assert(views(targets@) =~= seq![seq!['.']]);
    }
    Ok(LsOptions { all, long, classify, targets })
}

/// An unknown letter found in the first `n` arguments is the first of all.
proof fn lemma_first_unknown_prefix(args: Seq<Seq<char>>, n: int)
    requires
        0 <= n <= args.len(),
        first_unknown_letter(args.take(n)) is Some,
    ensures
        first_unknown_letter(args) == first_unknown_letter(args.take(n)),
    decreases args.len() - n,
{
    if n < args.len() {
        assert(args.drop_last().take(n) == args.take(n));
        lemma_first_unknown_prefix(args.drop_last(), n);
    } else {
        assert(args.take(n) == args);
    }
}

/// Adding one argument adds the letters of that argument.
proof fn lemma_has_letter_push(pre: Seq<Seq<char>>, post: Seq<Seq<char>>, f: char)
    requires
        post.len() == pre.len() + 1,
        post.drop_last() == pre,
    ensures
        has_letter(post, f) == (has_letter(pre, f) || (is_option(post.last()) && letter_in(
            post.last(),
            f,
        ))),
{
    if has_letter(pre, f) {
        let i = choose|i: int| 0 <= i < pre.len() && is_option(#[trigger] pre[i]) && letter_in(pre[i], f);
        assert(post[i] == pre[i]);
    }
    if has_letter(post, f) {
        let i = choose|i: int|
            0 <= i < post.len() && is_option(#[trigger] post[i]) && letter_in(post[i], f);
        if i < pre.len() {
            assert(pre[i] == post[i]);
        }
    }
    assert(post[post.len() - 1] == post.last());
}


/// The name shown in `ls`'s messages.
pub open spec fn ls_name() -> Seq<char> {
    seq!['l', 's']
}

/// The command's name, as `ls_name()` states it.
fn ls_word() -> (s: &'static str)
    ensures
        s@ == ls_name(),
{
    let s = "ls";
    proof {
        reveal_strlit("ls");
    }
    assert(s@ =~= seq!['l', 's']);
    s
}

/// The message for a path `ls` cannot find.
pub fn target_missing(target: &str) -> (m: String)
    ensures
        m@ == fill2(ERR_NO_SUCH_FILE_OR_DIR@, ls_name(), target@),
{
    no_such_file(ls_word(), target)
}

/// The lines that head the listing of path number `index` of `count`: when
/// there are several, an empty line before all but the first, then the path
/// and `:`; nothing when there is one.
pub fn header(index: usize, count: usize, target: &str) -> (lines: Vec<String>)
    ensures
        views(lines@) == (if count <= 1 {
            seq![]
        } else if index > 0 {
            seq![seq![], target@.push(':')]
        } else {
            seq![target@.push(':')]
        }),
{
    let mut lines: Vec<String> = Vec::new();
    let multiple = count > 1;
    if multiple {
        if index > 0 {
            lines.push(String::new());
        }
        let mut t: Vec<char> = Vec::new();
        push_str(&mut t, target);
        t.push(':');
        lines.push(string_of(t.as_slice()));
    }
    assert(views(lines@) =~= (if count <= 1 {
        seq![]
    } else if index > 0 {
        seq![seq![], target@.push(':')]
    } else {
        seq![target@.push(':')]
    }));
    lines
}


/// `a`'s characters from index `i` on are all among `a`, `l` and `F`.
pub open spec fn only_known_from(a: Seq<char>, i: int) -> bool {
    forall|k: int| i <= k < a.len() ==> (#[trigger] a[k] == 'a' || a[k] == 'l' || a[k] == 'F')
}

/// Within one option argument: the letters after the `-` are all accepted
/// exactly when each is `a`, `l` or `F`, in any number and order; otherwise
/// the one refused is the first other letter.
pub proof fn law_option_letters(a: Seq<char>, i: nat)
    requires
        i >= 1,
    ensures
        unknown_letter_from(a, i) is None <==> only_known_from(a, i as int),
        unknown_letter_from(a, i) matches Some(c) ==> exists|k: int|
            i <= k < a.len() && a[k] == c && !(c == 'a' || c == 'l' || c == 'F')
                && only_known_from(a.take(k), i as int),
    decreases a.len() - i,
{
    if i < a.len() {
        law_option_letters(a, i + 1);
        if a[i as int] == 'a' || a[i as int] == 'l' || a[i as int] == 'F' {
            if unknown_letter_from(a, i) is Some {
                let c = unknown_letter_from(a, i)->0;
                let k = choose|k: int|
                    i + 1 <= k < a.len() && a[k] == c && !(c == 'a' || c == 'l' || c == 'F')
                        && only_known_from(a.take(k), (i + 1) as int);
                assert(only_known_from(a.take(k), i as int)) by {
                    assert forall|j: int| i <= j < a.take(k).len() implies (#[trigger] a.take(k)[j]
                        == 'a' || a.take(k)[j] == 'l' || a.take(k)[j] == 'F') by {
                        if j == i {
                            assert(a.take(k)[j] == a[i as int]);
                        }
                    }
                }
            }
        } else {
            assert(only_known_from(a.take(i as int), i as int));
        }
    }
}

/// `ls` accepts any arguments whose options hold only the letters `a`,
/// `l` and `F`, clustered in any way (`-alF`, `-Fla`, `-a -l`...).
pub proof fn law_known_clusters_are_accepted(args: Seq<Seq<char>>)
    requires
        forall|j: int| 0 <= j < args.len() && is_option(#[trigger] args[j]) ==> only_known_from(
            args[j],
            1,
        ),
    ensures
        first_unknown_letter(args) is None,
    decreases args.len(),
{
    if args.len() > 0 {
        let front = args.drop_last();
        assert forall|j: int| 0 <= j < front.len() && is_option(#[trigger] front[j])
            implies only_known_from(front[j], 1) by {
            assert(front[j] == args[j]);
        }
        law_known_clusters_are_accepted(front);
        let last = args.last();
        assert(last == args[args.len() - 1]);
        if is_option(last) {
            law_option_letters(last, 1);
        }
    }
}

} // verus!

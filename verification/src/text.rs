//! Character-level text handling: the views of strings are `Seq<char>`,
//! and every operation here is stated over those views.
use vstd::prelude::*;

verus! {

// ---------------------------------------------------------------------------
// Conversions between strings and character vectors
// ---------------------------------------------------------------------------

/// The characters of `s`, in order.
pub fn chars_of(s: &str) -> (res: Vec<char>)
    ensures
        res@ == s@,
{
    let mut res: Vec<char> = Vec::new();
    for c in it: s.chars()
        invariant
            it.seq() == s@,
            res@ == s@.take(it.index() as int),
    {
        assert(s@.take(it.index() + 1) == s@.take(it.index() as int).push(c));
        res.push(c);
    }
    assert(s@.take(s@.len() as int) == s@);
    res
}

/// The string made of the characters of `v`, in order: what
/// `String::from_iter` builds from them. Its view is those characters.
#[verifier::external_body]
pub fn string_of(v: &[char]) -> (res: String)
    ensures
        res@ == v@,
{
    String::from_iter(v.iter())
}

/// Appends `src[from..to]` to `dst`.
pub fn push_range(dst: &mut Vec<char>, src: &[char], from: usize, to: usize)
    requires
        from <= to <= src@.len(),
    ensures
        final(dst)@ == old(dst)@ + src@.subrange(from as int, to as int),
{
    let ghost start = dst@;
    let mut i = from;
    while i < to
        invariant
            from <= i <= to <= src@.len(),
            dst@ == start + src@.subrange(from as int, i as int),
        decreases to - i,
    {
        dst.push(src[i]);
        i = i + 1;
        assert(src@.subrange(from as int, i as int) == src@.subrange(from as int, i - 1).push(
            src@[i - 1],
        ));
    }
}

/// Appends every character of `src` to `dst`.
pub fn push_all(dst: &mut Vec<char>, src: &[char])
    ensures
        final(dst)@ == old(dst)@ + src@,
{
    push_range(dst, src, 0, src.len());
    assert(src@.subrange(0, src@.len() as int) == src@);
}

/// Appends the characters of `s` to `dst`.
pub fn push_str(dst: &mut Vec<char>, s: &str)
    ensures
        final(dst)@ == old(dst)@ + s@,
{
    let v = chars_of(s);
    push_all(dst, v.as_slice());
}

// ---------------------------------------------------------------------------
// White space
// ---------------------------------------------------------------------------

/// The Unicode `White_Space` property, which `char::is_whitespace` tests.
pub open spec fn is_ws(c: char) -> bool {
    let n = c as u32;
    ||| 0x09 <= n <= 0x0d
    ||| n == 0x20
    ||| n == 0x85
    ||| n == 0xa0
    ||| n == 0x1680
    ||| 0x2000 <= n <= 0x200a
    ||| n == 0x2028
    ||| n == 0x2029
    ||| n == 0x202f
    ||| n == 0x205f
    ||| n == 0x3000
}

/// Whether `c` has the Unicode `White_Space` property.
pub fn is_whitespace(c: char) -> (b: bool)
    ensures
        b == is_ws(c),
{
    let n = c as u32;
    (0x09 <= n && n <= 0x0d) || n == 0x20 || n == 0x85 || n == 0xa0 || n == 0x1680 || (0x2000
        <= n && n <= 0x200a) || n == 0x2028 || n == 0x2029 || n == 0x202f || n == 0x205f || n
        == 0x3000
}

// ---------------------------------------------------------------------------
// Filling `{}` placeholders
// ---------------------------------------------------------------------------

/// Whether the placeholder `{}` starts at index `i` of `s`.
pub open spec fn braces_at(s: Seq<char>, i: int) -> bool {
    0 <= i && i + 1 < s.len() && s[i] == '{' && s[i + 1] == '}'
}

/// The first index at or after `i` where a placeholder `{}` starts.
pub open spec fn braces_from(s: Seq<char>, i: nat) -> Option<int>
    decreases s.len() - i,
{
    if i + 1 >= s.len() {
        None
    } else if braces_at(s, i as int) {
        Some(i as int)
    } else {
        braces_from(s, i + 1)
    }
}

/// `s` with its first placeholder `{}` replaced by `with`
/// (what `str::replacen("{}", with, 1)` gives).
pub open spec fn fill_first(s: Seq<char>, with: Seq<char>) -> Seq<char> {
    match braces_from(s, 0) {
        Some(i) => s.take(i) + with + s.skip(i + 2),
        None => s,
    }
}

/// `s` with every placeholder `{}` replaced by `with`, scanning left to right
/// (what `str::replace("{}", with)` gives).
pub open spec fn fill_every(s: Seq<char>, with: Seq<char>) -> Seq<char>
    decreases s.len(),
{
    match braces_from(s, 0) {
        Some(i) => if 0 <= i && i + 2 <= s.len() {
            s.take(i) + with + fill_every(s.skip(i + 2), with)
        } else {
            s
        },
        None => s,
    }
}

proof fn lemma_braces_from_bounds(s: Seq<char>, i: nat)
    ensures
        braces_from(s, i) matches Some(k) ==> i <= k && braces_at(s, k) && forall|j: int|
            i <= j < k ==> !braces_at(s, j),
        braces_from(s, i) is None ==> forall|j: int| i <= j ==> !braces_at(s, j),
    decreases s.len() - i,
{
    if i + 1 < s.len() && !braces_at(s, i as int) {
        lemma_braces_from_bounds(s, i + 1);
    }
}

/// The first index at or after `from` where `{}` starts in `v`.
fn find_braces(v: &[char], from: usize) -> (r: Option<usize>)
    requires
        from <= v@.len(),
    ensures
        r matches Some(k) ==> braces_from(v@, from as nat) == Some(k as int),
        r is None ==> braces_from(v@, from as nat) is None,
    decreases v@.len() - from,
{
    if v.len() - from <= 1 {
        None
    } else if v[from] == '{' && v[from + 1] == '}' {
        Some(from)
    } else {
        find_braces(v, from + 1)
    }
}

/// `s` with its first `{}` replaced by `with`.
pub fn fill(s: &str, with: &str) -> (res: String)
    ensures
        res@ == fill_first(s@, with@),
{
    let v = chars_of(s);
    match find_braces(v.as_slice(), 0) {
        Some(i) => {
            proof {
                lemma_braces_from_bounds(v@, 0);
            }
            let mut out: Vec<char> = Vec::new();
            push_range(&mut out, v.as_slice(), 0, i);
            push_str(&mut out, with);
            push_range(&mut out, v.as_slice(), i + 2, v.len());
            assert(out@ == v@.take(i as int) + with@ + v@.skip(i + 2));
            string_of(out.as_slice())
        },
        None => string_of(v.as_slice()),
    }
}

/// `s` with every `{}` replaced by `with`.
pub fn fill_all(s: &str, with: &str) -> (res: String)
    ensures
        res@ == fill_every(s@, with@),
{
    let v = chars_of(s);
    let w = chars_of(with);
    let mut out: Vec<char> = Vec::new();
    let mut pos: usize = 0;
    proof {
        assert(v@.skip(0) == v@);
    }
    while pos < v.len()
        invariant
            pos <= v@.len(),
            w@ == with@,
            fill_every(s@, with@) == out@ + fill_every(v@.skip(pos as int), with@),
            v@ == s@,
        decreases v@.len() - pos,
    {
        let ghost rest = v@.skip(pos as int);
        match find_braces(v.as_slice(), pos) {
            Some(i) => {
                proof {
                    lemma_braces_from_bounds(v@, pos as nat);
                    lemma_braces_shift(v@, pos as nat);
                    assert(braces_from(rest, 0) == Some((i - pos) as int));
                    assert(rest.take(i - pos) == v@.subrange(pos as int, i as int));
                    assert(rest.skip(i - pos + 2) == v@.skip(i + 2));
                }
                push_range(&mut out, v.as_slice(), pos, i);
                push_all(&mut out, w.as_slice());
                pos = i + 2;
            },
            None => {
                proof {
                    lemma_braces_shift(v@, pos as nat);
                    assert(braces_from(rest, 0) is None);
                    assert(v@.subrange(pos as int, v@.len() as int) == rest);
                }
                push_range(&mut out, v.as_slice(), pos, v.len());
                pos = v.len();
                assert(v@.skip(pos as int) =~= Seq::<char>::empty());
                assert(braces_from(Seq::<char>::empty(), 0) is None);
            },
        }
    }
    assert(v@.skip(pos as int) =~= Seq::<char>::empty());
    assert(braces_from(Seq::<char>::empty(), 0) is None);
    assert(out@ + Seq::<char>::empty() == out@);
    string_of(out.as_slice())
}

/// Searching `s` from `i` is searching its suffix from its start.
proof fn lemma_braces_shift(s: Seq<char>, i: nat)
    requires
        i <= s.len(),
    ensures
        braces_from(s, i) matches Some(k) ==> braces_from(s.skip(i as int), 0) == Some(k - i),
        braces_from(s, i) is None ==> braces_from(s.skip(i as int), 0) is None,
{
    lemma_braces_shift_from(s, i, 0);
}

proof fn lemma_braces_shift_from(s: Seq<char>, i: nat, j: nat)
    requires
        i + j <= s.len(),
    ensures
        braces_from(s, i + j) matches Some(k) ==> braces_from(s.skip(i as int), j) == Some(
            k - i,
        ),
        braces_from(s, i + j) is None ==> braces_from(s.skip(i as int), j) is None,
    decreases s.len() - (i + j),
{
    let t = s.skip(i as int);
    if i + j + 1 >= s.len() {
    } else {
        assert(braces_at(s, (i + j) as int) == braces_at(t, j as int));
        if !braces_at(s, (i + j) as int) {
            lemma_braces_shift_from(s, i, j + 1);
        }
    }
}


// ---------------------------------------------------------------------------
// Splitting
// ---------------------------------------------------------------------------

/// Pieces finished so far, and the piece being read.
pub struct Pieces {
    pub done: Seq<Seq<char>>,
    pub cur: Seq<char>,
}

/// Reading `s` from the left: each run of characters that are not white space
/// is one word.
pub open spec fn words_scan(s: Seq<char>) -> Pieces
    decreases s.len(),
{
    if s.len() == 0 {
        Pieces { done: seq![], cur: seq![] }
    } else {
        let p = words_scan(s.drop_last());
        let c = s.last();
        if is_ws(c) {
            if p.cur.len() > 0 {
                Pieces { done: p.done.push(p.cur), cur: seq![] }
            } else {
                p
            }
        } else {
            Pieces { done: p.done, cur: p.cur.push(c) }
        }
    }
}

/// The maximal runs of non-white-space characters of `s`, in order
/// (what `str::split_whitespace` yields).
pub open spec fn words(s: Seq<char>) -> Seq<Seq<char>> {
    let p = words_scan(s);
    if p.cur.len() > 0 {
        p.done.push(p.cur)
    } else {
        p.done
    }
}

/// Reading `s` from the left, cutting at each `sep`.
pub open spec fn split_scan(s: Seq<char>, sep: char) -> Pieces
    decreases s.len(),
{
    if s.len() == 0 {
        Pieces { done: seq![], cur: seq![] }
    } else {
        let p = split_scan(s.drop_last(), sep);
        if s.last() == sep {
            Pieces { done: p.done.push(p.cur), cur: seq![] }
        } else {
            Pieces { done: p.done, cur: p.cur.push(s.last()) }
        }
    }
}

/// The pieces of `s` between occurrences of `sep`, empty ones included
/// (what `str::split(sep)` yields): one more piece than there are separators.
pub open spec fn split_on(s: Seq<char>, sep: char) -> Seq<Seq<char>> {
    let p = split_scan(s, sep);
    p.done.push(p.cur)
}

/// The views of a sequence of strings.
pub open spec fn views(v: Seq<String>) -> Seq<Seq<char>> {
    v.map_values(|s: String| s@)
}

/// The words of `s`, as strings.
pub fn split_whitespace(s: &str) -> (res: Vec<String>)
    ensures
        views(res@) == words(s@),
{
    let v = chars_of(s);
    let mut done: Vec<String> = Vec::new();
    let mut cur: Vec<char> = Vec::new();
    let mut i: usize = 0;
    while i < v.len()
        invariant
            i <= v@.len(),
            v@ == s@,
            views(done@) == words_scan(v@.take(i as int)).done,
            cur@ == words_scan(v@.take(i as int)).cur,
        decreases v@.len() - i,
    {
        let c = v[i];
        assert(v@.take(i + 1).drop_last() == v@.take(i as int));
        if is_whitespace(c) {
            if cur.len() > 0 {
                let w = string_of(cur.as_slice());
                done.push(w);
                cur = Vec::new();
                assert(views(done@) == views(done@.drop_last()).push(w@));
            }
        } else {
            cur.push(c);
        }
        i = i + 1;
    }
    assert(v@.take(v@.len() as int) == v@);
    if cur.len() > 0 {
        let w = string_of(cur.as_slice());
        done.push(w);
        assert(views(done@) == views(done@.drop_last()).push(w@));
    }
    done
}

/// The pieces of `s` between occurrences of `sep`, as strings.
pub fn split_char(s: &str, sep: char) -> (res: Vec<String>)
    ensures
        views(res@) == split_on(s@, sep),
{
    let v = chars_of(s);
    let mut done: Vec<String> = Vec::new();
    let mut cur: Vec<char> = Vec::new();
    let mut i: usize = 0;
    while i < v.len()
        invariant
            i <= v@.len(),
            v@ == s@,
            views(done@) == split_scan(v@.take(i as int), sep).done,
            cur@ == split_scan(v@.take(i as int), sep).cur,
        decreases v@.len() - i,
    {
        let c = v[i];
        assert(v@.take(i + 1).drop_last() == v@.take(i as int));
        if c == sep {
            let w = string_of(cur.as_slice());
            done.push(w);
            cur = Vec::new();
            assert(views(done@) == views(done@.drop_last()).push(w@));
        } else {
            cur.push(c);
        }
        i = i + 1;
    }
    assert(v@.take(v@.len() as int) == v@);
    let w = string_of(cur.as_slice());
    done.push(w);
    assert(views(done@) == views(done@.drop_last()).push(w@));
    done
}

// ---------------------------------------------------------------------------
// Trimming, prefixes, joining
// ---------------------------------------------------------------------------

/// `s` without its leading white space.
pub open spec fn trim_start(s: Seq<char>) -> Seq<char>
    decreases s.len(),
{
    if s.len() > 0 && is_ws(s[0]) {
        trim_start(s.drop_first())
    } else {
        s
    }
}

/// `s` without its trailing white space.
pub open spec fn trim_end(s: Seq<char>) -> Seq<char>
    decreases s.len(),
{
    if s.len() > 0 && is_ws(s.last()) {
        trim_end(s.drop_last())
    } else {
        s
    }
}

/// `s` without leading and trailing white space (what `str::trim` gives).
pub open spec fn trimmed(s: Seq<char>) -> Seq<char> {
    trim_end(trim_start(s))
}

proof fn lemma_trim_start_skip(s: Seq<char>, i: int)
    requires
        0 <= i <= s.len(),
        forall|j: int| 0 <= j < i ==> is_ws(#[trigger] s[j]),
    ensures
        trim_start(s) == trim_start(s.skip(i)),
    decreases i,
{
    if i > 0 {
        assert(s.drop_first().skip(i - 1) == s.skip(i));
        lemma_trim_start_skip(s.drop_first(), i - 1);
    } else {
        assert(s.skip(0) == s);
    }
}

proof fn lemma_trim_end_take(s: Seq<char>, i: int)
    requires
        0 <= i <= s.len(),
        forall|j: int| i <= j < s.len() ==> is_ws(#[trigger] s[j]),
    ensures
        trim_end(s) == trim_end(s.take(i)),
    decreases s.len() - i,
{
    if i < s.len() {
        assert(s.drop_last().take(i) == s.take(i));
        lemma_trim_end_take(s.drop_last(), i);
    } else {
        assert(s.take(i) == s);
    }
}

/// `s` without leading and trailing white space.
pub fn trim(s: &str) -> (res: String)
    ensures
        res@ == trimmed(s@),
{
    let v = chars_of(s);
    let mut a: usize = 0;
    while a < v.len() && is_whitespace(v[a])
        invariant
            a <= v@.len(),
            forall|j: int| 0 <= j < a ==> is_ws(#[trigger] v@[j]),
        decreases v@.len() - a,
    {
        a = a + 1;
    }
    let mut b: usize = v.len();
    while b > a && is_whitespace(v[b - 1])
        invariant
            a <= b <= v@.len(),
            forall|j: int| b <= j < v@.len() ==> is_ws(#[trigger] v@[j]),
        decreases b - a,
    {
        b = b - 1;
    }
    proof {
        lemma_trim_start_skip(v@, a as int);
        let t = v@.skip(a as int);
        assert(a == v@.len() || !is_ws(t[0]));
        assert(trim_start(t) == t);
        assert forall|j: int| (b - a) <= j < t.len() implies is_ws(#[trigger] t[j]) by {
            assert(t[j] == v@[j + a]);
        }
        lemma_trim_end_take(t, (b - a) as int);
        let u = t.take((b - a) as int);
        assert(u == v@.subrange(a as int, b as int));
        if b > a {
            assert(u.last() == v@[b - 1]);
        }
        assert(trim_end(u) == u);
    }
    let mut out: Vec<char> = Vec::new();
    push_range(&mut out, v.as_slice(), a, b);
    assert(out@ == v@.subrange(a as int, b as int));
    string_of(out.as_slice())
}

/// Whether `s` begins with `p`.
pub open spec fn has_prefix(s: Seq<char>, p: Seq<char>) -> bool {
    p.len() <= s.len() && s.take(p.len() as int) == p
}

/// Whether `s` begins with `p`.
pub fn starts_with(s: &[char], p: &[char]) -> (b: bool)
    ensures
        b == has_prefix(s@, p@),
{
    if p.len() > s.len() {
        return false;
    }
    let mut i: usize = 0;
    while i < p.len()
        invariant
            p@.len() <= s@.len(),
            i <= p@.len(),
            forall|j: int| 0 <= j < i ==> s@[j] == p@[j],
        decreases p@.len() - i,
    {
        if s[i] != p[i] {
            assert(s@.take(p@.len() as int)[i as int] != p@[i as int]);
            return false;
        }
        i = i + 1;
    }
    assert(s@.take(p@.len() as int) =~= p@);
    true
}

/// The pieces of `list` with `sep` between each two neighbours
/// (what `[String]::join(sep)` gives).
pub open spec fn joined(list: Seq<Seq<char>>, sep: Seq<char>) -> Seq<char>
    decreases list.len(),
{
    if list.len() == 0 {
        seq![]
    } else if list.len() == 1 {
        list[0]
    } else {
        joined(list.drop_last(), sep) + sep + list.last()
    }
}

/// The strings of `list` with `sep` between each two neighbours.
pub fn join(list: &Vec<String>, sep: &str) -> (res: String)
    ensures
        res@ == joined(views(list@), sep@),
{
    let mut out: Vec<char> = Vec::new();
    let mut i: usize = 0;
    while i < list.len()
        invariant
            i <= list@.len(),
            out@ == joined(views(list@).take(i as int), sep@),
        decreases list@.len() - i,
    {
        let ghost before = views(list@).take(i as int);
        if i > 0 {
            push_str(&mut out, sep);
        }
        push_str(&mut out, list[i].as_str());
        proof {
            let after = views(list@).take(i + 1);
            assert(after.drop_last() == before);
            assert(after.last() == list@[i as int]@);
            if i == 0 {
                assert(out@ == after[0]);
            }
        }
        i = i + 1;
    }
    assert(views(list@).take(list@.len() as int) == views(list@));
    string_of(out.as_slice())
}

/// `n` spaces.
pub open spec fn spaces(n: int) -> Seq<char>
    decreases n,
{
    if n <= 0 {
        seq![]
    } else {
        spaces(n - 1).push(' ')
    }
}

/// `s` preceded by spaces up to `width` characters (format `{:>width}`).
pub open spec fn pad_left(s: Seq<char>, width: int) -> Seq<char> {
    spaces(width - s.len()) + s
}

/// `s` followed by spaces up to `width` characters (format `{:<width}`).
pub open spec fn pad_right(s: Seq<char>, width: int) -> Seq<char> {
    s + spaces(width - s.len())
}

/// Appends `n` spaces to `dst`.
pub fn push_spaces(dst: &mut Vec<char>, n: usize)
    ensures
        final(dst)@ == old(dst)@ + spaces(n as int),
{
    let ghost start = dst@;
    let mut i: usize = 0;
    assert(start + spaces(0) == start);
    while i < n
        invariant
            i <= n,
            dst@ == start + spaces(i as int),
        decreases n - i,
    {
        dst.push(' ');
        i = i + 1;
    }
}

/// Appends `s` right-aligned in `width` characters.
pub fn push_padded_left(dst: &mut Vec<char>, s: &[char], width: usize)
    ensures
        final(dst)@ == old(dst)@ + pad_left(s@, width as int),
{
    if width > s.len() {
        push_spaces(dst, width - s.len());
    } else {
        assert(spaces(width - s@.len()) == Seq::<char>::empty());
    }
    push_all(dst, s);
}

/// Appends `s` left-aligned in `width` characters.
pub fn push_padded_right(dst: &mut Vec<char>, s: &[char], width: usize)
    ensures
        final(dst)@ == old(dst)@ + pad_right(s@, width as int),
{
    push_all(dst, s);
    if width > s.len() {
        push_spaces(dst, width - s.len());
    } else {
        assert(spaces(width - s@.len()) == Seq::<char>::empty());
    }
}

/// Whether `a` and `b` hold the same characters.
pub fn same_chars(a: &[char], b: &[char]) -> (r: bool)
    ensures
        r == (a@ == b@),
{
    if a.len() != b.len() {
        return false;
    }
    let mut i: usize = 0;
    while i < a.len()
        invariant
            a@.len() == b@.len(),
            i <= a@.len(),
            forall|j: int| 0 <= j < i ==> a@[j] == b@[j],
        decreases a@.len() - i,
    {
        if a[i] != b[i] {
            return false;
        }
        i = i + 1;
    }
    assert(a@ =~= b@);
    true
}


/// An owned copy of `s`.
pub fn owned(s: &str) -> (res: String)
    ensures
        res@ == s@,
{
    let v = chars_of(s);
    string_of(v.as_slice())
}

} // verus!

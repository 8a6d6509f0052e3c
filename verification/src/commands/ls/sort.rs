//! Ordering entries by name: character by character, by code point, a
//! proper prefix first (the order of `String`'s comparison, since UTF-8
//! keeps code-point order).
use vstd::prelude::*;
use crate::text::chars_of;
use super::entry::LsEntry;

verus! {

/// `a` comes strictly before `b`.
pub open spec fn name_lt(a: Seq<char>, b: Seq<char>) -> bool
    decreases a.len(),
{
    if b.len() == 0 {
        false
    } else if a.len() == 0 {
        true
    } else if a[0] != b[0] {
        a[0] < b[0]
    } else {
        name_lt(a.drop_first(), b.drop_first())
    }
}

/// `a` does not come after `b`.
pub open spec fn name_le(a: Seq<char>, b: Seq<char>) -> bool {
    !name_lt(b, a)
}

/// The entries are in order of their names.
pub open spec fn sorted_by_name(s: Seq<LsEntry>) -> bool {
    forall|i: int, j: int| 0 <= i < j < s.len() ==> name_le(s[i].name@, s[j].name@)
}

/// Coming before is transitive.
pub proof fn lemma_name_lt_transitive(a: Seq<char>, b: Seq<char>, c: Seq<char>)
    requires
        name_lt(a, b),
        name_lt(b, c),
    ensures
        name_lt(a, c),
    decreases a.len(),
{
    if a.len() > 0 && b.len() > 0 && c.len() > 0 && a[0] == b[0] && b[0] == c[0] {
        lemma_name_lt_transitive(a.drop_first(), b.drop_first(), c.drop_first());
    }
}

/// Two names never come each before the other.
pub proof fn lemma_name_lt_asymmetric(a: Seq<char>, b: Seq<char>)
    ensures
        !(name_lt(a, b) && name_lt(b, a)),
    decreases a.len(),
{
    if a.len() > 0 && b.len() > 0 && a[0] == b[0] {
        lemma_name_lt_asymmetric(a.drop_first(), b.drop_first());
    }
}

/// The 512-byte blocks the entries take, all together.
pub open spec fn total_blocks(s: Seq<LsEntry>) -> nat
    decreases s.len(),
{
    if s.len() == 0 {
        0
    } else {
        total_blocks(s.drop_last()) + s.last().meta.blocks as nat
    }
}

/// Inserting an entry adds its blocks.
pub proof fn lemma_total_blocks_insert(s: Seq<LsEntry>, i: int, x: LsEntry)
    requires
        0 <= i <= s.len(),
    ensures
        total_blocks(s.insert(i, x)) == total_blocks(s) + x.meta.blocks,
    decreases s.len(),
{
    if i == s.len() {
        assert(s.insert(i, x) == s.push(x));
        assert(s.push(x).drop_last() == s);
    } else {
        lemma_total_blocks_insert(s.drop_last(), i, x);
        assert(s.insert(i, x).drop_last() == s.drop_last().insert(i, x));
        assert(s.insert(i, x).last() == s.last());
    }
}

/// The entries called `k`, in the order they come.
pub open spec fn named(s: Seq<LsEntry>, k: Seq<char>) -> Seq<LsEntry>
    decreases s.len(),
{
    if s.len() == 0 {
        seq![]
    } else if s.last().name@ == k {
        named(s.drop_last(), k).push(s.last())
    } else {
        named(s.drop_last(), k)
    }
}

proof fn lemma_named_add(a: Seq<LsEntry>, b: Seq<LsEntry>, k: Seq<char>)
    ensures
        named(a + b, k) == named(a, k) + named(b, k),
    decreases b.len(),
{
    if b.len() == 0 {
        assert(a + b == a);
        assert(named(a, k) + named(b, k) == named(a, k));
    } else {
        lemma_named_add(a, b.drop_last(), k);
        assert((a + b).drop_last() == a + b.drop_last());
        assert((a + b).last() == b.last());
        if b.last().name@ == k {
            assert(named(a, k) + named(b.drop_last(), k).push(b.last()) == (named(a, k) + named(
                b.drop_last(),
                k,
            )).push(b.last()));
        }
    }
}

proof fn lemma_named_one(x: LsEntry, k: Seq<char>)
    ensures
        named(seq![x], k) == if x.name@ == k {
            seq![x]
        } else {
            Seq::<LsEntry>::empty()
        },
{
    assert(seq![x].drop_last() =~= Seq::<LsEntry>::empty());
    assert(named(Seq::<LsEntry>::empty(), k) == Seq::<LsEntry>::empty());
    assert(seq![x].last() == x);
    assert(Seq::<LsEntry>::empty().push(x) =~= seq![x]);
}

proof fn lemma_named_none(s: Seq<LsEntry>, k: Seq<char>)
    requires
        forall|j: int| 0 <= j < s.len() ==> (#[trigger] s[j]).name@ != k,
    ensures
        named(s, k) == Seq::<LsEntry>::empty(),
    decreases s.len(),
{
    if s.len() > 0 {
        assert forall|j: int| 0 <= j < s.drop_last().len() implies (#[trigger] s.drop_last()[j]).name@
            != k by {
            assert(s.drop_last()[j] == s[j]);
        }
        lemma_named_none(s.drop_last(), k);
        assert(s.last() == s[s.len() - 1]);
    }
}

/// No name comes before itself.
pub proof fn lemma_name_lt_irreflexive(a: Seq<char>)
    ensures
        !name_lt(a, a),
    decreases a.len(),
{
    if a.len() > 0 {
        lemma_name_lt_irreflexive(a.drop_first());
    }
}

/// Whether `a` comes strictly before `b`.
fn less(a: &[char], b: &[char]) -> (r: bool)
    ensures
        r == name_lt(a@, b@),
{
    let mut i: usize = 0;
    assert(a@.skip(0) == a@ && b@.skip(0) == b@);
    while i < a.len() && i < b.len() && a[i] == b[i]
        invariant
            i <= a@.len(),
            i <= b@.len(),
            name_lt(a@, b@) == name_lt(a@.skip(i as int), b@.skip(i as int)),
        decreases a@.len() - i,
    {
        assert(a@.skip(i as int).drop_first() == a@.skip(i + 1));
        assert(b@.skip(i as int).drop_first() == b@.skip(i + 1));
        i = i + 1;
    }
    if i == b.len() {
        false
    } else if i == a.len() {
        true
    } else {
        a[i] < b[i]
    }
}

/// Sorts entries by name; entries with equal names keep their order.
pub fn sort_by_name(v: Vec<LsEntry>) -> (r: Vec<LsEntry>)
    ensures
        sorted_by_name(r@),
        r@.to_multiset() == v@.to_multiset(),
        total_blocks(r@) == total_blocks(v@),
        forall|k: Seq<char>| #[trigger] named(r@, k) == named(v@, k),
{
    broadcast use vstd::seq_lib::group_to_multiset_ensures;

    let mut rest = v;
    let mut out: Vec<LsEntry> = Vec::new();
    let ghost all = v@;
    assert(out@.to_multiset() =~= vstd::multiset::Multiset::empty());
    assert forall|k: Seq<char>| #[trigger] named(all, k) == named(out@, k) + named(rest@, k) by {
        assert(named(out@, k) == Seq::<LsEntry>::empty());
        assert(Seq::<LsEntry>::empty() + named(rest@, k) == named(rest@, k));
    }
    while rest.len() > 0
        invariant
            sorted_by_name(out@),
            out@.to_multiset().add(rest@.to_multiset()) == all.to_multiset(),
            total_blocks(out@) + total_blocks(rest@) == total_blocks(all),
            forall|k: Seq<char>| #[trigger] named(all, k) == named(out@, k) + named(rest@, k),
        decreases rest@.len(),
    {
        let ghost before_rest = rest@;
        let x = rest.remove(0);
        proof {
            vstd::seq_lib::to_multiset_remove(before_rest, 0);
            assert(before_rest[0] == x);
            assert(before_rest.contains(x));
            assert(before_rest.remove(0) == rest@);
            assert(rest@.insert(0, x) == before_rest);
            lemma_total_blocks_insert(rest@, 0, x);
            assert(before_rest == seq![x] + rest@);
        }
        let xk = chars_of(x.name.as_str());
        let mut p: usize = 0;
        while p < out.len()
            invariant
                p <= out@.len(),
                xk@ == x.name@,
                forall|i: int| 0 <= i < p ==> name_le(#[trigger] out@[i].name@, x.name@),
            ensures
                p <= out@.len(),
                forall|i: int| 0 <= i < p ==> name_le(#[trigger] out@[i].name@, x.name@),
                p < out@.len() ==> name_lt(x.name@, out@[p as int].name@),
            decreases out@.len() - p,
        {
            let key = chars_of(out[p].name.as_str());
            if less(xk.as_slice(), key.as_slice()) {
                break;
            }
            p = p + 1;
        }
        let ghost before = out@;
        proof {
            assert forall|j: int| p <= j < before.len() implies name_le(
                x.name@,
                #[trigger] before[j].name@,
            ) by {
                lemma_name_lt_asymmetric(x.name@, before[p as int].name@);
                if j > p {
                    assert(name_le(before[p as int].name@, before[j].name@));
                    if name_lt(before[j].name@, x.name@) {
                        lemma_name_lt_transitive(before[j].name@, x.name@, before[p as int].name@);
                    }
                }
            }
        }
        out.insert(p, x);
        proof {
            vstd::seq_lib::to_multiset_insert(before, p as int, x);
            lemma_total_blocks_insert(before, p as int, x);
            let front = before.take(p as int);
            let back = before.skip(p as int);
            assert(before == front + back);
            assert(out@ == front + seq![x] + back);
            assert forall|j: int| 0 <= j < back.len() implies (#[trigger] back[j]).name@ != x.name@ by {
                assert(back[j] == before[p + j]);
                assert(name_le(x.name@, before[p + j].name@));
                if j == 0 {
                    lemma_name_lt_irreflexive(x.name@);
                } else {
                    assert(name_le(before[p as int].name@, before[p + j].name@));
                    if before[p + j].name@ == x.name@ {
                        lemma_name_lt_irreflexive(x.name@);
                    }
                }
            }
            lemma_named_none(back, x.name@);
            assert forall|k: Seq<char>| #[trigger] named(all, k) == named(out@, k) + named(rest@, k) by {
                lemma_named_add(front, back, k);
                lemma_named_add(front + seq![x], back, k);
                lemma_named_add(front, seq![x], k);
                lemma_named_add(seq![x], rest@, k);
                lemma_named_one(x, k);
                assert(named(all, k) == named(before, k) + named(before_rest, k));
                if x.name@ == k {
                    assert(named(out@, k) + named(rest@, k) =~= named(before, k) + (seq![x] + named(
                        rest@,
                        k,
                    )));
                } else {
                    assert(named(out@, k) + named(rest@, k) =~= named(before, k) + named(
                        before_rest,
                        k,
                    ));
                }
            }
            assert forall|i: int, j: int| 0 <= i < j < out@.len() implies name_le(
                out@[i].name@,
                out@[j].name@,
            ) by {
                if i < p && j < p {
                    assert(out@[i] == before[i] && out@[j] == before[j]);
                } else if i < p && j == p {
                } else if i < p {
                    assert(out@[i] == before[i] && out@[j] == before[j - 1]);
                } else if i == p {
                    assert(out@[j] == before[j - 1]);
                } else {
                    assert(out@[i] == before[i - 1] && out@[j] == before[j - 1]);
                }
            }
            before_rest.to_multiset_ensures();
            assert(before_rest.to_multiset().count(x) > 0);
            assert(out@.to_multiset() == before.to_multiset().insert(x));
            assert(rest@.to_multiset() == before_rest.to_multiset().remove(x));
            assert(out@.to_multiset().add(rest@.to_multiset()) =~= before.to_multiset().add(
                before_rest.to_multiset(),
            ));
        }
    }
    assert(rest@.to_multiset() =~= vstd::multiset::Multiset::empty());
    assert(total_blocks(rest@) == 0);
    assert forall|k: Seq<char>| #[trigger] named(out@, k) == named(v@, k) by {
        assert(named(rest@, k) == Seq::<LsEntry>::empty());
        assert(named(all, k) == named(out@, k) + named(rest@, k));
        assert(named(out@, k) + Seq::<LsEntry>::empty() == named(out@, k));
    }
    assert(out@.to_multiset().add(vstd::multiset::Multiset::empty()) =~= out@.to_multiset());
    out
}


/// Names are ordered by their first differing character, whatever follows
/// it: after a common beginning `p`, a smaller character comes first.
pub proof fn law_name_order_first_difference(
    p: Seq<char>,
    x: char,
    y: char,
    s: Seq<char>,
    t: Seq<char>,
)
    requires
        x < y,
    ensures
        name_lt(p.push(x) + s, p.push(y) + t),
        !name_lt(p.push(y) + t, p.push(x) + s),
    decreases p.len(),
{
    let a = p.push(x) + s;
    let b = p.push(y) + t;
    if p.len() == 0 {
        assert(a[0] == x && b[0] == y);
    } else {
        assert(a[0] == p[0] && b[0] == p[0]);
        assert(a.drop_first() == p.drop_first().push(x) + s);
        assert(b.drop_first() == p.drop_first().push(y) + t);
        law_name_order_first_difference(p.drop_first(), x, y, s, t);
    }
}

/// A name comes before every longer name that begins with it.
pub proof fn law_name_order_prefix_first(p: Seq<char>, t: Seq<char>)
    requires
        t.len() > 0,
    ensures
        name_lt(p, p + t),
        !name_lt(p + t, p),
    decreases p.len(),
{
    let b = p + t;
    if p.len() > 0 {
        assert(b[0] == p[0]);
        assert(b.drop_first() == p.drop_first() + t);
        law_name_order_prefix_first(p.drop_first(), t);
    } else {
        assert(b == t);
    }
}

} // verus!

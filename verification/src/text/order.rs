//! The order of texts, character by character, and lists kept in that order.
use vstd::prelude::*;

use crate::text::chars::{chars_of, text_eq};
use crate::text::compose::texts;

verus! {

/// Whether a text comes before another.
pub open spec fn before(a: Seq<char>, b: Seq<char>) -> bool
    decreases a.len(),
{
    if b.len() == 0 {
        false
    } else if a.len() == 0 {
        true
    } else if a[0] != b[0] {
        (a[0] as int) < (b[0] as int)
    } else {
        before(a.drop_first(), b.drop_first())
    }
}

/// Whether each text of a list comes before all that follow it.
pub open spec fn ascending(v: Seq<Seq<char>>) -> bool {
    forall|i: int, j: int| 0 <= i < j < v.len() ==> before(#[trigger] v[i], #[trigger] v[j])
}

/// How many texts at the beginning of a list come before the given one.
pub open spec fn rank(v: Seq<Seq<char>>, x: Seq<char>) -> int
    decreases v.len(),
{
    if v.len() == 0 || !before(v[0], x) {
        0
    } else {
        1 + rank(v.drop_first(), x)
    }
}

/// A list with a text put in its place, unless it is there already.
pub open spec fn placed(v: Seq<Seq<char>>, x: Seq<char>) -> Seq<Seq<char>> {
    let i = rank(v, x);
    if i < v.len() && v[i] == x {
        v
    } else {
        v.insert(i, x)
    }
}

/// The texts of a list in order, each once.
pub open spec fn in_order(v: Seq<Seq<char>>) -> Seq<Seq<char>>
    decreases v.len(),
{
    if v.len() == 0 {
        seq![]
    } else {
        placed(in_order(v.drop_last()), v.last())
    }
}

pub proof fn lemma_irreflexive(a: Seq<char>)
    ensures
        !before(a, a),
    decreases a.len(),
{
    if a.len() > 0 {
        lemma_irreflexive(a.drop_first());
    }
}

pub proof fn lemma_transitive(a: Seq<char>, b: Seq<char>, c: Seq<char>)
    requires
        before(a, b),
        before(b, c),
    ensures
        before(a, c),
    decreases a.len(),
{
    if a.len() > 0 && a[0] == b[0] && b[0] == c[0] {
        lemma_transitive(a.drop_first(), b.drop_first(), c.drop_first());
    }
}

pub proof fn lemma_total(a: Seq<char>, b: Seq<char>)
    ensures
        before(a, b) || before(b, a) || a == b,
    decreases a.len(),
{
    if a.len() > 0 && b.len() > 0 {
        if a[0] == b[0] {
            lemma_total(a.drop_first(), b.drop_first());
            if a.drop_first() == b.drop_first() {
                assert forall|i: int| 0 <= i < a.len() implies a[i] == b[i] by {
                    if i > 0 {
                        assert(a[i] == a.drop_first()[i - 1]);
                        assert(b[i] == b.drop_first()[i - 1]);
                    }
                }
                assert(a.len() == a.drop_first().len() + 1);
                assert(b.len() == b.drop_first().len() + 1);
                assert(a =~= b);
            }
        }
    } else {
        assert(a.len() == 0 && b.len() == 0 ==> a =~= b);
    }
}

pub proof fn lemma_rank(v: Seq<Seq<char>>, x: Seq<char>)
    ensures
        0 <= rank(v, x) <= v.len(),
        forall|i: int| 0 <= i < rank(v, x) ==> before(#[trigger] v[i], x),
        rank(v, x) < v.len() ==> !before(v[rank(v, x)], x),
    decreases v.len(),
{
    if v.len() > 0 && before(v[0], x) {
        let rest = v.drop_first();
        lemma_rank(rest, x);
        assert forall|i: int| 0 <= i < rank(v, x) implies before(#[trigger] v[i], x) by {
            if i > 0 {
                assert(v[i] == rest[i - 1]);
            }
        }
        if rank(v, x) < v.len() {
            assert(v[rank(v, x)] == rest[rank(rest, x)]);
        }
    }
}

pub proof fn lemma_rank_is(v: Seq<Seq<char>>, x: Seq<char>, n: int)
    requires
        0 <= n <= v.len(),
        forall|i: int| 0 <= i < n ==> before(#[trigger] v[i], x),
        n < v.len() ==> !before(v[n], x),
    ensures
        rank(v, x) == n,
{
    lemma_rank(v, x);
    let r = rank(v, x);
    if r < n {
        assert(before(v[r], x));
    } else if r > n {
        assert(before(v[n], x));
    }
}

/// Putting a text in its place keeps a list in order and adds that text alone.
pub proof fn placing_keeps_order(v: Seq<Seq<char>>, x: Seq<char>)
    requires
        ascending(v),
    ensures
        ascending(placed(v, x)),
        forall|y: Seq<char>| placed(v, x).contains(y) <==> v.contains(y) || y == x,
{
    lemma_rank(v, x);
    let n = rank(v, x);
    let r = placed(v, x);
    if n < v.len() {
        lemma_total(v[n], x);
    }
    if n < v.len() && v[n] == x {
        assert(v.contains(x));
    } else {
        assert forall|i: int, j: int| 0 <= i < j < r.len() implies before(
            #[trigger] r[i],
            #[trigger] r[j],
        ) by {
            if i == n {
                assert(r[j] == v[j - 1]);
                if j - 1 > n {
                    lemma_transitive(x, v[n], v[j - 1]);
                }
            } else if j == n {
                assert(r[i] == v[i]);
            } else {
                let a = if i < n {
                    i
                } else {
                    i - 1
                };
                let b = if j < n {
                    j
                } else {
                    j - 1
                };
                assert(r[i] == v[a] && r[j] == v[b]);
            }
        }
        assert forall|y: Seq<char>| r.contains(y) <==> v.contains(y) || y == x by {
            if v.contains(y) {
                let i = choose|i: int| 0 <= i < v.len() && v[i] == y;
                if i < n {
                    assert(r[i] == y);
                } else {
                    assert(r[i + 1] == y);
                }
            }
            if y == x {
                assert(r[n] == x);
            }
            if r.contains(y) {
                let i = choose|i: int| 0 <= i < r.len() && r[i] == y;
                if i < n {
                    assert(v[i] == y);
                } else if i > n {
                    assert(v[i - 1] == y);
                }
            }
        }
    }
}

/// The texts of a list in order are ascending and are the same texts.
pub proof fn ordering_keeps_the_texts(v: Seq<Seq<char>>)
    ensures
        ascending(in_order(v)),
        forall|y: Seq<char>| in_order(v).contains(y) <==> v.contains(y),
    decreases v.len(),
{
    if v.len() > 0 {
        let rest = v.drop_last();
        ordering_keeps_the_texts(rest);
        placing_keeps_order(in_order(rest), v.last());
        assert forall|y: Seq<char>| in_order(v).contains(y) <==> v.contains(y) by {
            if v.contains(y) {
                let i = choose|i: int| 0 <= i < v.len() && v[i] == y;
                if i < v.len() - 1 {
                    assert(rest[i] == y);
                }
            }
            if rest.contains(y) {
                let i = choose|i: int| 0 <= i < rest.len() && rest[i] == y;
                assert(v[i] == y);
            }
            if y == v.last() {
                assert(v[v.len() - 1] == y);
            }
        }
    }
}

fn code_of(c: char) -> (r: u32)
    ensures
        r == c as int,
{
    c as u32
}

/// Whether a text comes before another.
pub fn comes_before(a: &str, b: &str) -> (r: bool)
    ensures
        r == before(a@, b@),
{
    let x = chars_of(a);
    let y = chars_of(b);
    let mut i: usize = 0;
    assert(x@.skip(0) =~= a@ && y@.skip(0) =~= b@);
    while i < x.len() && i < y.len()
        invariant
            x@ == a@,
            y@ == b@,
            i <= x@.len(),
            i <= y@.len(),
            before(a@, b@) == before(x@.skip(i as int), y@.skip(i as int)),
        decreases x@.len() - i,
    {
        assert(x@.skip(i as int).drop_first() =~= x@.skip(i as int + 1));
        assert(y@.skip(i as int).drop_first() =~= y@.skip(i as int + 1));
        if x[i] != y[i] {
            return code_of(x[i]) < code_of(y[i]);
        }
        i += 1;
    }
    i >= x.len() && i < y.len()
}

/// Puts a text in its place in a list, unless it is there already.
pub fn place(v: &mut Vec<String>, x: &str)
    ensures
        texts(final(v)@) == placed(texts(old(v)@), x@),
{
    let mut i: usize = 0;
    while i < v.len() && comes_before(v[i].as_str(), x)
        invariant
            i <= v@.len(),
            forall|j: int| 0 <= j < i ==> before(#[trigger] texts(v@)[j], x@),
        decreases v@.len() - i,
    {
        i += 1;
    }
    proof {
        lemma_rank_is(texts(v@), x@, i as int);
    }
    if i < v.len() && text_eq(v[i].as_str(), x) {
        return;
    }
    let item = x.to_owned();
    let ghost was = v@;
    v.insert(i, item);
    assert(texts(v@) =~= texts(was).insert(i as int, x@));
}

} // verus!

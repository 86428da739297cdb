//! Stable ordering of a sequence by a ranking of its items.

use vstd::prelude::*;
use vstd::seq_lib::{to_multiset_build, to_multiset_insert};
use crate::text::text_lt;

verus! {

/// A view type whose values are ranked: some come strictly before others.
pub trait Ranked: Sized {
    /// Whether this value comes strictly before `other`.
    spec fn before(&self, other: &Self) -> bool;
}

/// `sorted` with `x` put behind every item that it does not come before.
pub open spec fn insert_stable<T: Ranked>(sorted: Seq<T>, x: T) -> Seq<T>
    decreases sorted.len(),
{
    if sorted.len() > 0 && x.before(&sorted.last()) {
        insert_stable(sorted.drop_last(), x).push(sorted.last())
    } else {
        sorted.push(x)
    }
}

/// The items of `s` in the order of their ranking; items of which neither
/// comes before the other keep their order.
pub open spec fn sort_stable<T: Ranked>(s: Seq<T>) -> Seq<T>
    decreases s.len(),
{
    if s.len() == 0 {
        Seq::empty()
    } else {
        insert_stable(sort_stable(s.drop_last()), s.last())
    }
}

/// Whether no item of `s` comes strictly before one that stands in front
/// of it.
pub open spec fn ordered<T: Ranked>(s: Seq<T>) -> bool {
    forall|i: int, j: int| #![trigger s[i], s[j]] 0 <= i < j < s.len() ==> !s[j].before(&s[i])
}

/// Whether the ranking of `T` is an order: of two values at most one comes
/// before the other, and "does not come before" carries over a value in
/// between.
pub open spec fn is_ranking<T: Ranked>() -> bool {
    &&& forall|a: T, b: T| #[trigger] a.before(&b) ==> !b.before(&a)
    &&& forall|a: T, b: T, c: T|
        #![trigger c.before(&b), b.before(&a)]
        !c.before(&b) && !b.before(&a) ==> !c.before(&a)
}

/// The place at which `insert_stable` puts `x`.
pub open spec fn stable_place<T: Ranked>(sorted: Seq<T>, x: T) -> int
    decreases sorted.len(),
{
    if sorted.len() > 0 && x.before(&sorted.last()) {
        stable_place(sorted.drop_last(), x)
    } else {
        sorted.len() as int
    }
}

/// `insert_stable` puts `x` at the place in front of the items that it
/// comes before.
pub proof fn lemma_insert_stable_at<T: Ranked>(s: Seq<T>, x: T, at: int)
    requires
        0 <= at <= s.len(),
        forall|j: int| at <= j < s.len() ==> x.before(&#[trigger] s[j]),
        at == 0 || !x.before(&s[at - 1]),
    ensures
        insert_stable(s, x) == s.insert(at, x),
        stable_place(s, x) == at,
    decreases s.len() - at,
{
    if at == s.len() {
        assert(s.push(x) =~= s.insert(at, x));
    } else {
        let t = s.drop_last();
        assert forall|j: int| at <= j < t.len() implies x.before(&#[trigger] t[j]) by {
            assert(t[j] == s[j]);
        }
        lemma_insert_stable_at(t, x, at);
        assert(t.insert(at, x).push(s.last()) =~= s.insert(at, x));
    }
}

/// What `stable_place` returns: a place of `s` or its length, with every
/// item from there on behind `x` and the item before it not.
pub proof fn lemma_stable_place<T: Ranked>(s: Seq<T>, x: T)
    ensures
        0 <= stable_place(s, x) <= s.len(),
        forall|j: int| stable_place(s, x) <= j < s.len() ==> x.before(&#[trigger] s[j]),
        stable_place(s, x) == 0 || !x.before(&s[stable_place(s, x) - 1]),
        insert_stable(s, x) == s.insert(stable_place(s, x), x),
    decreases s.len(),
{
    if s.len() > 0 && x.before(&s.last()) {
        let t = s.drop_last();
        lemma_stable_place(t, x);
        let p = stable_place(t, x);
        assert forall|j: int| p <= j < s.len() implies x.before(&#[trigger] s[j]) by {
            if j < t.len() {
                assert(s[j] == t[j]);
            }
        }
        if p > 0 {
            assert(s[p - 1] == t[p - 1]);
        }
    }
    lemma_insert_stable_at(s, x, stable_place(s, x));
}

/// Putting an item into an ordered sequence keeps it ordered, and adds
/// just that item.
pub proof fn lemma_insert_keeps_ordered<T: Ranked>(s: Seq<T>, x: T)
    requires
        is_ranking::<T>(),
        ordered(s),
    ensures
        ordered(insert_stable(s, x)),
        insert_stable(s, x).to_multiset() == s.to_multiset().insert(x),
{
    lemma_stable_place(s, x);
    let p = stable_place(s, x);
    let r = s.insert(p, x);
    to_multiset_insert(s, p, x);
    assert forall|i: int, j: int| #![trigger r[i], r[j]] 0 <= i < j < r.len() implies !r[j].before(
        &r[i],
    ) by {
        if i == p {
            assert(r[j] == s[j - 1]);
            assert(x.before(&s[j - 1]));
        } else if j == p {
            assert(r[i] == s[i]);
            if i < p - 1 {
                assert(!s[p - 1].before(&s[i]));
            }
            assert(!x.before(&s[p - 1]));
        } else {
            let i0 = if i < p { i } else { i - 1 };
            let j0 = if j < p { j } else { j - 1 };
            assert(r[i] == s[i0] && r[j] == s[j0]);
        }
    }
}

/// A sorted sequence is ordered and holds the items that were sorted, each
/// as often as before.
pub proof fn lemma_sort_stable<T: Ranked>(s: Seq<T>)
    requires
        is_ranking::<T>(),
    ensures
        ordered(sort_stable(s)),
        sort_stable(s).to_multiset() == s.to_multiset(),
        sort_stable(s).len() == s.len(),
    decreases s.len(),
{
    if s.len() == 0 {
        assert(sort_stable(s) =~= s);
    } else {
        let t = s.drop_last();
        lemma_sort_stable(t);
        lemma_insert_keeps_ordered(sort_stable(t), s.last());
        lemma_stable_place(sort_stable(t), s.last());
        to_multiset_build(t, s.last());
        assert(t.push(s.last()) =~= s);
    }
}

/// Of two texts at most one comes before the other.
pub proof fn lemma_text_lt_asymmetric(a: Seq<char>, b: Seq<char>)
    requires
        text_lt(a, b),
    ensures
        !text_lt(b, a),
    decreases a.len(),
{
    if a.len() > 0 && b.len() > 0 && a[0] == b[0] {
        lemma_text_lt_asymmetric(a.drop_first(), b.drop_first());
    }
}

/// Where `c` does not come before `b` nor `b` before `a`, `c` does not
/// come before `a`.
pub proof fn lemma_text_not_lt_transitive(a: Seq<char>, b: Seq<char>, c: Seq<char>)
    requires
        !text_lt(c, b),
        !text_lt(b, a),
    ensures
        !text_lt(c, a),
    decreases a.len(),
{
    if a.len() > 0 && b.len() > 0 && c.len() > 0 && a[0] == b[0] && b[0] == c[0] {
        lemma_text_not_lt_transitive(a.drop_first(), b.drop_first(), c.drop_first());
    }
}

/// Two texts of which neither comes before the other are the same text.
pub proof fn lemma_text_lt_total(a: Seq<char>, b: Seq<char>)
    requires
        !text_lt(a, b),
        !text_lt(b, a),
    ensures
        a == b,
    decreases a.len(),
{
    if a.len() > 0 && b.len() > 0 {
        assert(a[0] == b[0]);
        lemma_text_lt_total(a.drop_first(), b.drop_first());
        assert(a =~= seq![a[0]] + a.drop_first());
        assert(b =~= seq![b[0]] + b.drop_first());
    } else {
        assert(a =~= b);
    }
}

} // verus!

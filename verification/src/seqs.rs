//! General facts about filtered sequences, shared by the controller model
//! and the reconciliation engine.

use vstd::prelude::*;

verus! {

/// Filtering after appending one element keeps or drops just that element.
pub proof fn lemma_filter_push<A>(s: Seq<A>, pred: spec_fn(A) -> bool, x: A)
    ensures
        s.push(x).filter(pred) == (if pred(x) {
            s.filter(pred).push(x)
        } else {
            s.filter(pred)
        }),
{
    reveal(Seq::filter);
    assert(s.push(x).drop_last() =~= s);
}

/// Filtering a one-element sequence keeps or drops that element.
pub proof fn lemma_filter_singleton<A>(x: A, pred: spec_fn(A) -> bool)
    ensures
        seq![x].filter(pred) == (if pred(x) {
            seq![x]
        } else {
            Seq::<A>::empty()
        }),
{
    reveal_with_fuel(Seq::filter, 2);
    assert(seq![x].drop_last() =~= Seq::<A>::empty());
    assert(seq![x].last() == x);
    if pred(x) {
        assert(Seq::<A>::empty().push(x) =~= seq![x]);
    }
}

/// Two filters in a row are the filter by the conjunction.
pub proof fn lemma_filter_filter<A>(s: Seq<A>, p: spec_fn(A) -> bool, q: spec_fn(A) -> bool)
    ensures
        s.filter(p).filter(q) == s.filter(|x: A| p(x) && q(x)),
    decreases s.len(),
{
    reveal(Seq::filter);
    if s.len() > 0 {
        let t = s.drop_last();
        let x = s.last();
        lemma_filter_filter(t, p, q);
        if p(x) {
            lemma_filter_push(t.filter(p), q, x);
        }
    }
}

/// Filters by predicates that agree on every element of a sequence filter it
/// to the same result.
pub proof fn lemma_filter_agree<A>(s: Seq<A>, p: spec_fn(A) -> bool, q: spec_fn(A) -> bool)
    requires
        forall|i: int| 0 <= i < s.len() ==> p(s[i]) == q(s[i]),
    ensures
        s.filter(p) == s.filter(q),
    decreases s.len(),
{
    reveal(Seq::filter);
    if s.len() > 0 {
        let t = s.drop_last();
        assert(forall|i: int| 0 <= i < t.len() ==> t[i] == s[i]);
        lemma_filter_agree(t, p, q);
        assert(p(s.last()) == q(s.last()));
    }
}

/// A filter whose predicate holds of every element keeps the sequence whole.
pub proof fn lemma_filter_trivial<A>(s: Seq<A>, pred: spec_fn(A) -> bool)
    requires
        forall|i: int| 0 <= i < s.len() ==> pred(s[i]),
    ensures
        s.filter(pred) == s,
    decreases s.len(),
{
    reveal(Seq::filter);
    if s.len() > 0 {
        let t = s.drop_last();
        assert(forall|i: int| 0 <= i < t.len() ==> t[i] == s[i]);
        lemma_filter_trivial(t, pred);
        assert(pred(s.last()));
        assert(t.push(s.last()) =~= s);
    }
}

/// A filter whose predicate holds of no element drops the sequence whole.
pub proof fn lemma_filter_none<A>(s: Seq<A>, pred: spec_fn(A) -> bool)
    requires
        forall|i: int| 0 <= i < s.len() ==> !pred(s[i]),
    ensures
        s.filter(pred) == Seq::<A>::empty(),
    decreases s.len(),
{
    reveal(Seq::filter);
    if s.len() > 0 {
        let t = s.drop_last();
        assert(forall|i: int| 0 <= i < t.len() ==> t[i] == s[i]);
        lemma_filter_none(t, pred);
        assert(!pred(s.last()));
    } else {
        assert(s =~= Seq::<A>::empty());
    }
}

/// Every element of a filtered sequence occurs in the original one and
/// satisfies the predicate.
pub proof fn lemma_filter_element<A>(s: Seq<A>, pred: spec_fn(A) -> bool, i: int)
    requires
        0 <= i < s.filter(pred).len(),
    ensures
        pred(s.filter(pred)[i]),
        s.contains(s.filter(pred)[i]),
    decreases s.len(),
{
    reveal(Seq::filter);
    broadcast use vstd::seq_lib::group_filter_ensures;

    if s.len() > 0 {
        let t = s.drop_last();
        let x = s.last();
        if pred(x) && i == s.filter(pred).len() - 1 {
            assert(s.filter(pred)[i] == x);
            assert(s[s.len() - 1] == x);
        } else {
            lemma_filter_element(t, pred, i);
            assert(forall|j: int| 0 <= j < t.len() ==> t[j] == s[j]);
            assert(s.filter(pred)[i] == t.filter(pred)[i]);
        }
    }
}

} // verus!

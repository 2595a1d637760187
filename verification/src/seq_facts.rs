//! Facts about sequences that the proofs of this crate share.

use vstd::prelude::*;

verus! {

pub proof fn lemma_push_contains<T>(a: Seq<T>, last: T, t: T)
    ensures
        a.push(last).contains(t) <==> a.contains(t) || last == t,
{
    if a.contains(t) {
        let i = choose|i: int| 0 <= i < a.len() && a[i] == t;
        assert(a.push(last)[i] == t);
    }
    if last == t {
        assert(a.push(last)[a.len() as int] == t);
    }
    if a.push(last).contains(t) {
        let i = choose|i: int| 0 <= i < a.push(last).len() && a.push(last)[i] == t;
        if i < a.len() {
            assert(a[i] == t);
        }
    }
}

pub proof fn lemma_concat_contains<T>(a: Seq<T>, b: Seq<T>, t: T)
    ensures
        (a + b).contains(t) <==> a.contains(t) || b.contains(t),
{
    if a.contains(t) {
        let i = choose|i: int| 0 <= i < a.len() && a[i] == t;
        assert((a + b)[i] == t);
    }
    if b.contains(t) {
        let i = choose|i: int| 0 <= i < b.len() && b[i] == t;
        assert((a + b)[a.len() + i] == t);
    }
    if (a + b).contains(t) {
        let i = choose|i: int| 0 <= i < (a + b).len() && (a + b)[i] == t;
        if i < a.len() {
            assert(a[i] == t);
        } else {
            assert(b[i - a.len()] == t);
        }
    }
}

proof fn lemma_drop_last_contains<T>(s: Seq<T>, t: T)
    requires
        s.len() > 0,
    ensures
        s.contains(t) <==> s.drop_last().contains(t) || s.last() == t,
{
    assert(s =~= s.drop_last().push(s.last()));
    lemma_push_contains(s.drop_last(), s.last(), t);
}

/// A filter keeps exactly the items that the predicate holds of.
pub proof fn lemma_filter_contains<T>(s: Seq<T>, pred: spec_fn(T) -> bool, t: T)
    ensures
        s.filter(pred).contains(t) <==> s.contains(t) && pred(t),
    decreases s.len(),
{
    reveal(Seq::filter);
    if s.len() > 0 {
        lemma_filter_contains(s.drop_last(), pred, t);
        lemma_drop_last_contains(s, t);
        lemma_push_contains(s.drop_last().filter(pred), s.last(), t);
    }
}

/// A filter keeps an item at most as often as it occurs.
pub proof fn lemma_filter_no_duplicates<T>(s: Seq<T>, pred: spec_fn(T) -> bool)
    requires
        s.no_duplicates(),
    ensures
        s.filter(pred).no_duplicates(),
    decreases s.len(),
{
    reveal(Seq::filter);
    if s.len() > 0 {
        let rest = s.drop_last();
        lemma_filter_no_duplicates(rest, pred);
        lemma_filter_contains(rest, pred, s.last());
        if rest.contains(s.last()) {
            let i = choose|i: int| 0 <= i < rest.len() && rest[i] == s.last();
            assert(s[i] == s[s.len() - 1]);
        }
        let kept = rest.filter(pred);
        assert forall|i: int| 0 <= i < kept.len() implies kept[i] != s.last() by {
            assert(kept.contains(kept[i]));
        }
    }
}

/// Two predicates that agree on the items of a sequence filter it alike.
pub proof fn lemma_filter_agrees<T>(s: Seq<T>, p: spec_fn(T) -> bool, q: spec_fn(T) -> bool)
    requires
        forall|i: int| 0 <= i < s.len() ==> p(#[trigger] s[i]) == q(s[i]),
    ensures
        s.filter(p) == s.filter(q),
    decreases s.len(),
{
    reveal(Seq::filter);
    if s.len() > 0 {
        let rest = s.drop_last();
        assert forall|i: int| 0 <= i < rest.len() implies p(#[trigger] rest[i]) == q(rest[i]) by {
            assert(rest[i] == s[i]);
        }
        lemma_filter_agrees(rest, p, q);
        assert(p(s[s.len() - 1]) == q(s[s.len() - 1]));
    }
}

/// A filter whose predicate holds of every item keeps the sequence as it is.
pub proof fn lemma_filter_keeps_all<T>(s: Seq<T>, pred: spec_fn(T) -> bool)
    requires
        forall|i: int| 0 <= i < s.len() ==> pred(#[trigger] s[i]),
    ensures
        s.filter(pred) == s,
    decreases s.len(),
{
    reveal(Seq::filter);
    if s.len() > 0 {
        let rest = s.drop_last();
        assert forall|i: int| 0 <= i < rest.len() implies pred(#[trigger] rest[i]) by {
            assert(rest[i] == s[i]);
        }
        lemma_filter_keeps_all(rest, pred);
        assert(pred(s[s.len() - 1]));
        assert(rest.push(s.last()) =~= s);
    }
}

/// What a filter keeps of the first `i` items is the start of what it keeps
/// of all of them, and an item that it keeps comes right after.
pub proof fn lemma_filter_prefix<T>(s: Seq<T>, pred: spec_fn(T) -> bool, i: int)
    requires
        0 <= i < s.len(),
    ensures
        s.take(i).filter(pred).len() <= s.filter(pred).len(),
        forall|j: int|
            0 <= j < s.take(i).filter(pred).len() ==> s.filter(pred)[j] == s.take(i).filter(pred)[j],
        pred(s[i]) ==> s.take(i).filter(pred).len() < s.filter(pred).len() && s.filter(pred)[s.take(
            i,
        ).filter(pred).len() as int] == s[i],
{
    let head = s.take(i);
    let rest = s.skip(i);
    assert(s =~= head + rest);
    Seq::filter_distributes_over_add(head, rest, pred);
    if pred(s[i]) {
        let first = seq![s[i]];
        let after = rest.skip(1);
        assert(rest =~= first + after);
        Seq::filter_distributes_over_add(first, after, pred);
        reveal_with_fuel(Seq::filter, 2);
        assert(first.drop_last() =~= Seq::<T>::empty());
        assert(first.filter(pred) =~= first);
    }
}

} // verus!

//! Facts about sequences that the text model rests on: the run before the
//! first element of a given kind, and filtering a sequence from its front.

use vstd::prelude::*;

verus! {

/// The number of elements of `s` that come before the first one satisfying
/// `stop`; the whole length if none does.
pub open spec fn run_len<T>(s: Seq<T>, stop: spec_fn(T) -> bool) -> nat
    decreases s.len(),
{
    if s.len() == 0 || stop(s[0]) {
        0
    } else {
        1 + run_len(s.drop_first(), stop)
    }
}

/// The run stays inside the sequence, holds no stopping element, and is
/// followed by one unless it reaches the end.
pub proof fn lemma_run_len<T>(s: Seq<T>, stop: spec_fn(T) -> bool)
    ensures
        run_len(s, stop) <= s.len(),
        forall|i: int| 0 <= i < run_len(s, stop) ==> !stop(#[trigger] s[i]),
        run_len(s, stop) < s.len() ==> stop(s[run_len(s, stop) as int]),
    decreases s.len(),
{
    if s.len() > 0 && !stop(s[0]) {
        let rest = s.drop_first();
        lemma_run_len(rest, stop);
        assert forall|i: int| 0 <= i < run_len(s, stop) implies !stop(#[trigger] s[i]) by {
            if i > 0 {
                assert(s[i] == rest[i - 1]);
            }
        }
    }
}

/// A prefix without a stopping element that is followed by one, or by the
/// end, is the run.
pub proof fn lemma_run_len_is<T>(s: Seq<T>, stop: spec_fn(T) -> bool, n: int)
    requires
        0 <= n <= s.len(),
        forall|i: int| 0 <= i < n ==> !stop(#[trigger] s[i]),
        n < s.len() ==> stop(s[n]),
    ensures
        run_len(s, stop) == n,
    decreases s.len(),
{
    if n > 0 {
        let rest = s.drop_first();
        assert forall|i: int| 0 <= i < n - 1 implies !stop(#[trigger] rest[i]) by {
            assert(rest[i] == s[i + 1]);
        }
        lemma_run_len_is(rest, stop, n - 1);
    }
}

/// Filtering keeps or drops the first element, and filters the others.
pub proof fn lemma_filter_first_and_rest<T>(first: T, rest: Seq<T>, pred: spec_fn(T) -> bool)
    ensures
        (seq![first] + rest).filter(pred) == if pred(first) {
            seq![first] + rest.filter(pred)
        } else {
            rest.filter(pred)
        },
{
    let one = seq![first];
    Seq::filter_distributes_over_add(one, rest, pred);
    assert(one.filter(pred) == if pred(first) {
        one
    } else {
        Seq::<T>::empty()
    }) by {
        reveal_with_fuel(Seq::filter, 2);
        assert(one.drop_last() =~= Seq::<T>::empty());
        assert(Seq::<T>::empty().push(first) =~= one);
    }
    assert(Seq::<T>::empty() + rest.filter(pred) =~= rest.filter(pred));
}

/// Filtering by a predicate that holds of every element changes nothing.
pub proof fn lemma_filter_all<T>(s: Seq<T>, pred: spec_fn(T) -> bool)
    requires
        forall|i: int| 0 <= i < s.len() ==> pred(#[trigger] s[i]),
    ensures
        s.filter(pred) == s,
    decreases s.len(),
{
    reveal(Seq::filter);
    if s.len() > 0 {
        lemma_filter_all(s.drop_last(), pred);
        assert(s.drop_last().push(s.last()) =~= s);
    }
}

/// Filtering by a predicate that holds of no element leaves nothing.
pub proof fn lemma_filter_none<T>(s: Seq<T>, pred: spec_fn(T) -> bool)
    requires
        forall|i: int| 0 <= i < s.len() ==> !pred(#[trigger] s[i]),
    ensures
        s.filter(pred).len() == 0,
    decreases s.len(),
{
    reveal(Seq::filter);
    if s.len() > 0 {
        lemma_filter_none(s.drop_last(), pred);
    }
}

} // verus!

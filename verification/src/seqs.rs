//! Facts about filtered sequences.

use vstd::prelude::*;

verus! {

/// Filtering one element more of a sequence.
pub proof fn lemma_filter_next<A>(s: Seq<A>, n: int, pred: spec_fn(A) -> bool)
    requires
        0 <= n < s.len(),
    ensures
        s.take(n + 1).filter(pred) == if pred(s[n]) {
            s.take(n).filter(pred).push(s[n])
        } else {
            s.take(n).filter(pred)
        },
{
    reveal(Seq::filter);
    assert(s.take(n + 1).drop_last() =~= s.take(n));
}

/// Filtering a sequence from one element earlier.
pub proof fn lemma_filter_first<A>(s: Seq<A>, n: int, pred: spec_fn(A) -> bool)
    requires
        0 <= n < s.len(),
    ensures
        s.skip(n).filter(pred) == if pred(s[n]) {
            seq![s[n]] + s.skip(n + 1).filter(pred)
        } else {
            s.skip(n + 1).filter(pred)
        },
{
    let head = seq![s[n]];
    assert(s.skip(n) =~= head + s.skip(n + 1));
    Seq::filter_distributes_over_add(head, s.skip(n + 1), pred);
    assert(head.filter(pred) =~= if pred(s[n]) {
        head
    } else {
        Seq::empty()
    }) by {
        reveal_with_fuel(Seq::filter, 2);
        assert(head.drop_last() =~= Seq::empty());
    }
    if !pred(s[n]) {
        assert(Seq::<A>::empty() + s.skip(n + 1).filter(pred) =~= s.skip(n + 1).filter(pred));
    }
}

/// A selection of a sequence without repetitions has none.
pub proof fn lemma_filter_no_duplicates<A>(s: Seq<A>, pred: spec_fn(A) -> bool)
    requires
        s.no_duplicates(),
    ensures
        s.filter(pred).no_duplicates(),
    decreases s.len(),
{
    reveal(Seq::filter);
    if s.len() > 0 {
        let rest = s.drop_last();
        assert(rest.no_duplicates());
        lemma_filter_no_duplicates(rest, pred);
        let less = rest.filter(pred);
        assert forall|i: int| 0 <= i < less.len() implies less[i] != s.last() by {
            assert(less.contains(less[i]));
            rest.lemma_filter_contains_rev(pred, less[i]);
            let k = rest.index_of(less[i]);
            assert(s[k] == less[i]);
        }
    }
}

/// Two conditions that agree on a sequence select the same of it.
pub proof fn lemma_filter_agree<A>(s: Seq<A>, p: spec_fn(A) -> bool, q: spec_fn(A) -> bool)
    requires
        forall|i: int| 0 <= i < s.len() ==> p(#[trigger] s[i]) == q(s[i]),
    ensures
        s.filter(p) == s.filter(q),
    decreases s.len(),
{
    reveal(Seq::filter);
    if s.len() > 0 {
        let rest = s.drop_last();
        assert forall|i: int| 0 <= i < rest.len() implies p(#[trigger] rest[i]) == q(rest[i]) by {
            assert(rest[i] == s[i]);
        }
        lemma_filter_agree(rest, p, q);
        assert(p(s[s.len() - 1]) == q(s[s.len() - 1]));
    }
}

/// Filtering by one condition and then by another is filtering by both.
pub proof fn lemma_filter_twice<A>(
    s: Seq<A>,
    p: spec_fn(A) -> bool,
    q: spec_fn(A) -> bool,
    both: spec_fn(A) -> bool,
)
    requires
        forall|i: int| 0 <= i < s.len() ==> both(#[trigger] s[i]) == (p(s[i]) && q(s[i])),
    ensures
        s.filter(p).filter(q) == s.filter(both),
    decreases s.len(),
{
    reveal(Seq::filter);
    if s.len() > 0 {
        let rest = s.drop_last();
        let last = s[s.len() - 1];
        assert forall|i: int| 0 <= i < rest.len() implies both(#[trigger] rest[i]) == (p(rest[i])
            && q(rest[i])) by {
            assert(rest[i] == s[i]);
        }
        lemma_filter_twice(rest, p, q, both);
        assert(both(last) == (p(last) && q(last)));
        if p(last) {
            assert(s.filter(p) == rest.filter(p).push(last));
            assert(rest.filter(p).push(last).drop_last() =~= rest.filter(p));
        }
    }
}

/// Mapping and filtering one element more of a sequence.
pub proof fn lemma_filter_map_next<A, B>(s: Seq<A>, n: int, f: spec_fn(A) -> Option<B>)
    requires
        0 <= n < s.len(),
    ensures
        s.take(n + 1).filter_map(f) == match f(s[n]) {
            Some(b) => s.take(n).filter_map(f).push(b),
            None => s.take(n).filter_map(f),
        },
{
    reveal(Seq::filter_map);
    assert(s.take(n + 1).drop_last() =~= s.take(n));
}

/// Mapping and filtering maps the elements that have an image, one by one.
pub proof fn lemma_filter_map_each<A, B>(
    s: Seq<A>,
    f: spec_fn(A) -> Option<B>,
    pred: spec_fn(A) -> bool,
)
    requires
        forall|i: int| 0 <= i < s.len() ==> pred(#[trigger] s[i]) == (f(s[i]) is Some),
    ensures
        s.filter_map(f).len() == s.filter(pred).len(),
        forall|i: int|
            0 <= i < s.filter_map(f).len() ==> f(s.filter(pred)[i]) == Some(
                #[trigger] s.filter_map(f)[i],
            ),
    decreases s.len(),
{
    reveal(Seq::filter);
    reveal(Seq::filter_map);
    if s.len() > 0 {
        let rest = s.drop_last();
        assert forall|i: int| 0 <= i < rest.len() implies pred(#[trigger] rest[i]) == (f(rest[i])
            is Some) by {
            assert(rest[i] == s[i]);
        }
        lemma_filter_map_each(rest, f, pred);
        assert(pred(s[s.len() - 1]) == (f(s[s.len() - 1]) is Some));
        assert forall|i: int| 0 <= i < s.filter_map(f).len() implies f(s.filter(pred)[i]) == Some(
            #[trigger] s.filter_map(f)[i],
        ) by {
            if i < rest.filter_map(f).len() {
                assert(s.filter_map(f)[i] == rest.filter_map(f)[i]);
                assert(s.filter(pred)[i] == rest.filter(pred)[i]);
            }
        }
    }
}

} // verus!

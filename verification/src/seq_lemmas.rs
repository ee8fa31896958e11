use vstd::prelude::*;

verus! {

/// Filtering a sequence extended by one element keeps the element exactly when
/// the predicate accepts it.
pub proof fn lemma_filter_push<A>(s: Seq<A>, pred: spec_fn(A) -> bool, e: A)
    ensures
        s.push(e).filter(pred) == if pred(e) {
            s.filter(pred).push(e)
        } else {
            s.filter(pred)
        },
{
    reveal(Seq::filter);
    assert(s.push(e).drop_last() == s);
    assert(s.push(e).last() == e);
}

/// Filtering twice with the same predicate is the same as filtering once.
pub proof fn lemma_filter_idempotent<A>(s: Seq<A>, pred: spec_fn(A) -> bool)
    ensures
        s.filter(pred).filter(pred) == s.filter(pred),
    decreases s.len(),
{
    reveal(Seq::filter);
    if s.len() == 0 {
        assert(s.filter(pred) == Seq::<A>::empty());
    } else {
        let rest = s.drop_last();
        lemma_filter_idempotent(rest, pred);
        lemma_filter_push(rest, pred, s.last());
        assert(rest.push(s.last()) == s);
        if pred(s.last()) {
            lemma_filter_push(rest.filter(pred), pred, s.last());
        }
    }
}

} // verus!

//! Small general lemmas about filtered sequences.

use vstd::prelude::*;
use vstd::seq_lib::*;

verus! {

/// A filter that every element passes changes nothing.
pub proof fn lemma_filter_all<A>(s: Seq<A>, pred: spec_fn(A) -> bool)
    requires
        forall|i: int| 0 <= i < s.len() ==> pred(s[i]),
    ensures
        s.filter(pred) == s,
    decreases s.len(),
{
    reveal(Seq::filter);
    if s.len() > 0 {
        lemma_filter_all(s.drop_last(), pred);
        assert(s.drop_last().push(s.last()) =~= s);
    }
}

/// When the first `p` elements all pass the filter, they survive it in
/// place.
pub proof fn lemma_filter_prefix<A>(s: Seq<A>, pred: spec_fn(A) -> bool, p: int)
    requires
        0 <= p <= s.len(),
        forall|j: int| 0 <= j < p ==> pred(s[j]),
    ensures
        s.filter(pred).len() >= p,
        forall|j: int| 0 <= j < p ==> s.filter(pred)[j] == s[j],
{
    assert(s =~= s.take(p) + s.skip(p));
    Seq::filter_distributes_over_add(s.take(p), s.skip(p), pred);
    lemma_filter_all(s.take(p), pred);
    assert forall|j: int| 0 <= j < p implies s.filter(pred)[j] == s[j] by {
        assert(s.filter(pred) == s.take(p) + s.skip(p).filter(pred));
        assert(s.filter(pred)[j] == s.take(p)[j]);
    }
}

} // verus!

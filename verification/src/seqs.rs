//! Facts about filtering sequences, used by the loops that build lists
//! element by element.

use vstd::prelude::*;

verus! {

/// Filtering a sequence with one more element at its end keeps that element
/// exactly when it passes.
pub proof fn lemma_filter_push<A>(s: Seq<A>, a: A, p: spec_fn(A) -> bool)
    ensures
        s.push(a).filter(p) == (if p(a) {
            s.filter(p).push(a)
        } else {
            s.filter(p)
        }),
{
    reveal(Seq::filter);
    assert(s.push(a).drop_last() =~= s);
}

} // verus!

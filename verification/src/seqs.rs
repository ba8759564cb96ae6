//! Facts about sequences that the proofs of the library share.

use vstd::prelude::*;

verus! {

/// Filtering after one more element keeps it exactly where it passes.
pub proof fn lemma_filter_push<A>(s: Seq<A>, last: A, pred: spec_fn(A) -> bool)
    ensures
        s.push(last).filter(pred) == if pred(last) {
            s.filter(pred).push(last)
        } else {
            s.filter(pred)
        },
{
    reveal(Seq::filter);
    assert(s.push(last).drop_last() =~= s);
}

/// The first place at or after `from` that holds `wanted`.
pub open spec fn first_at_or_after<A>(s: Seq<A>, wanted: A, from: int) -> Option<int>
    decreases s.len() - from,
{
    if from < 0 || from >= s.len() {
        None
    } else if s[from] == wanted {
        Some(from)
    } else {
        first_at_or_after(s, wanted, from + 1)
    }
}

/// `first_at_or_after` finds a place that holds `wanted`, none between
/// `from` and that place holds it, and it finds none only where none is
/// left.
pub proof fn lemma_first_at_or_after<A>(s: Seq<A>, wanted: A, from: int)
    requires
        0 <= from,
    ensures
        match first_at_or_after(s, wanted, from) {
            Some(at) => {
                &&& from <= at < s.len()
                &&& s[at] == wanted
                &&& forall|j: int| from <= j < at ==> s[j] != wanted
            },
            None => forall|j: int| from <= j < s.len() ==> s[j] != wanted,
        },
    decreases s.len() - from,
{
    if from < s.len() && s[from] != wanted {
        lemma_first_at_or_after(s, wanted, from + 1);
    }
}

} // verus!

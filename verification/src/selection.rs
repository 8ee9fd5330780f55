//! Selections from a sequence: the members that a sequence of answers
//! accepts.

use vstd::prelude::*;

verus! {

/// The members of `xs` whose entry in `keep` is true, in their order.
pub open spec fn select<T>(xs: Seq<T>, keep: Seq<bool>) -> Seq<T>
    decreases xs.len(),
{
    if xs.len() == 0 {
        Seq::empty()
    } else {
        let rest = select(xs.drop_last(), keep);
        if keep[xs.len() - 1] {
            rest.push(xs.last())
        } else {
            rest
        }
    }
}

/// Entries of `keep` beyond the length of `xs` do not count.
pub proof fn lemma_select_ignores_later<T>(xs: Seq<T>, keep: Seq<bool>, later: Seq<bool>)
    requires
        xs.len() <= keep.len(),
    ensures
        select(xs, keep + later) == select(xs, keep),
    decreases xs.len(),
{
    if xs.len() > 0 {
        lemma_select_ignores_later(xs.drop_last(), keep, later);
    }
}

} // verus!

//! A fact about sequences that proofs by induction from the end share.

use vstd::prelude::*;

verus! {

/// A sequence that is not empty is what is left without its last element, and that element.
pub(crate) proof fn lemma_drop_last<A>(sequence: Seq<A>)
    requires
        sequence.len() > 0,
    ensures
        sequence.last() == sequence[sequence.len() - 1],
        forall|i: int|
            #![trigger sequence[i]]
            #![trigger sequence.drop_last()[i]]
            0 <= i < sequence.len() - 1 ==> sequence.drop_last()[i] == sequence[i],
{
}

} // verus!

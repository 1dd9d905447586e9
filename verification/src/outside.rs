//! The items of other crates that the library relies on without proof.

use core::task::Waker;
use intrusive_collections::linked_list::AtomicLink;
use vstd::prelude::*;

verus! {

/// `core::task::Waker`, carried as an opaque value.
#[verifier::external_type_specification]
#[verifier::external_body]
pub struct ExWaker(Waker);

/// `intrusive_collections::linked_list::AtomicLink`, carried as an opaque value.
#[verifier::external_type_specification]
#[verifier::external_body]
pub struct ExAtomicLink(AtomicLink);

/// `<Waker as Clone>::clone`.
///
/// The copy awakens the same task as the waker it was made from, but is a waker of its own. Which
/// task that is cannot be read off an opaque value, so nothing is claimed of the result:
/// [`is_copy`] speaks of it.
pub assume_specification[ <Waker as Clone>::clone ](waker: &Waker) -> (copy: Waker);

/// `Waker::will_wake`.
///
/// `true` is only returned when both wakers awaken the same task; the comparison is made on a
/// best-effort basis, so `false` says nothing. Which task that is cannot be read off an opaque
/// value, so nothing is claimed of the result: [`will_wake_gives`] speaks of it.
pub assume_specification[ Waker::will_wake ](waker: &Waker, other: &Waker) -> (same: bool);

/// Whether `copy` is what a copy of `waker` may be.
pub open spec fn is_copy(waker: Waker, copy: Waker) -> bool {
    call_ensures(<Waker as Clone>::clone, (&waker,), copy)
}

/// Whether `same` is what `waker` may answer when it is asked if it will wake the task of
/// `other`.
pub open spec fn will_wake_gives(waker: Waker, other: Waker, same: bool) -> bool {
    call_ensures(Waker::will_wake, (&waker, &other), same)
}

/// Whether `stored` is known to awaken the task of `waker`: it was copied from it, or it said
/// that it will.
pub open spec fn stands_for(stored: Waker, waker: Waker) -> bool {
    is_copy(waker, stored) || will_wake_gives(stored, waker, true)
}

/// `AtomicLink::is_linked`: a relaxed atomic load of the link.
///
/// Whoever shares the link may insert or remove it at any time, so nothing is claimed of the
/// result.
pub assume_specification[ AtomicLink::is_linked ](link: &AtomicLink) -> (linked: bool);

/// `<[usize]>::sort`, on the whole of `counts`: afterwards it holds the same values, each as
/// often as before, in ascending order.
#[verifier::external_body]
pub(crate) fn sort(counts: &mut Vec<usize>)
    ensures
        final(counts)@.to_multiset() == old(counts)@.to_multiset(),
        forall|i: int, j: int|
            0 <= i < j < final(counts)@.len() ==> final(counts)@[i] <= final(counts)@[j],
{
    counts.sort()
}

} // verus!

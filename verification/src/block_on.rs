//! Running a future to completion on the current thread.

use vstd::prelude::*;

verus! {

/// What a thread that blocks on a future does after a poll of it.
pub enum Next<T> {
    /// Stop blocking, with the future's output.
    Return(T),
    /// Park until someone unparks the thread, then poll again.
    Park,
}

/// Decides what a thread that blocks on a future does after a poll of it gave `polled`: the
/// output, or nothing while the future is pending.
pub fn block_on_step<T>(polled: Option<T>) -> (next: Next<T>)
    ensures
        next == after_poll(polled),
        polled matches Some(output) ==> next == Next::Return(output),
        polled is None ==> next == Next::<T>::Park,
{
    match polled {
        Some(output) => Next::Return(output),
        None => Next::Park,
    }
}

/// A thread returns as soon as the future is ready, and parks for as long as it is pending.
pub open spec fn after_poll<T>(polled: Option<T>) -> Next<T> {
    match polled {
        Some(output) => Next::Return(output),
        None => Next::Park,
    }
}

/// How many times a thread parks, and what it returns, when the polls of the future that it
/// blocks on give `polls`, from the one at `from` on. It returns nothing if it is still blocked
/// after the last of them.
pub open spec fn blocked_on<T>(polls: Seq<Option<T>>, from: nat) -> (nat, Option<T>)
    decreases polls.len() - from,
{
    if from >= polls.len() {
        (0, None)
    } else {
        match after_poll(polls[from as int]) {
            Next::Return(output) => (0, Some(output)),
            Next::Park => {
                let rest = blocked_on(polls, from + 1);
                (rest.0 + 1, rest.1)
            },
        }
    }
}

/// A thread that blocks on a future returns the output of the first poll that is ready, after it
/// has parked once for each poll before that; a future that is ready at once never parks it.
pub proof fn law_blocks_until_first_ready<T>(polls: Seq<Option<T>>, ready: nat)
    requires
        ready < polls.len(),
        polls[ready as int] is Some,
        forall|i: int| 0 <= i < ready ==> #[trigger] polls[i] is None,
    ensures
        blocked_on(polls, 0) == (ready, polls[ready as int]),
{
    lemma_blocks_until_first_ready(polls, 0, ready);
}

proof fn lemma_blocks_until_first_ready<T>(polls: Seq<Option<T>>, from: nat, ready: nat)
    requires
        from <= ready < polls.len(),
        polls[ready as int] is Some,
        forall|i: int| from <= i < ready ==> #[trigger] polls[i] is None,
    ensures
        blocked_on(polls, from) == ((ready - from) as nat, polls[ready as int]),
    decreases ready - from,
{
    if from < ready {
        assert(polls[from as int] is None);
        lemma_blocks_until_first_ready(polls, from + 1, ready);
    }
}

/// A thread whose future is never ready stays blocked: it parks after every poll.
pub proof fn law_blocks_while_pending<T>(polls: Seq<Option<T>>)
    requires
        forall|i: int| 0 <= i < polls.len() ==> #[trigger] polls[i] is None,
    ensures
        blocked_on(polls, 0) == (polls.len(), None::<T>),
{
    lemma_blocks_while_pending(polls, 0);
}

proof fn lemma_blocks_while_pending<T>(polls: Seq<Option<T>>, from: nat)
    requires
        from <= polls.len(),
        forall|i: int| from <= i < polls.len() ==> #[trigger] polls[i] is None,
    ensures
        blocked_on(polls, from) == ((polls.len() - from) as nat, None::<T>),
    decreases polls.len() - from,
{
    if from < polls.len() {
        assert(polls[from as int] is None);
        lemma_blocks_while_pending(polls, from + 1);
    }
}

} // verus!

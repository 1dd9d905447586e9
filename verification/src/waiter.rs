//! A task or thread that is blocked on a condition variable or on acquiring a lock.

use core::task::Waker;
use intrusive_collections::linked_list::AtomicLink;
use vstd::arithmetic::power2::{lemma2_to64, pow2};
use vstd::prelude::*;

use crate::outside::{is_copy, will_wake_gives};

verus! {

/// The kind of lock that a [`Waiter`] is waiting to acquire.
#[derive(Clone, Copy, Debug, PartialEq, Eq, Structural)]
pub enum Kind {
    Shared,
    Exclusive,
}

/// Indicates the queue to which a [`Waiter`] belongs. It is the responsibility of the lock and
/// condition variable to update this value when they add a waiter to their list or remove it.
#[derive(Debug, Copy, Clone, PartialEq, Eq, Structural)]
pub enum WaitingFor {
    /// The waiter is either not linked into a waiter list or it is linked into a temporary list.
    Nothing,
    /// The waiter is linked into the lock's waiter list.
    Mutex,
    /// The waiter is linked into the condition variable's waiter list.
    Condvar,
}

/// How far a [`Waiter`] has come.
pub enum State {
    /// Neither polled nor woken yet.
    Init,
    /// Polled, with the waker of the task that polled last.
    Waiting(Waker),
    /// Woken, but not polled since.
    Woken,
    /// Nothing will poll, wake or cancel the waiter any more.
    Finished,
    /// Dropped before it was woken; whoever holds a reference to it still has to let go.
    Canceled,
}

/// What a [`Waiter`] holds, as contracts speak of it.
pub struct WaiterModel {
    pub state: State,
    pub kind: Kind,
    pub waiting_for: WaitingFor,
    pub linked: bool,
}

/// What a poll of a [`Waiter`] gives.
pub enum Polled {
    /// The waiter was woken; the wait is over.
    Ready,
    /// The waiter goes on waiting. `displaced` is the waker that a newer one took the place of:
    /// it is handed out so that it can be dropped once no lock is held.
    Pending { displaced: Option<Waker> },
}

impl WaiterModel {
    pub open spec fn with_state(self, state: State) -> WaiterModel {
        WaiterModel { state, ..self }
    }

    pub open spec fn with_waiting_for(self, waiting_for: WaitingFor) -> WaiterModel {
        WaiterModel { waiting_for, ..self }
    }

    pub open spec fn with_linked(self, linked: bool) -> WaiterModel {
        WaiterModel { linked, ..self }
    }

    /// A waiter may be polled until it was `Ready` once or was canceled.
    pub open spec fn may_poll(self) -> bool {
        !(self.state is Finished) && !(self.state is Canceled)
    }

    /// Whether a poll keeps the stored waker, given what that waker says when it is asked if it
    /// will wake the task that polls.
    pub open spec fn keeps_waker(self, same_task: bool) -> bool {
        self.state is Waiting && same_task
    }

    /// Whether a poll stores a copy of the waker that it is made with.
    pub open spec fn stores_copy(self, same_task: bool) -> bool {
        !(self.state is Woken) && !self.keeps_waker(same_task)
    }

    /// Whether, when a poll is made with `waker`, a stored waker may say `same_task` of it, and
    /// `copy` is a copy of it where the poll needs one.
    pub open spec fn poll_may_meet(self, waker: Waker, same_task: bool, copy: Waker) -> bool {
        &&& self.stored_waker() matches Some(stored) ==> will_wake_gives(stored, waker, same_task)
        &&& self.stores_copy(same_task) ==> is_copy(waker, copy)
    }

    /// A poll consumes a wake-up, if there was one. Otherwise a stored waker that will wake the
    /// task that polls stays, and `copy` is stored in place of any other.
    pub open spec fn after_poll(self, same_task: bool, copy: Waker) -> WaiterModel {
        if self.state is Woken {
            self.with_state(State::Finished)
        } else if self.keeps_waker(same_task) {
            self
        } else {
            self.with_state(State::Waiting(copy))
        }
    }

    /// What a poll gives: `Ready` exactly when the waiter was woken, and else `Pending`, with the
    /// waker that did not stay.
    pub open spec fn poll_result(self, same_task: bool) -> Polled {
        if self.state is Woken {
            Polled::Ready
        } else if self.keeps_waker(same_task) {
            Polled::Pending { displaced: None }
        } else {
            Polled::Pending { displaced: self.stored_waker() }
        }
    }

    /// A waiter may be woken once it has left every list.
    pub open spec fn may_wake(self) -> bool {
        !self.linked && self.waiting_for == WaitingFor::Nothing
    }

    /// Waking releases a waiter whose drop is waiting for it, and marks any other as woken.
    pub open spec fn after_wake(self) -> WaiterModel {
        if self.state is Canceled {
            self.with_state(State::Finished)
        } else {
            self.with_state(State::Woken)
        }
    }

    /// The first step of a drop: a waiter that was woken, or is done, has nothing left to wait
    /// for; any other is canceled and waits until whoever holds a reference to it lets go.
    pub open spec fn after_drop(self) -> WaiterModel {
        if self.state is Woken || self.state is Finished {
            self.with_state(State::Finished)
        } else {
            self.with_state(State::Canceled)
        }
    }

    /// The waker that waits to be called, if there is one.
    pub open spec fn stored_waker(self) -> Option<Waker> {
        match self.state {
            State::Waiting(waker) => Some(waker),
            _ => None,
        }
    }
}

/// A thread or task that is blocked on a condition variable or on acquiring a lock.
pub struct Waiter {
    state: State,
    kind: Kind,
    waiting_for: WaitingFor,
    linked: bool,
}

impl View for Waiter {
    type V = WaiterModel;

    closed spec fn view(&self) -> WaiterModel {
        WaiterModel {
            state: self.state,
            kind: self.kind,
            waiting_for: self.waiting_for,
            linked: self.linked,
        }
    }
}

impl Waiter {
    /// Creates a new, initialized waiter that is not linked into any list.
    ///
    /// `kind` says whether it stands for a thread that waits for a shared or for an exclusive
    /// lock, `waiting_for` which list it is going to be added to.
    pub fn new(kind: Kind, waiting_for: WaitingFor) -> (waiter: Waiter)
        ensures
            waiter@ == (WaiterModel { state: State::Init, kind, waiting_for, linked: false }),
    {
        Waiter { state: State::Init, kind, waiting_for, linked: false }
    }

    /// The kind of lock that this waiter is waiting to acquire.
    pub fn kind(&self) -> (kind: Kind)
        ensures
            kind == self@.kind,
    {
        self.kind
    }

    /// How far this waiter has come.
    pub fn state(&self) -> (state: &State)
        ensures
            *state == self@.state,
    {
        &self.state
    }

    /// Whether this waiter was linked into a waiter list when its link was last looked at.
    pub fn is_linked(&self) -> (linked: bool)
        ensures
            linked == self@.linked,
    {
        self.linked
    }

    /// Notes whether this waiter is linked into a waiter list.
    pub fn set_linked(&mut self, linked: bool)
        ensures
            final(self)@ == old(self)@.with_linked(linked),
            final(self)@.linked == linked,
            final(self)@.waiting_for == old(self)@.waiting_for,
            final(self)@.kind == old(self)@.kind,
            final(self)@.state == old(self)@.state,
    {
        self.linked = linked;
    }

    /// Looks at the link through which lists hold this waiter, and notes what it says.
    ///
    /// Other threads may link and unlink it at any time, so what is noted is what one look saw.
    pub fn observe_link(&mut self, link: &AtomicLink) -> (linked: bool)
        ensures
            call_ensures(AtomicLink::is_linked, (link,), linked),
            final(self)@ == old(self)@.with_linked(linked),
            final(self)@.linked == linked,
    {
        let linked = link.is_linked();
        self.set_linked(linked);
        linked
    }

    /// Indicates the waiter list to which this waiter belongs.
    pub fn is_waiting_for(&self) -> (waiting_for: WaitingFor)
        ensures
            waiting_for == self@.waiting_for,
    {
        self.waiting_for
    }

    /// Changes the waiter list to which this waiter belongs.
    pub fn set_waiting_for(&mut self, waiting_for: WaitingFor)
        ensures
            final(self)@ == old(self)@.with_waiting_for(waiting_for),
            final(self)@.waiting_for == waiting_for,
            final(self)@.linked == old(self)@.linked,
            final(self)@.kind == old(self)@.kind,
            final(self)@.state == old(self)@.state,
    {
        self.waiting_for = waiting_for;
    }

    /// Ends the wait of a waiter without waking it.
    ///
    /// A waiter is meant to be taken off its list first; what happens to its state is the same if
    /// it was not.
    pub fn cancel(waiter: &mut Waiter)
        ensures
            final(waiter)@ == old(waiter)@.with_state(State::Finished),
            final(waiter)@.state is Finished,
    {
        waiter.state = State::Finished;
    }

    /// Wakes up the thread or task associated with a waiter that has left every list.
    ///
    /// The caller calls the returned waker, if there is one, once it holds no lock.
    pub fn wake(waiter: &mut Waiter) -> (waker: Option<Waker>)
        requires
            old(waiter)@.may_wake(),
        ensures
            final(waiter)@ == old(waiter)@.after_wake(),
            waker == old(waiter)@.stored_waker(),
            waker matches Some(waker) ==> old(waiter)@.state == State::Waiting(waker),
            waker is None ==> !(old(waiter)@.state is Waiting),
    {
        let mut previous = State::Woken;
        core::mem::swap(&mut waiter.state, &mut previous);
        match previous {
            State::Waiting(waker) => Some(waker),
            State::Canceled => {
                waiter.state = State::Finished;
                None
            },
            _ => None,
        }
    }

    /// Polls a waiter on behalf of the task that `waker` awakens.
    ///
    /// A stored waker is asked whether it will wake that task: it stays if so, and is displaced
    /// if not.
    pub fn poll(&mut self, waker: &Waker) -> (polled: Polled)
        requires
            old(self)@.may_poll(),
        ensures
            exists|same_task: bool, copy: Waker|
                {
                    &&& #[trigger] old(self)@.poll_may_meet(*waker, same_task, copy)
                    &&& final(self)@ == old(self)@.after_poll(same_task, copy)
                    &&& polled == old(self)@.poll_result(same_task)
                },
            polled is Ready <==> old(self)@.state is Woken,
            old(self)@.state matches State::Waiting(stored) ==> exists|same_task: bool| #[trigger]
                call_ensures(Waker::will_wake, (&stored, waker), same_task) && polled == (
                if same_task {
                    Polled::Pending { displaced: None }
                } else {
                    Polled::Pending { displaced: Some(stored) }
                }),
    {
        let same_task = match &self.state {
            State::Waiting(stored) => stored.will_wake(waker),
            _ => false,
        };
        let polled = self.poll_comparing(waker, same_task);
        proof {
            let copy = choose|copy: Waker|
                {
                    &&& old(self)@.stores_copy(same_task) ==> is_copy(*waker, copy)
                    &&& self@ == #[trigger] old(self)@.after_poll(same_task, copy)
                };
            assert(old(self)@.poll_may_meet(*waker, same_task, copy));
        }
        polled
    }

    /// Polls a waiter on behalf of the task that `waker` awakens, given what the stored waker, if
    /// there is one, says when it is asked if it will wake that same task.
    ///
    /// A stored waker that will wake it stays; any other is displaced by a copy of `waker`.
    pub fn poll_comparing(&mut self, waker: &Waker, same_task: bool) -> (polled: Polled)
        requires
            old(self)@.may_poll(),
        ensures
            exists|copy: Waker|
                {
                    &&& old(self)@.stores_copy(same_task) ==> is_copy(*waker, copy)
                    &&& final(self)@ == #[trigger] old(self)@.after_poll(same_task, copy)
                },
            polled == old(self)@.poll_result(same_task),
            polled is Ready <==> old(self)@.state is Woken,
    {
        if let State::Woken = self.state {
            self.state = State::Finished;
            assert(self@ == old(self)@.after_poll(same_task, *waker));
            return Polled::Ready;
        }
        if same_task {
            if let State::Waiting(_) = self.state {
                assert(self@ == old(self)@.after_poll(same_task, *waker));
                return Polled::Pending { displaced: None };
            }
        }
        let copy = waker.clone();
        let ghost stored = copy;
        let mut previous = State::Waiting(copy);
        core::mem::swap(&mut self.state, &mut previous);
        assert(self@ == old(self)@.after_poll(same_task, stored));
        match previous {
            State::Waiting(displaced) => Polled::Pending { displaced: Some(displaced) },
            _ => Polled::Pending { displaced: None },
        }
    }
}

/// The largest number of times that the length of a pause is doubled.
pub const MAX_DOUBLINGS: u32 = 7;

/// What a [`Teardown`] holds, as contracts speak of it.
pub struct TeardownModel {
    /// Whether the first step was taken.
    pub begun: bool,
    /// How many times the length of the next pause has been doubled.
    pub doublings: nat,
}

/// What is to be done next, with no lock held, for a waiter that is being dropped.
pub enum TeardownAction {
    /// Tell the owner that the waiter was canceled, and whether it had been woken by then. An
    /// owner that learns of a waiter which was woken wakes up the next one in its place.
    Cancel { woken: bool },
    /// Pause for this many spins. The waiter is on a temporary list of another task that is
    /// about to wake it.
    Relax { spins: usize },
    /// Nobody holds a reference to the waiter any more.
    Done,
}

/// How far the drop of a [`Waiter`] has come.
pub struct Teardown {
    begun: bool,
    doublings: u32,
}

impl View for Teardown {
    type V = TeardownModel;

    closed spec fn view(&self) -> TeardownModel {
        TeardownModel { begun: self.begun, doublings: self.doublings as nat }
    }
}

impl TeardownModel {
    pub open spec fn initial() -> TeardownModel {
        TeardownModel { begun: false, doublings: 0 }
    }

    /// What is to be done when the state of the waiter is found to be `state`.
    pub open spec fn action(self, state: State) -> TeardownAction {
        if state is Finished {
            TeardownAction::Done
        } else if !self.begun {
            TeardownAction::Cancel { woken: state is Woken }
        } else {
            TeardownAction::Relax { spins: pow2(self.doublings) as usize }
        }
    }

    /// How far the drop has come once that is decided: each pause is twice as long as the one
    /// before it, up to a limit.
    pub open spec fn next(self, state: State) -> TeardownModel {
        if self.action(state) is Relax && self.doublings < MAX_DOUBLINGS {
            TeardownModel { begun: true, doublings: self.doublings + 1 }
        } else {
            TeardownModel { begun: true, ..self }
        }
    }
}

impl Teardown {
    #[verifier::type_invariant]
    spec fn pauses_are_bounded(self) -> bool {
        self.doublings <= MAX_DOUBLINGS
    }

    /// The drop of a waiter, before its first step.
    pub fn new() -> (teardown: Teardown)
        ensures
            teardown@ == TeardownModel::initial(),
    {
        Teardown { begun: false, doublings: 0 }
    }

    /// Takes one step of the drop of `waiter`, and says what is to be done before the next one.
    ///
    /// The drop is over when there is nothing left to do.
    pub fn step(&mut self, waiter: &mut Waiter) -> (action: TeardownAction)
        requires
            !old(self)@.begun ==> !(old(waiter)@.state is Canceled),
        ensures
            action == old(self)@.action(old(waiter)@.state),
            final(self)@ == old(self)@.next(old(waiter)@.state),
            final(waiter)@ == (if old(self)@.begun {
                old(waiter)@
            } else {
                old(waiter)@.after_drop()
            }),
    {
        proof {
            use_type_invariant(&*self);
        }
        let begun = self.begun;
        self.begun = true;
        if let State::Finished = waiter.state {
            return TeardownAction::Done;
        }
        if !begun {
            if let State::Woken = waiter.state {
                waiter.state = State::Finished;
                return TeardownAction::Cancel { woken: true };
            }
            waiter.state = State::Canceled;
            return TeardownAction::Cancel { woken: false };
        }
        let doublings: u32 = self.doublings;
        proof {
            lemma_pause_length(doublings);
        }
        if doublings < MAX_DOUBLINGS {
            self.doublings = doublings + 1;
        }
        TeardownAction::Relax { spins: 1usize << doublings }
    }
}

proof fn lemma_pause_length(doublings: u32)
    requires
        doublings <= MAX_DOUBLINGS,
    ensures
        1usize << doublings == pow2(doublings as nat),
        pow2(doublings as nat) <= 128,
{
    lemma2_to64();
    assert(1usize << 0u32 == 1 && 1usize << 1u32 == 2 && 1usize << 2u32 == 4 && 1usize << 3u32 == 8
        && 1usize << 4u32 == 16 && 1usize << 5u32 == 32 && 1usize << 6u32 == 64 && 1usize << 7u32
        == 128) by (bit_vector);
}

} // verus!

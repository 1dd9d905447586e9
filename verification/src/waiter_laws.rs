//! What holds of a waiter over several of its operations, whoever performs them.

use core::task::Waker;
use vstd::arithmetic::power2::{lemma2_to64, pow2};
use vstd::prelude::*;

use crate::outside::stands_for;
use crate::sequences::lemma_drop_last;
use crate::waiter::{
    Polled, State, TeardownAction, TeardownModel, WaiterModel, WaitingFor, MAX_DOUBLINGS,
};

verus! {

/// No wake-up is lost: once a waiter was woken, whatever state it was in (unless it was being
/// dropped), its next poll is `Ready` and finishes it.
pub proof fn law_poll_after_wake_is_ready(waiter: WaiterModel, same_task: bool, copy: Waker)
    requires
        waiter.may_wake(),
        !(waiter.state is Canceled),
    ensures
        waiter.after_wake().may_poll(),
        waiter.after_wake().poll_result(same_task) == Polled::Ready,
        waiter.after_wake().after_poll(same_task, copy) == waiter.with_state(State::Finished),
{
}

/// A poll of a waiter, with what it meets: what a stored waker says of `waker`, and a copy of
/// `waker` where one is needed.
pub struct PollCall {
    pub waker: Waker,
    pub same_task: bool,
    pub copy: Waker,
}

impl PollCall {
    /// Whether this is what a poll of `waiter` may meet.
    pub open spec fn fits(self, waiter: WaiterModel) -> bool {
        waiter.poll_may_meet(self.waker, self.same_task, self.copy)
    }
}

/// A waiter that was polled before it was woken hands out a waker that stands for the task that
/// polled, also when it has moved between lists meanwhile.
pub proof fn law_wake_after_pending_poll_calls_the_poller(
    waiter: WaiterModel,
    call: PollCall,
    waiting_for: WaitingFor,
    linked: bool,
)
    requires
        waiter.may_poll(),
        !(waiter.state is Woken),
        call.fits(waiter),
    ensures
        ({
            let moved = waiter.after_poll(call.same_task, call.copy).with_waiting_for(
                waiting_for,
            ).with_linked(linked);
            &&& moved.stored_waker() matches Some(stored) && stands_for(stored, call.waker)
            &&& moved.after_wake().state is Woken
        }),
{
}

/// Polling again on behalf of a task that the stored waker will wake has no effect at all: the
/// stored waker stays, and none is displaced.
pub proof fn law_polling_again_for_the_same_task_changes_nothing(
    waiter: WaiterModel,
    copy: Waker,
)
    requires
        waiter.state is Waiting,
    ensures
        waiter.after_poll(true, copy) == waiter,
        waiter.poll_result(true) == (Polled::Pending { displaced: None }),
{
}

/// A waiter after each of `calls` in turn.
pub open spec fn after_polls(waiter: WaiterModel, calls: Seq<PollCall>) -> WaiterModel
    decreases calls.len(),
{
    if calls.len() == 0 {
        waiter
    } else {
        after_polls(waiter, calls.drop_last()).after_poll(
            calls.last().same_task,
            calls.last().copy,
        )
    }
}

/// However often and from however many tasks a waiter is polled while it is not woken, it goes
/// on waiting, and the waker it keeps stands for the task that polled last.
pub proof fn law_last_poller_is_kept(waiter: WaiterModel, calls: Seq<PollCall>)
    requires
        waiter.may_poll(),
        !(waiter.state is Woken),
        calls.len() > 0,
        calls.last().fits(after_polls(waiter, calls.drop_last())),
    ensures
        after_polls(waiter, calls).stored_waker() matches Some(stored) && stands_for(
            stored,
            calls.last().waker,
        ) && after_polls(waiter, calls) == waiter.with_state(State::Waiting(stored)),
{
    lemma_goes_on_waiting(waiter, calls.drop_last());
}

proof fn lemma_goes_on_waiting(waiter: WaiterModel, calls: Seq<PollCall>)
    requires
        waiter.may_poll(),
        !(waiter.state is Woken),
    ensures
        ({
            let after = after_polls(waiter, calls);
            &&& after == waiter.with_state(after.state)
            &&& after.state is Init || after.state is Waiting
        }),
    decreases calls.len(),
{
    if calls.len() > 0 {
        lemma_goes_on_waiting(waiter, calls.drop_last());
    }
}

/// A waiter after it was woken `times` times.
pub open spec fn after_wakes(waiter: WaiterModel, times: nat) -> WaiterModel
    decreases times,
{
    if times == 0 {
        waiter
    } else {
        after_wakes(waiter, (times - 1) as nat).after_wake()
    }
}

/// The wakers that are handed out when a waiter is woken `times` times.
pub open spec fn handed_out(waiter: WaiterModel, times: nat) -> Seq<Waker>
    decreases times,
{
    if times == 0 {
        Seq::empty()
    } else {
        match after_wakes(waiter, (times - 1) as nat).stored_waker() {
            Some(waker) => handed_out(waiter, (times - 1) as nat).push(waker),
            None => handed_out(waiter, (times - 1) as nat),
        }
    }
}

/// Waking a waiter again changes nothing: it stays woken, may still be woken, and its waker is
/// handed out once only.
pub proof fn law_waking_again_changes_nothing(waiter: WaiterModel, times: nat)
    requires
        waiter.may_wake(),
        !(waiter.state is Canceled),
        times > 0,
    ensures
        after_wakes(waiter, times) == waiter.after_wake(),
        after_wakes(waiter, times).may_wake(),
        handed_out(waiter, times) == (match waiter.stored_waker() {
            Some(waker) => seq![waker],
            None => Seq::empty(),
        }),
    decreases times,
{
    reveal_with_fuel(after_wakes, 2);
    reveal_with_fuel(handed_out, 2);
    if times > 1 {
        law_waking_again_changes_nothing(waiter, (times - 1) as nat);
    }
}

/// What can happen to a waiter.
pub enum WaiterEvent {
    Poll(PollCall),
    Wake,
    Cancel,
    Drop,
    SetWaitingFor(WaitingFor),
    SetLinked(bool),
}

impl WaiterModel {
    /// The waiter after `event`.
    pub open spec fn after(self, event: WaiterEvent) -> WaiterModel {
        match event {
            WaiterEvent::Poll(call) => self.after_poll(call.same_task, call.copy),
            WaiterEvent::Wake => self.after_wake(),
            WaiterEvent::Cancel => self.with_state(State::Finished),
            WaiterEvent::Drop => self.after_drop(),
            WaiterEvent::SetWaitingFor(waiting_for) => self.with_waiting_for(waiting_for),
            WaiterEvent::SetLinked(linked) => self.with_linked(linked),
        }
    }

    /// The waiter after each of `events` in turn.
    pub open spec fn after_all(self, events: Seq<WaiterEvent>) -> WaiterModel
        decreases events.len(),
    {
        if events.len() == 0 {
            self
        } else {
            self.after_all(events.drop_last()).after(events.last())
        }
    }
}

/// Nothing changes what kind of lock a waiter waits for, and only setting them changes the list
/// that it belongs to and whether it is linked.
pub proof fn law_only_setters_change_list_membership(
    waiter: WaiterModel,
    events: Seq<WaiterEvent>,
)
    ensures
        waiter.after_all(events).kind == waiter.kind,
        (forall|i: int| 0 <= i < events.len() ==> !(#[trigger] events[i] is SetWaitingFor))
            ==> waiter.after_all(events).waiting_for == waiter.waiting_for,
        (forall|i: int| 0 <= i < events.len() ==> !(#[trigger] events[i] is SetLinked))
            ==> waiter.after_all(events).linked == waiter.linked,
    decreases events.len(),
{
    if events.len() > 0 {
        law_only_setters_change_list_membership(waiter, events.drop_last());
        lemma_drop_last(events);
    }
}

/// The position of the last of `events` that is more than a change of list membership, or -1 if
/// there is none.
pub open spec fn last_touch(events: Seq<WaiterEvent>) -> int
    decreases events.len(),
{
    if events.len() == 0 {
        -1
    } else if events.last() is SetWaitingFor || events.last() is SetLinked {
        last_touch(events.drop_last())
    } else {
        events.len() - 1
    }
}

/// After any sequence of events a waker is stored, to be handed out by the next wake-up, exactly
/// when the last event but for changes of list membership was a poll that found the waiter not
/// woken. It is the copy that this poll stored, or the waker that it kept, and stands for the task
/// that made the poll.
pub proof fn law_only_the_last_pending_poll_leaves_a_waker(
    waiter: WaiterModel,
    events: Seq<WaiterEvent>,
)
    ensures
        -1 <= last_touch(events) < events.len(),
        last_touch(events) == -1 ==> waiter.after_all(events).stored_waker()
            == waiter.stored_waker(),
        last_touch(events) >= 0 ==> ({
            let before = waiter.after_all(events.take(last_touch(events)));
            let stored = waiter.after_all(events).stored_waker();
            match events[last_touch(events)] {
                WaiterEvent::Poll(call) => if before.state is Woken {
                    stored is None
                } else if before.keeps_waker(call.same_task) {
                    &&& stored == before.stored_waker()
                    &&& call.fits(before) ==> stands_for(stored->0, call.waker)
                } else {
                    &&& stored == Some(call.copy)
                    &&& call.fits(before) ==> stands_for(stored->0, call.waker)
                },
                _ => stored is None,
            }
        }),
    decreases events.len(),
{
    if events.len() > 0 {
        let rest = events.drop_last();
        law_only_the_last_pending_poll_leaves_a_waker(waiter, rest);
        if events.last() is SetWaitingFor || events.last() is SetLinked {
            if last_touch(rest) >= 0 {
                assert(rest.take(last_touch(rest)) =~= events.take(last_touch(rest)));
            }
        } else {
            assert(rest =~= events.take(events.len() - 1));
        }
    }
}

/// Once a waiter is being dropped it never hands out a waker again, whoever wakes or cancels it
/// or moves it between lists.
pub proof fn law_no_waker_after_drop(waiter: WaiterModel, events: Seq<WaiterEvent>)
    requires
        !(waiter.state is Canceled),
        forall|i: int|
            0 <= i < events.len() ==> !(#[trigger] events[i] is Poll) && !(events[i] is Drop),
    ensures
        waiter.after_drop().after_all(events).stored_waker() is None,
    decreases events.len(),
{
    if events.len() > 0 {
        lemma_drop_last(events);
        law_no_waker_after_drop(waiter, events.drop_last());
    }
}

/// The drop of a waiter that was not woken does not end before whoever holds a reference to it
/// has woken or canceled it, whatever else happens; and it ends once one of them has done so
/// once.
pub proof fn law_drop_ends_with_one_wake_or_cancel(waiter: WaiterModel, events: Seq<WaiterEvent>)
    requires
        !(waiter.state is Finished),
        !(waiter.state is Woken),
        !(waiter.state is Canceled),
        forall|i: int|
            0 <= i < events.len() ==> !(#[trigger] events[i] is Poll) && !(events[i] is Drop),
    ensures
        releases(events) == 0 ==> waiter.after_drop().after_all(events).state is Canceled,
        releases(events) == 1 ==> waiter.after_drop().after_all(events).state is Finished,
    decreases events.len(),
{
    if events.len() > 0 {
        lemma_drop_last(events);
        law_drop_ends_with_one_wake_or_cancel(waiter, events.drop_last());
    }
}

/// How many of `events` let go of a reference to a waiter.
pub open spec fn releases(events: Seq<WaiterEvent>) -> nat
    decreases events.len(),
{
    if events.len() == 0 {
        0
    } else {
        releases(events.drop_last()) + if events.last() is Wake || events.last() is Cancel {
            1nat
        } else {
            0nat
        }
    }
}

/// A waiter is only ever found woken after someone woke it, so an owner that is told of a woken
/// waiter can rely on that.
pub proof fn law_woken_only_by_a_wake(waiter: WaiterModel, events: Seq<WaiterEvent>)
    requires
        !(waiter.state is Woken),
        forall|i: int| 0 <= i < events.len() ==> !(#[trigger] events[i] is Wake),
    ensures
        !(waiter.after_all(events).state is Woken),
    decreases events.len(),
{
    if events.len() > 0 {
        lemma_drop_last(events);
        law_woken_only_by_a_wake(waiter, events.drop_last());
    }
}

/// The drop of a waiter that was woken but not polled since tells the owner so, and then ends
/// without a pause.
pub proof fn law_drop_of_a_woken_waiter_passes_the_wake_up_on(waiter: WaiterModel)
    requires
        waiter.state is Woken,
    ensures
        TeardownModel::initial().action(waiter.state) == (TeardownAction::Cancel { woken: true }),
        TeardownModel::initial().next(waiter.state).action(waiter.after_drop().state)
            == TeardownAction::Done,
{
}

/// How far a drop has come after `steps` steps, of which step `i` found the waiter in state
/// `found[i]`.
pub open spec fn teardown_after(found: Seq<State>, steps: nat) -> TeardownModel
    decreases steps,
{
    if steps == 0 {
        TeardownModel::initial()
    } else {
        teardown_after(found, (steps - 1) as nat).next(found[steps - 1])
    }
}

/// A drop, over all of its steps: it ends at the first step that finds the waiter finished, and
/// not before; the owner is told at most once, at the first step, and with `woken` exactly when
/// the waiter had been woken; and the pauses after that are of 1, 2, 4, and so on up to 128
/// spins.
pub proof fn law_drop_step_by_step(found: Seq<State>, step: nat)
    requires
        step < found.len(),
        forall|i: int| 0 <= i < step ==> !(#[trigger] found[i] is Finished),
    ensures
        teardown_after(found, step).action(found[step as int]) == (if found[step as int] is Finished {
            TeardownAction::Done
        } else if step == 0 {
            TeardownAction::Cancel { woken: found[0] is Woken }
        } else if step <= MAX_DOUBLINGS {
            TeardownAction::Relax { spins: pow2((step - 1) as nat) as usize }
        } else {
            TeardownAction::Relax { spins: 128 }
        }),
{
    lemma_teardown_after(found, step);
    lemma2_to64();
}

proof fn lemma_teardown_after(found: Seq<State>, steps: nat)
    requires
        steps <= found.len(),
        forall|i: int| 0 <= i < steps ==> !(#[trigger] found[i] is Finished),
    ensures
        teardown_after(found, steps).begun <==> steps > 0,
        teardown_after(found, steps).doublings == (if steps == 0 {
            0
        } else if steps <= MAX_DOUBLINGS + 1 {
            steps - 1
        } else {
            MAX_DOUBLINGS as int
        }),
    decreases steps,
{
    if steps > 0 {
        lemma_teardown_after(found, (steps - 1) as nat);
        assert(!(found[steps - 1] is Finished));
    }
}

/// Whoever asks afterwards which list a waiter belongs to, or whether it is linked, is told what
/// was set last, whatever was the case before; and setting one of them touches nothing else.
pub proof fn law_what_was_set_is_what_is_told(
    waiter: WaiterModel,
    waiting_for: WaitingFor,
    linked: bool,
    state: State,
)
    ensures
        waiter.with_waiting_for(waiting_for).waiting_for == waiting_for,
        waiter.with_waiting_for(waiting_for).linked == waiter.linked,
        waiter.with_waiting_for(waiting_for).kind == waiter.kind,
        waiter.with_waiting_for(waiting_for).state == waiter.state,
        waiter.with_linked(linked).linked == linked,
        waiter.with_linked(linked).waiting_for == waiter.waiting_for,
        waiter.with_linked(linked).kind == waiter.kind,
        waiter.with_linked(linked).state == waiter.state,
        waiter.with_state(state).state == state,
        waiter.with_state(state).linked == waiter.linked,
        waiter.with_state(state).waiting_for == waiter.waiting_for,
        waiter.with_state(state).kind == waiter.kind,
{
}

/// Of two settings in a row the later one counts, and a waiter that is put back on the list that
/// it was on is as it was.
pub proof fn law_the_last_setting_counts(
    waiter: WaiterModel,
    earlier: WaitingFor,
    later: WaitingFor,
    was_linked: bool,
    is_linked: bool,
)
    ensures
        waiter.with_waiting_for(earlier).with_waiting_for(later) == waiter.with_waiting_for(later),
        waiter.with_waiting_for(earlier).with_waiting_for(waiter.waiting_for) == waiter,
        waiter.with_linked(was_linked).with_linked(is_linked) == waiter.with_linked(is_linked),
        waiter.with_linked(was_linked).with_linked(waiter.linked) == waiter,
{
}

/// Whatever list a waiter is on, taking it off makes it one that may be woken; and no waiter may
/// be woken while it is linked, or while it belongs to a lock or to a condition variable.
pub proof fn law_waiter_off_its_list_may_be_woken(waiter: WaiterModel)
    ensures
        waiter.with_waiting_for(WaitingFor::Nothing).with_linked(false).may_wake(),
        !waiter.with_linked(true).may_wake(),
        !waiter.with_waiting_for(WaitingFor::Mutex).may_wake(),
        !waiter.with_waiting_for(WaitingFor::Condvar).may_wake(),
{
}

/// A poll ends the wait if and only if the waiter had been woken and not polled since: a waiter
/// that was never polled, or that waits, goes on waiting, whatever its kind, its list and its
/// link, and whatever the stored waker says.
pub proof fn law_poll_is_ready_iff_woken(waiter: WaiterModel, same_task: bool, copy: Waker)
    requires
        waiter.may_poll(),
    ensures
        waiter.poll_result(same_task) == Polled::Ready <==> waiter.state == State::Woken,
        waiter.state is Init || waiter.state is Waiting ==> waiter.poll_result(same_task) is Pending
            && waiter.after_poll(same_task, copy).state is Waiting,
        waiter.state is Woken ==> waiter.after_poll(same_task, copy).state is Finished,
{
}

/// A waiter may be polled until a poll was `Ready` or it was canceled or dropped, and not any
/// more after that.
pub proof fn law_may_be_polled_until_ready_or_dropped(
    waiter: WaiterModel,
    same_task: bool,
    copy: Waker,
)
    ensures
        waiter.with_state(State::Init).may_poll(),
        waiter.with_state(State::Woken).may_poll(),
        waiter.with_state(State::Waiting(copy)).may_poll(),
        waiter.may_poll() ==> (waiter.after_poll(same_task, copy).may_poll()
            <==> waiter.poll_result(same_task) is Pending),
        !waiter.with_state(State::Finished).may_poll(),
        !waiter.after_drop().may_poll(),
{
}

/// No waker gets lost or is made up in a poll: the waker that was stored, if there was one, is
/// afterwards either still stored or handed out, and not both; the copy is stored exactly when
/// the stored one does not stay.
pub proof fn law_poll_neither_loses_nor_invents_wakers(
    waiter: WaiterModel,
    same_task: bool,
    copy: Waker,
)
    requires
        waiter.state is Init || waiter.state is Waiting,
    ensures
        waiter.poll_result(same_task) matches Polled::Pending { displaced } && match waiter.state {
            State::Waiting(stored) => if same_task {
                displaced is None && waiter.after_poll(same_task, copy).state == State::Waiting(
                    stored,
                )
            } else {
                displaced == Some(stored) && waiter.after_poll(same_task, copy).state
                    == State::Waiting(copy)
            },
            _ => displaced is None && waiter.after_poll(same_task, copy).state == State::Waiting(
                copy,
            ),
        },
{
}

/// What a poll meets comes of the calls that it makes: what it takes for the answer of a stored
/// waker is what that waker answered, and what it stores is a copy of the waker it was given.
pub proof fn law_poll_asks_the_stored_waker(waiter: WaiterModel, call: PollCall)
    requires
        call.fits(waiter),
    ensures
        waiter.state matches State::Waiting(stored) ==> call_ensures(
            Waker::will_wake,
            (&stored, &call.waker),
            call.same_task,
        ),
        waiter.state is Init || (waiter.state is Waiting && !call.same_task) ==> call_ensures(
            <Waker as Clone>::clone,
            (&call.waker,),
            call.copy,
        ),
{
}

/// The kind of a waiter, its list and its link have no bearing on what a poll, a wake-up or a drop
/// does to its state, nor on what they hand out.
pub proof fn law_only_the_state_decides(
    a: WaiterModel,
    b: WaiterModel,
    same_task: bool,
    copy: Waker,
)
    requires
        a.state == b.state,
    ensures
        a.may_poll() == b.may_poll(),
        a.poll_result(same_task) == b.poll_result(same_task),
        a.after_poll(same_task, copy).state == b.after_poll(same_task, copy).state,
        a.after_wake().state == b.after_wake().state,
        a.after_drop().state == b.after_drop().state,
        a.stored_waker() == b.stored_waker(),
{
}

/// A wake-up leaves a waiter that is not being dropped woken, and one that is being dropped
/// finished; it hands out a waker exactly when one is stored, and that one.
pub proof fn law_wake_hands_out_the_stored_waker(waiter: WaiterModel)
    ensures
        waiter.state is Canceled ==> waiter.after_wake().state is Finished,
        !(waiter.state is Canceled) ==> waiter.after_wake().state is Woken,
        waiter.stored_waker() is Some <==> waiter.state is Waiting,
        waiter.stored_waker() matches Some(waker) ==> waiter.state == State::Waiting(waker),
        waiter.after_wake().stored_waker() is None,
{
}

/// The first step of a drop finishes a waiter that was woken or already done, and cancels any
/// other; list membership and kind stay.
pub proof fn law_drop_finishes_only_what_was_woken_or_done(waiter: WaiterModel)
    ensures
        waiter.after_drop().state is Finished <==> waiter.state is Woken || waiter.state is Finished,
        waiter.after_drop().state is Finished || waiter.after_drop().state is Canceled,
        waiter.after_drop().kind == waiter.kind,
        waiter.after_drop().waiting_for == waiter.waiting_for,
        waiter.after_drop().linked == waiter.linked,
{
}

} // verus!

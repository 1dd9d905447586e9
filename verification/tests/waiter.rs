use std::{
    sync::{
        atomic::{AtomicUsize, Ordering},
        Arc,
    },
    task::{Wake, Waker},
};

use intrusive_collections::linked_list::AtomicLink;
use posh::waiter::{Kind, Polled, State, Teardown, TeardownAction, Waiter, WaitingFor};

struct Counter(AtomicUsize);

impl Counter {
    fn new() -> Arc<Counter> {
        Arc::new(Counter(AtomicUsize::new(0)))
    }

    fn count(&self) -> usize {
        self.0.load(Ordering::SeqCst)
    }
}

impl Wake for Counter {
    fn wake(self: Arc<Self>) {
        self.0.fetch_add(1, Ordering::SeqCst);
    }
}

fn waiter() -> Waiter {
    Waiter::new(Kind::Exclusive, WaitingFor::Nothing)
}

#[test]
fn new_waiter_holds_what_it_was_made_with() {
    let waiter = Waiter::new(Kind::Shared, WaitingFor::Mutex);
    assert_eq!(waiter.kind(), Kind::Shared);
    assert_eq!(waiter.is_waiting_for(), WaitingFor::Mutex);
    assert!(!waiter.is_linked());
    assert!(matches!(waiter.state(), State::Init));
}

#[test]
fn setters_change_one_thing_each() {
    let mut waiter = Waiter::new(Kind::Exclusive, WaitingFor::Condvar);
    waiter.set_waiting_for(WaitingFor::Mutex);
    assert_eq!(waiter.is_waiting_for(), WaitingFor::Mutex);
    assert!(!waiter.is_linked());
    waiter.set_linked(true);
    assert!(waiter.is_linked());
    assert_eq!(waiter.is_waiting_for(), WaitingFor::Mutex);
    assert_eq!(waiter.kind(), Kind::Exclusive);
    assert!(matches!(waiter.state(), State::Init));
}

#[test]
fn fresh_link_is_seen_as_unlinked() {
    let mut waiter = waiter();
    waiter.set_linked(true);
    assert!(!waiter.observe_link(&AtomicLink::new()));
    assert!(!waiter.is_linked());
}

#[test]
fn poll_wake_poll_is_ready() {
    let counter = Counter::new();
    let waker = Waker::from(counter.clone());
    let mut waiter = waiter();
    assert!(matches!(
        waiter.poll(&waker),
        Polled::Pending { displaced: None }
    ));
    assert!(matches!(waiter.state(), State::Waiting(_)));
    Waiter::wake(&mut waiter).unwrap().wake();
    assert_eq!(counter.count(), 1);
    assert!(matches!(waiter.state(), State::Woken));
    assert!(matches!(waiter.poll(&waker), Polled::Ready));
    assert!(matches!(waiter.state(), State::Finished));
}

#[test]
fn wake_before_the_first_poll_is_not_lost() {
    let waker = Waker::from(Counter::new());
    let mut waiter = waiter();
    assert!(Waiter::wake(&mut waiter).is_none());
    assert!(matches!(waiter.poll(&waker), Polled::Ready));
}

#[test]
fn waker_is_handed_out_once() {
    let mut waiter = waiter();
    waiter.poll(&Waker::from(Counter::new()));
    assert!(Waiter::wake(&mut waiter).is_some());
    assert!(Waiter::wake(&mut waiter).is_none());
    assert!(matches!(waiter.state(), State::Woken));
}

#[test]
fn same_task_keeps_its_waker() {
    let waker = Waker::from(Counter::new());
    let mut waiter = waiter();
    waiter.poll(&waker);
    assert!(matches!(
        waiter.poll(&waker),
        Polled::Pending { displaced: None }
    ));
    assert!(matches!(
        waiter.poll(&waker.clone()),
        Polled::Pending { displaced: None }
    ));
}

#[test]
fn last_task_to_poll_is_woken() {
    let (first, second) = (Counter::new(), Counter::new());
    let mut waiter = waiter();
    waiter.poll(&Waker::from(first.clone()));
    match waiter.poll(&Waker::from(second.clone())) {
        Polled::Pending {
            displaced: Some(displaced),
        } => displaced.wake(),
        _ => panic!("the waker of the first task was not displaced"),
    }
    assert_eq!((first.count(), second.count()), (1, 0));
    Waiter::wake(&mut waiter).unwrap().wake();
    assert_eq!((first.count(), second.count()), (1, 1));
}

#[test]
fn unknown_waker_is_displaced() {
    let waker = Waker::from(Counter::new());
    let mut waiter = waiter();
    waiter.poll(&waker);
    assert!(matches!(
        waiter.poll_comparing(&waker, false),
        Polled::Pending { displaced: Some(_) }
    ));
    assert!(matches!(
        waiter.poll_comparing(&waker, true),
        Polled::Pending { displaced: None }
    ));
}

#[test]
fn canceling_finishes_a_waiter() {
    let mut waiter = waiter();
    waiter.poll(&Waker::from(Counter::new()));
    Waiter::cancel(&mut waiter);
    assert!(matches!(waiter.state(), State::Finished));
}

#[test]
fn waking_a_finished_waiter_marks_it_woken() {
    let mut waiter = waiter();
    Waiter::cancel(&mut waiter);
    assert!(Waiter::wake(&mut waiter).is_none());
    assert!(matches!(waiter.state(), State::Woken));
}

#[test]
fn drop_of_a_finished_waiter_tells_nobody() {
    let mut waiter = waiter();
    Waiter::cancel(&mut waiter);
    let mut teardown = Teardown::new();
    assert!(matches!(teardown.step(&mut waiter), TeardownAction::Done));
}

#[test]
fn drop_of_a_woken_waiter_passes_the_wake_up_on() {
    let mut waiter = waiter();
    Waiter::wake(&mut waiter);
    let mut teardown = Teardown::new();
    assert!(matches!(
        teardown.step(&mut waiter),
        TeardownAction::Cancel { woken: true }
    ));
    assert!(matches!(waiter.state(), State::Finished));
    assert!(matches!(teardown.step(&mut waiter), TeardownAction::Done));
}

#[test]
fn drop_waits_for_a_wake_with_growing_pauses() {
    let counter = Counter::new();
    let mut waiter = waiter();
    waiter.poll(&Waker::from(counter.clone()));
    let mut teardown = Teardown::new();
    assert!(matches!(
        teardown.step(&mut waiter),
        TeardownAction::Cancel { woken: false }
    ));
    assert!(matches!(waiter.state(), State::Canceled));
    let mut pauses = Vec::new();
    for _ in 0..10 {
        match teardown.step(&mut waiter) {
            TeardownAction::Relax { spins } => pauses.push(spins),
            _ => panic!("the drop ended too early"),
        }
    }
    assert_eq!(pauses, vec![1, 2, 4, 8, 16, 32, 64, 128, 128, 128]);
    assert!(Waiter::wake(&mut waiter).is_none());
    assert!(matches!(waiter.state(), State::Finished));
    assert!(matches!(teardown.step(&mut waiter), TeardownAction::Done));
    assert_eq!(counter.count(), 0);
}

#[test]
fn drop_ends_when_the_waiter_is_canceled() {
    let mut waiter = waiter();
    let mut teardown = Teardown::new();
    teardown.step(&mut waiter);
    Waiter::cancel(&mut waiter);
    assert!(matches!(teardown.step(&mut waiter), TeardownAction::Done));
}

#[test]
fn polls_and_wakes_leave_list_membership_alone() {
    let waker = Waker::from(Counter::new());
    let mut waiter = Waiter::new(Kind::Shared, WaitingFor::Nothing);
    waiter.poll(&waker);
    Waiter::wake(&mut waiter);
    waiter.poll(&waker);
    waiter.set_waiting_for(WaitingFor::Condvar);
    Teardown::new().step(&mut waiter);
    assert_eq!(waiter.kind(), Kind::Shared);
    assert_eq!(waiter.is_waiting_for(), WaitingFor::Condvar);
    assert!(!waiter.is_linked());
}

#[test]
fn waker_stays_stored_while_list_membership_changes() {
    let counter = Counter::new();
    let mut waiter = Waiter::new(Kind::Exclusive, WaitingFor::Mutex);
    waiter.set_linked(true);
    waiter.poll(&Waker::from(counter.clone()));
    waiter.set_linked(false);
    waiter.set_waiting_for(WaitingFor::Nothing);
    Waiter::wake(&mut waiter).unwrap().wake();
    assert_eq!(counter.count(), 1);
}

#[test]
fn waiter_that_nobody_woke_is_dropped_as_not_woken() {
    let mut waiter = waiter();
    waiter.poll(&Waker::from(Counter::new()));
    waiter.poll(&Waker::from(Counter::new()));
    assert!(matches!(
        Teardown::new().step(&mut waiter),
        TeardownAction::Cancel { woken: false }
    ));
}

#[test]
fn polling_again_for_the_same_task_changes_nothing() {
    let counter = Counter::new();
    let waker = Waker::from(counter.clone());
    let mut waiter = waiter();
    waiter.poll(&waker);
    let references = Arc::strong_count(&counter);
    for _ in 0..3 {
        assert!(matches!(
            waiter.poll(&waker),
            Polled::Pending { displaced: None }
        ));
        assert_eq!(Arc::strong_count(&counter), references);
    }
    assert_eq!(counter.count(), 0);
}

#[test]
fn comparison_matters_only_to_a_stored_waker() {
    let waker = Waker::from(Counter::new());
    let mut waiter = waiter();
    assert!(matches!(
        waiter.poll_comparing(&waker, true),
        Polled::Pending { displaced: None }
    ));
    assert!(matches!(waiter.state(), State::Waiting(_)));
    Waiter::wake(&mut waiter);
    assert!(matches!(
        waiter.poll_comparing(&waker, true),
        Polled::Ready
    ));
}

#[test]
fn canceling_a_linked_waiter_finishes_it_too() {
    let mut waiter = waiter();
    waiter.set_linked(true);
    Waiter::cancel(&mut waiter);
    assert!(matches!(waiter.state(), State::Finished));
    assert!(waiter.is_linked());
}

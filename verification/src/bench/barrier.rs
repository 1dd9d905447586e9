//! A barrier that lets a fixed number of tasks through once all of them have arrived.

use vstd::prelude::*;

use crate::sequences::lemma_drop_last;

verus! {

/// What a task does when it has arrived at a [`Barrier`].
#[derive(Clone, Copy, Debug, PartialEq, Eq, Structural)]
pub enum Arrival {
    /// It was the last one: it notifies all the others and goes on.
    NotifyAll,
    /// It waits for as long as the barrier is closed.
    Wait,
}

/// The number of tasks that have yet to arrive.
pub struct Barrier {
    count: usize,
}

impl View for Barrier {
    type V = nat;

    closed spec fn view(&self) -> nat {
        self.count as nat
    }
}

impl Barrier {
    /// A barrier for `count` tasks.
    pub fn new(count: usize) -> (barrier: Barrier)
        ensures
            barrier@ == count,
    {
        Barrier { count }
    }

    /// Counts one more task as arrived, and says what it does next.
    ///
    /// No more tasks may arrive than the barrier was made for.
    pub fn arrive(&mut self) -> (arrival: Arrival)
        requires
            old(self)@ > 0,
        ensures
            final(self)@ == old(self)@ - 1,
            arrival == arrival_at(old(self)@),
            arrival == Arrival::NotifyAll <==> final(self)@ == 0,
    {
        let before: usize = self.count;
        self.count = before - 1;
        if before == 1 {
            Arrival::NotifyAll
        } else {
            Arrival::Wait
        }
    }

    /// Whether a task that waits has to go on waiting.
    pub fn is_closed(&self) -> (closed: bool)
        ensures
            closed <==> self@ > 0,
    {
        self.count > 0
    }
}

/// What a task does that arrives when `missing` tasks, itself among them, have yet to arrive.
pub open spec fn arrival_at(missing: nat) -> Arrival {
    if missing == 1 {
        Arrival::NotifyAll
    } else {
        Arrival::Wait
    }
}

/// Where a task is with respect to a barrier.
pub enum TaskPosition {
    /// It has yet to arrive.
    Before,
    /// It has arrived, and is about to look whether the barrier is still closed.
    Looking,
    /// It found the barrier closed, and sleeps: it is sure to look again only when notified.
    Asleep,
    /// It was the last one to arrive, and is about to notify all others.
    Notifying,
    /// It has gone on.
    Past,
}

/// A barrier and the tasks that it was made for.
pub struct Crowd {
    /// How many tasks the barrier still counts as missing.
    pub missing: nat,
    pub positions: Seq<TaskPosition>,
    /// How many times a task has notified the others.
    pub notifications: nat,
}

impl Crowd {
    /// A new barrier for `tasks` tasks, none of which has arrived.
    pub open spec fn initial(tasks: nat) -> Crowd {
        Crowd {
            missing: tasks,
            positions: Seq::new(tasks, |i: int| TaskPosition::Before),
            notifications: 0,
        }
    }

    /// The crowd with `task` at `position`.
    pub open spec fn with_position(self, task: int, position: TaskPosition) -> Crowd {
        Crowd { positions: self.positions.update(task, position), ..self }
    }

    /// The crowd with one task fewer missing.
    pub open spec fn with_arrival(self) -> Crowd {
        Crowd { missing: (self.missing - 1) as nat, ..self }
    }

    /// The crowd with everybody awake: those who slept are about to look again.
    pub open spec fn with_notification(self) -> Crowd {
        Crowd {
            positions: self.positions.map_values(
                |position: TaskPosition|
                    if position is Asleep {
                        TaskPosition::Looking
                    } else {
                        position
                    },
            ),
            notifications: self.notifications + 1,
            ..self
        }
    }

    /// The crowd after `task` has made its next move. To look and to fall asleep is one move, since
    /// the task holds the lock meanwhile. A task that sleeps may run without being notified: it
    /// then looks again, and goes back to sleep while the barrier is closed. One that is past the
    /// barrier makes no more moves.
    pub open spec fn after_move(self, task: int) -> Crowd {
        match self.positions[task] {
            TaskPosition::Before => match arrival_at(self.missing) {
                Arrival::NotifyAll => self.with_arrival().with_position(
                    task,
                    TaskPosition::Notifying,
                ),
                Arrival::Wait => self.with_arrival().with_position(task, TaskPosition::Looking),
            },
            TaskPosition::Looking => if self.missing > 0 {
                self.with_position(task, TaskPosition::Asleep)
            } else {
                self.with_position(task, TaskPosition::Past)
            },
            TaskPosition::Asleep => if self.missing > 0 {
                self
            } else {
                self.with_position(task, TaskPosition::Past)
            },
            TaskPosition::Notifying => self.with_notification().with_position(
                task,
                TaskPosition::Past,
            ),
            TaskPosition::Past => self,
        }
    }

    /// The crowd after each of `moves`, the tasks that make them in order.
    pub open spec fn after_moves(self, moves: Seq<int>) -> Crowd
        decreases moves.len(),
    {
        if moves.len() == 0 {
            self
        } else {
            self.after_moves(moves.drop_last()).after_move(moves.last())
        }
    }

    /// Whether the barrier counts as missing just the tasks that have yet to arrive, and nobody
    /// is past it before all of them have arrived.
    pub open spec fn is_orderly(self) -> bool {
        &&& self.missing == yet_to_arrive(self.positions)
        &&& forall|task: int|
            0 <= task < self.positions.len() && #[trigger] self.positions[task] is Before
                ==> self.missing > 0
        &&& forall|task: int|
            0 <= task < self.positions.len() && #[trigger] self.positions[task] is Past
                ==> self.missing == 0
    }

    /// Whether the one notification is out, with nobody left asleep.
    pub open spec fn is_notified(self) -> bool {
        &&& self.notifications == 1
        &&& forall|task: int|
            0 <= task < self.positions.len() ==> (#[trigger] self.positions[task] is Looking
                || self.positions[task] is Past)
    }

    /// Whether `notifier`, and nobody else, is about to send the one notification.
    pub open spec fn is_about_to_be_notified_by(self, notifier: int) -> bool {
        &&& self.notifications == 0
        &&& 0 <= notifier < self.positions.len()
        &&& forall|task: int|
            0 <= task < self.positions.len() ==> (#[trigger] self.positions[task] is Notifying
                <==> task == notifier)
    }
}

/// How many of the tasks at `positions` have yet to arrive.
pub open spec fn yet_to_arrive(positions: Seq<TaskPosition>) -> nat
    decreases positions.len(),
{
    if positions.len() == 0 {
        0
    } else {
        yet_to_arrive(positions.drop_last()) + if positions.last() is Before {
            1nat
        } else {
            0nat
        }
    }
}

/// Exactly the arrival that leaves nobody missing, and so opens the barrier, is the one whose task
/// notifies the others.
pub proof fn law_the_arrival_that_opens_the_barrier_notifies(missing: nat)
    requires
        missing > 0,
    ensures
        arrival_at(missing) == Arrival::NotifyAll <==> missing - 1 == 0,
        arrival_at(missing) == Arrival::Wait <==> missing - 1 > 0,
{
}

/// In whatever order the tasks move: the barrier counts as missing just the tasks that have yet
/// to arrive, so that each of them may still arrive, and no task gets past it before all of them
/// have arrived.
pub proof fn law_nobody_passes_before_all_arrive(tasks: nat, moves: Seq<int>)
    requires
        forall|i: int| 0 <= i < moves.len() ==> 0 <= #[trigger] moves[i] < tasks,
    ensures
        Crowd::initial(tasks).after_moves(moves).positions.len() == tasks,
        Crowd::initial(tasks).after_moves(moves).is_orderly(),
{
    lemma_crowd(tasks, moves);
}

/// In whatever order the tasks move, nobody oversleeps: once all have arrived, either the one
/// notification is out and nobody is asleep, or the last task to arrive is just about to send
/// it; before that, nobody is notified in vain.
pub proof fn law_nobody_oversleeps(tasks: nat, moves: Seq<int>)
    requires
        tasks > 0,
        forall|i: int| 0 <= i < moves.len() ==> 0 <= #[trigger] moves[i] < tasks,
    ensures
        ({
            let crowd = Crowd::initial(tasks).after_moves(moves);
            if crowd.missing > 0 {
                crowd.notifications == 0
            } else {
                crowd.is_notified() || exists|notifier: int| #[trigger]
                    crowd.is_about_to_be_notified_by(notifier)
            }
        }),
{
    lemma_crowd(tasks, moves);
}

/// Once all tasks have arrived, the move of the one that is about to notify the others wakes
/// whoever is asleep.
pub proof fn law_notification_wakes_everybody(crowd: Crowd, notifier: int)
    requires
        crowd.missing == 0,
        crowd.is_orderly(),
        crowd.is_about_to_be_notified_by(notifier),
    ensures
        crowd.after_move(notifier).is_notified(),
{
    assert(crowd.positions[notifier] is Notifying);
    let after = crowd.after_move(notifier);
    assert forall|task: int| 0 <= task < after.positions.len() implies (
    #[trigger] after.positions[task] is Looking || after.positions[task] is Past) by {
        assert(crowd.positions[task] is Notifying <==> task == notifier);
    }
}

/// Once all tasks have arrived and the notification is out, each task that is not past the
/// barrier yet gets past it with its next move.
pub proof fn law_everybody_passes_once_notified(crowd: Crowd, task: int)
    requires
        0 <= task < crowd.positions.len(),
        crowd.missing == 0,
        crowd.is_notified(),
    ensures
        crowd.after_move(task).positions[task] is Past,
        crowd.after_move(task).missing == 0,
        crowd.after_move(task).is_notified(),
{
    assert(crowd.positions[task] is Looking || crowd.positions[task] is Past);
}

proof fn lemma_crowd(tasks: nat, moves: Seq<int>)
    requires
        forall|i: int| 0 <= i < moves.len() ==> 0 <= #[trigger] moves[i] < tasks,
    ensures
        ({
            let crowd = Crowd::initial(tasks).after_moves(moves);
            &&& crowd.positions.len() == tasks
            &&& crowd.is_orderly()
            &&& crowd.missing > 0 ==> crowd.notifications == 0 && forall|task: int|
                0 <= task < tasks ==> !(#[trigger] crowd.positions[task] is Notifying)
            &&& crowd.missing == 0 && tasks > 0 ==> crowd.is_notified() || exists|notifier: int|
             #[trigger] crowd.is_about_to_be_notified_by(notifier)
        }),
    decreases moves.len(),
{
    let crowd = Crowd::initial(tasks).after_moves(moves);
    if moves.len() == 0 {
        lemma_all_yet_to_arrive(crowd.positions);
    } else {
        lemma_drop_last(moves);
        lemma_crowd(tasks, moves.drop_last());
        let earlier = Crowd::initial(tasks).after_moves(moves.drop_last());
        lemma_crowd_move(earlier, moves.last());
    }
}

proof fn lemma_crowd_move(earlier: Crowd, task: int)
    requires
        0 <= task < earlier.positions.len(),
        earlier.is_orderly(),
        earlier.missing > 0 ==> earlier.notifications == 0 && forall|other: int|
            0 <= other < earlier.positions.len() ==> !(
            #[trigger] earlier.positions[other] is Notifying),
        earlier.missing == 0 ==> earlier.is_notified() || exists|notifier: int| #[trigger]
            earlier.is_about_to_be_notified_by(notifier),
    ensures
        ({
            let crowd = earlier.after_move(task);
            &&& crowd.positions.len() == earlier.positions.len()
            &&& crowd.is_orderly()
            &&& crowd.missing > 0 ==> crowd.notifications == 0 && forall|other: int|
                0 <= other < crowd.positions.len() ==> !(
                #[trigger] crowd.positions[other] is Notifying)
            &&& crowd.missing == 0 ==> crowd.is_notified() || exists|notifier: int| #[trigger]
                crowd.is_about_to_be_notified_by(notifier)
        }),
{
    let crowd = earlier.after_move(task);
    assert(forall|other: int|
        0 <= other < crowd.positions.len() && other != task ==> (
        #[trigger] crowd.positions[other] is Before <==> earlier.positions[other] is Before));
    if earlier.positions[task] is Before {
        lemma_one_arrives(earlier.positions, crowd.positions, task);
        if crowd.missing == 0 {
            assert(crowd.is_about_to_be_notified_by(task));
        }
    } else {
        lemma_nobody_arrives(earlier.positions, crowd.positions);
        if earlier.missing == 0 {
            if earlier.is_notified() {
                assert(crowd.is_notified());
            } else {
                let notifier = choose|notifier: int| #[trigger]
                    earlier.is_about_to_be_notified_by(notifier);
                assert(earlier.positions[notifier] is Notifying);
                if task == notifier {
                    law_notification_wakes_everybody(earlier, notifier);
                } else {
                    assert(!(earlier.positions[task] is Notifying));
                    assert(crowd.is_about_to_be_notified_by(notifier));
                }
            }
        }
    }
    assert forall|other: int|
        0 <= other < crowd.positions.len() && #[trigger] crowd.positions[other] is Before implies
        crowd.missing > 0 by {
        lemma_one_arrives(
            crowd.positions,
            crowd.positions.update(other, TaskPosition::Past),
            other,
        );
    }
}

proof fn lemma_all_yet_to_arrive(positions: Seq<TaskPosition>)
    requires
        forall|i: int| 0 <= i < positions.len() ==> #[trigger] positions[i] is Before,
    ensures
        yet_to_arrive(positions) == positions.len(),
    decreases positions.len(),
{
    if positions.len() > 0 {
        lemma_drop_last(positions);
        lemma_all_yet_to_arrive(positions.drop_last());
    }
}

proof fn lemma_nobody_arrives(before: Seq<TaskPosition>, after: Seq<TaskPosition>)
    requires
        before.len() == after.len(),
        forall|i: int|
            0 <= i < after.len() ==> (#[trigger] after[i] is Before <==> before[i] is Before),
    ensures
        yet_to_arrive(after) == yet_to_arrive(before),
    decreases before.len(),
{
    if before.len() > 0 {
        lemma_drop_last(before);
        lemma_drop_last(after);
        lemma_nobody_arrives(before.drop_last(), after.drop_last());
    }
}

proof fn lemma_one_arrives(before: Seq<TaskPosition>, after: Seq<TaskPosition>, task: int)
    requires
        before.len() == after.len(),
        0 <= task < before.len(),
        before[task] is Before,
        !(after[task] is Before),
        forall|i: int|
            0 <= i < after.len() && i != task ==> (
            #[trigger] after[i] is Before <==> before[i] is Before),
    ensures
        yet_to_arrive(before) == yet_to_arrive(after) + 1,
    decreases before.len(),
{
    lemma_drop_last(before);
    lemma_drop_last(after);
    if task == before.len() - 1 {
        lemma_nobody_arrives(before.drop_last(), after.drop_last());
    } else {
        lemma_one_arrives(before.drop_last(), after.drop_last(), task);
    }
}

} // verus!

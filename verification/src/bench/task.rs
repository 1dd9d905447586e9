//! One task of a benchmark: it takes the lock over and over until it is told to stop, and then
//! reports how often it did.

use vstd::prelude::*;

verus! {

/// What has just happened to a task.
#[derive(Clone, Copy, Debug, PartialEq, Eq, Structural)]
pub enum TaskEvent {
    /// It was let go, together with the other tasks.
    Started,
    /// It looked whether it is to keep going.
    KeepGoing(bool),
    /// It did its work while it held the lock, and released the lock.
    WorkedInside,
    /// It did its work without the lock.
    WorkedOutside,
}

/// What a task does next.
#[derive(Clone, Copy, Debug, PartialEq, Eq, Structural)]
pub enum TaskAction {
    /// Look whether to keep going.
    Look,
    /// Take the lock, go through this many rounds of work, and release the lock.
    WorkInside(usize),
    /// Go through this many rounds of work without the lock.
    WorkOutside(usize),
    /// Report this many iterations, and end.
    Report(usize),
}

/// Where a task is in its loop.
#[derive(Clone, Copy, Debug, PartialEq, Eq, Structural)]
pub enum TaskPhase {
    NotStarted,
    Looking,
    Inside,
    Outside,
    Ended,
}

/// What a [`Task`] holds, as contracts speak of it.
pub struct TaskModel {
    pub phase: TaskPhase,
    pub iterations: nat,
    pub work_per_critical_section: usize,
    pub work_between_critical_sections: usize,
}

impl TaskModel {
    pub open spec fn with_phase(self, phase: TaskPhase) -> TaskModel {
        TaskModel { phase, ..self }
    }

    /// Whether `event` is what the task is waiting for.
    pub open spec fn expects(self, event: TaskEvent) -> bool {
        match event {
            TaskEvent::Started => self.phase == TaskPhase::NotStarted,
            TaskEvent::KeepGoing(_) => self.phase == TaskPhase::Looking,
            TaskEvent::WorkedInside => self.phase == TaskPhase::Inside,
            TaskEvent::WorkedOutside => self.phase == TaskPhase::Outside,
        }
    }

    /// The task after `event`: an iteration counts once the work outside of the lock is done.
    pub open spec fn after(self, event: TaskEvent) -> TaskModel {
        match event {
            TaskEvent::Started => self.with_phase(TaskPhase::Looking),
            TaskEvent::KeepGoing(true) => self.with_phase(TaskPhase::Inside),
            TaskEvent::KeepGoing(false) => self.with_phase(TaskPhase::Ended),
            TaskEvent::WorkedInside => self.with_phase(TaskPhase::Outside),
            TaskEvent::WorkedOutside => TaskModel {
                phase: TaskPhase::Looking,
                iterations: self.iterations + 1,
                ..self
            },
        }
    }

    /// What the task does in response to `event`.
    pub open spec fn action(self, event: TaskEvent) -> TaskAction {
        match event {
            TaskEvent::Started => TaskAction::Look,
            TaskEvent::KeepGoing(true) => TaskAction::WorkInside(self.work_per_critical_section),
            TaskEvent::KeepGoing(false) => TaskAction::Report(self.iterations as usize),
            TaskEvent::WorkedInside => TaskAction::WorkOutside(self.work_between_critical_sections),
            TaskEvent::WorkedOutside => TaskAction::Look,
        }
    }
}

/// A task of a benchmark.
pub struct Task {
    phase: TaskPhase,
    iterations: usize,
    work_per_critical_section: usize,
    work_between_critical_sections: usize,
}

impl View for Task {
    type V = TaskModel;

    closed spec fn view(&self) -> TaskModel {
        TaskModel {
            phase: self.phase,
            iterations: self.iterations as nat,
            work_per_critical_section: self.work_per_critical_section,
            work_between_critical_sections: self.work_between_critical_sections,
        }
    }
}

impl Task {
    /// A task that was not started yet.
    pub fn new(work_per_critical_section: usize, work_between_critical_sections: usize) -> (task:
        Task)
        ensures
            task@ == (TaskModel {
                phase: TaskPhase::NotStarted,
                iterations: 0,
                work_per_critical_section,
                work_between_critical_sections,
            }),
    {
        Task {
            phase: TaskPhase::NotStarted,
            iterations: 0,
            work_per_critical_section,
            work_between_critical_sections,
        }
    }

    /// How many iterations are done.
    pub fn iterations(&self) -> (iterations: usize)
        ensures
            iterations == self@.iterations,
    {
        self.iterations
    }

    /// Takes note of `event`, and says what the task does next.
    pub fn step(&mut self, event: TaskEvent) -> (action: TaskAction)
        requires
            old(self)@.expects(event),
            event == TaskEvent::WorkedOutside ==> old(self)@.iterations < usize::MAX,
        ensures
            final(self)@ == old(self)@.after(event),
            action == old(self)@.action(event),
    {
        match event {
            TaskEvent::Started => {
                self.phase = TaskPhase::Looking;
                TaskAction::Look
            },
            TaskEvent::KeepGoing(true) => {
                self.phase = TaskPhase::Inside;
                TaskAction::WorkInside(self.work_per_critical_section)
            },
            TaskEvent::KeepGoing(false) => {
                self.phase = TaskPhase::Ended;
                TaskAction::Report(self.iterations)
            },
            TaskEvent::WorkedInside => {
                self.phase = TaskPhase::Outside;
                TaskAction::WorkOutside(self.work_between_critical_sections)
            },
            TaskEvent::WorkedOutside => {
                self.iterations = self.iterations + 1;
                self.phase = TaskPhase::Looking;
                TaskAction::Look
            },
        }
    }
}

/// A task that looks whether to keep going, after it was told `rounds` times in a row to do so.
pub open spec fn after_rounds(task: TaskModel, rounds: nat) -> TaskModel
    decreases rounds,
{
    if rounds == 0 {
        task
    } else {
        after_rounds(task, (rounds - 1) as nat).after(TaskEvent::KeepGoing(true)).after(
            TaskEvent::WorkedInside,
        ).after(TaskEvent::WorkedOutside)
    }
}

/// Whenever a task is told to keep going it does the same work inside of the lock and then the
/// same work outside of it, and when it is told to stop it reports how often it was told to keep
/// going.
pub proof fn law_reports_completed_rounds(
    work_per_critical_section: usize,
    work_between_critical_sections: usize,
    rounds: nat,
)
    requires
        rounds <= usize::MAX,
    ensures
        ({
            let task = TaskModel {
                phase: TaskPhase::NotStarted,
                iterations: 0,
                work_per_critical_section,
                work_between_critical_sections,
            };
            let looking = after_rounds(task.after(TaskEvent::Started), rounds);
            let inside = looking.after(TaskEvent::KeepGoing(true));
            &&& task.expects(TaskEvent::Started)
            &&& task.action(TaskEvent::Started) == TaskAction::Look
            &&& looking.expects(TaskEvent::KeepGoing(true))
            &&& looking.action(TaskEvent::KeepGoing(true)) == TaskAction::WorkInside(
                work_per_critical_section,
            )
            &&& inside.expects(TaskEvent::WorkedInside)
            &&& inside.action(TaskEvent::WorkedInside) == TaskAction::WorkOutside(
                work_between_critical_sections,
            )
            &&& inside.after(TaskEvent::WorkedInside).expects(TaskEvent::WorkedOutside)
            &&& inside.after(TaskEvent::WorkedInside).action(TaskEvent::WorkedOutside)
                == TaskAction::Look
            &&& looking.expects(TaskEvent::KeepGoing(false))
            &&& looking.action(TaskEvent::KeepGoing(false)) == TaskAction::Report(rounds as usize)
        }),
{
    let task = TaskModel {
        phase: TaskPhase::NotStarted,
        iterations: 0,
        work_per_critical_section,
        work_between_critical_sections,
    };
    lemma_after_rounds(task.after(TaskEvent::Started), rounds);
}

proof fn lemma_after_rounds(task: TaskModel, rounds: nat)
    requires
        task.phase == TaskPhase::Looking,
    ensures
        after_rounds(task, rounds) == (TaskModel { iterations: task.iterations + rounds, ..task }),
    decreases rounds,
{
    if rounds > 0 {
        lemma_after_rounds(task, (rounds - 1) as nat);
    }
}

/// An ended task takes part in nothing more.
pub proof fn law_ended_task_expects_nothing(task: TaskModel, event: TaskEvent)
    requires
        task.expects(TaskEvent::KeepGoing(false)),
    ensures
        !task.after(TaskEvent::KeepGoing(false)).expects(event),
{
}

} // verus!

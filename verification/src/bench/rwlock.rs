//! The benchmark of locks that several readers may hold at a time.

use vstd::prelude::*;
use vstd::string::StringExecFns;

use crate::bench::heading::{
    first_after, law_seconds_line_tells_the_seconds, law_work_line_tells_the_work, line_if, push_line, push_seconds_line, push_work_line, seconds_line, work_line,
};
use crate::bench::text::{
    append_decimal, decimal, law_decimal_reads_back, lemma_decimal_injective, lemma_digits_end,
    lemma_same_front, texts,
};

verus! {

/// A lock that takes part in the benchmark.
#[derive(Clone, Copy, Debug, PartialEq, Eq, Structural)]
pub enum RwLockKind {
    ParkingLot,
    Posh,
    SeqLock,
    Std,
    PthreadRwLock,
}

impl RwLockKind {
    /// The name under which results are listed.
    pub open spec fn spec_name(self) -> Seq<char> {
        match self {
            RwLockKind::ParkingLot => "parking_lot::RwLock"@,
            RwLockKind::Posh => "posh::Mutex"@,
            RwLockKind::SeqLock => "seqlock::SeqLock"@,
            RwLockKind::Std => "std::sync::RwLock"@,
            RwLockKind::PthreadRwLock => "pthread_rwlock_t"@,
        }
    }

    /// The name under which results are listed.
    pub fn name(&self) -> (name: &'static str)
        ensures
            name@ == self.spec_name(),
    {
        match self {
            RwLockKind::ParkingLot => "parking_lot::RwLock",
            RwLockKind::Posh => "posh::Mutex",
            RwLockKind::SeqLock => "seqlock::SeqLock",
            RwLockKind::Std => "std::sync::RwLock",
            RwLockKind::PthreadRwLock => "pthread_rwlock_t",
        }
    }
}

/// One combination of the benchmark's parameters.
#[derive(Clone, Copy, Debug, PartialEq, Eq, Structural)]
pub struct RwLockParameters {
    pub num_writer_tasks: usize,
    pub num_reader_tasks: usize,
    pub work_per_critical_section: usize,
    pub work_between_critical_sections: usize,
    pub seconds_per_test: usize,
    pub test_iterations: usize,
}

impl RwLockParameters {
    /// Whether there is a task at all.
    pub open spec fn has_tasks(self) -> bool {
        self.num_writer_tasks > 0 || self.num_reader_tasks > 0
    }
}

/// What is to be done for one combination of parameters.
pub struct RwLockRun {
    /// The lines to print first.
    pub heading: Vec<String>,
    /// The locks to try, in this order.
    pub locks: Vec<RwLockKind>,
}

/// The line that says how many tasks there are.
pub open spec fn tasks_line(num_writer_tasks: usize, num_reader_tasks: usize) -> Seq<char> {
    "- Running with "@ + decimal(num_writer_tasks as nat) + " writer tasks and "@ + decimal(
        num_reader_tasks as nat,
    ) + " reader tasks"@
}

/// What is printed ahead of the results: what there is to say of the parameters, all of it the
/// `first` time and later only of those that vary. `single[i]` says that parameter `i` has one
/// value only.
pub open spec fn heading(first: bool, single: Seq<bool>, parameters: RwLockParameters) -> Seq<
    Seq<char>,
> {
    line_if(
        first || !single[0] || !single[1],
        tasks_line(parameters.num_writer_tasks, parameters.num_reader_tasks),
    ) + line_if(
        first || !single[2] || !single[3],
        work_line(parameters.work_per_critical_section, parameters.work_between_critical_sections),
    ) + line_if(first || !single[4], seconds_line(parameters.seconds_per_test))
}

/// The locks that are tried, in order, on a system of the given family.
pub open spec fn locks(unix: bool) -> Seq<RwLockKind> {
    seq![RwLockKind::ParkingLot, RwLockKind::Posh, RwLockKind::SeqLock, RwLockKind::Std] + (
    if unix {
        seq![RwLockKind::PthreadRwLock]
    } else {
        Seq::empty()
    })
}

/// Decides what is to be done for one combination of parameters: nothing where there is no task.
///
/// `first` says that nothing was done yet for any other combination. `single[i]` says that
/// parameter `i`, in the order of the fields of [`RwLockParameters`], has one value only.
pub fn run_all(
    single: &Vec<bool>,
    first: &mut bool,
    parameters: RwLockParameters,
    unix: bool,
) -> (run: Option<RwLockRun>)
    requires
        parameters.has_tasks() && !*old(first) ==> single@.len() >= 5,
    ensures
        *final(first) == first_after(*old(first), parameters.has_tasks()),
        run is Some <==> parameters.num_writer_tasks > 0 || parameters.num_reader_tasks > 0,
        run matches Some(run) ==> {
            &&& texts(run.heading@) == heading(*old(first), single@, parameters)
            &&& run.heading@.len() == texts(run.heading@).len()
            &&& forall|i: int|
                0 <= i < run.heading@.len() ==> texts(run.heading@)[i]
                    == #[trigger] run.heading@[i]@
            &&& texts(run.heading@).contains(
                tasks_line(parameters.num_writer_tasks, parameters.num_reader_tasks),
            ) <==> *old(first) || !single@[0] || !single@[1]
            &&& texts(run.heading@).contains(
                work_line(
                    parameters.work_per_critical_section,
                    parameters.work_between_critical_sections,
                ),
            ) <==> *old(first) || !single@[2] || !single@[3]
            &&& texts(run.heading@).contains(seconds_line(parameters.seconds_per_test)) <==> *old(
                first,
            ) || !single@[4]
            &&& run.locks@ == locks(unix)
            &&& run.locks@.contains(RwLockKind::PthreadRwLock) <==> unix
        },
{
    if parameters.num_writer_tasks == 0 && parameters.num_reader_tasks == 0 {
        return None;
    }
    let all = *first;
    let mut lines: Vec<String> = Vec::new();
    assert(texts(lines@) =~= Seq::<Seq<char>>::empty());
    if all || !single[0] || !single[1] {
        push_tasks_line(&mut lines, parameters.num_writer_tasks, parameters.num_reader_tasks);
    }
    if all || !single[2] || !single[3] {
        push_work_line(
            &mut lines,
            parameters.work_per_critical_section,
            parameters.work_between_critical_sections,
        );
    }
    if all || !single[4] {
        push_seconds_line(&mut lines, parameters.seconds_per_test);
    }
    *first = false;
    assert(texts(lines@) =~= heading(*old(first), single@, parameters));
    proof {
        law_each_lock_is_tried_where_it_exists(unix);
        law_heading_announces_just_what_varies(*old(first), single@, parameters);
    }
    Some(RwLockRun { heading: lines, locks: locks_in_order(unix) })
}

fn locks_in_order(unix: bool) -> (order: Vec<RwLockKind>)
    ensures
        order@ == locks(unix),
{
    let mut order: Vec<RwLockKind> = vec![
        RwLockKind::ParkingLot,
        RwLockKind::Posh,
        RwLockKind::SeqLock,
        RwLockKind::Std,
    ];
    if unix {
        order.push(RwLockKind::PthreadRwLock);
    }
    assert(order@ =~= locks(unix));
    order
}

fn push_tasks_line(lines: &mut Vec<String>, num_writer_tasks: usize, num_reader_tasks: usize)
    ensures
        texts(final(lines)@) == texts(old(lines)@).push(
            tasks_line(num_writer_tasks, num_reader_tasks),
        ),
{
    let mut line = String::new();
    line.append("- Running with ");
    append_decimal(&mut line, num_writer_tasks);
    line.append(" writer tasks and ");
    append_decimal(&mut line, num_reader_tasks);
    line.append(" reader tasks");
    assert(line@ =~= tasks_line(num_writer_tasks, num_reader_tasks));
    push_line(lines, line);
}

/// Where no parameter varies, nothing is printed ahead of the results after the first time.
pub proof fn law_later_headings_leave_out_what_does_not_vary(
    single: Seq<bool>,
    parameters: RwLockParameters,
)
    requires
        single.len() >= 5,
        forall|i: int| 0 <= i < 5 ==> #[trigger] single[i],
    ensures
        heading(false, single, parameters) == Seq::<Seq<char>>::empty(),
{
    assert(heading(false, single, parameters) =~= Seq::<Seq<char>>::empty());
}

/// The portable locks come first, in their order, on every system; the lock of POSIX threads is
/// tried if and only if the system is a unix, and then last; and no lock is tried twice.
pub proof fn law_each_lock_is_tried_where_it_exists(unix: bool)
    ensures
        locks(unix).len() >= 4,
        locks(unix)[0] == RwLockKind::ParkingLot,
        locks(unix)[1] == RwLockKind::Posh,
        locks(unix)[2] == RwLockKind::SeqLock,
        locks(unix)[3] == RwLockKind::Std,
        locks(unix).contains(RwLockKind::PthreadRwLock) <==> unix,
        unix ==> locks(unix).last() == RwLockKind::PthreadRwLock,
        locks(unix).no_duplicates(),
{
    if unix {
        assert(locks(unix)[4] == RwLockKind::PthreadRwLock);
    }
}

/// Something is done for a combination if and only if it has a task, be it a writer or a reader.
pub proof fn law_has_tasks_iff_there_is_one(parameters: RwLockParameters)
    ensures
        parameters.has_tasks() <==> parameters.num_writer_tasks + parameters.num_reader_tasks != 0,
{
}

/// The line on the tasks says how many writers there are, in front, and how many readers, at the
/// end; so no two pairs of numbers are announced alike.
pub proof fn law_tasks_line_tells_the_tasks(
    writers: usize,
    readers: usize,
    other_writers: usize,
    other_readers: usize,
)
    ensures
        ("- Running with "@ + decimal(writers as nat) + " writer tasks and "@).is_prefix_of(
            tasks_line(writers, readers),
        ),
        (decimal(readers as nat) + " reader tasks"@).is_suffix_of(tasks_line(writers, readers)),
        tasks_line(writers, readers).len() == decimal(writers as nat).len() + decimal(
            readers as nat,
        ).len() + 46,
        tasks_line(writers, readers).last() == 's',
        tasks_line(writers, readers) == tasks_line(other_writers, other_readers) <==> writers
            == other_writers && readers == other_readers,
{
    reveal_strlit("- Running with ");
    reveal_strlit(" writer tasks and ");
    reveal_strlit(" reader tasks");
    law_decimal_reads_back(writers as nat);
    law_decimal_reads_back(readers as nat);
    law_decimal_reads_back(other_writers as nat);
    law_decimal_reads_back(other_readers as nat);
    let start = "- Running with "@;
    let middle = " writer tasks and "@;
    let end = " reader tasks"@;
    let tail = decimal(readers as nat) + end;
    let other_tail = decimal(other_readers as nat) + end;
    assert(tasks_line(writers, readers) =~= start + (decimal(writers as nat) + (middle + tail)));
    assert(tasks_line(other_writers, other_readers) =~= start + (decimal(other_writers as nat) + (
    middle + other_tail)));
    if tasks_line(writers, readers) == tasks_line(other_writers, other_readers) {
        lemma_same_front(
            start,
            decimal(writers as nat) + (middle + tail),
            start,
            decimal(other_writers as nat) + (middle + other_tail),
        );
        lemma_digits_end(
            decimal(writers as nat),
            middle + tail,
            decimal(other_writers as nat),
            middle + other_tail,
        );
        lemma_same_front(middle, tail, middle, other_tail);
        lemma_digits_end(decimal(readers as nat), end, decimal(other_readers as nat), end);
        lemma_decimal_injective(writers as nat, other_writers as nat);
        lemma_decimal_injective(readers as nat, other_readers as nat);
    }
}

/// Each line of a heading depends on the parameters that it speaks of only: it is there the first
/// time, and whenever one of those varies, whatever else varies; and otherwise it is not.
pub proof fn law_heading_announces_just_what_varies(
    first: bool,
    single: Seq<bool>,
    parameters: RwLockParameters,
)
    ensures
        ({
            let lines = heading(first, single, parameters);
            let tasks = tasks_line(parameters.num_writer_tasks, parameters.num_reader_tasks);
            let work = work_line(
                parameters.work_per_critical_section,
                parameters.work_between_critical_sections,
            );
            let seconds = seconds_line(parameters.seconds_per_test);
            &&& first ==> lines == seq![tasks, work, seconds]
            &&& lines.contains(tasks) <==> first || !single[0] || !single[1]
            &&& lines.contains(work) <==> first || !single[2] || !single[3]
            &&& lines.contains(seconds) <==> first || !single[4]
            &&& lines.no_duplicates()
            &&& forall|i: int|
                0 <= i < lines.len() ==> (#[trigger] lines[i] == tasks || lines[i] == work
                    || lines[i] == seconds)
            &&& forall|i: int|
                0 <= i < lines.len() && #[trigger] lines[i] == tasks ==> i == 0
            &&& forall|i: int|
                0 <= i < lines.len() && #[trigger] lines[i] == seconds ==> i == lines.len() - 1
        }),
{
    let lines = heading(first, single, parameters);
    let tasks = tasks_line(parameters.num_writer_tasks, parameters.num_reader_tasks);
    let work = work_line(
        parameters.work_per_critical_section,
        parameters.work_between_critical_sections,
    );
    let seconds = seconds_line(parameters.seconds_per_test);
    law_tasks_line_tells_the_tasks(
        parameters.num_writer_tasks,
        parameters.num_reader_tasks,
        0,
        0,
    );
    law_work_line_tells_the_work(
        parameters.work_per_critical_section,
        parameters.work_between_critical_sections,
        0,
        0,
    );
    law_seconds_line_tells_the_seconds(parameters.seconds_per_test, 0);
    assert(first ==> lines =~= seq![tasks, work, seconds]);
    let tasks_shown = first || !single[0] || !single[1];
    if tasks_shown {
        assert(lines[0] == tasks);
    }
    if first || !single[2] || !single[3] {
        assert(lines[if tasks_shown {
            1
        } else {
            0int
        }] == work);
    }
    if first || !single[4] {
        assert(lines[lines.len() - 1] == seconds);
    }
}

/// Two combinations that differ in a parameter which varies, or which are both announced in full,
/// are told apart by their headings: from a heading one can read off every parameter that it
/// speaks of.
pub proof fn law_headings_tell_combinations_apart(
    first: bool,
    single: Seq<bool>,
    a: RwLockParameters,
    b: RwLockParameters,
)
    requires
        heading(first, single, a) == heading(first, single, b),
    ensures
        first || !single[0] || !single[1] ==> a.num_writer_tasks == b.num_writer_tasks
            && a.num_reader_tasks == b.num_reader_tasks,
        first || !single[2] || !single[3] ==> a.work_per_critical_section
            == b.work_per_critical_section && a.work_between_critical_sections
            == b.work_between_critical_sections,
        first || !single[4] ==> a.seconds_per_test == b.seconds_per_test,
{
    let tasks_shown = first || !single[0] || !single[1];
    let lines = heading(first, single, a);
    law_tasks_line_tells_the_tasks(
        a.num_writer_tasks,
        a.num_reader_tasks,
        b.num_writer_tasks,
        b.num_reader_tasks,
    );
    law_work_line_tells_the_work(
        a.work_per_critical_section,
        a.work_between_critical_sections,
        b.work_per_critical_section,
        b.work_between_critical_sections,
    );
    law_seconds_line_tells_the_seconds(a.seconds_per_test, b.seconds_per_test);
    if tasks_shown {
        assert(lines[0] == tasks_line(a.num_writer_tasks, a.num_reader_tasks));
        assert(heading(first, single, b)[0] == tasks_line(b.num_writer_tasks, b.num_reader_tasks));
    }
    if first || !single[2] || !single[3] {
        let at = if tasks_shown {
            1
        } else {
            0int
        };
        assert(lines[at] == work_line(
            a.work_per_critical_section,
            a.work_between_critical_sections,
        ));
        assert(heading(first, single, b)[at] == work_line(
            b.work_per_critical_section,
            b.work_between_critical_sections,
        ));
    }
    if first || !single[4] {
        assert(lines[lines.len() - 1] == seconds_line(a.seconds_per_test));
        assert(heading(first, single, b)[lines.len() - 1] == seconds_line(b.seconds_per_test));
    }
}

} // verus!

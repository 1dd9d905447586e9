//! The benchmark of locks that are held by one task at a time.

use vstd::prelude::*;
use vstd::string::StringExecFns;

use crate::bench::heading::{
    first_after, law_seconds_line_tells_the_seconds, law_work_line_tells_the_work, line_if, push_line, push_seconds_line, push_work_line, seconds_line, work_line,
};
use crate::bench::text::{
    append_centered, append_decimal, centered, decimal, law_centered_text_is_in_the_middle,
    law_decimal_reads_back, lemma_decimal_injective, lemma_digits_end, lemma_same_front, texts,
};

verus! {

/// A lock that takes part in the benchmark.
#[derive(Clone, Copy, Debug, PartialEq, Eq, Structural)]
pub enum MutexKind {
    Tokio,
    Posh,
    AsyncStd,
    ParkingLot,
    Std,
    SrwLock,
    PthreadMutex,
}

impl MutexKind {
    /// The name under which results are listed.
    pub open spec fn spec_name(self) -> Seq<char> {
        match self {
            MutexKind::Tokio => "tokio::Mutex"@,
            MutexKind::Posh => "posh::Mutex"@,
            MutexKind::AsyncStd => "async_std::Mutex"@,
            MutexKind::ParkingLot => "parking_lot::Mutex"@,
            MutexKind::Std => "std::sync::Mutex"@,
            MutexKind::SrwLock => "winapi_srwlock"@,
            MutexKind::PthreadMutex => "pthread_mutex_t"@,
        }
    }

    /// The name under which results are listed.
    pub fn name(&self) -> (name: &'static str)
        ensures
            name@ == self.spec_name(),
    {
        match self {
            MutexKind::Tokio => "tokio::Mutex",
            MutexKind::Posh => "posh::Mutex",
            MutexKind::AsyncStd => "async_std::Mutex",
            MutexKind::ParkingLot => "parking_lot::Mutex",
            MutexKind::Std => "std::sync::Mutex",
            MutexKind::SrwLock => "winapi_srwlock",
            MutexKind::PthreadMutex => "pthread_mutex_t",
        }
    }
}

/// One combination of the benchmark's parameters.
#[derive(Clone, Copy, Debug, PartialEq, Eq, Structural)]
pub struct MutexParameters {
    pub num_tasks: usize,
    pub work_per_critical_section: usize,
    pub work_between_critical_sections: usize,
    pub seconds_per_test: usize,
    pub test_iterations: usize,
}

impl MutexParameters {
    /// Whether there is a task at all.
    pub open spec fn has_tasks(self) -> bool {
        self.num_tasks > 0
    }
}

/// What is to be done for one combination of parameters.
pub struct MutexRun {
    /// The lines to print first.
    pub heading: Vec<String>,
    /// The number of threads on which the tasks run.
    pub pool_size: usize,
    /// The locks to try, in this order.
    pub locks: Vec<MutexKind>,
}

/// The line that says how many tasks there are.
pub open spec fn tasks_line(num_tasks: usize) -> Seq<char> {
    "- Running with "@ + decimal(num_tasks as nat) + " tasks"@
}

/// The line that says what the columns of the results are.
pub open spec fn columns_line() -> Seq<char> {
    centered("name"@, 20) + " | "@ + centered("total"@, 14) + " | "@ + centered("average"@, 14)
        + " | "@ + centered("median"@, 14) + " | "@ + centered("std.dev."@, 14)
}

/// What is printed ahead of the results: what there is to say of the parameters, all of it the
/// `first` time and later only of those that vary, and the names of the columns. `single[i]`
/// says that parameter `i` has one value only.
pub open spec fn heading(first: bool, single: Seq<bool>, parameters: MutexParameters) -> Seq<
    Seq<char>,
> {
    line_if(first || !single[0], tasks_line(parameters.num_tasks)) + line_if(
        first || !single[1] || !single[2],
        work_line(parameters.work_per_critical_section, parameters.work_between_critical_sections),
    ) + line_if(first || !single[3], seconds_line(parameters.seconds_per_test)) + seq![
        columns_line(),
    ]
}

/// The locks that are tried, in order, on a system of the given family.
pub open spec fn locks(windows: bool, unix: bool) -> Seq<MutexKind> {
    seq![
        MutexKind::Tokio,
        MutexKind::Posh,
        MutexKind::AsyncStd,
        MutexKind::ParkingLot,
        MutexKind::Std,
    ] + (if windows {
        seq![MutexKind::SrwLock]
    } else {
        Seq::empty()
    }) + (if unix {
        seq![MutexKind::PthreadMutex]
    } else {
        Seq::empty()
    })
}

/// Decides what is to be done for one combination of parameters: nothing where there is no task.
///
/// `first` says that nothing was done yet for any other combination. `single[i]` says that
/// parameter `i`, in the order of the fields of [`MutexParameters`], has one value only.
pub fn run_all(
    single: &Vec<bool>,
    first: &mut bool,
    parameters: MutexParameters,
    windows: bool,
    unix: bool,
) -> (run: Option<MutexRun>)
    requires
        parameters.has_tasks() && !*old(first) ==> single@.len() >= 4,
    ensures
        *final(first) == first_after(*old(first), parameters.has_tasks()),
        run is Some <==> parameters.num_tasks > 0,
        run matches Some(run) ==> {
            &&& texts(run.heading@) == heading(*old(first), single@, parameters)
            &&& run.heading@.len() == texts(run.heading@).len()
            &&& forall|i: int|
                0 <= i < run.heading@.len() ==> texts(run.heading@)[i]
                    == #[trigger] run.heading@[i]@
            &&& run.pool_size == parameters.num_tasks
            &&& run.locks@ == locks(windows, unix)
            &&& texts(run.heading@).contains(tasks_line(parameters.num_tasks)) <==> *old(first)
                || !single@[0]
            &&& texts(run.heading@).contains(
                work_line(
                    parameters.work_per_critical_section,
                    parameters.work_between_critical_sections,
                ),
            ) <==> *old(first) || !single@[1] || !single@[2]
            &&& texts(run.heading@).contains(seconds_line(parameters.seconds_per_test)) <==> *old(
                first,
            ) || !single@[3]
            &&& run.locks@.contains(MutexKind::SrwLock) <==> windows
            &&& run.locks@.contains(MutexKind::PthreadMutex) <==> unix
        },
{
    if parameters.num_tasks == 0 {
        return None;
    }
    let all = *first;
    let mut lines: Vec<String> = Vec::new();
    assert(texts(lines@) =~= Seq::<Seq<char>>::empty());
    if all || !single[0] {
        push_tasks_line(&mut lines, parameters.num_tasks);
    }
    if all || !single[1] || !single[2] {
        push_work_line(
            &mut lines,
            parameters.work_per_critical_section,
            parameters.work_between_critical_sections,
        );
    }
    if all || !single[3] {
        push_seconds_line(&mut lines, parameters.seconds_per_test);
    }
    *first = false;
    push_columns_line(&mut lines);
    assert(texts(lines@) =~= heading(*old(first), single@, parameters));
    proof {
        law_each_lock_is_tried_where_it_exists(windows, unix);
        law_heading_announces_just_what_varies(*old(first), single@, parameters);
    }
    Some(
        MutexRun {
            heading: lines,
            pool_size: parameters.num_tasks,
            locks: locks_in_order(windows, unix),
        },
    )
}

fn locks_in_order(windows: bool, unix: bool) -> (order: Vec<MutexKind>)
    ensures
        order@ == locks(windows, unix),
{
    let mut order: Vec<MutexKind> = vec![
        MutexKind::Tokio,
        MutexKind::Posh,
        MutexKind::AsyncStd,
        MutexKind::ParkingLot,
        MutexKind::Std,
    ];
    if windows {
        order.push(MutexKind::SrwLock);
    }
    if unix {
        order.push(MutexKind::PthreadMutex);
    }
    assert(order@ =~= locks(windows, unix));
    order
}

fn push_tasks_line(lines: &mut Vec<String>, num_tasks: usize)
    ensures
        texts(final(lines)@) == texts(old(lines)@).push(tasks_line(num_tasks)),
{
    let mut line = String::new();
    line.append("- Running with ");
    append_decimal(&mut line, num_tasks);
    line.append(" tasks");
    assert(line@ =~= tasks_line(num_tasks));
    push_line(lines, line);
}

fn push_columns_line(lines: &mut Vec<String>)
    ensures
        texts(final(lines)@) == texts(old(lines)@).push(columns_line()),
{
    let mut line = String::new();
    append_centered(&mut line, "name", 20);
    line.append(" | ");
    append_centered(&mut line, "total", 14);
    line.append(" | ");
    append_centered(&mut line, "average", 14);
    line.append(" | ");
    append_centered(&mut line, "median", 14);
    line.append(" | ");
    append_centered(&mut line, "std.dev.", 14);
    assert(line@ =~= columns_line());
    push_line(lines, line);
}

/// Where no parameter varies, only the names of the columns are printed after the first time.
pub proof fn law_later_headings_leave_out_what_does_not_vary(
    single: Seq<bool>,
    parameters: MutexParameters,
)
    requires
        single.len() >= 4,
        forall|i: int| 0 <= i < 4 ==> #[trigger] single[i],
    ensures
        heading(false, single, parameters) == seq![columns_line()],
{
    assert(heading(false, single, parameters) =~= seq![columns_line()]);
}

/// The portable locks come first, in their order, on every system; the slim reader/writer lock of
/// Windows is tried if and only if the system is a Windows, and the lock of POSIX threads if and
/// only if it is a unix, whatever else it is; and no lock is tried twice.
pub proof fn law_each_lock_is_tried_where_it_exists(windows: bool, unix: bool)
    ensures
        locks(windows, unix).len() >= 5,
        locks(windows, unix)[0] == MutexKind::Tokio,
        locks(windows, unix)[1] == MutexKind::Posh,
        locks(windows, unix)[2] == MutexKind::AsyncStd,
        locks(windows, unix)[3] == MutexKind::ParkingLot,
        locks(windows, unix)[4] == MutexKind::Std,
        locks(windows, unix).contains(MutexKind::SrwLock) <==> windows,
        locks(windows, unix).contains(MutexKind::PthreadMutex) <==> unix,
        windows && unix ==> locks(windows, unix).last() == MutexKind::PthreadMutex,
        locks(windows, unix).no_duplicates(),
{
    let order = locks(windows, unix);
    if windows {
        assert(order[5] == MutexKind::SrwLock);
    }
    if unix {
        assert(order[order.len() - 1] == MutexKind::PthreadMutex);
    }
}

/// What a system of one family adds to the locks does not depend on the other: a lock is tried on
/// a system of both families exactly when it is tried on a system of one of them.
pub proof fn law_families_add_their_locks_independently(lock: MutexKind)
    ensures
        locks(true, true).contains(lock) <==> locks(true, false).contains(lock) || locks(
            false,
            true,
        ).contains(lock),
        locks(false, false).contains(lock) <==> locks(true, false).contains(lock) && locks(
            false,
            true,
        ).contains(lock),
{
    let portable = locks(false, false);
    assert(locks(true, false) =~= portable.push(MutexKind::SrwLock));
    assert(locks(false, true) =~= portable.push(MutexKind::PthreadMutex));
    assert(locks(true, true) =~= portable.push(MutexKind::SrwLock).push(MutexKind::PthreadMutex));
    assert forall|added: MutexKind| #[trigger]
        portable.push(added).contains(lock) <==> portable.contains(lock) || lock == added by {
        lemma_push_contains(portable, added, lock);
    }
    lemma_push_contains(portable.push(MutexKind::SrwLock), MutexKind::PthreadMutex, lock);
}

proof fn lemma_push_contains(order: Seq<MutexKind>, added: MutexKind, lock: MutexKind)
    ensures
        order.push(added).contains(lock) <==> order.contains(lock) || lock == added,
{
    if order.contains(lock) {
        let i = choose|i: int| 0 <= i < order.len() && order[i] == lock;
        assert(order.push(added)[i] == lock);
    }
    if lock == added {
        assert(order.push(added)[order.len() as int] == lock);
    }
}

/// Something is done for a combination if and only if it has a task.
pub proof fn law_has_tasks_iff_there_is_one(parameters: MutexParameters)
    ensures
        parameters.has_tasks() <==> parameters.num_tasks != 0,
{
}

/// The line on the tasks says how many there are, and nothing else varies in it; so no two
/// numbers are announced alike.
pub proof fn law_tasks_line_tells_the_tasks(num_tasks: usize, other: usize)
    ensures
        ("- Running with "@ + decimal(num_tasks as nat)).is_prefix_of(tasks_line(num_tasks)),
        " tasks"@.is_suffix_of(tasks_line(num_tasks)),
        tasks_line(num_tasks).len() == decimal(num_tasks as nat).len() + 21,
        tasks_line(num_tasks).last() == 's',
        tasks_line(num_tasks) == tasks_line(other) <==> num_tasks == other,
{
    reveal_strlit("- Running with ");
    reveal_strlit(" tasks");
    law_decimal_reads_back(num_tasks as nat);
    law_decimal_reads_back(other as nat);
    let start = "- Running with "@;
    let end = " tasks"@;
    assert(tasks_line(num_tasks) =~= start + (decimal(num_tasks as nat) + end));
    assert(tasks_line(other) =~= start + (decimal(other as nat) + end));
    if tasks_line(num_tasks) == tasks_line(other) {
        lemma_same_front(
            start,
            decimal(num_tasks as nat) + end,
            start,
            decimal(other as nat) + end,
        );
        lemma_digits_end(decimal(num_tasks as nat), end, decimal(other as nat), end);
        lemma_decimal_injective(num_tasks as nat, other as nat);
    }
}

/// Each line of a heading depends on the parameters that it speaks of only: it is there the first
/// time, and whenever one of those varies, whatever else varies; and otherwise it is not. The
/// names of the columns are always there, at the end.
pub proof fn law_heading_announces_just_what_varies(
    first: bool,
    single: Seq<bool>,
    parameters: MutexParameters,
)
    ensures
        ({
            let lines = heading(first, single, parameters);
            let tasks = tasks_line(parameters.num_tasks);
            let work = work_line(
                parameters.work_per_critical_section,
                parameters.work_between_critical_sections,
            );
            let seconds = seconds_line(parameters.seconds_per_test);
            &&& first ==> lines == seq![tasks, work, seconds, columns_line()]
            &&& lines.contains(tasks) <==> first || !single[0]
            &&& lines.contains(work) <==> first || !single[1] || !single[2]
            &&& lines.contains(seconds) <==> first || !single[3]
            &&& lines.last() == columns_line()
            &&& lines.no_duplicates()
            &&& forall|i: int|
                0 <= i < lines.len() ==> (#[trigger] lines[i] == tasks || lines[i] == work
                    || lines[i] == seconds || lines[i] == columns_line())
            &&& forall|i: int|
                0 <= i < lines.len() && #[trigger] lines[i] == tasks ==> i == 0
            &&& forall|i: int|
                0 <= i < lines.len() && #[trigger] lines[i] == seconds ==> i == lines.len() - 2
        }),
{
    let lines = heading(first, single, parameters);
    let tasks = tasks_line(parameters.num_tasks);
    let work = work_line(
        parameters.work_per_critical_section,
        parameters.work_between_critical_sections,
    );
    let seconds = seconds_line(parameters.seconds_per_test);
    lemma_ends_of_lines(parameters);
    assert(first ==> lines =~= seq![tasks, work, seconds, columns_line()]);
    let tasks_shown = first || !single[0];
    let work_shown = first || !single[1] || !single[2];
    let seconds_shown = first || !single[3];
    if tasks_shown {
        assert(lines[0] == tasks);
    }
    if work_shown {
        assert(lines[if tasks_shown {
            1
        } else {
            0int
        }] == work);
    }
    if seconds_shown {
        assert(lines[lines.len() - 2] == seconds);
    }
    assert(lines[lines.len() - 1] == columns_line());
}

/// The four lines end in four different characters, and so are never mistaken for each other.
proof fn lemma_ends_of_lines(parameters: MutexParameters)
    ensures
        tasks_line(parameters.num_tasks).last() == 's',
        work_line(
            parameters.work_per_critical_section,
            parameters.work_between_critical_sections,
        ).last() == 'k',
        seconds_line(parameters.seconds_per_test).last() == 't',
        columns_line().last() == ' ',
{
    law_tasks_line_tells_the_tasks(parameters.num_tasks, 0);
    law_work_line_tells_the_work(
        parameters.work_per_critical_section,
        parameters.work_between_critical_sections,
        0,
        0,
    );
    law_seconds_line_tells_the_seconds(parameters.seconds_per_test, 0);
    reveal_strlit("std.dev.");
    law_centered_text_is_in_the_middle("std.dev."@, 14);
    let end = centered("std.dev."@, 14);
    assert(end[13] == ' ');
    assert(columns_line().last() == end[13]);
}

/// Two combinations that differ in a parameter which varies, or which are both announced in full,
/// are told apart by their headings: from a heading one can read off every parameter that it
/// speaks of.
pub proof fn law_headings_tell_combinations_apart(
    first: bool,
    single: Seq<bool>,
    a: MutexParameters,
    b: MutexParameters,
)
    requires
        heading(first, single, a) == heading(first, single, b),
    ensures
        first || !single[0] ==> a.num_tasks == b.num_tasks,
        first || !single[1] || !single[2] ==> a.work_per_critical_section
            == b.work_per_critical_section && a.work_between_critical_sections
            == b.work_between_critical_sections,
        first || !single[3] ==> a.seconds_per_test == b.seconds_per_test,
{
    let tasks_shown = first || !single[0];
    let lines = heading(first, single, a);
    law_tasks_line_tells_the_tasks(a.num_tasks, b.num_tasks);
    law_work_line_tells_the_work(
        a.work_per_critical_section,
        a.work_between_critical_sections,
        b.work_per_critical_section,
        b.work_between_critical_sections,
    );
    law_seconds_line_tells_the_seconds(a.seconds_per_test, b.seconds_per_test);
    if tasks_shown {
        assert(lines[0] == tasks_line(a.num_tasks));
        assert(heading(first, single, b)[0] == tasks_line(b.num_tasks));
    }
    if first || !single[1] || !single[2] {
        let at = if tasks_shown {
            1
        } else {
            0int
        };
        assert(lines[at] == work_line(
            a.work_per_critical_section,
            a.work_between_critical_sections,
        ));
        assert(heading(first, single, b)[at] == work_line(
            b.work_per_critical_section,
            b.work_between_critical_sections,
        ));
    }
    if first || !single[3] {
        assert(lines[lines.len() - 2] == seconds_line(a.seconds_per_test));
        assert(heading(first, single, b)[lines.len() - 2] == seconds_line(b.seconds_per_test));
    }
}

} // verus!

use posh::bench::{
    barrier::{Arrival, Barrier},
    heading::{push_line, push_seconds_line, push_work_line},
    mutex::{self, MutexKind, MutexParameters},
    rwlock::{self, RwLockKind, RwLockParameters},
    samples::{ReadWriteSamples, Samples},
    sweep::{combinations, single},
    task::{Task, TaskAction, TaskEvent},
    text::{append_centered, append_decimal, append_spaces},
};

#[test]
fn barrier_opens_at_the_last_arrival() {
    let mut barrier = Barrier::new(3);
    assert!(barrier.is_closed());
    assert_eq!(barrier.arrive(), Arrival::Wait);
    assert_eq!(barrier.arrive(), Arrival::Wait);
    assert!(barrier.is_closed());
    assert_eq!(barrier.arrive(), Arrival::NotifyAll);
    assert!(!barrier.is_closed());
}

#[test]
fn task_that_looks_too_early_looks_again_when_notified() {
    let mut barrier = Barrier::new(2);
    assert_eq!(barrier.arrive(), Arrival::Wait);
    let mut asleep = barrier.is_closed();
    assert!(asleep);
    if barrier.arrive() == Arrival::NotifyAll {
        asleep = barrier.is_closed();
    }
    assert!(!asleep);
}

#[test]
fn barrier_for_one_task_is_opened_by_it() {
    let mut barrier = Barrier::new(1);
    assert_eq!(barrier.arrive(), Arrival::NotifyAll);
    assert!(!barrier.is_closed());
}

#[test]
fn task_reports_completed_rounds() {
    let mut task = Task::new(5, 9);
    assert_eq!(task.step(TaskEvent::Started), TaskAction::Look);
    for done in 0..3 {
        assert_eq!(task.iterations(), done);
        assert_eq!(
            task.step(TaskEvent::KeepGoing(true)),
            TaskAction::WorkInside(5)
        );
        assert_eq!(
            task.step(TaskEvent::WorkedInside),
            TaskAction::WorkOutside(9)
        );
        assert_eq!(task.step(TaskEvent::WorkedOutside), TaskAction::Look);
    }
    assert_eq!(
        task.step(TaskEvent::KeepGoing(false)),
        TaskAction::Report(3)
    );
}

#[test]
fn task_that_never_runs_reports_nothing_done() {
    let mut task = Task::new(1, 1);
    task.step(TaskEvent::Started);
    assert_eq!(
        task.step(TaskEvent::KeepGoing(false)),
        TaskAction::Report(0)
    );
}

#[test]
fn samples_keep_the_order_of_runs() {
    let mut samples = Samples::new(3);
    for run in [vec![5, 1], vec![], vec![3]] {
        assert!(samples.awaits_run());
        samples.add_run(&run);
    }
    assert!(!samples.awaits_run());
    assert_eq!(samples.counts(), &vec![5, 1, 3]);
}

#[test]
fn no_runs_leave_no_counts() {
    let samples = Samples::new(0);
    assert!(!samples.awaits_run());
    assert!(samples.counts().is_empty());
    assert!(!ReadWriteSamples::new(0).awaits_run());
}

#[test]
fn writers_and_readers_are_kept_apart() {
    let mut samples = ReadWriteSamples::new(2);
    assert!(samples.awaits_run());
    samples.add_run(&vec![4, 2], &vec![9]);
    assert!(samples.awaits_run());
    samples.add_run(&vec![1], &vec![]);
    assert!(!samples.awaits_run());
    assert_eq!(samples.writers(), &vec![4, 2, 1]);
    assert_eq!(samples.readers(), &vec![9]);
}

#[test]
fn median_of_unordered_counts() {
    let mut samples = Samples::new(3);
    samples.add_run(&vec![9, 2, 7]);
    assert_eq!(samples.median(), 7);
    samples.add_run(&vec![1]);
    assert_eq!(samples.median(), 7);
    samples.add_run(&vec![0, 0]);
    assert_eq!(samples.median(), 2);
    assert_eq!(samples.counts(), &vec![9, 2, 7, 1, 0, 0]);
}

#[test]
fn median_of_one_count() {
    let mut samples = Samples::new(1);
    samples.add_run(&vec![4]);
    assert_eq!(samples.median(), 4);
}

#[test]
fn median_ignores_order() {
    let mut forwards = Samples::new(1);
    forwards.add_run(&vec![8, 3, 5, 3]);
    let mut backwards = Samples::new(1);
    backwards.add_run(&vec![3, 5, 3, 8]);
    assert_eq!(forwards.median(), backwards.median());
    assert_eq!(forwards.median(), 5);
}

#[test]
fn last_parameter_varies_fastest() {
    assert_eq!(
        combinations(&vec![vec![1, 2], vec![7], vec![3, 4]]),
        vec![vec![1, 7, 3], vec![1, 7, 4], vec![2, 7, 3], vec![2, 7, 4]]
    );
}

#[test]
fn parameter_without_values_leaves_no_combination() {
    assert!(combinations(&vec![vec![1, 2], vec![], vec![3]]).is_empty());
    assert_eq!(combinations(&vec![]), vec![Vec::<usize>::new()]);
}

#[test]
fn parameter_with_one_value_is_single() {
    assert_eq!(
        single(&vec![vec![5], vec![], vec![1, 2], vec![0]]),
        vec![true, false, false, true]
    );
    assert!(single(&vec![]).is_empty());
}

#[test]
fn numbers_are_written_as_rust_writes_them() {
    for number in [0usize, 7, 10, 99, 100, 1234567890, usize::MAX] {
        let mut line = String::from("n=");
        append_decimal(&mut line, number);
        assert_eq!(line, format!("n={}", number));
    }
}

#[test]
fn text_is_centered_as_rust_centers_it() {
    for text in ["", "a", "name", "std.dev.", "longer than fourteen"] {
        let mut line = String::from("|");
        append_centered(&mut line, text, 14);
        assert_eq!(line, format!("|{:^14}", text));
    }
    let mut line = String::new();
    append_spaces(&mut line, 3);
    assert_eq!(line, "   ");
}

#[test]
fn shared_lines() {
    let mut lines = Vec::new();
    push_work_line(&mut lines, 12, 0);
    push_seconds_line(&mut lines, 30);
    push_line(&mut lines, String::from("end"));
    assert_eq!(
        lines,
        vec![
            "- 12 iterations inside lock, 0 iterations outside lock",
            "- 30 seconds per test",
            "end"
        ]
    );
}

fn mutex_parameters(num_tasks: usize) -> MutexParameters {
    MutexParameters {
        num_tasks,
        work_per_critical_section: 1,
        work_between_critical_sections: 20,
        seconds_per_test: 3,
        test_iterations: 4,
    }
}

#[test]
fn mutex_run_prints_everything_the_first_time() {
    let mut first = true;
    let single = vec![true, true, true, true, true];
    let run = mutex::run_all(&single, &mut first, mutex_parameters(16), false, true).unwrap();
    assert!(!first);
    assert_eq!(run.pool_size, 16);
    assert_eq!(
        run.heading,
        vec![
            String::from("- Running with 16 tasks"),
            String::from("- 1 iterations inside lock, 20 iterations outside lock"),
            String::from("- 3 seconds per test"),
            format!(
                "{:^20} | {:^14} | {:^14} | {:^14} | {:^14}",
                "name", "total", "average", "median", "std.dev."
            ),
        ]
    );
    let later = mutex::run_all(&single, &mut first, mutex_parameters(16), false, true).unwrap();
    assert_eq!(later.heading.len(), 1);
    assert!(!first);
}

#[test]
fn mutex_run_prints_what_varies() {
    for (varying, line) in [
        (0, "- Running with 16 tasks"),
        (1, "- 1 iterations inside lock, 20 iterations outside lock"),
        (2, "- 1 iterations inside lock, 20 iterations outside lock"),
        (3, "- 3 seconds per test"),
    ] {
        let mut single = vec![true; 5];
        single[varying] = false;
        let mut first = false;
        let run = mutex::run_all(&single, &mut first, mutex_parameters(16), false, false).unwrap();
        assert_eq!(run.heading.len(), 2);
        assert_eq!(run.heading[0], line);
    }
}

#[test]
fn mutex_run_without_tasks_is_skipped() {
    let mut first = true;
    assert!(mutex::run_all(&vec![], &mut first, mutex_parameters(0), true, true).is_none());
    assert!(first);
    assert!(mutex::run_all(&vec![], &mut first, mutex_parameters(1), true, true).is_some());
    assert!(!first);
}

#[test]
fn mutex_locks_and_their_names() {
    let mut first = true;
    let run = mutex::run_all(&vec![], &mut first, mutex_parameters(1), true, true).unwrap();
    let names: Vec<&str> = run.locks.iter().map(MutexKind::name).collect();
    assert_eq!(
        names,
        vec![
            "tokio::Mutex",
            "posh::Mutex",
            "async_std::Mutex",
            "parking_lot::Mutex",
            "std::sync::Mutex",
            "winapi_srwlock",
            "pthread_mutex_t"
        ]
    );
    let mut first = true;
    let run = mutex::run_all(&vec![], &mut first, mutex_parameters(1), false, false).unwrap();
    assert_eq!(run.locks.len(), 5);
}

fn rwlock_parameters(num_writer_tasks: usize, num_reader_tasks: usize) -> RwLockParameters {
    RwLockParameters {
        num_writer_tasks,
        num_reader_tasks,
        work_per_critical_section: 1,
        work_between_critical_sections: 20,
        seconds_per_test: 3,
        test_iterations: 4,
    }
}

#[test]
fn rwlock_run_prints_everything_the_first_time() {
    let mut first = true;
    let single = vec![true; 6];
    let run = rwlock::run_all(&single, &mut first, rwlock_parameters(2, 0), true).unwrap();
    assert!(!first);
    assert_eq!(
        run.heading,
        vec![
            "- Running with 2 writer tasks and 0 reader tasks",
            "- 1 iterations inside lock, 20 iterations outside lock",
            "- 3 seconds per test",
        ]
    );
    let later = rwlock::run_all(&single, &mut first, rwlock_parameters(2, 0), true).unwrap();
    assert!(later.heading.is_empty());
}

#[test]
fn rwlock_run_prints_what_varies() {
    for (varying, line) in [
        (0, "- Running with 3 writer tasks and 4 reader tasks"),
        (1, "- Running with 3 writer tasks and 4 reader tasks"),
        (2, "- 1 iterations inside lock, 20 iterations outside lock"),
        (3, "- 1 iterations inside lock, 20 iterations outside lock"),
        (4, "- 3 seconds per test"),
    ] {
        let mut single = vec![true; 6];
        single[varying] = false;
        let mut first = false;
        let run = rwlock::run_all(&single, &mut first, rwlock_parameters(3, 4), true).unwrap();
        assert_eq!(run.heading, vec![line]);
    }
}

#[test]
fn rwlock_run_without_tasks_is_skipped() {
    let mut first = true;
    assert!(rwlock::run_all(&vec![], &mut first, rwlock_parameters(0, 0), true).is_none());
    assert!(first);
    assert!(rwlock::run_all(&vec![], &mut first, rwlock_parameters(0, 1), true).is_some());
}

#[test]
fn rwlock_locks_and_their_names() {
    let mut first = true;
    let run = rwlock::run_all(&vec![], &mut first, rwlock_parameters(1, 1), true).unwrap();
    let names: Vec<&str> = run.locks.iter().map(RwLockKind::name).collect();
    assert_eq!(
        names,
        vec![
            "parking_lot::RwLock",
            "posh::Mutex",
            "seqlock::SeqLock",
            "std::sync::RwLock",
            "pthread_rwlock_t"
        ]
    );
    let mut first = true;
    let run = rwlock::run_all(&vec![], &mut first, rwlock_parameters(1, 1), false).unwrap();
    assert_eq!(run.locks.len(), 4);
}

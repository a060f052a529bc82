use stockrs::guide::cancel_task::{
    many_to_many, one_off, race, step, watch_it_recent, watch_race, Outcome, TaskAction,
    TaskEvent, TaskState, Worker,
};
use stockrs::guide::signal::{Broadcast, OneShot, Watch};

#[test]
fn one_off_cancelled_before_completion() {
    assert_eq!(one_off(true), vec!["Task is cancelling...", "Task is cleaning up"]);
}

#[test]
fn one_off_completes_without_signal() {
    assert_eq!(one_off(false), vec!["Task completed normally", "Task is cleaning up"]);
}

#[test]
fn broadcast_cancels_every_task() {
    let (first, second) = many_to_many(true);
    assert_eq!(first, vec!["Task 1 is cancelling...", "Task 1 is cleaning up"]);
    assert_eq!(second, vec!["Task 2 is cancelling...", "Task 2 is cleaning up"]);
    let (first, second) = many_to_many(false);
    assert_eq!(first, vec!["Task 1 completed normally", "Task 1 is cleaning up"]);
    assert_eq!(second, vec!["Task 2 completed normally", "Task 2 is cleaning up"]);
}

#[test]
fn late_watcher_misses_the_cancel() {
    let (first, second) = watch_it_recent(true);
    assert_eq!(first, vec!["Task 1 is cancelling...", "Task 1 is cleaning up"]);
    assert_eq!(second, vec!["Task 2 completed normally", "Task 2 is cleaning up"]);
}

#[test]
fn early_watchers_are_both_cancelled() {
    let (first, second) = watch_it_recent(false);
    assert_eq!(first, vec!["Task 1 is cancelling...", "Task 1 is cleaning up"]);
    assert_eq!(second, vec!["Task 2 is cancelling...", "Task 2 is cleaning up"]);
}

#[test]
fn every_transition_of_a_task() {
    let running = TaskState::Running;
    let cleaning = TaskState::CleaningUp;
    let ended = TaskState::Terminated;
    let cancel = TaskAction::CleanUp(Outcome::Cancelled);
    let complete = TaskAction::CleanUp(Outcome::Completed);
    assert_eq!(step(running, TaskEvent::Cancelled), (cleaning, cancel));
    assert_eq!(step(running, TaskEvent::Completed), (cleaning, complete));
    assert_eq!(step(running, TaskEvent::Changed(true)), (cleaning, cancel));
    assert_eq!(step(running, TaskEvent::Changed(false)), (running, TaskAction::KeepWaiting));
    assert_eq!(step(running, TaskEvent::CleanedUp), (running, TaskAction::Ignore));
    assert_eq!(step(cleaning, TaskEvent::CleanedUp), (ended, TaskAction::Finish));
    assert_eq!(step(cleaning, TaskEvent::Cancelled), (cleaning, TaskAction::Ignore));
    assert_eq!(step(cleaning, TaskEvent::Completed), (cleaning, TaskAction::Ignore));
    assert_eq!(step(cleaning, TaskEvent::Changed(true)), (cleaning, TaskAction::Ignore));
    assert_eq!(step(ended, TaskEvent::Cancelled), (ended, TaskAction::Ignore));
    assert_eq!(step(ended, TaskEvent::CleanedUp), (ended, TaskAction::Ignore));
    assert_eq!(step(ended, TaskEvent::Completed), (ended, TaskAction::Ignore));
}

#[test]
fn cleanup_runs_exactly_once_whatever_follows() {
    let mut worker = Worker::new("Task");
    let events = [
        TaskEvent::Cancelled,
        TaskEvent::Completed,
        TaskEvent::Cancelled,
        TaskEvent::Changed(true),
        TaskEvent::CleanedUp,
        TaskEvent::Cancelled,
        TaskEvent::CleanedUp,
    ];
    let mut cleanups = 0;
    let mut first = None;
    for event in events {
        let action = worker.handle(event);
        if first.is_none() {
            first = Some(action);
        }
        if let TaskAction::CleanUp(_) = action {
            cleanups += 1;
        }
    }
    assert_eq!(first, Some(TaskAction::CleanUp(Outcome::Cancelled)));
    assert_eq!(cleanups, 1);
    assert_eq!(worker.state(), TaskState::Terminated);
}

#[test]
fn worker_says_nothing_for_other_actions() {
    let worker = Worker::new("W");
    assert!(worker.lines(TaskAction::Ignore).is_empty());
    assert!(worker.lines(TaskAction::KeepWaiting).is_empty());
    assert!(worker.lines(TaskAction::Finish).is_empty());
    assert_eq!(
        worker.lines(TaskAction::CleanUp(Outcome::Completed)),
        vec!["W completed normally", "W is cleaning up"]
    );
}

#[test]
fn races() {
    assert_eq!(race(Some(())), TaskEvent::Cancelled);
    assert_eq!(race(None), TaskEvent::Completed);
    assert_eq!(watch_race(Some(true)), TaskEvent::Changed(true));
    assert_eq!(watch_race(Some(false)), TaskEvent::Changed(false));
    assert_eq!(watch_race(None), TaskEvent::Completed);
}

#[test]
fn watcher_keeps_waiting_on_a_change_to_false() {
    let mut signal = Watch::channel(false);
    let mut rx = signal.subscribe();
    let mut worker = Worker::new("Task");
    signal.send(false);
    let event = watch_race(rx.changed(&signal));
    assert_eq!(worker.handle(event), TaskAction::KeepWaiting);
    assert_eq!(worker.state(), TaskState::Running);
    signal.send(true);
    let event = watch_race(rx.changed(&signal));
    assert_eq!(worker.handle(event), TaskAction::CleanUp(Outcome::Cancelled));
}

#[test]
fn one_shot_fires_once() {
    let mut signal = OneShot::new();
    assert_eq!(signal.try_recv(), None);
    assert!(signal.send());
    assert!(!signal.send());
    assert_eq!(signal.try_recv(), Some(()));
    assert_eq!(signal.try_recv(), None);
    assert!(!signal.send());
    assert_eq!(signal.try_recv(), None);
}

#[test]
fn broadcast_reaches_each_subscriber_once() {
    let mut signal = Broadcast::new();
    signal.send(1);
    let mut early = signal.subscribe();
    signal.send(2);
    let mut late = signal.subscribe();
    signal.send(3);
    assert_eq!(early.try_recv(&signal), Some(2));
    assert_eq!(early.try_recv(&signal), Some(3));
    assert_eq!(early.try_recv(&signal), None);
    assert_eq!(late.try_recv(&signal), Some(3));
    assert_eq!(late.try_recv(&signal), None);
    signal.send(4);
    assert_eq!(early.try_recv(&signal), Some(4));
    assert_eq!(late.try_recv(&signal), Some(4));
}

#[test]
fn watch_shows_only_the_latest_value() {
    let mut signal = Watch::channel(0);
    let mut early = signal.subscribe();
    assert_eq!(early.changed(&signal), None);
    assert!(signal.can_send());
    signal.send(1);
    signal.send(2);
    let mut late = signal.subscribe();
    assert_eq!(early.changed(&signal), Some(2));
    assert_eq!(early.changed(&signal), None);
    assert_eq!(late.changed(&signal), None);
    assert_eq!(signal.borrow(), 2);
    signal.send(3);
    assert_eq!(late.changed(&signal), Some(3));
}

//! A task that runs until it is told to stop or its own work is done, and
//! cleans up either way.
//!
//! The task waits for two things at once, the cancel signal and the end of
//! its work; whichever comes first decides how it ends. Waiting is the
//! caller's part. This module decides what each event means: the next state
//! of the task and what the task does.

use vstd::prelude::*;
use crate::guide::signal::{Broadcast, OneShot, Watch};

verus! {

/// Where a task stands.
#[derive(Clone, Copy, Debug, PartialEq, Eq, Structural)]
pub enum TaskState {
    Running,
    CleaningUp,
    Terminated,
}

/// What can happen to a task.
#[derive(Clone, Copy, Debug, PartialEq, Eq, Structural)]
pub enum TaskEvent {
    /// The cancel signal arrived.
    Cancelled,
    /// The watched value was changed and is now this.
    Changed(bool),
    /// The task's own work came to its end.
    Completed,
    /// The cleanup is done.
    CleanedUp,
}

/// How a running task came to its end.
#[derive(Clone, Copy, Debug, PartialEq, Eq, Structural)]
pub enum Outcome {
    Cancelled,
    Completed,
}

/// What a task does in answer to an event.
#[derive(Clone, Copy, Debug, PartialEq, Eq, Structural)]
pub enum TaskAction {
    /// Nothing: the event does not concern the task in its state.
    Ignore,
    /// Go on waiting for the cancel signal and the end of the work.
    KeepWaiting,
    /// Stop waiting, say how the task ended, and clean up.
    CleanUp(Outcome),
    /// End.
    Finish,
}

/// The state after `event` happened in `state`.
pub open spec fn next_state(state: TaskState, event: TaskEvent) -> TaskState {
    match (state, event) {
        (TaskState::Running, TaskEvent::Cancelled) => TaskState::CleaningUp,
        (TaskState::Running, TaskEvent::Completed) => TaskState::CleaningUp,
        (TaskState::Running, TaskEvent::Changed(true)) => TaskState::CleaningUp,
        (TaskState::CleaningUp, TaskEvent::CleanedUp) => TaskState::Terminated,
        _ => state,
    }
}

/// What the task does when `event` happens in `state`.
pub open spec fn action_for(state: TaskState, event: TaskEvent) -> TaskAction {
    match (state, event) {
        (TaskState::Running, TaskEvent::Cancelled) => TaskAction::CleanUp(Outcome::Cancelled),
        (TaskState::Running, TaskEvent::Completed) => TaskAction::CleanUp(Outcome::Completed),
        (TaskState::Running, TaskEvent::Changed(true)) => TaskAction::CleanUp(Outcome::Cancelled),
        (TaskState::Running, TaskEvent::Changed(false)) => TaskAction::KeepWaiting,
        (TaskState::CleaningUp, TaskEvent::CleanedUp) => TaskAction::Finish,
        _ => TaskAction::Ignore,
    }
}

/// One step of a task: the state after `event`, and what the task does.
pub fn step(state: TaskState, event: TaskEvent) -> (next: (TaskState, TaskAction))
    ensures
        next.0 == next_state(state, event),
        next.1 == action_for(state, event),
{
    match state {
        TaskState::Running => match event {
            TaskEvent::Cancelled => (TaskState::CleaningUp, TaskAction::CleanUp(Outcome::Cancelled)),
            TaskEvent::Completed => (TaskState::CleaningUp, TaskAction::CleanUp(Outcome::Completed)),
            TaskEvent::Changed(stop) => {
                if stop {
                    (TaskState::CleaningUp, TaskAction::CleanUp(Outcome::Cancelled))
                } else {
                    (TaskState::Running, TaskAction::KeepWaiting)
                }
            },
            TaskEvent::CleanedUp => (TaskState::Running, TaskAction::Ignore),
        },
        TaskState::CleaningUp => match event {
            TaskEvent::CleanedUp => (TaskState::Terminated, TaskAction::Finish),
            _ => (TaskState::CleaningUp, TaskAction::Ignore),
        },
        TaskState::Terminated => (TaskState::Terminated, TaskAction::Ignore),
    }
}

/// The state after the events of `events` happened in order, from `state`.
pub open spec fn state_after(state: TaskState, events: Seq<TaskEvent>) -> TaskState
    decreases events.len(),
{
    if events.len() == 0 {
        state
    } else {
        next_state(state_after(state, events.drop_last()), events.last())
    }
}

/// What the task does in answer to each event of `events`, from `state`.
pub open spec fn actions_of(state: TaskState, events: Seq<TaskEvent>) -> Seq<TaskAction>
    decreases events.len(),
{
    if events.len() == 0 {
        Seq::empty()
    } else {
        actions_of(state, events.drop_last()).push(
            action_for(state_after(state, events.drop_last()), events.last()),
        )
    }
}

/// How many of `actions` are cleanups.
pub open spec fn cleanups(actions: Seq<TaskAction>) -> nat
    decreases actions.len(),
{
    if actions.len() == 0 {
        0
    } else {
        cleanups(actions.drop_last()) + if actions.last() is CleanUp {
            1nat
        } else {
            0nat
        }
    }
}

/// A task that has left `Running` never cleans up again, and never runs again.
pub proof fn law_no_cleanup_after_running(state: TaskState, events: Seq<TaskEvent>)
    requires
        state != TaskState::Running,
    ensures
        state_after(state, events) != TaskState::Running,
        cleanups(actions_of(state, events)) == 0,
    decreases events.len(),
{
    if events.len() > 0 {
        law_no_cleanup_after_running(state, events.drop_last());
        assert(actions_of(state, events).drop_last() =~= actions_of(state, events.drop_last()));
    }
}

/// Whatever happens to a task, it cleans up once at most, and it has
/// cleaned up exactly when it is no longer running.
pub proof fn law_cleanup_at_most_once(events: Seq<TaskEvent>)
    ensures
        cleanups(actions_of(TaskState::Running, events)) == if state_after(
            TaskState::Running,
            events,
        ) == TaskState::Running {
            0nat
        } else {
            1nat
        },
    decreases events.len(),
{
    if events.len() > 0 {
        law_cleanup_at_most_once(events.drop_last());
        assert(actions_of(TaskState::Running, events).drop_last() =~= actions_of(
            TaskState::Running,
            events.drop_last(),
        ));
    }
}

/// `events` with `first` in front.
pub open spec fn led_by(first: TaskEvent, events: Seq<TaskEvent>) -> Seq<TaskEvent> {
    seq![first] + events
}

/// What a first event decides is not undone by what follows it.
proof fn lemma_first_event_decides(first: TaskEvent, rest: Seq<TaskEvent>)
    ensures
        actions_of(TaskState::Running, led_by(first, rest))[0] == action_for(
            TaskState::Running,
            first,
        ),
        actions_of(TaskState::Running, led_by(first, rest)).len() == rest.len() + 1,
        state_after(TaskState::Running, led_by(first, rest)) == state_after(
            next_state(TaskState::Running, first),
            rest,
        ),
    decreases rest.len(),
{
    let all = led_by(first, rest);
    let start = TaskState::Running;
    if rest.len() == 0 {
        let none = Seq::<TaskEvent>::empty();
        assert(all.drop_last() =~= none);
        assert(all.last() == first);
        assert(actions_of(start, none) =~= Seq::<TaskAction>::empty());
        assert(state_after(start, none) == start);
        assert(state_after(next_state(start, first), rest) == next_state(start, first));
    } else {
        let init = rest.drop_last();
        lemma_first_event_decides(first, init);
        assert(all.drop_last() =~= led_by(first, init));
        assert(all.last() == rest.last());
        assert(actions_of(start, all) == actions_of(start, led_by(first, init)).push(
            action_for(state_after(start, led_by(first, init)), rest.last()),
        ));
    }
}

/// When the cancel signal is the first thing to happen to a running task,
/// the task takes the cancelling branch, and it cleans up exactly once,
/// whatever happens afterwards: not a later end of its work, nor a second
/// signal, makes it clean up again.
pub proof fn law_cancel_first_cleans_up_once(rest: Seq<TaskEvent>)
    ensures
        actions_of(TaskState::Running, led_by(TaskEvent::Cancelled, rest))[0] == TaskAction::CleanUp(
            Outcome::Cancelled,
        ),
        cleanups(actions_of(TaskState::Running, led_by(TaskEvent::Cancelled, rest))) == 1,
        state_after(TaskState::Running, led_by(TaskEvent::Cancelled, rest)) != TaskState::Running,
{
    lemma_first_event_decides(TaskEvent::Cancelled, rest);
    law_no_cleanup_after_running(TaskState::CleaningUp, rest);
    law_cleanup_at_most_once(led_by(TaskEvent::Cancelled, rest));
}

/// When the end of its work is the first thing to happen to a running task,
/// the task completes normally, and it cleans up exactly once as well.
pub proof fn law_completion_first_cleans_up_once(rest: Seq<TaskEvent>)
    ensures
        actions_of(TaskState::Running, led_by(TaskEvent::Completed, rest))[0] == TaskAction::CleanUp(
            Outcome::Completed,
        ),
        cleanups(actions_of(TaskState::Running, led_by(TaskEvent::Completed, rest))) == 1,
{
    lemma_first_event_decides(TaskEvent::Completed, rest);
    law_no_cleanup_after_running(TaskState::CleaningUp, rest);
    law_cleanup_at_most_once(led_by(TaskEvent::Completed, rest));
}

/// The line by which the task called `label` says that it is cancelling.
pub open spec fn cancelling_text(label: Seq<char>) -> Seq<char> {
    label + " is cancelling..."@
}

/// The line by which the task called `label` says that its work is done.
pub open spec fn completed_text(label: Seq<char>) -> Seq<char> {
    label + " completed normally"@
}

/// The line by which the task called `label` says that it cleans up.
pub open spec fn cleaning_text(label: Seq<char>) -> Seq<char> {
    label + " is cleaning up"@
}

/// The lines that the task called `label` says when it does `action`: how it
/// ended and that it cleans up, for a cleanup; nothing otherwise.
pub open spec fn lines_for(label: Seq<char>, action: TaskAction) -> Seq<Seq<char>> {
    match action {
        TaskAction::CleanUp(Outcome::Cancelled) => seq![cancelling_text(label), cleaning_text(label)],
        TaskAction::CleanUp(Outcome::Completed) => seq![completed_text(label), cleaning_text(label)],
        _ => Seq::empty(),
    }
}

/// `lines` are the texts `expected`, one for one.
pub open spec fn says(lines: Seq<String>, expected: Seq<Seq<char>>) -> bool {
    &&& lines.len() == expected.len()
    &&& forall|i: int| 0 <= i < expected.len() ==> (#[trigger] lines[i])@ == expected[i]
}

/// A task with a name.
pub struct Worker {
    label: String,
    state: TaskState,
}

/// A worker as contracts see it.
pub ghost struct WorkerView {
    pub label: Seq<char>,
    pub state: TaskState,
}

impl View for Worker {
    type V = WorkerView;

    closed spec fn view(&self) -> WorkerView {
        WorkerView { label: self.label@, state: self.state }
    }
}

impl Worker {
    /// A running task called `label`.
    pub fn new(label: &str) -> (worker: Self)
        ensures
            worker@.label == label@,
            worker@.state == TaskState::Running,
    {
        Worker { label: label.to_owned(), state: TaskState::Running }
    }

    /// Where the task stands.
    pub fn state(&self) -> (state: TaskState)
        ensures
            state == self@.state,
    {
        self.state
    }

    /// Takes `event` in: moves to the next state and returns what to do.
    pub fn handle(&mut self, event: TaskEvent) -> (action: TaskAction)
        ensures
            action == action_for(old(self)@.state, event),
            final(self)@.state == next_state(old(self)@.state, event),
            final(self)@.label == old(self)@.label,
    {
        let (next, action) = step(self.state, event);
        self.state = next;
        action
    }

    /// The lines that the task says when it does `action`.
    pub fn lines(&self, action: TaskAction) -> (lines: Vec<String>)
        ensures
            says(lines@, lines_for(self@.label, action)),
    {
        let mut lines: Vec<String> = Vec::new();
        match action {
            TaskAction::CleanUp(outcome) => {
                let mut first = self.label.clone();
                match outcome {
                    Outcome::Cancelled => first.append(" is cancelling..."),
                    Outcome::Completed => first.append(" completed normally"),
                }
                let mut second = self.label.clone();
                second.append(" is cleaning up");
                lines.push(first);
                lines.push(second);
            },
            _ => {},
        }
        lines
    }

    /// Takes `event` in, cleans up if the event ends the task, and returns
    /// the lines that the task said on the way.
    pub fn run_to_end(&mut self, event: TaskEvent) -> (lines: Vec<String>)
        ensures
            says(lines@, lines_for(old(self)@.label, action_for(old(self)@.state, event))),
            final(self)@.label == old(self)@.label,
            final(self)@.state == next_state(
                next_state(old(self)@.state, event),
                TaskEvent::CleanedUp,
            ),
    {
        let action = self.handle(event);
        let lines = self.lines(action);
        self.handle(TaskEvent::CleanedUp);
        lines
    }
}

/// The event that ends the wait of a task which waits for a signal and for
/// the end of its work: the signal if it is there, else the end of the work.
pub fn race(signal: Option<()>) -> (event: TaskEvent)
    ensures
        event == if signal is Some {
            TaskEvent::Cancelled
        } else {
            TaskEvent::Completed
        },
{
    match signal {
        Some(_) => TaskEvent::Cancelled,
        None => TaskEvent::Completed,
    }
}

/// One task under a one-shot signal. With `cancel`, the signal is sent
/// before the task's work is done, and the task cancels; without, the work
/// comes to its end first. Either way the task cleans up and ends. Returns
/// what the task says.
pub fn one_off(cancel: bool) -> (lines: Vec<String>)
    ensures
        says(
            lines@,
            if cancel {
                seq![cancelling_text("Task"@), cleaning_text("Task"@)]
            } else {
                seq![completed_text("Task"@), cleaning_text("Task"@)]
            },
        ),
{
    let mut signal = OneShot::new();
    let mut task = Worker::new("Task");
    if cancel {
        signal.send();
    }
    let event = race(signal.try_recv());
    task.run_to_end(event)
}

/// Two tasks under one broadcast signal. With `cancel`, one notice is sent
/// before either task's work is done, and both tasks get it and cancel;
/// without, both complete normally. Returns what each task says.
pub fn many_to_many(cancel: bool) -> (lines: (Vec<String>, Vec<String>))
    ensures
        says(
            lines.0@,
            if cancel {
                seq![cancelling_text("Task 1"@), cleaning_text("Task 1"@)]
            } else {
                seq![completed_text("Task 1"@), cleaning_text("Task 1"@)]
            },
        ),
        says(
            lines.1@,
            if cancel {
                seq![cancelling_text("Task 2"@), cleaning_text("Task 2"@)]
            } else {
                seq![completed_text("Task 2"@), cleaning_text("Task 2"@)]
            },
        ),
{
    let mut signal: Broadcast<()> = Broadcast::new();
    let mut rx1 = signal.subscribe();
    let mut rx2 = signal.subscribe();
    let mut task1 = Worker::new("Task 1");
    let mut task2 = Worker::new("Task 2");
    if cancel {
        signal.send(());
    }
    let event1 = race(rx1.try_recv(&signal));
    let event2 = race(rx2.try_recv(&signal));
    let lines1 = task1.run_to_end(event1);
    let lines2 = task2.run_to_end(event2);
    (lines1, lines2)
}

/// The event that ends one round of the wait of a task which watches a
/// value: the change if there is one, else the end of the work.
pub fn watch_race(news: Option<bool>) -> (event: TaskEvent)
    ensures
        event == match news {
            Some(stop) => TaskEvent::Changed(stop),
            None => TaskEvent::Completed,
        },
{
    match news {
        Some(stop) => TaskEvent::Changed(stop),
        None => TaskEvent::Completed,
    }
}

/// Two tasks that watch one value, which starts as `false` and is set to
/// `true` to cancel. The first task watches from the start. The second
/// begins to watch before the value is set, or, with `late`, only after:
/// then the change is no news to it, it is not cancelled, and its work comes
/// to its end. Returns what each task says.
pub fn watch_it_recent(late: bool) -> (lines: (Vec<String>, Vec<String>))
    ensures
        says(lines.0@, seq![cancelling_text("Task 1"@), cleaning_text("Task 1"@)]),
        says(
            lines.1@,
            if late {
                seq![completed_text("Task 2"@), cleaning_text("Task 2"@)]
            } else {
                seq![cancelling_text("Task 2"@), cleaning_text("Task 2"@)]
            },
        ),
{
    let mut signal = Watch::channel(false);
    let mut rx1 = signal.subscribe();
    let mut task1 = Worker::new("Task 1");
    let mut task2 = Worker::new("Task 2");
    let mut rx2 = signal.subscribe();
    if late {
        signal.send(true);
        rx2 = signal.subscribe();
    } else {
        signal.send(true);
    }
    let event1 = watch_race(rx1.changed(&signal));
    let event2 = watch_race(rx2.changed(&signal));
    let lines1 = task1.run_to_end(event1);
    let lines2 = task2.run_to_end(event2);
    (lines1, lines2)
}

} // verus!

//! Notification that is delivered concurrently.
//!
//! The subject decides who is to be notified and each observer decides what
//! it reports; delivering the notifications side by side, and waiting until
//! all are done, is left to the caller.

use vstd::prelude::*;
use crate::guide::observer::{live, notified, others, without, Observable, Observer, ObserverId, Observers};

verus! {

/// A subject as contracts see it.
pub ghost struct SubjectView {
    pub state: Seq<char>,
    pub observers: Seq<ObserverId>,
}

/// Holds a state and the handles of the observers registered with it.
pub struct Subject {
    observer: Vec<ObserverId>,
    state: String,
}

impl View for Subject {
    type V = SubjectView;

    closed spec fn view(&self) -> SubjectView {
        SubjectView { state: self.state@, observers: self.observer@ }
    }
}

impl Subject {
    /// A subject in `state`, with no observer registered.
    pub fn new(state: &str) -> (subject: Self)
        ensures
            subject@.state == state@,
            subject@.observers == Seq::<ObserverId>::empty(),
    {
        Subject { observer: Vec::new(), state: state.to_owned() }
    }

    /// The state.
    pub fn state(&self) -> (state: &str)
        ensures
            state@ == self@.state,
    {
        self.state.as_str()
    }

    /// The observers to notify now: the registered ones that exist in
    /// `observers`, one entry for each registration. They may be notified in
    /// any order or side by side; the notification is complete when each of
    /// them has been shown this subject.
    pub fn update<O>(&self, observers: &Observers<O>) -> (due: Vec<ObserverId>)
        ensures
            due@ == notified(self@.observers, observers@.dom()),
    {
        live(&self.observer, observers)
    }
}

impl Observable for Subject {
    type Observer = ObserverId;

    closed spec fn registered(&self) -> Seq<ObserverId> {
        self.observer@
    }

    fn attach(&mut self, observer: ObserverId)
        ensures
            final(self)@.state == old(self)@.state,
            final(self)@.observers == old(self)@.observers.push(observer),
    {
        self.observer.push(observer)
    }

    fn detach(&mut self, observer: ObserverId)
        ensures
            final(self)@.state == old(self)@.state,
            final(self)@.observers == without(old(self)@.observers, observer),
    {
        let kept = others(&self.observer, observer);
        self.observer = kept;
    }
}

/// The line that an observer called `name` reports of the state `state`.
pub open spec fn observes_text(name: Seq<char>, state: Seq<char>) -> Seq<char> {
    "observer `"@ + name + "` observes subject `"@ + state + "`"@
}

/// An observer that is known by its name.
pub struct MyObserver {
    name: String,
}

impl View for MyObserver {
    type V = Seq<char>;

    /// The name.
    closed spec fn view(&self) -> Seq<char> {
        self.name@
    }
}

impl MyObserver {
    /// An observer called `name`.
    pub fn new(name: &str) -> (observer: Self)
        ensures
            observer@ == name@,
    {
        MyObserver { name: name.to_owned() }
    }
}

impl Observer for MyObserver {
    type Subject = Subject;

    open spec fn report(&self, subject: &Subject) -> Seq<char> {
        observes_text(self@, subject@.state)
    }

    fn observe(&self, subject: &Subject) -> (line: String) {
        let mut line = String::from_str("observer `");
        line.append(self.name.as_str());
        line.append("` observes subject `");
        line.append(subject.state());
        line.append("`");
        line
    }
}

} // verus!

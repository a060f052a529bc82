use stockrs::guide::asyncer;
use stockrs::guide::asyncer::MyObserver;
use stockrs::guide::observer::{
    live, observed_line, others, run, Observable, Observer, ObserverA, Observers, Subject,
};

fn lines(subject: &Subject, observers: &Observers<ObserverA>) -> Vec<String> {
    subject.update(observers).into_iter().map(|n| n.line).collect()
}

#[test]
fn every_attached_observer_is_notified_in_order() {
    let mut subject = Subject::new("some subject state");
    let mut observers = Observers::new();
    let observer1 = observers.add(ObserverA::new("observer1"));
    let observer2 = observers.add(ObserverA::new("observer2"));
    subject.attach(observer1);
    subject.attach(observer2);
    let notices = subject.update(&observers);
    assert_eq!(notices.len(), 2);
    assert_eq!(notices[0].observer, observer1);
    assert_eq!(notices[1].observer, observer2);
    assert_eq!(
        notices[0].line,
        "observed subject with state=\"some subject state\" in observer1"
    );
    assert_eq!(
        notices[1].line,
        "observed subject with state=\"some subject state\" in observer2"
    );
}

#[test]
fn detached_observer_is_not_notified() {
    let mut subject = Subject::new("s");
    let mut observers = Observers::new();
    let a = observers.add(ObserverA::new("a"));
    let b = observers.add(ObserverA::new("b"));
    subject.attach(a);
    subject.attach(b);
    subject.attach(a);
    subject.detach(a);
    assert_eq!(lines(&subject, &observers), vec!["observed subject with state=\"s\" in b"]);
}

#[test]
fn dropped_observer_is_passed_over() {
    let mut subject = Subject::new("s");
    let mut observers = Observers::new();
    let a = observers.add(ObserverA::new("a"));
    let b = observers.add(ObserverA::new("b"));
    subject.attach(a);
    subject.attach(b);
    assert!(observers.remove(b).is_some());
    assert!(observers.remove(b).is_none());
    assert_eq!(lines(&subject, &observers), vec!["observed subject with state=\"s\" in a"]);
    assert!(observers.remove(a).is_some());
    assert!(lines(&subject, &observers).is_empty());
}

#[test]
fn detach_goes_by_identity_not_by_contents() {
    let mut subject = Subject::new("s");
    let mut observers = Observers::new();
    let first = observers.add(ObserverA::new("same"));
    let second = observers.add(ObserverA::new("same"));
    assert_ne!(first, second);
    subject.attach(first);
    subject.attach(second);
    subject.detach(first);
    let notices = subject.update(&observers);
    assert_eq!(notices.len(), 1);
    assert_eq!(notices[0].observer, second);
}

#[test]
fn a_handle_is_never_given_out_again() {
    let mut observers = Observers::new();
    let a = observers.add(ObserverA::new("a"));
    observers.remove(a);
    let b = observers.add(ObserverA::new("b"));
    assert_ne!(a, b);
    assert!(observers.upgrade(a).is_none());
    assert!(observers.upgrade(b).is_some());
}

#[test]
fn state_is_quoted_as_debug_writes_it() {
    let subject = Subject::new("tab\there \"quoted\"");
    assert_eq!(subject.state(), "tab\there \"quoted\"");
    let observer = ObserverA::new("o");
    assert_eq!(
        observer.observe(&subject),
        "observed subject with state=\"tab\\there \\\"quoted\\\"\" in o"
    );
}

#[test]
fn observed_line_is_built_from_its_parts() {
    assert_eq!(observed_line("Q", "N"), "observed subject with state=Q in N");
    assert_eq!(observed_line("", ""), "observed subject with state= in ");
}

#[test]
fn others_and_live_keep_the_order() {
    let mut observers = Observers::new();
    let a = observers.add(ObserverA::new("a"));
    let b = observers.add(ObserverA::new("b"));
    let c = observers.add(ObserverA::new("c"));
    let registered = vec![a, b, a, c, b];
    assert_eq!(others(&registered, a), vec![b, c, b]);
    assert_eq!(others(&registered, c), vec![a, b, a, b]);
    observers.remove(b);
    assert_eq!(live(&registered, &observers), vec![a, a, c]);
}

#[test]
fn run_reports_two_observers() {
    let notices = run();
    let got: Vec<String> = notices.into_iter().map(|n| n.line).collect();
    assert_eq!(
        got,
        vec![
            "observed subject with state=\"some subject state\" in observer1",
            "observed subject with state=\"some subject state\" in observer2",
        ]
    );
}

#[test]
fn concurrent_update_names_the_live_observers() {
    let mut subject = asyncer::Subject::new("some subject state");
    let mut observers = Observers::new();
    let obs1 = observers.add(MyObserver::new("obs1"));
    let obs2 = observers.add(MyObserver::new("obs2"));
    let obs3 = observers.add(MyObserver::new("obs3"));
    subject.attach(obs1);
    subject.attach(obs2);
    subject.attach(obs3);
    subject.detach(obs2);
    observers.remove(obs3);
    let due = subject.update(&observers);
    assert_eq!(due, vec![obs1]);
    assert_eq!(subject.state(), "some subject state");
    let line = observers.upgrade(obs1).unwrap().observe(&subject);
    assert_eq!(line, "observer `obs1` observes subject `some subject state`");
}

//! Subjects that notify the observers registered with them.
//!
//! A subject does not own its observers. It keeps the handle of each one, and
//! at notification time looks each handle up in the table of observers that
//! still exist: an observer that is gone is passed over.

use vstd::prelude::*;

verus! {

/// The identity of one observer. A handle is given out once and never again,
/// so two observers with equal contents still have different handles.
#[derive(Clone, Copy, Debug, PartialEq, Eq, Structural)]
pub struct ObserverId {
    slot: usize,
}

/// Something that can be shown a subject and reports what it saw.
pub trait Observer {
    type Subject;

    /// The line that this observer reports when it is shown `subject`.
    spec fn report(&self, subject: &Self::Subject) -> Seq<char>;

    /// Looks at `subject` and returns the line to report.
    fn observe(&self, subject: &Self::Subject) -> (line: String)
        ensures
            line@ == self.report(subject),
    ;
}

/// Something that observers can be registered with.
pub trait Observable {
    /// What an observer is registered by.
    type Observer;

    /// The registrations, oldest first.
    spec fn registered(&self) -> Seq<Self::Observer>;

    /// Registers `observer`; this does not keep the observer in existence.
    fn attach(&mut self, observer: Self::Observer)
        ensures
            final(self).registered() == old(self).registered().push(observer),
    ;

    /// Removes every registration of `observer`, and of no other.
    fn detach(&mut self, observer: Self::Observer)
        ensures
            final(self).registered() == without(old(self).registered(), observer),
    ;
}

/// Holds of every handle but `observer`.
pub open spec fn is_other<H>(observer: H) -> spec_fn(H) -> bool {
    |other: H| other != observer
}

/// Holds of the handles in `live`.
pub open spec fn is_among(live: Set<ObserverId>) -> spec_fn(ObserverId) -> bool {
    |id: ObserverId| live.contains(id)
}

/// `registered` without the registrations of `observer`.
pub open spec fn without<H>(registered: Seq<H>, observer: H) -> Seq<H> {
    registered.filter(is_other(observer))
}

/// The registrations that are notified: those of `registered`, in order,
/// whose observer is among `live`.
pub open spec fn notified(registered: Seq<ObserverId>, live: Set<ObserverId>) -> Seq<ObserverId> {
    registered.filter(is_among(live))
}

/// The observers that exist, each under its handle.
pub struct Observers<O> {
    slots: Vec<Option<O>>,
}

impl<O> View for Observers<O> {
    type V = Map<ObserverId, O>;

    /// The observers that exist, by handle.
    closed spec fn view(&self) -> Map<ObserverId, O> {
        Map::new(
            |id: ObserverId| id.slot < self.slots@.len() && self.slots@[id.slot as int] is Some,
            |id: ObserverId| self.slots@[id.slot as int]->0,
        )
    }
}

impl<O> Observers<O> {
    /// The handles given out so far: a handle is in it from the moment it is
    /// given out, whether or not its observer still exists.
    pub closed spec fn issued(&self) -> Set<ObserverId> {
        Set::new(|id: ObserverId| id.slot < self.slots@.len())
    }

    /// A table without observers.
    pub fn new() -> (table: Self)
        ensures
            table@ == Map::<ObserverId, O>::empty(),
            table.issued() == Set::<ObserverId>::empty(),
    {
        let table = Observers { slots: Vec::new() };
        assert(table@ =~= Map::<ObserverId, O>::empty());
        assert(table.issued() =~= Set::<ObserverId>::empty());
        table
    }

    /// Brings `observer` into existence under a handle that was never given
    /// out before.
    pub fn add(&mut self, observer: O) -> (id: ObserverId)
        ensures
            !old(self).issued().contains(id),
            final(self).issued() == old(self).issued().insert(id),
            final(self)@ == old(self)@.insert(id, observer),
    {
        let id = ObserverId { slot: self.slots.len() };
        self.slots.push(Some(observer));
        assert(self.issued() =~= old(self).issued().insert(id));
        assert(self@ =~= old(self)@.insert(id, observer));
        id
    }

    /// Ends the existence of the observer under `id` and hands it back;
    /// `None` where no observer exists under `id`.
    pub fn remove(&mut self, id: ObserverId) -> (observer: Option<O>)
        ensures
            final(self).issued() == old(self).issued(),
            final(self)@ == old(self)@.remove(id),
            observer == if old(self)@.dom().contains(id) {
                Some(old(self)@[id])
            } else {
                None
            },
    {
        if id.slot < self.slots.len() {
            let observer = self.slots[id.slot].take();
            assert(self.issued() =~= old(self).issued());
            assert(self@ =~= old(self)@.remove(id));
            observer
        } else {
            assert(self@ =~= old(self)@.remove(id));
            None
        }
    }

    /// The observer under `id`, if it exists.
    pub fn upgrade(&self, id: ObserverId) -> (observer: Option<&O>)
        ensures
            match observer {
                Some(o) => self@.dom().contains(id) && self@[id] == *o,
                None => !self@.dom().contains(id),
            },
    {
        if id.slot < self.slots.len() {
            match &self.slots[id.slot] {
                Some(o) => Some(o),
                None => None,
            }
        } else {
            None
        }
    }
}

/// A subject as contracts see it.
pub ghost struct SubjectView {
    pub state: Seq<char>,
    pub observers: Seq<ObserverId>,
}

/// What one observer reported.
pub struct Notice {
    pub observer: ObserverId,
    pub line: String,
}

/// Holds a state and the handles of the observers registered with it.
pub struct Subject {
    observers: Vec<ObserverId>,
    state: String,
}

impl View for Subject {
    type V = SubjectView;

    closed spec fn view(&self) -> SubjectView {
        SubjectView { state: self.state@, observers: self.observers@ }
    }
}

/// Keeping one more registration, or passing it over, is what the filter
/// does to a list grown by one.
pub proof fn lemma_filter_push<H>(s: Seq<H>, x: H, keep: spec_fn(H) -> bool)
    ensures
        s.push(x).filter(keep) == if keep(x) {
            s.filter(keep).push(x)
        } else {
            s.filter(keep)
        },
{
    reveal(Seq::filter);
    assert(s.push(x).drop_last() =~= s);
}

/// The handles of `registered` other than `observer`, in order.
pub fn others(registered: &Vec<ObserverId>, observer: ObserverId) -> (kept: Vec<ObserverId>)
    ensures
        kept@ == without(registered@, observer),
{
    let mut kept: Vec<ObserverId> = Vec::new();
    let mut i: usize = 0;
    proof {
        reveal(Seq::filter);
        assert(registered@.take(0) =~= Seq::<ObserverId>::empty());
    }
    while i < registered.len()
        invariant
            i <= registered.len(),
            kept@ == without(registered@.take(i as int), observer),
        decreases registered.len() - i,
    {
        let id = registered[i];
        proof {
            lemma_filter_push(registered@.take(i as int), id, is_other(observer));
            assert(registered@.take(i as int).push(id) =~= registered@.take(i + 1));
        }
        if id != observer {
            kept.push(id);
        }
        i += 1;
    }
    assert(registered@.take(registered.len() as int) =~= registered@);
    kept
}

/// The handles of `registered`, in order, under which `observers` holds an observer.
pub fn live<O>(registered: &Vec<ObserverId>, observers: &Observers<O>) -> (found: Vec<ObserverId>)
    ensures
        found@ == notified(registered@, observers@.dom()),
{
    let mut found: Vec<ObserverId> = Vec::new();
    let mut i: usize = 0;
    proof {
        reveal(Seq::filter);
        assert(registered@.take(0) =~= Seq::<ObserverId>::empty());
    }
    while i < registered.len()
        invariant
            i <= registered.len(),
            found@ == notified(registered@.take(i as int), observers@.dom()),
        decreases registered.len() - i,
    {
        let id = registered[i];
        proof {
            lemma_filter_push(registered@.take(i as int), id, is_among(observers@.dom()));
            assert(registered@.take(i as int).push(id) =~= registered@.take(i + 1));
        }
        if observers.upgrade(id).is_some() {
            found.push(id);
        }
        i += 1;
    }
    assert(registered@.take(registered.len() as int) =~= registered@);
    found
}

/// `notices` holds, in order, one notice for each registration of `subject`
/// whose observer exists in `observers`, with the line that this observer
/// reports of `subject`.
pub open spec fn reports<O: Observer<Subject = Subject>>(
    subject: &Subject,
    observers: Map<ObserverId, O>,
    notices: Seq<Notice>,
) -> bool {
    let due = notified(subject@.observers, observers.dom());
    &&& notices.len() == due.len()
    &&& forall|i: int|
        0 <= i < due.len() ==> (#[trigger] notices[i]).observer == due[i] && notices[i].line@
            == observers[due[i]].report(subject)
}

impl Subject {
    /// A subject in `state`, with no observer registered.
    pub fn new(state: &str) -> (subject: Self)
        ensures
            subject@.state == state@,
            subject@.observers == Seq::<ObserverId>::empty(),
    {
        Subject { observers: Vec::new(), state: state.to_owned() }
    }

    /// The state.
    pub fn state(&self) -> (state: &str)
        ensures
            state@ == self@.state,
    {
        self.state.as_str()
    }

    /// Shows the subject to every registered observer that exists in
    /// `observers`, oldest registration first, and returns what each
    /// reported. A registration whose observer is gone is passed over.
    pub fn update<O: Observer<Subject = Subject>>(&self, observers: &Observers<O>) -> (notices: Vec<
        Notice,
    >)
        ensures
            reports(self, observers@, notices@),
    {
        let mut notices: Vec<Notice> = Vec::new();
        let mut i: usize = 0;
        let ghost live = observers@.dom();
        proof {
            reveal(Seq::filter);
            assert(self.observers@.take(0) =~= Seq::<ObserverId>::empty());
        }
        while i < self.observers.len()
            invariant
                i <= self.observers.len(),
                live == observers@.dom(),
                notices@.len() == notified(self.observers@.take(i as int), live).len(),
                forall|k: int|
                    0 <= k < notices@.len() ==> (#[trigger] notices@[k]).observer == notified(
                        self.observers@.take(i as int),
                        live,
                    )[k] && notices@[k].line@ == observers@[notices@[k].observer].report(self),
            decreases self.observers.len() - i,
        {
            let id = self.observers[i];
            proof {
                lemma_filter_push(self.observers@.take(i as int), id, is_among(live));
                assert(self.observers@.take(i as int).push(id) =~= self.observers@.take(i + 1));
            }
            match observers.upgrade(id) {
                Some(observer) => {
                    let line = observer.observe(self);
                    notices.push(Notice { observer: id, line });
                },
                None => {},
            }
            i += 1;
        }
        assert(self.observers@.take(self.observers.len() as int) =~= self.observers@);
        notices
    }
}

impl Observable for Subject {
    type Observer = ObserverId;

    closed spec fn registered(&self) -> Seq<ObserverId> {
        self.observers@
    }

    fn attach(&mut self, observer: ObserverId)
        ensures
            final(self)@.state == old(self)@.state,
            final(self)@.observers == old(self)@.observers.push(observer),
    {
        self.observers.push(observer);
    }

    fn detach(&mut self, observer: ObserverId)
        ensures
            final(self)@.state == old(self)@.state,
            final(self)@.observers == without(old(self)@.observers, observer),
    {
        let kept = others(&self.observers, observer);
        self.observers = kept;
    }
}

/// What `{:?}` of std's formatting writes for a string slice with the
/// characters `text`: the text between double quotes, with the characters
/// that need it written as escapes.
pub uninterp spec fn debug_form(text: Seq<char>) -> Seq<char>;

/// `format!` with `{:?}` on a string slice. The contract names the result
/// and states nothing more of it.
#[verifier::external_body]
fn debug_text(text: &str) -> (quoted: String)
    ensures
        quoted@ == debug_form(text@),
{
    format!("{:?}", text)
}

/// The line that an observer called `name` reports of a state that is
/// written as `quoted_state`.
pub open spec fn observed_text(quoted_state: Seq<char>, name: Seq<char>) -> Seq<char> {
    "observed subject with state="@ + quoted_state + " in "@ + name
}

/// Builds the line that an observer called `name` reports of a state that is
/// written as `quoted_state`.
pub fn observed_line(quoted_state: &str, name: &str) -> (line: String)
    ensures
        line@ == observed_text(quoted_state@, name@),
{
    let mut line = String::from_str("observed subject with state=");
    line.append(quoted_state);
    line.append(" in ");
    line.append(name);
    line
}

/// An observer that is known by its name.
pub struct ObserverA {
    name: String,
}

impl View for ObserverA {
    type V = Seq<char>;

    /// The name.
    closed spec fn view(&self) -> Seq<char> {
        self.name@
    }
}

impl ObserverA {
    /// An observer called `name`.
    pub fn new(name: &str) -> (observer: Self)
        ensures
            observer@ == name@,
    {
        ObserverA { name: name.to_owned() }
    }
}

impl Observer for ObserverA {
    type Subject = Subject;

    open spec fn report(&self, subject: &Subject) -> Seq<char> {
        observed_text(debug_form(subject@.state), self@)
    }

    fn observe(&self, subject: &Subject) -> (line: String) {
        let quoted = debug_text(subject.state());
        observed_line(quoted.as_str(), self.name.as_str())
    }
}

/// Two observers registered with one subject, and what they report when the
/// subject notifies them.
pub fn run() -> (notices: Vec<Notice>)
    ensures
        notices@.len() == 2,
        notices@[0].line@ == observed_text(debug_form("some subject state"@), "observer1"@),
        notices@[1].line@ == observed_text(debug_form("some subject state"@), "observer2"@),
        notices@[0].observer != notices@[1].observer,
{
    let mut subject = Subject::new("some subject state");
    let mut observers: Observers<ObserverA> = Observers::new();
    let observer1 = observers.add(ObserverA::new("observer1"));
    let observer2 = observers.add(ObserverA::new("observer2"));
    subject.attach(observer1);
    subject.attach(observer2);
    let notices = subject.update(&observers);
    proof {
        let registered = seq![observer1, observer2];
        assert(subject@.observers =~= registered);
        let live = observers@.dom();
        lemma_filter_push(Seq::<ObserverId>::empty(), observer1, is_among(live));
        lemma_filter_push(seq![observer1], observer2, is_among(live));
        reveal(Seq::filter);
        assert(Seq::<ObserverId>::empty().push(observer1) =~= seq![observer1]);
        assert(seq![observer1].push(observer2) =~= registered);
        assert(notified(registered, live) =~= registered);
    }
    notices
}

/// The members of a filtered list are members of the list, and the filter
/// holds of them.
proof fn lemma_filter_members<H>(s: Seq<H>, keep: spec_fn(H) -> bool, x: H)
    ensures
        s.filter(keep).contains(x) <==> s.contains(x) && keep(x),
    decreases s.len(),
{
    reveal(Seq::filter);
    if s.len() > 0 {
        let init = s.drop_last();
        lemma_filter_members(init, keep, x);
        let kept = init.filter(keep);
        if init.contains(x) {
            let i = choose|i: int| 0 <= i < init.len() && init[i] == x;
            assert(s[i] == x);
        }
        if s.contains(x) {
            let i = choose|i: int| 0 <= i < s.len() && s[i] == x;
            if i < s.len() - 1 {
                assert(init[i] == x);
            }
        }
        if keep(s.last()) {
            let grown = kept.push(s.last());
            if kept.contains(x) {
                let i = choose|i: int| 0 <= i < kept.len() && kept[i] == x;
                assert(grown[i] == x);
            }
            if grown.contains(x) {
                let i = choose|i: int| 0 <= i < grown.len() && grown[i] == x;
                if i < kept.len() {
                    assert(kept[i] == x);
                }
            }
            assert(grown[grown.len() - 1] == s.last());
            assert(s[s.len() - 1] == s.last());
        } else {
            assert(s[s.len() - 1] == s.last());
        }
    }
}

/// Filtering twice gives the same list in either order.
proof fn lemma_filters_commute<H>(s: Seq<H>, p: spec_fn(H) -> bool, q: spec_fn(H) -> bool)
    ensures
        s.filter(p).filter(q) == s.filter(q).filter(p),
    decreases s.len(),
{
    reveal(Seq::filter);
    if s.len() > 0 {
        let init = s.drop_last();
        lemma_filters_commute(init, p, q);
        if p(s.last()) {
            lemma_filter_push(init.filter(p), s.last(), q);
        }
        if q(s.last()) {
            lemma_filter_push(init.filter(q), s.last(), p);
        }
    }
}

/// An observer that was detached is not notified, whether or not it still
/// exists, however often it had been attached; the other registrations are
/// notified as they would have been.
pub proof fn law_detached_is_not_notified(
    registered: Seq<ObserverId>,
    live: Set<ObserverId>,
    observer: ObserverId,
)
    ensures
        !notified(without(registered, observer), live).contains(observer),
        notified(without(registered, observer), live) == without(
            notified(registered, live),
            observer,
        ),
{
    lemma_filter_members(without(registered, observer), is_among(live), observer);
    lemma_filter_members(registered, is_other(observer), observer);
    lemma_filters_commute(registered, is_other(observer), is_among(live));
}

/// An observer that no longer exists is not notified, though it was never
/// detached; the notification goes to the other registrations as if that
/// one had been detached.
pub proof fn law_dropped_is_not_notified(
    registered: Seq<ObserverId>,
    live: Set<ObserverId>,
    observer: ObserverId,
)
    ensures
        !notified(registered, live.remove(observer)).contains(observer),
        notified(registered, live.remove(observer)) == without(
            notified(registered, live),
            observer,
        ),
    decreases registered.len(),
{
    let gone = live.remove(observer);
    lemma_filter_members(registered, is_among(gone), observer);
    reveal(Seq::filter);
    if registered.len() > 0 {
        let init = registered.drop_last();
        law_dropped_is_not_notified(init, live, observer);
        if live.contains(registered.last()) {
            lemma_filter_push(notified(init, live), registered.last(), is_other(observer));
        }
    }
}

/// An observer that exists and is registered is notified.
pub proof fn law_attached_is_notified(
    registered: Seq<ObserverId>,
    live: Set<ObserverId>,
    observer: ObserverId,
)
    requires
        live.contains(observer),
    ensures
        notified(registered.push(observer), live) == notified(registered, live).push(observer),
{
    lemma_filter_push(registered, observer, is_among(live));
}

} // verus!

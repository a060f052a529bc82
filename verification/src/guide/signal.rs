//! The three signals by which one task tells others to stop.
//!
//! Each signal is kept by its sender; a receiver keeps only how far it has
//! read. Asking a signal whether there is news never waits: it answers with
//! the news or with `None`, and the caller decides whether to ask again.

use vstd::prelude::*;

verus! {

/// A signal for one receiver that fires at most once.
pub struct OneShot {
    fired: bool,
    taken: bool,
}

/// A one-shot signal as contracts see it.
pub ghost struct OneShotView {
    /// The signal was sent.
    pub fired: bool,
    /// The receiver has it.
    pub taken: bool,
}

impl View for OneShot {
    type V = OneShotView;

    closed spec fn view(&self) -> OneShotView {
        OneShotView { fired: self.fired, taken: self.taken }
    }
}

/// The signal after a send.
pub open spec fn after_fire(signal: OneShotView) -> OneShotView {
    OneShotView { fired: true, taken: signal.taken }
}

/// Whether the receiver gets the signal when it asks now.
pub open spec fn is_due(signal: OneShotView) -> bool {
    signal.fired && !signal.taken
}

/// The signal after the receiver asked.
pub open spec fn after_ask(signal: OneShotView) -> OneShotView {
    OneShotView { fired: signal.fired, taken: signal.taken || signal.fired }
}

impl OneShot {
    /// A signal that was not sent yet.
    pub fn new() -> (signal: Self)
        ensures
            !signal@.fired,
            !signal@.taken,
    {
        OneShot { fired: false, taken: false }
    }

    /// Sends the signal. Returns whether this call was the one that fired
    /// it: a second send changes nothing.
    pub fn send(&mut self) -> (first: bool)
        ensures
            first == !old(self)@.fired,
            final(self)@ == after_fire(old(self)@),
    {
        let first = !self.fired;
        self.fired = true;
        first
    }

    /// Hands the signal to the receiver if it was sent and not handed over
    /// before.
    pub fn try_recv(&mut self) -> (news: Option<()>)
        ensures
            news is Some <==> is_due(old(self)@),
            final(self)@ == after_ask(old(self)@),
    {
        if self.fired && !self.taken {
            self.taken = true;
            Some(())
        } else {
            None
        }
    }
}

/// A signal for many receivers: each receiver gets every value that is sent
/// after it subscribed, once and in the order of sending.
pub struct Broadcast<T> {
    sent: Vec<T>,
}

impl<T> View for Broadcast<T> {
    type V = Seq<T>;

    /// Everything sent so far, oldest first.
    closed spec fn view(&self) -> Seq<T> {
        self.sent@
    }
}

/// How far one receiver of a [`Broadcast`] has read.
pub struct Subscriber {
    next: usize,
}

impl View for Subscriber {
    type V = nat;

    /// How many of the values sent so far lie behind this receiver.
    closed spec fn view(&self) -> nat {
        self.next as nat
    }
}

impl<T: Copy> Broadcast<T> {
    /// A signal on which nothing was sent yet.
    pub fn new() -> (signal: Self)
        ensures
            signal@ == Seq::<T>::empty(),
    {
        Broadcast { sent: Vec::new() }
    }

    /// A new receiver, which will get what is sent from now on.
    pub fn subscribe(&self) -> (receiver: Subscriber)
        ensures
            receiver@ == self@.len(),
    {
        Subscriber { next: self.sent.len() }
    }

    /// Sends `value` to every receiver.
    pub fn send(&mut self, value: T)
        ensures
            final(self)@ == old(self)@.push(value),
    {
        self.sent.push(value);
    }
}

/// The next value that a receiver gets which has `behind` values behind it.
pub open spec fn next_news<T>(sent: Seq<T>, behind: nat) -> Option<T> {
    if behind < sent.len() {
        Some(sent[behind as int])
    } else {
        None
    }
}

impl Subscriber {
    /// The next value sent on `signal` that this receiver has not had yet.
    pub fn try_recv<T: Copy>(&mut self, signal: &Broadcast<T>) -> (news: Option<T>)
        ensures
            news == next_news(signal@, old(self)@),
            final(self)@ == if news is Some {
                old(self)@ + 1
            } else {
                old(self)@
            },
    {
        if self.next < signal.sent.len() {
            let value = signal.sent[self.next];
            self.next += 1;
            Some(value)
        } else {
            None
        }
    }
}

/// A signal that holds one current value. A receiver learns that the value
/// was changed since it last looked, and then sees the value that is
/// current: values that were replaced in between are never seen.
pub struct Watch<T> {
    value: T,
    version: u64,
}

/// A latest-value signal as contracts see it.
pub ghost struct WatchView<T> {
    /// The current value.
    pub value: T,
    /// How many times a value was sent.
    pub changes: nat,
}

impl<T> View for Watch<T> {
    type V = WatchView<T>;

    closed spec fn view(&self) -> WatchView<T> {
        WatchView { value: self.value, changes: self.version as nat }
    }
}

/// What one receiver of a [`Watch`] remembers.
pub struct Watcher {
    seen: u64,
}

impl View for Watcher {
    type V = nat;

    /// The number of changes that this receiver knows of.
    closed spec fn view(&self) -> nat {
        self.seen as nat
    }
}

/// The signal after `value` was sent on it.
pub open spec fn after_send<T>(signal: WatchView<T>, value: T) -> WatchView<T> {
    WatchView { value, changes: signal.changes + 1 }
}

/// What a receiver that knows of `seen` changes learns when it looks.
pub open spec fn news_for<T>(signal: WatchView<T>, seen: nat) -> Option<T> {
    if signal.changes != seen {
        Some(signal.value)
    } else {
        None
    }
}

impl<T: Copy> Watch<T> {
    /// A signal whose current value is `initial`.
    pub fn channel(initial: T) -> (signal: Self)
        ensures
            signal@ == (WatchView { value: initial, changes: 0 }),
    {
        Watch { value: initial, version: 0 }
    }

    /// Whether another value can be sent: the count of changes has a limit.
    pub fn can_send(&self) -> (ok: bool)
        ensures
            ok == (self@.changes < u64::MAX),
    {
        self.version < u64::MAX
    }

    /// Makes `value` the current value.
    pub fn send(&mut self, value: T)
        requires
            old(self)@.changes < u64::MAX,
        ensures
            final(self)@ == after_send(old(self)@, value),
    {
        self.value = value;
        self.version += 1;
    }

    /// The current value.
    pub fn borrow(&self) -> (value: T)
        ensures
            value == self@.value,
    {
        self.value
    }

    /// A new receiver. It knows of every change made so far, so only a later
    /// one is news to it.
    pub fn subscribe(&self) -> (receiver: Watcher)
        ensures
            receiver@ == self@.changes,
    {
        Watcher { seen: self.version }
    }
}

impl Watcher {
    /// Looks at `signal`: the current value if it was changed since this
    /// receiver last looked, otherwise `None`.
    pub fn changed<T: Copy>(&mut self, signal: &Watch<T>) -> (news: Option<T>)
        ensures
            news == news_for(signal@, old(self)@),
            final(self)@ == signal@.changes,
    {
        if signal.version != self.seen {
            self.seen = signal.version;
            Some(signal.value)
        } else {
            None
        }
    }
}

/// The signal after each value of `values` was sent on it, first to last.
pub open spec fn after_sends<T>(signal: WatchView<T>, values: Seq<T>) -> WatchView<T>
    decreases values.len(),
{
    if values.len() == 0 {
        signal
    } else {
        after_send(after_sends(signal, values.drop_last()), values.last())
    }
}

/// A receiver that subscribes after a value was sent does not learn of that
/// change: when it looks, there is no news for it.
pub proof fn law_late_watcher_misses_change<T>(signal: WatchView<T>, value: T)
    ensures
        news_for(after_send(signal, value), after_send(signal, value).changes) is None,
{
}

/// A receiver that subscribed before values were sent learns, when it looks,
/// of the last of them only; looking again, it learns nothing more.
pub proof fn law_watcher_sees_latest_only<T>(signal: WatchView<T>, values: Seq<T>)
    requires
        values.len() > 0,
    ensures
        news_for(after_sends(signal, values), signal.changes) == Some(values.last()),
        news_for(after_sends(signal, values), after_sends(signal, values).changes) is None,
{
    lemma_sends_counted(signal, values);
}

/// Each send is counted once.
proof fn lemma_sends_counted<T>(signal: WatchView<T>, values: Seq<T>)
    ensures
        after_sends(signal, values).changes == signal.changes + values.len(),
        values.len() > 0 ==> after_sends(signal, values).value == values.last(),
    decreases values.len(),
{
    if values.len() > 0 {
        lemma_sends_counted(signal, values.drop_last());
    }
}

/// Every receiver of a broadcast gets each value sent after it subscribed,
/// once and in order: a receiver that subscribed when `sent` had been sent
/// gets, from its `k`-th look on, the `k`-th of the later values, and
/// nothing once it has had them all.
pub proof fn law_subscriber_gets_each_value_once<T>(sent: Seq<T>, later: Seq<T>, k: nat)
    ensures
        next_news(sent + later, sent.len() + k) == if k < later.len() {
            Some(later[k as int])
        } else {
            None
        },
{
}

/// A one-shot signal is handed over once at most: a signal that was sent
/// is due until the receiver asks, and from then on nothing is due, however
/// often it is sent again.
pub proof fn law_one_shot_fires_once(signal: OneShotView)
    ensures
        !signal.taken ==> is_due(after_fire(signal)),
        !is_due(after_ask(signal)),
        !is_due(after_fire(after_ask(after_fire(signal)))),
        !is_due(after_ask(after_fire(after_ask(after_fire(signal))))),
{
}

} // verus!

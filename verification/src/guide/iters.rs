//! Hand-written iteration: a bounded counter, a walk over a grid, and a
//! linked list with its three ways of being walked.

use vstd::prelude::*;

verus! {

/// Counts upwards from one and yields the numbers below six.
pub struct Counter {
    count: usize,
}

impl View for Counter {
    type V = nat;

    /// How many times the counter has been advanced.
    closed spec fn view(&self) -> nat {
        self.count as nat
    }
}

impl Counter {
    pub fn new() -> (c: Counter)
        ensures
            c@ == 0,
    {
        Counter { count: 0 }
    }

    /// Advances the counter by one; yields the new count while it is below six.
    pub fn next(&mut self) -> (item: Option<usize>)
        requires
            old(self)@ < usize::MAX,
        ensures
            final(self)@ == old(self)@ + 1,
            item == if old(self)@ + 1 < 6 {
                Some((old(self)@ + 1) as usize)
            } else {
                None
            },
    {
        self.count += 1;
        if self.count < 6 {
            Some(self.count)
        } else {
            None
        }
    }
}

/// The points of a grid: every value of `x` paired with every value of `y`.
pub struct Grid {
    pub x: Vec<u32>,
    pub y: Vec<u32>,
}

/// A walk over a grid, row by row: all of `x` with the first of `y`, then
/// all of `x` with the second of `y`, and so on.
pub struct GridIter {
    grid: Grid,
    i: usize,
    j: usize,
}

/// A walk over a grid as contracts see it.
pub ghost struct GridIterView {
    pub x: Seq<u32>,
    pub y: Seq<u32>,
    /// The place in `x` of the next point.
    pub i: nat,
    /// The place in `y` of the next point.
    pub j: nat,
}

impl View for GridIter {
    type V = GridIterView;

    closed spec fn view(&self) -> GridIterView {
        GridIterView { x: self.grid.x@, y: self.grid.y@, i: self.i as nat, j: self.j as nat }
    }
}

/// The walk can take a step: at the end of a row there is either no further
/// row, or a row with a first point; within a row, the row exists. A walk
/// that has returned `None` cannot take a step, nor can a walk over a grid
/// of which one side is empty and the other has two values or more.
pub open spec fn can_step(walk: GridIterView) -> bool {
    if walk.i >= walk.x.len() {
        walk.j < usize::MAX && (walk.j + 1 >= walk.y.len() || walk.x.len() > 0)
    } else {
        walk.j < walk.y.len()
    }
}

/// The point that the next step returns, if any.
pub open spec fn next_point(walk: GridIterView) -> Option<(u32, u32)> {
    if walk.i >= walk.x.len() {
        if walk.j + 1 >= walk.y.len() {
            None
        } else {
            Some((walk.x[0], walk.y[walk.j + 1 as int]))
        }
    } else {
        Some((walk.x[walk.i as int], walk.y[walk.j as int]))
    }
}

/// The walk after the next step.
pub open spec fn after_step(walk: GridIterView) -> GridIterView {
    if walk.i >= walk.x.len() {
        if walk.j + 1 >= walk.y.len() {
            GridIterView { i: 0, j: walk.j + 1, ..walk }
        } else {
            GridIterView { i: 1, j: walk.j + 1, ..walk }
        }
    } else {
        GridIterView { i: walk.i + 1, ..walk }
    }
}

impl GridIter {
    /// The next point of the walk; `None` when the last row is done.
    pub fn next(&mut self) -> (item: Option<(u32, u32)>)
        requires
            can_step(old(self)@),
        ensures
            item == next_point(old(self)@),
            final(self)@ == after_step(old(self)@),
    {
        if self.i >= self.grid.x.len() {
            self.i = 0;
            self.j += 1;
            if self.j >= self.grid.y.len() {
                return None;
            }
        }
        let res = Some((self.grid.x[self.i], self.grid.y[self.j]));
        self.i += 1;
        res
    }
}

impl Grid {
    /// A walk over this grid, from its first point.
    pub fn into_iter(self) -> (walk: GridIter)
        ensures
            walk@ == (GridIterView { x: self.x@, y: self.y@, i: 0, j: 0 }),
    {
        GridIter { grid: self, i: 0, j: 0 }
    }
}

/// Within a row the walk goes from point to point: from the place `i` of a
/// row `j` that exists, the step returns that point and the walk stands at
/// the next place of the row, where it can step again.
pub proof fn law_walk_follows_row(walk: GridIterView)
    requires
        walk.i < walk.x.len(),
        walk.j < walk.y.len(),
        walk.j < usize::MAX,
    ensures
        can_step(walk),
        next_point(walk) == Some((walk.x[walk.i as int], walk.y[walk.j as int])),
        after_step(walk).i == walk.i + 1,
        after_step(walk).j == walk.j,
        can_step(after_step(walk)),
{
}

/// At the end of a row the walk goes on with the first point of the next
/// row, and at the end of the last row it returns `None`.
pub proof fn law_walk_turns_at_row_end(walk: GridIterView)
    requires
        walk.x.len() > 0,
        walk.i == walk.x.len(),
        walk.j < walk.y.len(),
        walk.j < usize::MAX,
    ensures
        can_step(walk),
        walk.j + 1 < walk.y.len() ==> next_point(walk) == Some((walk.x[0], walk.y[walk.j + 1 as int])),
        walk.j + 1 == walk.y.len() ==> next_point(walk) is None,
{
}

/// One value of a list and the link to the value after it.
pub struct Node<T> {
    data: T,
    next: Option<Box<Node<T>>>,
}

impl<T> Node<T> {
    /// A node that is the last one.
    pub fn new(data: T) -> (node: Self)
        ensures
            node.values() == seq![data],
    {
        Node { data, next: None }
    }

    /// The values from this node to the end.
    pub closed spec fn values(self) -> Seq<T>
        decreases self,
    {
        match self.next {
            None => seq![self.data],
            Some(next) => seq![self.data] + next.values(),
        }
    }

    /// A node has a value: its list of values is not empty, and starts with
    /// the node's own value.
    proof fn lemma_values_start(self)
        ensures
            self.values().len() > 0,
            self.values()[0] == self.data,
            self.values().drop_first() == match self.next {
                None => Seq::<T>::empty(),
                Some(next) => next.values(),
            },
    {
        match self.next {
            None => {
                assert(self.values().drop_first() =~= Seq::<T>::empty());
            },
            Some(next) => {
                assert(self.values().drop_first() =~= next.values());
            },
        }
    }

    /// Puts `t` behind the last node.
    fn append(&mut self, t: T)
        ensures
            final(self).values() == old(self).values().push(t),
        decreases *old(self),
    {
        match &mut self.next {
            Some(next) => {
                let ghost before = next.values();
                next.append(t);
                assert(next.values() == before.push(t));
                assert((seq![self.data] + before).push(t) =~= seq![self.data] + before.push(t));
            },
            None => {
                self.next = Some(Box::new(Node::new(t)));
                assert(seq![self.data].push(t) =~= seq![self.data] + seq![t]);
            },
        }
    }
}

/// A list that holds one value at least.
pub struct LinkedList<T> {
    head: Node<T>,
}

impl<T> View for LinkedList<T> {
    type V = Seq<T>;

    /// The values, first to last.
    closed spec fn view(&self) -> Seq<T> {
        self.head.values()
    }
}

/// A walk that shows each value of a list.
pub struct Iter<'a, T> {
    next: Option<&'a Node<T>>,
}

/// A walk that opens each value of a list to change.
pub struct IterMut<'a, T> {
    next: Option<&'a mut Node<T>>,
}

/// A walk that takes each value out of a list.
pub struct IntoIter<T> {
    next: Option<Box<Node<T>>>,
}

impl<T> LinkedList<T> {
    /// A list of the one value `t`.
    pub fn new(t: T) -> (list: Self)
        ensures
            list@ == seq![t],
    {
        LinkedList { head: Node::new(t) }
    }

    /// Puts `t` at the end.
    pub fn append(&mut self, t: T)
        ensures
            final(self)@ == old(self)@.push(t),
    {
        self.head.append(t);
    }

    /// A walk over the values, first to last.
    pub fn iter(&self) -> (walk: Iter<'_, T>)
        ensures
            walk.rest() == self@,
    {
        Iter { next: Some(&self.head) }
    }

    /// A walk over the values, first to last, that can change them.
    pub fn iter_mut(&mut self) -> (walk: IterMut<'_, T>)
        ensures
            walk.rest() == old(self)@,
    {
        IterMut { next: Some(&mut self.head) }
    }

    /// A walk that takes the values out, first to last.
    pub fn into_iter(self) -> (walk: IntoIter<T>)
        ensures
            walk.rest() == self@,
    {
        IntoIter { next: Some(Box::new(self.head)) }
    }
}

impl<'a, T> Iter<'a, T> {
    /// The values still to come.
    pub closed spec fn rest(self) -> Seq<T> {
        match self.next {
            None => Seq::empty(),
            Some(node) => node.values(),
        }
    }

    /// The next value; `None` at the end.
    pub fn next(&mut self) -> (item: Option<&'a T>)
        ensures
            old(self).rest().len() == 0 ==> item is None && final(self).rest() == old(self).rest(),
            old(self).rest().len() > 0 ==> item == Some(&old(self).rest()[0]) && final(self).rest() == old(self).rest().drop_first(),
    {
        match self.next {
            None => None,
            Some(node) => {
                proof {
                    node.lemma_values_start();
                }
                self.next =
                match &node.next {
                    Some(next) => Some(&**next),
                    None => None,
                };
                Some(&node.data)
            },
        }
    }
}

impl<'a, T> IterMut<'a, T> {
    /// The values still to come, as they are now.
    pub closed spec fn rest(self) -> Seq<T> {
        match self.next {
            None => Seq::empty(),
            Some(node) => node.values(),
        }
    }

    /// The next value, open to change; `None` at the end.
    pub fn next(&mut self) -> (item: Option<&'a mut T>)
        ensures
            old(self).rest().len() == 0 ==> item is None && final(self).rest() == old(self).rest(),
            old(self).rest().len() > 0 ==> item is Some && *item->0 == old(self).rest()[0] && final(self).rest() == old(self).rest().drop_first(),
    {
        match self.next.take() {
            None => None,
            Some(node) => {
                proof {
                    node.lemma_values_start();
                }
                self.next =
                match &mut node.next {
                    Some(next) => Some(&mut **next),
                    None => None,
                };
                Some(&mut node.data)
            },
        }
    }
}

impl<T> IntoIter<T> {
    /// The values still to come.
    pub closed spec fn rest(self) -> Seq<T> {
        match self.next {
            None => Seq::empty(),
            Some(node) => node.values(),
        }
    }

    /// The next value, taken out; `None` at the end.
    pub fn next(&mut self) -> (item: Option<T>)
        ensures
            old(self).rest().len() == 0 ==> item is None && final(self).rest() == old(self).rest(),
            old(self).rest().len() > 0 ==> item == Some(old(self).rest()[0]) && final(self).rest()
                == old(self).rest().drop_first(),
    {
        match self.next.take() {
            None => None,
            Some(boxed) => {
                let node = *boxed;
                proof {
                    node.lemma_values_start();
                }
                self.next = node.next;
                Some(node.data)
            },
        }
    }
}

/// One line of a log: when, who, what.
#[derive(Debug)]
pub struct LogEntry {
    pub timestamp: String,
    pub username: String,
    pub action: String,
}

/// `parts` with `sep` between each two of them.
pub open spec fn joined(parts: Seq<Seq<char>>, sep: char) -> Seq<char>
    decreases parts.len(),
{
    if parts.len() == 0 {
        Seq::empty()
    } else if parts.len() == 1 {
        parts[0]
    } else {
        joined(parts.drop_last(), sep) + seq![sep] + parts.last()
    }
}

/// `parts` are the fields of `line`: the pieces between its commas.
pub open spec fn fields_of(line: Seq<char>, parts: Seq<String>) -> bool {
    &&& parts.len() >= 1
    &&& forall|i: int| 0 <= i < parts.len() ==> !(#[trigger] parts[i])@.contains(',')
    &&& joined(Seq::new(parts.len(), |i: int| parts[i]@), ',') == line
}

/// `str::split` of std with the pattern `','`, each piece copied into a
/// `String`: the pieces hold no comma, and with a comma between each two
/// of them they are the line. A line without a comma is one piece.
#[verifier::external_body]
fn split_commas(line: &str) -> (parts: Vec<String>)
    ensures
        fields_of(line@, parts@),
{
    line.split(',').map(String::from).collect()
}

impl LogEntry {
    /// An entry of copies of the three texts.
    pub fn new(timestamp: &str, username: &str, action: &str) -> (entry: Self)
        ensures
            entry.timestamp@ == timestamp@,
            entry.username@ == username@,
            entry.action@ == action@,
    {
        LogEntry {
            timestamp: timestamp.to_owned(),
            username: username.to_owned(),
            action: action.to_owned(),
        }
    }

    /// The entry that `parts` make, where they are three.
    pub fn from_fields(parts: &Vec<String>) -> (entry: Option<Self>)
        ensures
            parts@.len() == 3 ==> entry is Some && entry->0.timestamp@ == parts@[0]@
                && entry->0.username@ == parts@[1]@ && entry->0.action@ == parts@[2]@,
            parts@.len() != 3 ==> entry is None,
    {
        if parts.len() == 3 {
            Some(LogEntry::new(parts[0].as_str(), parts[1].as_str(), parts[2].as_str()))
        } else {
            None
        }
    }

    /// The entry that `line` spells: a line of exactly three fields with
    /// commas between them. Any other line spells none.
    pub fn from_line(line: &str) -> (entry: Option<Self>)
        ensures
            match entry {
                Some(e) => exists|parts: Seq<String>|
                    fields_of(line@, parts) && parts.len() == 3 && e.timestamp@ == parts[0]@
                        && e.username@ == parts[1]@ && e.action@ == parts[2]@,
                None => exists|parts: Seq<String>| fields_of(line@, parts) && parts.len() != 3,
            },
    {
        let parts = split_commas(line);
        LogEntry::from_fields(&parts)
    }
}

/// How often `name` is the user of an entry of `entries`.
pub open spec fn accesses(entries: Seq<LogEntry>, name: Seq<char>) -> nat
    decreases entries.len(),
{
    if entries.len() == 0 {
        0
    } else {
        accesses(entries.drop_last(), name) + if entries.last().username@ == name {
            1nat
        } else {
            0nat
        }
    }
}

/// `counts` tells of each user of `entries`, once, how often it occurs.
pub open spec fn counts_of(entries: Seq<LogEntry>, counts: Seq<(String, usize)>) -> bool {
    &&& forall|i: int|
        0 <= i < counts.len() ==> (#[trigger] counts[i]).1 > 0 && counts[i].1 == accesses(
            entries,
            counts[i].0@,
        )
    &&& forall|i: int, j: int|
        0 <= i < j < counts.len() ==> (#[trigger] counts[i]).0@ != (#[trigger] counts[j]).0@
    &&& forall|name: Seq<char>|
        #![trigger accesses(entries, name)]
        accesses(entries, name) > 0 ==> exists|i: int|
            0 <= i < counts.len() && (#[trigger] counts[i]).0@ == name
}

/// A user occurs at most as often as there are entries.
proof fn lemma_accesses_bounded(entries: Seq<LogEntry>, name: Seq<char>)
    ensures
        accesses(entries, name) <= entries.len(),
    decreases entries.len(),
{
    if entries.len() > 0 {
        lemma_accesses_bounded(entries.drop_last(), name);
    }
}

/// How often each user occurs in `entries`: the users in the order of their
/// first entry, each with the number of its entries.
pub fn user_access_count(entries: &Vec<LogEntry>) -> (counts: Vec<(String, usize)>)
    ensures
        counts_of(entries@, counts@),
{
    let mut counts: Vec<(String, usize)> = Vec::new();
    let mut i: usize = 0;
    proof {
        assert(entries@.take(0) =~= Seq::<LogEntry>::empty());
    }
    while i < entries.len()
        invariant
            i <= entries.len(),
            counts_of(entries@.take(i as int), counts@),
        decreases entries.len() - i,
    {
        let ghost seen = entries@.take(i as int);
        let ghost grown = entries@.take(i + 1);
        let ghost before = counts@;
        let ghost who = entries@[i as int].username@;
        proof {
            assert(grown.drop_last() =~= seen);
            assert(grown.last() == entries@[i as int]);
        }
        let mut k: usize = 0;
        let mut found = false;
        while k < counts.len() && !found
            invariant
                k <= counts.len(),
                counts@ == before,
                i < entries.len(),
                who == entries@[i as int].username@,
                !found ==> forall|m: int| 0 <= m < k ==> (#[trigger] counts@[m]).0@ != who,
                found ==> k < counts.len() && counts@[k as int].0@ == who,
            decreases counts.len() - k + if found { 0int } else { 1int },
        {
            if counts[k].0 == entries[i].username {
                found = true;
            } else {
                k += 1;
            }
        }
        if found {
            proof {
                lemma_accesses_bounded(seen, who);
            }
            let name = counts[k].0.clone();
            let count = counts[k].1 + 1;
            counts.set(k, (name, count));
            proof {
                assert forall|m: int| 0 <= m < counts@.len() implies (#[trigger] counts@[m]).1 > 0
                    && counts@[m].1 == accesses(grown, counts@[m].0@) by {
                    if m != k {
                        assert(counts@[m] == before[m]);
                        assert(before[m].0@ != before[k as int].0@);
                    }
                }
                assert forall|a: int, b: int| 0 <= a < b < counts@.len() implies (
                #[trigger] counts@[a]).0@ != (#[trigger] counts@[b]).0@ by {
                    assert(counts@[a].0@ == before[a].0@);
                    assert(counts@[b].0@ == before[b].0@);
                }
                assert forall|name: Seq<char>|
                    #![trigger accesses(grown, name)]
                    accesses(grown, name) > 0 implies exists|m: int|
                    0 <= m < counts@.len() && (#[trigger] counts@[m]).0@ == name by {
                    if name == who {
                        assert(counts@[k as int].0@ == name);
                    } else {
                        assert(accesses(seen, name) > 0);
                        let m = choose|m: int| 0 <= m < before.len() && (#[trigger] before[m]).0@ == name;
                        assert(counts@[m].0@ == name);
                    }
                }
            }
        } else {
            let name = entries[i].username.clone();
            counts.push((name, 1));
            proof {
                assert(accesses(seen, who) == 0) by {
                    if accesses(seen, who) > 0 {
                        let m = choose|m: int|
                            0 <= m < before.len() && (#[trigger] before[m]).0@ == who;
                        assert(counts@[m].0@ != who);
                    }
                }
                assert forall|m: int| 0 <= m < counts@.len() implies (#[trigger] counts@[m]).1 > 0
                    && counts@[m].1 == accesses(grown, counts@[m].0@) by {
                    if m < before.len() {
                        assert(counts@[m] == before[m]);
                    }
                }
                assert forall|a: int, b: int| 0 <= a < b < counts@.len() implies (
                #[trigger] counts@[a]).0@ != (#[trigger] counts@[b]).0@ by {
                    assert(counts@[a] == before[a]);
                    if b < before.len() {
                        assert(counts@[b] == before[b]);
                    }
                }
                assert forall|name: Seq<char>|
                    #![trigger accesses(grown, name)]
                    accesses(grown, name) > 0 implies exists|m: int|
                    0 <= m < counts@.len() && (#[trigger] counts@[m]).0@ == name by {
                    if name == who {
                        assert(counts@[before.len() as int].0@ == name);
                    } else {
                        assert(accesses(seen, name) > 0);
                        let m = choose|m: int| 0 <= m < before.len() && (#[trigger] before[m]).0@ == name;
                        assert(counts@[m] == before[m]);
                    }
                }
            }
        }
        i += 1;
    }
    proof {
        assert(entries@.take(entries.len() as int) =~= entries@);
    }
    counts
}

/// Each of `breeds` with its rank, the first having rank one.
pub fn ranked(breeds: Vec<&'static str>) -> (ranks: Vec<(usize, &'static str)>)
    ensures
        ranks@.len() == breeds@.len(),
        forall|i: int| 0 <= i < breeds@.len() ==> ranks@[i] == ((i + 1) as usize, breeds@[i]),
{
    let mut ranks: Vec<(usize, &'static str)> = Vec::new();
    let mut i: usize = 0;
    while i < breeds.len()
        invariant
            i <= breeds.len(),
            ranks@.len() == i,
            forall|k: int| 0 <= k < i ==> ranks@[k] == ((k + 1) as usize, breeds@[k]),
        decreases breeds.len() - i,
    {
        ranks.push((i + 1, breeds[i]));
        i += 1;
    }
    ranks
}

} // verus!

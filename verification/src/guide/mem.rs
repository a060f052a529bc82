//! Lists and who owns their items: a list whose items own each other, a
//! list whose items know both neighbours, and a list that is copied when it
//! is written to.

use vstd::prelude::*;
use vstd::string::StringSliceAdditionalSpecFns;

verus! {

/// One item of a list that owns the item after it.
pub struct ListItem<T> {
    data: Box<T>,
    next: Option<Box<ListItem<T>>>,
}

impl<T> ListItem<T> {
    /// The values from this item to the end.
    pub closed spec fn values(self) -> Seq<T>
        decreases self,
    {
        match self.next {
            None => seq![*self.data],
            Some(next) => seq![*self.data] + next.values(),
        }
    }

    /// An item has a value: its values are not empty and start with its own.
    proof fn lemma_values_start(self)
        ensures
            self.values().len() > 0,
            self.values()[0] == *self.data,
        decreases self,
    {
    }

    /// An item that is the last one.
    pub fn new(data: T) -> (item: Self)
        ensures
            item.values() == seq![data],
    {
        ListItem { data: Box::new(data), next: None }
    }

    /// The item after this one, if there is one.
    pub fn next(&self) -> (item: Option<&Self>)
        ensures
            match item {
                Some(next) => self.values() == seq![self.values()[0]] + next.values(),
                None => self.values().len() == 1,
            },
    {
        if let Some(next) = &self.next {
            Some(next)
        } else {
            None
        }
    }

    /// The last item, open to change: what is put behind it is put at the
    /// end of the list.
    pub fn mut_tail(&mut self) -> (tail: &mut Self)
        ensures
            tail.values() == seq![old(self).values().last()],
            final(self).values() == old(self).values().drop_last() + final(tail).values(),
        decreases *old(self),
    {
        if self.next.is_some() {
            match &mut self.next {
                Some(next) => {
                    proof {
                        next.lemma_values_start();
                        lemma_tail_of_longer(*self.data, next.values());
                    }
                    next.mut_tail()
                },
                None => unreached(),
            }
        } else {
            proof {
                assert(self.values().drop_last() =~= Seq::<T>::empty());
                lemma_tail_of_one(*self.data);
            }
            self
        }
    }

    /// The value of this item.
    pub fn data(&self) -> (value: &T)
        ensures
            *value == self.values()[0],
    {
        proof {
            self.lemma_values_start();
        }
        &*self.data
    }
}

/// In a list of one value, whatever replaces the list replaces all of it.
proof fn lemma_tail_of_one<T>(first: T)
    ensures
        forall|end: Seq<T>| #[trigger] (Seq::<T>::empty() + end) == end,
        seq![first].last() == first,
{
    assert forall|end: Seq<T>| #[trigger] (Seq::<T>::empty() + end) == end by {
        assert(Seq::<T>::empty() + end =~= end);
    }
}

/// The end of a list that goes on after its first value is the end of what
/// goes on.
proof fn lemma_tail_of_longer<T>(first: T, rest: Seq<T>)
    requires
        rest.len() > 0,
    ensures
        (seq![first] + rest).last() == rest.last(),
        forall|end: Seq<T>|
            seq![first] + (#[trigger] (rest.drop_last() + end)) == (seq![first]
                + rest).drop_last() + end,
{
    assert forall|end: Seq<T>|
        seq![first] + (#[trigger] (rest.drop_last() + end)) == (seq![first] + rest).drop_last()
            + end by {
        assert(seq![first] + (rest.drop_last() + end) =~= (seq![first] + rest).drop_last() + end);
    }
}

/// A list that holds one value at least and owns its items.
pub struct SinglyLinkedList<T> {
    head: ListItem<T>,
}

impl<T> View for SinglyLinkedList<T> {
    type V = Seq<T>;

    /// The values, first to last.
    closed spec fn view(&self) -> Seq<T> {
        self.head.values()
    }
}

impl<T> SinglyLinkedList<T> {
    /// A list of the one value `data`.
    pub fn new(data: T) -> (list: Self)
        ensures
            list@ == seq![data],
    {
        SinglyLinkedList { head: ListItem::new(data) }
    }

    /// Puts `data` at the end.
    pub fn append(&mut self, data: T)
        ensures
            final(self)@ == old(self)@.push(data),
    {
        let ghost before = self.head.values();
        proof {
            self.head.lemma_values_start();
        }
        let tail = self.head.mut_tail();
        let ghost last = tail.values();
        proof {
            tail.lemma_values_start();
        }
        tail.next = Some(Box::new(ListItem::new(data)));
        proof {
            assert(tail.values() =~= last.push(data));
            assert(before.drop_last() + seq![before.last()].push(data) =~= before.push(data));
        }
    }

    /// The first item.
    pub fn head(&self) -> (item: &ListItem<T>)
        ensures
            item.values() == self@,
    {
        &self.head
    }
}

/// The line that shows `item`.
pub open spec fn item_text(item: Seq<char>) -> Seq<char> {
    "item: "@ + item
}

/// The items of a list of three, each on its line, as walked from the head.
pub fn run_singlylist() -> (lines: Vec<String>)
    ensures
        lines@.len() == 3,
        lines@[0]@ == item_text("head"@),
        lines@[1]@ == item_text("middle"@),
        lines@[2]@ == item_text("tail"@),
{
    let mut list = SinglyLinkedList::new("head");
    list.append("middle");
    list.append("tail");
    let mut lines: Vec<String> = Vec::new();
    let mut item = list.head();
    let ghost all = list@;
    assert(all =~= seq!["head", "middle", "tail"]);
    let mut done: usize = 0;
    loop
        invariant_except_break
            done < 3,
            all == seq!["head", "middle", "tail"],
            item.values() == all.skip(done as int),
            lines@.len() == done,
            forall|k: int| 0 <= k < done ==> (#[trigger] lines@[k])@ == item_text(all[k]@),
        ensures
            all == seq!["head", "middle", "tail"],
            lines@.len() == 3,
            forall|k: int| 0 <= k < 3 ==> (#[trigger] lines@[k])@ == item_text(all[k]@),
        decreases 3 - done,
    {
        let mut line = String::from_str("item: ");
        line.append(*item.data());
        lines.push(line);
        match item.next() {
            Some(next_item) => {
                proof {
                    next_item.lemma_values_start();
                    assert(next_item.values() =~= item.values().drop_first());
                    assert(all.skip(done as int).drop_first() =~= all.skip(done + 1));
                }
                item = next_item;
                done += 1;
            },
            None => {
                assert(all.skip(done as int).len() == 1);
                break ;
            },
        }
    }
    lines
}

/// One item of a list whose items know both neighbours, by their places.
pub struct Node<T> {
    prev: Option<usize>,
    data: Box<T>,
    next: Option<usize>,
}

impl<T> Node<T> {
    /// An item without neighbours.
    pub fn new(data: T) -> (node: Self)
        ensures
            node.value() == data,
            node.alone(),
    {
        Node { prev: None, data: Box::new(data), next: None }
    }

    /// The value of this item.
    pub fn data(&self) -> (value: &T)
        ensures
            *value == self.value(),
    {
        &*self.data
    }

    /// The value of this item.
    pub closed spec fn value(&self) -> T {
        *self.data
    }

    /// The item names no neighbour.
    pub closed spec fn alone(&self) -> bool {
        self.prev is None && self.next is None
    }
}

/// A list that holds one value at least, and whose items know the item
/// before and the item after.
pub struct DoublyLinkedList<T> {
    head: usize,
    nodes: Vec<Node<T>>,
}

impl<T> View for DoublyLinkedList<T> {
    type V = Seq<T>;

    /// The values, first to last.
    closed spec fn view(&self) -> Seq<T> {
        Seq::new(self.nodes@.len(), |k: int| *self.nodes@[k].data)
    }
}

/// The item at place `k` of `nodes` names the places beside it.
spec fn chained<T>(nodes: Seq<Node<T>>, k: int) -> bool {
    &&& match nodes[k].prev {
        None => k == 0,
        Some(p) => p == k - 1,
    }
    &&& match nodes[k].next {
        None => k + 1 == nodes.len(),
        Some(n) => n == k + 1 && n < nodes.len(),
    }
}

impl<T> DoublyLinkedList<T> {
    /// The list is sound: it starts at its head, and from every item the
    /// links lead to the item before and the item after.
    pub closed spec fn wf(&self) -> bool {
        &&& self.head == 0
        &&& self.nodes@.len() > 0
        &&& forall|k: int| 0 <= k < self.nodes@.len() ==> #[trigger] chained(self.nodes@, k)
    }

    /// A list of the one value `data`.
    pub fn new(data: T) -> (list: Self)
        ensures
            list.wf(),
            list@ == seq![data],
    {
        let mut nodes: Vec<Node<T>> = Vec::new();
        nodes.push(Node::new(data));
        let list = DoublyLinkedList { head: 0, nodes };
        assert(chained(list.nodes@, 0));
        assert(list@ =~= seq![data]);
        list
    }

    /// The place of the last item, found by following the links from `item`.
    fn find_tail(&self, item: usize) -> (tail: usize)
        requires
            self.wf(),
            item < self.nodes@.len(),
        ensures
            tail == self.nodes@.len() - 1,
        decreases self.nodes@.len() - item,
    {
        assert(chained(self.nodes@, item as int));
        match self.nodes[item].next {
            Some(next) => {
                assert(next == item + 1);
                self.find_tail(next)
            },
            None => item,
        }
    }

    /// Puts `data` at the end.
    pub fn append(&mut self, data: T)
        requires
            old(self).wf(),
        ensures
            final(self).wf(),
            final(self)@ == old(self)@.push(data),
    {
        let tail = self.find_tail(self.head);
        let mut new_item = Node::new(data);
        new_item.prev = Some(tail);
        let place = self.nodes.len();
        self.nodes.push(new_item);
        assert(chained(old(self).nodes@, tail as int));
        self.nodes[tail].next = Some(place);
        proof {
            assert forall|k: int| 0 <= k < self.nodes@.len() implies #[trigger] chained(
                self.nodes@,
                k,
            ) by {
                if k < old(self).nodes@.len() {
                    assert(chained(old(self).nodes@, k));
                }
            }
            assert(self@ =~= old(self)@.push(data));
        }
    }

    /// The first item.
    pub fn head(&self) -> (node: &Node<T>)
        requires
            self.wf(),
        ensures
            node.value() == self@.first(),
    {
        &self.nodes[self.head]
    }

    /// The last item.
    pub fn tail(&self) -> (node: &Node<T>)
        requires
            self.wf(),
        ensures
            node.value() == self@.last(),
    {
        let tail = self.find_tail(self.head);
        &self.nodes[tail]
    }
}

/// The name of the family of systems that this runs on.
pub fn get_platform() -> (name: String)
    ensures
        name@ == "UNIX"@,
{
    "UNIX".to_owned()
}

/// A name together with its length in bytes.
pub struct NameLengthCow {
    name: String,
    length: usize,
}

impl NameLengthCow {
    /// The name.
    pub closed spec fn name(&self) -> Seq<char> {
        self.name@
    }

    /// The length that is kept with the name.
    pub closed spec fn length(&self) -> usize {
        self.length
    }

    /// The name `name` with its length, which the caller need not give.
    pub fn new(name: &str) -> (kept: Self)
        ensures
            kept.name() == name@,
            kept.length() == name.spec_bytes().len() as usize,
    {
        NameLengthCow { length: name.len(), name: name.to_owned() }
    }
}

/// `copy` holds a copy of each value of `source`, in order.
pub open spec fn copies<T: Clone>(source: Seq<T>, copy: Seq<T>) -> bool {
    &&& copy.len() == source.len()
    &&& forall|i: int| 0 <= i < source.len() ==> cloned::<T>(source[i], #[trigger] copy[i])
}

impl<T: Clone> ListItem<T> {
    /// An item that is the last one.
    pub fn new_cow(data: T) -> (item: Self)
        ensures
            item.values() == seq![data],
    {
        ListItem { data: Box::new(data), next: None }
    }

    /// The item after this one, if there is one.
    pub fn next_cow(&self) -> (item: Option<&Self>)
        ensures
            match item {
                Some(next) => self.values() == seq![self.values()[0]] + next.values(),
                None => self.values().len() == 1,
            },
    {
        self.next()
    }

    /// The last item, open to change.
    pub fn mut_tail_cow(&mut self) -> (tail: &mut Self)
        ensures
            tail.values() == seq![old(self).values().last()],
            final(self).values() == old(self).values().drop_last() + final(tail).values(),
    {
        self.mut_tail()
    }

    /// The value of this item.
    pub fn data_cow(&self) -> (value: &T)
        ensures
            *value == self.values()[0],
    {
        self.data()
    }

    /// A list of copies of the values from this item on.
    fn copy(&self) -> (made: Self)
        ensures
            copies(self.values(), made.values()),
        decreases self,
    {
        let data = (*self.data).clone();
        match &self.next {
            None => {
                let made = ListItem { data: Box::new(data), next: None };
                assert(made.values()[0] == data);
                made
            },
            Some(next) => {
                let rest = next.copy();
                let made = ListItem { data: Box::new(data), next: Some(Box::new(rest)) };
                proof {
                    assert forall|i: int| 0 <= i < self.values().len() implies cloned::<T>(
                        self.values()[i],
                        #[trigger] made.values()[i],
                    ) by {
                        if i > 0 {
                            assert(self.values()[i] == next.values()[i - 1]);
                            assert(made.values()[i] == rest.values()[i - 1]);
                        }
                    }
                }
                made
            },
        }
    }
}

/// A list that is copied when it is written to: appending leaves the list
/// as it is and returns a longer one.
pub struct SinglyLinkedListCow<T: Clone> {
    head: ListItem<T>,
}

impl<T: Clone> View for SinglyLinkedListCow<T> {
    type V = Seq<T>;

    /// The values, first to last.
    closed spec fn view(&self) -> Seq<T> {
        self.head.values()
    }
}

impl<T: Clone> SinglyLinkedListCow<T> {
    /// A list of the one value `data`.
    pub fn new(data: T) -> (list: Self)
        ensures
            list@ == seq![data],
    {
        SinglyLinkedListCow { head: ListItem::new(data) }
    }

    /// A list of copies of the values of this one, with `data` at the end.
    pub fn append(&self, data: T) -> (longer: Self)
        ensures
            longer@.len() == self@.len() + 1,
            longer@.last() == data,
            copies(self@, longer@.drop_last()),
    {
        let mut head = self.head.copy();
        let ghost copied = head.values();
        proof {
            head.lemma_values_start();
        }
        let tail = head.mut_tail();
        let ghost last = tail.values();
        tail.next = Some(Box::new(ListItem::new(data)));
        proof {
            assert(tail.values() =~= last.push(data));
            assert(copied.drop_last() + seq![copied.last()].push(data) =~= copied.push(data));
            assert(copied.push(data).drop_last() =~= copied);
        }
        SinglyLinkedListCow { head }
    }

    /// The first item.
    pub fn head(&self) -> (item: &ListItem<T>)
        ensures
            item.values() == self@,
    {
        &self.head
    }
}

} // verus!

//! A double-ended list whose nodes live in one owning arena and are linked
//! to their neighbours by slot index.

use vstd::prelude::*;

verus! {

/// One element with the slots of its neighbours.
pub struct Node<T> {
    data: T,
    prev: Option<usize>,
    next: Option<usize>,
}

impl<T> Node<T> {
    /// A node that is linked to nothing.
    fn new(data: T) -> (node: Self)
        ensures
            node.data == data,
            node.prev is None,
            node.next is None,
    {
        Node { data, prev: None, next: None }
    }
}

/// The slot that precedes position `k` of `order`, if any.
spec fn before(order: Seq<usize>, k: int) -> Option<usize> {
    if k == 0 {
        None
    } else {
        Some(order[k - 1])
    }
}

/// The slot that follows position `k` of `order`, if any.
spec fn after(order: Seq<usize>, k: int) -> Option<usize> {
    if k + 1 == order.len() {
        None
    } else {
        Some(order[k + 1])
    }
}

/// The node at position `k` is stored, and its links name its neighbours.
spec fn linked<T>(slots: Seq<Option<Node<T>>>, order: Seq<usize>, k: int) -> bool {
    let i = order[k] as int;
    &&& i < slots.len()
    &&& slots[i] is Some
    &&& slots[i]->0.prev == before(order, k)
    &&& slots[i]->0.next == after(order, k)
}

/// Slot `i` exists and holds no node.
spec fn vacant<T>(slots: Seq<Option<Node<T>>>, i: usize) -> bool {
    i < slots.len() && slots[i as int] is None
}

/// No slot occurs twice.
spec fn distinct(s: Seq<usize>) -> bool {
    forall|a: int, b: int| 0 <= a < b < s.len() ==> s[a] != s[b]
}

/// The first slot of `order`, if any.
spec fn first_of(order: Seq<usize>) -> Option<usize> {
    if order.len() == 0 {
        None
    } else {
        Some(order[0])
    }
}

/// The last slot of `order`, if any.
spec fn last_of(order: Seq<usize>) -> Option<usize> {
    if order.len() == 0 {
        None
    } else {
        Some(order[order.len() - 1])
    }
}

/// The values stored along `order`.
spec fn values<T>(slots: Seq<Option<Node<T>>>, order: Seq<usize>) -> Seq<T> {
    Seq::new(order.len(), |k: int| slots[order[k] as int]->0.data)
}

/// What the list holds after `value` went in at the front.
pub open spec fn after_prepend<T>(s: Seq<T>, value: T) -> Seq<T> {
    seq![value] + s
}

/// What the list holds after `value` went in at the back.
pub open spec fn after_push<T>(s: Seq<T>, value: T) -> Seq<T> {
    s.push(value)
}

/// The value at the front, if there is one.
pub open spec fn front_of<T>(s: Seq<T>) -> Option<T> {
    if s.len() == 0 {
        None
    } else {
        Some(s.first())
    }
}

/// The value at the back, if there is one.
pub open spec fn back_of<T>(s: Seq<T>) -> Option<T> {
    if s.len() == 0 {
        None
    } else {
        Some(s.last())
    }
}

/// What the list holds after its front value was taken; an empty list stays empty.
pub open spec fn after_shift<T>(s: Seq<T>) -> Seq<T> {
    if s.len() == 0 {
        s
    } else {
        s.drop_first()
    }
}

/// What the list holds after its back value was taken; an empty list stays empty.
pub open spec fn after_pop<T>(s: Seq<T>) -> Seq<T> {
    if s.len() == 0 {
        s
    } else {
        s.drop_last()
    }
}

/// A double-ended list.
///
/// Nodes are kept in `slots`; `head` and `tail` name the slots of the first
/// and last node, and every node names the slots of its neighbours. Slots
/// that were emptied are remembered in `free` and used again.
pub struct List<T> {
    head: Option<usize>,
    tail: Option<usize>,
    slots: Vec<Option<Node<T>>>,
    free: Vec<usize>,
    order: Ghost<Seq<usize>>,
}

impl<T> View for List<T> {
    type V = Seq<T>;

    /// The values from front to back.
    closed spec fn view(&self) -> Seq<T> {
        values(self.slots@, self.order@)
    }
}

impl<T> List<T> {
    /// The structure is sound: following `next` from `head` visits every node
    /// once and ends at `tail`, following `prev` from `tail` ends at `head`,
    /// and `head` is present exactly when `tail` is.
    pub closed spec fn wf(&self) -> bool {
        let order = self.order@;
        &&& distinct(order)
        &&& forall|k: int| 0 <= k < order.len() ==> #[trigger] linked(self.slots@, order, k)
        &&& self.head == first_of(order)
        &&& self.tail == last_of(order)
        &&& distinct(self.free@)
        &&& forall|j: int| 0 <= j < self.free@.len() ==> vacant(self.slots@, #[trigger] self.free@[j])
    }

    /// An empty list.
    pub fn new() -> (list: Self)
        ensures
            list.wf(),
            list@ == Seq::<T>::empty(),
    {
        List { head: None, tail: None, slots: Vec::new(), free: Vec::new(), order: Ghost(Seq::empty()) }
    }

    /// Stores `node` in a vacant slot and returns the slot.
    fn store(&mut self, node: Node<T>) -> (i: usize)
        requires
            distinct(old(self).free@),
            forall|j: int|
                0 <= j < old(self).free@.len() ==> vacant(old(self).slots@, #[trigger] old(self).free@[j]),
        ensures
            final(self).head == old(self).head,
            final(self).tail == old(self).tail,
            final(self).order == old(self).order,
            distinct(final(self).free@),
            forall|j: int|
                0 <= j < final(self).free@.len() ==> vacant(
                    final(self).slots@,
                    #[trigger] final(self).free@[j],
                ),
            i < final(self).slots@.len(),
            final(self).slots@[i as int] == Some(node),
            final(self).slots@.len() >= old(self).slots@.len(),
            forall|s: int|
                0 <= s < old(self).slots@.len() && s != i ==> final(self).slots@[s] == old(
                    self,
                ).slots@[s],
            i < old(self).slots@.len() ==> old(self).slots@[i as int] is None,
    {
        match self.free.pop() {
            Some(i) => {
                assert(vacant(old(self).slots@, old(self).free@[old(self).free@.len() - 1]));
                self.slots[i] = Some(node);
                assert forall|j: int| 0 <= j < self.free@.len() implies vacant(
                    self.slots@,
                    #[trigger] self.free@[j],
                ) by {
                    assert(vacant(old(self).slots@, old(self).free@[j]));
                }
                i
            },
            None => {
                self.slots.push(Some(node));
                self.slots.len() - 1
            },
        }
    }

    /// Writes `prev` into the node of slot `i`.
    fn set_prev(&mut self, i: usize, prev: Option<usize>)
        requires
            i < old(self).slots@.len(),
            old(self).slots@[i as int] is Some,
        ensures
            final(self).head == old(self).head,
            final(self).tail == old(self).tail,
            final(self).order == old(self).order,
            final(self).free == old(self).free,
            final(self).slots@ == old(self).slots@.update(
                i as int,
                Some(Node { prev, ..old(self).slots@[i as int]->0 }),
            ),
    {
        match &mut self.slots[i] {
            Some(node) => {
                node.prev = prev;
            },
            None => {},
        }
    }

    /// Writes `next` into the node of slot `i`.
    fn set_next(&mut self, i: usize, next: Option<usize>)
        requires
            i < old(self).slots@.len(),
            old(self).slots@[i as int] is Some,
        ensures
            final(self).head == old(self).head,
            final(self).tail == old(self).tail,
            final(self).order == old(self).order,
            final(self).free == old(self).free,
            final(self).slots@ == old(self).slots@.update(
                i as int,
                Some(Node { next, ..old(self).slots@[i as int]->0 }),
            ),
    {
        match &mut self.slots[i] {
            Some(node) => {
                node.next = next;
            },
            None => {},
        }
    }

    /// Puts `data` at the back.
    pub fn push(&mut self, data: T)
        requires
            old(self).wf(),
        ensures
            final(self).wf(),
            final(self)@ == after_push(old(self)@, data),
    {
        let ghost order = self.order@;
        let old_tail = self.tail;
        let mut node = Node::new(data);
        node.prev = old_tail;
        let i = self.store(node);
        proof {
            assert forall|k: int| 0 <= k < order.len() implies order[k] != i by {
                assert(linked(old(self).slots@, order, k));
            }
        }
        match old_tail {
            Some(t) => {
                assert(linked(old(self).slots@, order, order.len() - 1));
                self.set_next(t, Some(i));
            },
            None => {
                self.head = Some(i);
            },
        }
        self.tail = Some(i);
        self.order = Ghost(order.push(i));
        proof {
            let grown = order.push(i);
            assert forall|k: int| 0 <= k < grown.len() implies #[trigger] linked(
                self.slots@,
                grown,
                k,
            ) by {
                if k < order.len() {
                    assert(linked(old(self).slots@, order, k));
                }
            }
            assert(self@ =~= after_push(old(self)@, data)) by {
                assert forall|k: int| 0 <= k < order.len() implies self@[k] == old(self)@[k] by {
                    assert(linked(old(self).slots@, order, k));
                }
            }
        }
    }

    /// Puts `data` at the front.
    pub fn prepend(&mut self, data: T)
        requires
            old(self).wf(),
        ensures
            final(self).wf(),
            final(self)@ == after_prepend(old(self)@, data),
    {
        let ghost order = self.order@;
        let old_head = self.head;
        let mut node = Node::new(data);
        node.next = old_head;
        let i = self.store(node);
        proof {
            assert forall|k: int| 0 <= k < order.len() implies order[k] != i by {
                assert(linked(old(self).slots@, order, k));
            }
        }
        match old_head {
            Some(h) => {
                assert(linked(old(self).slots@, order, 0));
                self.set_prev(h, Some(i));
            },
            None => {
                self.tail = Some(i);
            },
        }
        self.head = Some(i);
        self.order = Ghost(seq![i] + order);
        proof {
            let grown = seq![i] + order;
            assert forall|k: int| 0 <= k < grown.len() implies #[trigger] linked(
                self.slots@,
                grown,
                k,
            ) by {
                if k > 0 {
                    assert(linked(old(self).slots@, order, k - 1));
                }
            }
            assert(self@ =~= after_prepend(old(self)@, data)) by {
                assert forall|k: int| 0 < k < grown.len() implies self@[k] == old(self)@[k - 1] by {
                    assert(linked(old(self).slots@, order, k - 1));
                }
            }
        }
    }

    /// Takes the value at the back; `None` when the list is empty.
    pub fn pop(&mut self) -> (value: Option<T>)
        requires
            old(self).wf(),
        ensures
            final(self).wf(),
            value == back_of(old(self)@),
            final(self)@ == after_pop(old(self)@),
    {
        let ghost order = self.order@;
        match self.tail {
            None => None,
            Some(t) => {
                let ghost last = order.len() - 1;
                assert(linked(old(self).slots@, order, last));
                let node = self.slots[t].take().unwrap();
                match node.prev {
                    Some(p) => {
                        assert(linked(old(self).slots@, order, last - 1));
                        self.set_next(p, None);
                        self.tail = Some(p);
                    },
                    None => {
                        self.head = None;
                        self.tail = None;
                    },
                }
                proof {
                    assert forall|j: int| 0 <= j < self.free@.len() implies self.free@[j] != t by {
                        assert(vacant(old(self).slots@, old(self).free@[j]));
                    }
                }
                self.free.push(t);
                self.order = Ghost(order.drop_last());
                proof {
                    let rest = order.drop_last();
                    assert forall|k: int| 0 <= k < rest.len() implies #[trigger] linked(
                        self.slots@,
                        rest,
                        k,
                    ) by {
                        assert(linked(old(self).slots@, order, k));
                    }
                    assert forall|j: int| 0 <= j < self.free@.len() implies vacant(
                        self.slots@,
                        #[trigger] self.free@[j],
                    ) by {
                        if j < old(self).free@.len() {
                            assert(vacant(old(self).slots@, old(self).free@[j]));
                        }
                    }
                    assert(self@ =~= after_pop(old(self)@)) by {
                        assert forall|k: int| 0 <= k < rest.len() implies self@[k] == old(self)@[k] by {
                            assert(linked(old(self).slots@, order, k));
                        }
                    }
                }
                Some(node.data)
            },
        }
    }

    /// Takes the value at the front; `None` when the list is empty.
    pub fn shift(&mut self) -> (value: Option<T>)
        requires
            old(self).wf(),
        ensures
            final(self).wf(),
            value == front_of(old(self)@),
            final(self)@ == after_shift(old(self)@),
    {
        let ghost order = self.order@;
        match self.head {
            None => None,
            Some(h) => {
                assert(linked(old(self).slots@, order, 0));
                let node = self.slots[h].take().unwrap();
                match node.next {
                    Some(n) => {
                        assert(linked(old(self).slots@, order, 1));
                        self.set_prev(n, None);
                        self.head = Some(n);
                    },
                    None => {
                        self.head = None;
                        self.tail = None;
                    },
                }
                proof {
                    assert forall|j: int| 0 <= j < self.free@.len() implies self.free@[j] != h by {
                        assert(vacant(old(self).slots@, old(self).free@[j]));
                    }
                }
                self.free.push(h);
                self.order = Ghost(order.drop_first());
                proof {
                    let rest = order.drop_first();
                    assert forall|k: int| 0 <= k < rest.len() implies #[trigger] linked(
                        self.slots@,
                        rest,
                        k,
                    ) by {
                        assert(linked(old(self).slots@, order, k + 1));
                    }
                    assert forall|j: int| 0 <= j < self.free@.len() implies vacant(
                        self.slots@,
                        #[trigger] self.free@[j],
                    ) by {
                        if j < old(self).free@.len() {
                            assert(vacant(old(self).slots@, old(self).free@[j]));
                        }
                    }
                    assert(self@ =~= after_shift(old(self)@)) by {
                        assert forall|k: int| 0 <= k < rest.len() implies self@[k] == old(self)@[k
                            + 1] by {
                            assert(linked(old(self).slots@, order, k + 1));
                        }
                    }
                }
                Some(node.data)
            },
        }
    }

    /// The value at the front, left where it is.
    pub fn peek_front(&self) -> (value: Option<&T>)
        requires
            self.wf(),
        ensures
            match value {
                Some(v) => front_of(self@) == Some(*v),
                None => front_of(self@) is None,
            },
    {
        match self.head {
            None => None,
            Some(h) => {
                assert(linked(self.slots@, self.order@, 0));
                match &self.slots[h] {
                    Some(node) => Some(&node.data),
                    None => None,
                }
            },
        }
    }

    /// The value at the back, left where it is.
    pub fn peek_back(&self) -> (value: Option<&T>)
        requires
            self.wf(),
        ensures
            match value {
                Some(v) => back_of(self@) == Some(*v),
                None => back_of(self@) is None,
            },
    {
        match self.tail {
            None => None,
            Some(t) => {
                assert(linked(self.slots@, self.order@, self.order@.len() - 1));
                match &self.slots[t] {
                    Some(node) => Some(&node.data),
                    None => None,
                }
            },
        }
    }

    /// The value at the back, open to change in place.
    pub fn peek_back_mut(&mut self) -> (value: Option<&mut T>)
        requires
            old(self).wf(),
        ensures
            match value {
                Some(v) => {
                    &&& back_of(old(self)@) == Some(*v)
                    &&& final(self).wf()
                    &&& final(self)@ == old(self)@.update(old(self)@.len() - 1, *final(v))
                },
                None => {
                    &&& back_of(old(self)@) is None
                    &&& final(self).wf()
                    &&& final(self)@ == old(self)@
                },
            },
    {
        match self.tail {
            None => None,
            Some(t) => {
                proof {
                    lemma_value_may_change(
                        self.slots@,
                        self.order@,
                        self.free@,
                        self.order@.len() - 1,
                    );
                }
                match &mut self.slots[t] {
                    Some(node) => Some(&mut node.data),
                    None => None,
                }
            },
        }
    }

    /// The value at the front, open to change in place.
    pub fn peek_front_mut(&mut self) -> (value: Option<&mut T>)
        requires
            old(self).wf(),
        ensures
            match value {
                Some(v) => {
                    &&& front_of(old(self)@) == Some(*v)
                    &&& final(self).wf()
                    &&& final(self)@ == old(self)@.update(0, *final(v))
                },
                None => {
                    &&& front_of(old(self)@) is None
                    &&& final(self).wf()
                    &&& final(self)@ == old(self)@
                },
            },
    {
        match self.head {
            None => None,
            Some(h) => {
                proof {
                    lemma_value_may_change(self.slots@, self.order@, self.free@, 0);
                }
                match &mut self.slots[h] {
                    Some(node) => Some(&mut node.data),
                    None => None,
                }
            },
        }
    }

    /// Takes every value out, front first, until nothing is left.
    pub fn clear(&mut self)
        requires
            old(self).wf(),
        ensures
            final(self).wf(),
            final(self)@ == Seq::<T>::empty(),
    {
        let mut more = self.shift().is_some();
        while more
            invariant
                self.wf(),
                !more ==> self@.len() == 0,
            decreases self@.len() + if more { 1nat } else { 0nat },
        {
            more = self.shift().is_some();
        }
        assert(self@ =~= Seq::<T>::empty());
    }

    /// Hands the list over to be consumed from either end.
    pub fn into_iter(self) -> (iter: IntoIter<T>)
        requires
            self.wf(),
        ensures
            iter.wf(),
            iter@ == self@,
    {
        IntoIter(self)
    }
}

/// `now` is `before` but for the value of the node in slot `i`.
spec fn value_replaced<T>(before: Seq<Option<Node<T>>>, now: Seq<Option<Node<T>>>, i: int) -> bool {
    &&& 0 <= i < before.len()
    &&& before[i] is Some
    &&& now[i] is Some
    &&& now == before.update(i, Some(Node { data: now[i]->0.data, ..before[i]->0 }))
}

/// Replacing the value of the node at position `at`, and nothing else, keeps
/// every link and every vacant slot, and changes that one value of the list.
proof fn lemma_value_may_change<T>(
    before: Seq<Option<Node<T>>>,
    order: Seq<usize>,
    free: Seq<usize>,
    at: int,
)
    requires
        0 <= at < order.len(),
        distinct(order),
        forall|k: int| 0 <= k < order.len() ==> #[trigger] linked(before, order, k),
        forall|j: int| 0 <= j < free.len() ==> vacant(before, #[trigger] free[j]),
    ensures
        linked(before, order, at),
        forall|now: Seq<Option<Node<T>>>, k: int|
            value_replaced(before, now, order[at] as int) && 0 <= k < order.len()
                ==> #[trigger] linked(now, order, k),
        forall|now: Seq<Option<Node<T>>>, j: int|
            value_replaced(before, now, order[at] as int) && 0 <= j < free.len()
                ==> #[trigger] vacant(now, free[j]),
        forall|now: Seq<Option<Node<T>>>|
            value_replaced(before, now, order[at] as int) ==> #[trigger] values(now, order)
                == values(before, order).update(at, now[order[at] as int]->0.data),
{
    assert(linked(before, order, at));
    assert forall|now: Seq<Option<Node<T>>>, k: int|
        value_replaced(before, now, order[at] as int) && 0 <= k < order.len()
        implies #[trigger] linked(now, order, k) by {
        assert(linked(before, order, k));
    }
    assert forall|now: Seq<Option<Node<T>>>, j: int|
        value_replaced(before, now, order[at] as int) && 0 <= j < free.len()
        implies #[trigger] vacant(now, free[j]) by {
        assert(vacant(before, free[j]));
    }
    assert forall|now: Seq<Option<Node<T>>>|
        value_replaced(before, now, order[at] as int) implies #[trigger] values(now, order)
        == values(before, order).update(at, now[order[at] as int]->0.data) by {
        assert forall|k: int| 0 <= k < order.len() && k != at implies values(now, order)[k]
            == values(before, order)[k] by {
            assert(linked(before, order, k));
        }
        assert(values(now, order) =~= values(before, order).update(
            at,
            now[order[at] as int]->0.data,
        ));
    }
}

/// Consumes a list from both ends.
pub struct IntoIter<T>(List<T>);

impl<T> View for IntoIter<T> {
    type V = Seq<T>;

    /// The values still to come, front to back.
    closed spec fn view(&self) -> Seq<T> {
        self.0@
    }
}

impl<T> IntoIter<T> {
    /// The list inside is sound.
    pub closed spec fn wf(&self) -> bool {
        self.0.wf()
    }

    /// The next value from the front.
    pub fn next(&mut self) -> (value: Option<T>)
        requires
            old(self).wf(),
        ensures
            final(self).wf(),
            value == front_of(old(self)@),
            final(self)@ == after_shift(old(self)@),
    {
        self.0.shift()
    }

    /// The next value from the back.
    pub fn next_back(&mut self) -> (value: Option<T>)
        requires
            old(self).wf(),
        ensures
            final(self).wf(),
            value == back_of(old(self)@),
            final(self)@ == after_pop(old(self)@),
    {
        self.0.pop()
    }
}

/// What the list holds after the values of `values` went in at the back, first to last.
pub open spec fn after_pushes<T>(s: Seq<T>, values: Seq<T>) -> Seq<T>
    decreases values.len(),
{
    if values.len() == 0 {
        s
    } else {
        after_push(after_pushes(s, values.drop_last()), values.last())
    }
}

/// What the list holds after the values of `values` went in at the front, first to last.
pub open spec fn after_prepends<T>(s: Seq<T>, values: Seq<T>) -> Seq<T>
    decreases values.len(),
{
    if values.len() == 0 {
        s
    } else {
        after_prepend(after_prepends(s, values.drop_last()), values.last())
    }
}

/// What `n` takes from the back return, in the order in which they return it.
pub open spec fn popped<T>(s: Seq<T>, n: nat) -> Seq<Option<T>>
    decreases n,
{
    if n == 0 {
        Seq::empty()
    } else {
        seq![back_of(s)] + popped(after_pop(s), (n - 1) as nat)
    }
}

/// What the list holds after `n` takes from the back.
pub open spec fn after_pops<T>(s: Seq<T>, n: nat) -> Seq<T>
    decreases n,
{
    if n == 0 {
        s
    } else {
        after_pops(after_pop(s), (n - 1) as nat)
    }
}

/// What `n` takes from the front return, in the order in which they return it.
pub open spec fn shifted<T>(s: Seq<T>, n: nat) -> Seq<Option<T>>
    decreases n,
{
    if n == 0 {
        Seq::empty()
    } else {
        seq![front_of(s)] + shifted(after_shift(s), (n - 1) as nat)
    }
}

/// What the list holds after `n` takes from the front.
pub open spec fn after_shifts<T>(s: Seq<T>, n: nat) -> Seq<T>
    decreases n,
{
    if n == 0 {
        s
    } else {
        after_shifts(after_shift(s), (n - 1) as nat)
    }
}

/// Each value of `values`, present.
pub open spec fn each_some<T>(values: Seq<T>) -> Seq<Option<T>> {
    Seq::new(values.len(), |k: int| Some(values[k]))
}

/// The back is a stack: a take from the back returns the value that went in
/// at the back last, and leaves the list as it was before that value went in.
pub proof fn law_pop_returns_last_push<T>(s: Seq<T>, value: T)
    ensures
        back_of(after_push(s, value)) == Some(value),
        after_pop(after_push(s, value)) == s,
{
    assert(s.push(value).drop_last() =~= s);
}

/// The front is a stack: a take from the front returns the value that went in
/// at the front last, and leaves the list as it was before that value went in.
pub proof fn law_shift_returns_last_prepend<T>(s: Seq<T>, value: T)
    ensures
        front_of(after_prepend(s, value)) == Some(value),
        after_shift(after_prepend(s, value)) == s,
{
    assert((seq![value] + s).drop_first() =~= s);
}

/// Values that went in at the back come out at the back in exactly the
/// reverse order, after which the list is as it was.
pub proof fn law_pops_reverse_pushes<T>(s: Seq<T>, values: Seq<T>)
    ensures
        popped(after_pushes(s, values), values.len()) == each_some(values.reverse()),
        after_pops(after_pushes(s, values), values.len()) == s,
    decreases values.len(),
{
    if values.len() == 0 {
        assert(popped(after_pushes(s, values), values.len()) =~= each_some(values.reverse()));
    } else {
        let init = values.drop_last();
        let full = after_pushes(s, values);
        law_pop_returns_last_push(after_pushes(s, init), values.last());
        law_pops_reverse_pushes(s, init);
        assert(after_pop(full) == after_pushes(s, init));
        assert(popped(full, values.len()) =~= each_some(values.reverse())) by {
            let rest = popped(after_pushes(s, init), init.len());
            assert(popped(full, values.len()) == seq![Some(values.last())] + rest);
            assert forall|k: int| 0 < k < values.len() implies each_some(values.reverse())[k]
                == each_some(init.reverse())[k - 1] by {}
        }
    }
}

/// Values that went in at the front come out at the front in exactly the
/// reverse order, after which the list is as it was.
pub proof fn law_shifts_reverse_prepends<T>(s: Seq<T>, values: Seq<T>)
    ensures
        shifted(after_prepends(s, values), values.len()) == each_some(values.reverse()),
        after_shifts(after_prepends(s, values), values.len()) == s,
    decreases values.len(),
{
    if values.len() == 0 {
        assert(shifted(after_prepends(s, values), values.len()) =~= each_some(
            values.reverse(),
        ));
    } else {
        let init = values.drop_last();
        let full = after_prepends(s, values);
        law_shift_returns_last_prepend(after_prepends(s, init), values.last());
        law_shifts_reverse_prepends(s, init);
        assert(after_shift(full) == after_prepends(s, init));
        assert(shifted(full, values.len()) =~= each_some(values.reverse())) by {
            let rest = shifted(after_prepends(s, init), init.len());
            assert(shifted(full, values.len()) == seq![Some(values.last())] + rest);
            assert forall|k: int| 0 < k < values.len() implies each_some(values.reverse())[k]
                == each_some(init.reverse())[k - 1] by {}
        }
    }
}

/// On a list that holds something, the value seen at the front is the one
/// that the next take from the front removes: the list is that value
/// followed by what the take leaves. The same holds at the back.
pub proof fn law_peek_names_next_take<T>(s: Seq<T>)
    requires
        s.len() > 0,
    ensures
        front_of(s) is Some,
        after_prepend(after_shift(s), front_of(s)->0) == s,
        back_of(s) is Some,
        after_push(after_pop(s), back_of(s)->0) == s,
{
    assert(seq![s.first()] + s.drop_first() =~= s);
    assert(s.drop_last().push(s.last()) =~= s);
}

/// Taking from the front as often as the list is long returns its values in
/// order and leaves it empty; from then on a take from either end returns
/// nothing and changes nothing.
pub proof fn law_drained_list_gives_nothing<T>(s: Seq<T>)
    ensures
        shifted(s, s.len()) == each_some(s),
        after_shifts(s, s.len()) == Seq::<T>::empty(),
        front_of(after_shifts(s, s.len())) is None,
        back_of(after_shifts(s, s.len())) is None,
        after_shift(after_shifts(s, s.len())) == after_shifts(s, s.len()),
        after_pop(after_shifts(s, s.len())) == after_shifts(s, s.len()),
    decreases s.len(),
{
    if s.len() == 0 {
        assert(s =~= Seq::<T>::empty());
        assert(shifted(s, s.len()) =~= each_some(s));
    } else {
        let rest = s.drop_first();
        law_drained_list_gives_nothing(rest);
        assert(shifted(s, s.len()) =~= each_some(s)) by {
            assert(shifted(s, s.len()) == seq![Some(s.first())] + shifted(rest, rest.len()));
        }
    }
}

/// Takes from the two ends do not disturb each other: in either order they
/// return the same two values and leave the same list, as long as the list
/// holds two values or more.
pub proof fn law_ends_are_independent<T>(s: Seq<T>)
    requires
        s.len() >= 2,
    ensures
        front_of(after_pop(s)) == front_of(s),
        back_of(after_shift(s)) == back_of(s),
        after_shift(after_pop(s)) == after_pop(after_shift(s)),
{
    assert(s.drop_last().drop_first() =~= s.drop_first().drop_last());
}

/// Consuming from both ends visits every value once: `a` takes from the
/// front and then `b` from the back, with `a + b` the length of the list,
/// return the first `a` values in order and the remaining ones in reverse
/// order, and leave nothing.
pub proof fn law_both_ends_exhaust<T>(s: Seq<T>, a: nat, b: nat)
    requires
        a + b == s.len(),
    ensures
        shifted(s, a) == each_some(s.take(a as int)),
        after_shifts(s, a) == s.skip(a as int),
        popped(s.skip(a as int), b) == each_some(s.skip(a as int).reverse()),
        after_pops(s.skip(a as int), b) == Seq::<T>::empty(),
    decreases s.len(),
{
    if a > 0 {
        let rest = s.drop_first();
        law_both_ends_exhaust(rest, (a - 1) as nat, b);
        assert(rest.skip(a - 1) =~= s.skip(a as int));
        assert(shifted(s, a) =~= each_some(s.take(a as int))) by {
            assert(shifted(s, a) == seq![Some(s.first())] + shifted(rest, (a - 1) as nat));
            assert forall|k: int| 0 < k < a implies each_some(s.take(a as int))[k] == each_some(
                rest.take(a - 1),
            )[k - 1] by {}
        }
    } else {
        assert(s.skip(0) =~= s);
        assert(shifted(s, a) =~= each_some(s.take(a as int)));
        if b > 0 {
            let rest = s.drop_last();
            law_both_ends_exhaust(rest, 0, (b - 1) as nat);
            assert(rest.skip(0) =~= rest);
            assert(popped(s, b) =~= each_some(s.reverse())) by {
                assert(popped(s, b) == seq![Some(s.last())] + popped(rest, (b - 1) as nat));
                assert forall|k: int| 0 < k < b implies each_some(s.reverse())[k] == each_some(
                    rest.reverse(),
                )[k - 1] by {}
            }
        } else {
            assert(s =~= Seq::<T>::empty());
            assert(popped(s, b) =~= each_some(s.reverse()));
        }
    }
}

} // verus!

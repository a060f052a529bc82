use stockrs::guide::linkedlist_double::List;

#[test]
fn basics() {
    let mut list = List::new();

    // Check empty list behaves right
    assert_eq!(list.shift(), None);

    // Populate list
    list.prepend(1);
    list.prepend(2);
    list.prepend(3);

    // Check normal removal
    assert_eq!(list.shift(), Some(3));
    assert_eq!(list.shift(), Some(2));

    // Push some more just to make sure nothing's corrupted
    list.prepend(4);
    list.prepend(5);

    // Check normal removal
    assert_eq!(list.shift(), Some(5));
    assert_eq!(list.shift(), Some(4));

    // Check exhaustion
    assert_eq!(list.shift(), Some(1));
    assert_eq!(list.shift(), None);

    // ---- back -----

    // Check empty list behaves right
    assert_eq!(list.pop(), None);

    // Populate list
    list.push(1);
    list.push(2);
    list.push(3);

    // Check normal removal
    assert_eq!(list.pop(), Some(3));
    assert_eq!(list.pop(), Some(2));

    // Push some more just to make sure nothing's corrupted
    list.push(4);
    list.push(5);

    // Check normal removal
    assert_eq!(list.pop(), Some(5));
    assert_eq!(list.pop(), Some(4));

    // Check exhaustion
    assert_eq!(list.pop(), Some(1));
    assert_eq!(list.pop(), None);
}

#[test]
fn peek() {
    let mut list = List::new();
    assert!(list.peek_front().is_none());
    assert!(list.peek_back().is_none());
    assert!(list.peek_front_mut().is_none());
    assert!(list.peek_back_mut().is_none());

    list.prepend(1);
    list.prepend(2);
    list.prepend(3);

    assert_eq!(&*list.peek_front().unwrap(), &3);
    assert_eq!(&mut *list.peek_front_mut().unwrap(), &mut 3);
    assert_eq!(&*list.peek_back().unwrap(), &1);
    assert_eq!(&mut *list.peek_back_mut().unwrap(), &mut 1);
}

#[test]
fn into_iter() {
    let mut list = List::new();
    list.prepend(1);
    list.prepend(2);
    list.prepend(3);

    let mut iter = list.into_iter();
    assert_eq!(iter.next(), Some(3));
    assert_eq!(iter.next_back(), Some(1));
    assert_eq!(iter.next(), Some(2));
    assert_eq!(iter.next_back(), None);
    assert_eq!(iter.next(), None);
}

#[test]
fn stack_at_each_end() {
    let mut list = List::new();
    for v in 0..50 {
        list.push(v);
    }
    for v in (0..50).rev() {
        assert_eq!(list.pop(), Some(v));
    }
    assert_eq!(list.pop(), None);
    for v in 0..50 {
        list.prepend(v);
    }
    for v in (0..50).rev() {
        assert_eq!(list.shift(), Some(v));
    }
    assert_eq!(list.shift(), None);
}

#[test]
fn interleaved_pushes_and_pops() {
    let mut list = List::new();
    list.push("a");
    list.push("b");
    assert_eq!(list.pop(), Some("b"));
    list.push("c");
    list.prepend("z");
    assert_eq!(list.pop(), Some("c"));
    assert_eq!(list.pop(), Some("a"));
    assert_eq!(list.pop(), Some("z"));
    assert_eq!(list.pop(), None);
    assert_eq!(list.shift(), None);
}

#[test]
fn peek_front_is_what_shift_takes() {
    let mut list = List::new();
    list.push(7);
    list.push(8);
    list.push(9);
    let seen = *list.peek_front().unwrap();
    assert_eq!(seen, 7);
    assert_eq!(*list.peek_front().unwrap(), 7);
    assert_eq!(list.shift(), Some(seen));
    let seen = *list.peek_back().unwrap();
    assert_eq!(list.pop(), Some(seen));
    assert_eq!(list.shift(), Some(8));
}

#[test]
fn drained_list_gives_nothing() {
    let mut list = List::new();
    list.push(1);
    list.push(2);
    assert_eq!(list.shift(), Some(1));
    assert_eq!(list.shift(), Some(2));
    assert_eq!(list.shift(), None);
    assert_eq!(list.pop(), None);
    assert!(list.peek_front().is_none());
    list.push(3);
    assert_eq!(list.pop(), Some(3));
}

#[test]
fn peek_mut_changes_the_value_in_place() {
    let mut list = List::new();
    list.push(String::from("front"));
    list.push(String::from("middle"));
    list.push(String::from("back"));
    list.peek_front_mut().unwrap().push_str("!");
    *list.peek_back_mut().unwrap() = String::from("end");
    assert_eq!(list.shift(), Some(String::from("front!")));
    assert_eq!(list.shift(), Some(String::from("middle")));
    assert_eq!(list.shift(), Some(String::from("end")));
    assert_eq!(list.shift(), None);
}

#[test]
fn clear_empties_the_list() {
    let mut list = List::new();
    for v in 0..10 {
        list.prepend(v);
    }
    list.clear();
    assert_eq!(list.shift(), None);
    assert_eq!(list.pop(), None);
    list.push(1);
    list.prepend(0);
    assert_eq!(list.pop(), Some(1));
    assert_eq!(list.pop(), Some(0));
}

#[test]
fn slots_are_reused_without_mixing_values() {
    let mut list = List::new();
    for round in 0..20 {
        list.push(round);
        list.prepend(round + 100);
        list.push(round + 200);
        assert_eq!(list.shift(), Some(round + 100));
        assert_eq!(list.pop(), Some(round + 200));
    }
    for round in 0..20 {
        assert_eq!(list.shift(), Some(round));
    }
    assert_eq!(list.shift(), None);
}

#[test]
fn both_ends_meet_in_the_middle() {
    let mut list = List::new();
    for v in 1..=5 {
        list.push(v);
    }
    let mut iter = list.into_iter();
    assert_eq!(iter.next(), Some(1));
    assert_eq!(iter.next_back(), Some(5));
    assert_eq!(iter.next(), Some(2));
    assert_eq!(iter.next_back(), Some(4));
    assert_eq!(iter.next(), Some(3));
    assert_eq!(iter.next(), None);
    assert_eq!(iter.next_back(), None);
}

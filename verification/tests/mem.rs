use stockrs::guide::mem::{get_platform, run_singlylist, DoublyLinkedList, SinglyLinkedList};

#[test]
fn test_doublylist() {
    let mut doublylist = DoublyLinkedList::new("first");
    doublylist.append("second");
    doublylist.append("third");

    assert_eq!(doublylist.head().data().to_string(), "first".to_string());
    assert_eq!(doublylist.tail().data().to_string(), "third".to_string());
}

#[test]
fn doublylist_of_one_has_head_as_tail() {
    let list = DoublyLinkedList::new(5);
    assert_eq!(*list.head().data(), 5);
    assert_eq!(*list.tail().data(), 5);
}

#[test]
fn doublylist_tail_follows_every_append() {
    let mut list = DoublyLinkedList::new(0);
    for v in 1..20 {
        list.append(v);
        assert_eq!(*list.tail().data(), v);
        assert_eq!(*list.head().data(), 0);
    }
}

#[test]
fn singlylist_walk() {
    let mut list = SinglyLinkedList::new("head");
    list.append("middle");
    list.append("tail");
    let mut item = list.head();
    let mut seen = vec![*item.data()];
    while let Some(next) = item.next() {
        seen.push(*next.data());
        item = next;
    }
    assert_eq!(seen, vec!["head", "middle", "tail"]);
}

#[test]
fn singlylist_lines() {
    let lines = run_singlylist();
    assert_eq!(lines, vec!["item: head", "item: middle", "item: tail"]);
}

#[test]
fn platform_name() {
    assert_eq!(get_platform(), "UNIX");
}

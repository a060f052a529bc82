use stockrs::guide::iters::{Counter, Grid, LinkedList};

#[test]
fn test_counter() {
    // Counter can be asked for its next value.
    let mut c = Counter::new();
    assert_eq!(c.next(), Some(1));
    assert_eq!(c.next(), Some(2));
    assert_eq!(c.next(), Some(3));

    let mut cc = Counter::new();
    while let Some(x) = cc.next() {
        if x == 10 {
            break;
        }
    }
}

#[test]
fn test_grid() {
    let grid = Grid {
        x: vec![3, 5, 7, 9],
        y: vec![10, 20, 30, 40],
    };
    let mut walk = grid.into_iter();
    while let Some((x, y)) = walk.next() {
        println!("{x}, {y}");
    }
}

#[test]
fn test_linkedlist_iter() {
    let mut linked_list = LinkedList::new("first");

    linked_list.append("second");
    linked_list.append("third");
    linked_list.append("fourth");

    let mut iter = linked_list.iter();
    while let Some(data) = iter.next() {
        println!("data = {}", data);
    }

    let mut iter_mut = linked_list.iter_mut();
    while let Some(data) = iter_mut.next() {
        println!("data = {}", data);
    }

    let mut walk = linked_list.iter();
    while let Some(data) = walk.next() {
        println!("data: {}", data);
    }

    let mut into_iter = linked_list.into_iter();
    while let Some(data) = into_iter.next() {
        println!("data = {}", data);
    }
}

#[test]
fn counter_stops_below_six() {
    let mut c = Counter::new();
    let mut seen = Vec::new();
    while let Some(x) = c.next() {
        seen.push(x);
    }
    assert_eq!(seen, vec![1, 2, 3, 4, 5]);
    assert_eq!(c.next(), None);
    assert_eq!(c.next(), None);
}

#[test]
fn grid_walks_row_by_row() {
    let grid = Grid { x: vec![3, 5], y: vec![10, 20, 30] };
    let mut walk = grid.into_iter();
    let mut seen = Vec::new();
    while let Some(point) = walk.next() {
        seen.push(point);
    }
    assert_eq!(seen, vec![(3, 10), (5, 10), (3, 20), (5, 20), (3, 30), (5, 30)]);
}

#[test]
fn grid_of_one_point() {
    let grid = Grid { x: vec![1], y: vec![2] };
    let mut walk = grid.into_iter();
    assert_eq!(walk.next(), Some((1, 2)));
    assert_eq!(walk.next(), None);
}

#[test]
fn grid_without_columns_and_one_row_is_empty() {
    let grid = Grid { x: vec![], y: vec![7] };
    let mut walk = grid.into_iter();
    assert_eq!(walk.next(), None);
}

#[test]
fn linked_list_keeps_the_order_of_appends() {
    let mut list = LinkedList::new(1);
    list.append(2);
    list.append(3);
    let mut iter = list.iter();
    assert_eq!(iter.next(), Some(&1));
    assert_eq!(iter.next(), Some(&2));
    assert_eq!(iter.next(), Some(&3));
    assert_eq!(iter.next(), None);
    assert_eq!(iter.next(), None);
}

#[test]
fn linked_list_iter_mut_writes_through() {
    let mut list = LinkedList::new(1);
    list.append(2);
    list.append(3);
    let mut iter = list.iter_mut();
    while let Some(value) = iter.next() {
        *value *= 10;
    }
    let mut taken = Vec::new();
    let mut into_iter = list.into_iter();
    while let Some(value) = into_iter.next() {
        taken.push(value);
    }
    assert_eq!(taken, vec![10, 20, 30]);
}

#[test]
fn linked_list_of_one() {
    let list = LinkedList::new("only");
    let mut into_iter = list.into_iter();
    assert_eq!(into_iter.next(), Some("only"));
    assert_eq!(into_iter.next(), None);
}

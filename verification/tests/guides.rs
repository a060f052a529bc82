use stockrs::guide::builder::{Bicycle, BicycleBuilder, Buildable};
use stockrs::guide::constgen::{from_le_bytes, Buffer, CustomIndex, CustomRangeIndex, LightBulb, WrapperVec};
use stockrs::guide::effective::{
    add_four, even_sum_squared, flatten, iterator_is_king, narrow, OutOfRange,
};
use stockrs::guide::errors::{read_username, ReadUsernameError};
use stockrs::guide::generics::{use_container, use_dog, Container};
use stockrs::guide::iters::{ranked, user_access_count, LogEntry};
use stockrs::guide::macros::{Dog, Golden, Labrador, Poodle};
use stockrs::guide::mem::{NameLengthCow, SinglyLinkedListCow};
use stockrs::guide::strings::{
    handle_error, which_sequence, JapaneseDogBreeds, MyError, StringWrapper, TypicalStruct,
};

#[test]
fn bicycle_is_built_step_by_step() {
    let bicycle = BicycleBuilder::new()
        .with_make("Trek")
        .with_size(52)
        .with_colour("purple")
        .build();
    assert_eq!(bicycle.make(), "Trek");
    assert_eq!(bicycle.model(), "");
    assert_eq!(bicycle.size(), 52);
    assert_eq!(bicycle.colour(), "purple");
}

#[test]
fn with_model_sets_the_make() {
    let bicycle = <Bicycle as Buildable<Bicycle, BicycleBuilder>>::builder()
        .with_make("Trek")
        .with_model("Madone")
        .build();
    assert_eq!(bicycle.make(), "Madone");
    assert_eq!(bicycle.model(), "");
    let built = stockrs::guide::builder::run();
    assert_eq!(built.make(), "Madone");
    assert_eq!(built.size(), 52);
    assert_eq!(built.colour(), "purple");
}

#[test]
fn blank_bicycle() {
    let bicycle = BicycleBuilder::new().build();
    assert_eq!(
        (bicycle.make().as_str(), bicycle.model().as_str(), bicycle.size(), bicycle.colour().as_str()),
        ("", "", 0, "")
    );
}

#[test]
fn buffers_of_fixed_length() {
    let buffer = Buffer::from([1u8, 2, 3]);
    let _: Buffer<u8, 3> = buffer;
    let _: Buffer<u32, 4> = Buffer::from_vec(vec![1, 2, 3, 4]);
    let wrapper = WrapperVec(vec![1, 2, 3]);
    assert_eq!(wrapper.deref().len(), 3);
    assert_eq!(wrapper.into_iter(), vec![1, 2, 3]);
}

#[test]
fn bulb_states() {
    let bulb = LightBulb::default();
    assert_eq!(bulb.state(), "off");
    let bulb = bulb.turn_on();
    assert_eq!(bulb.state(), "on");
    let bulb = bulb.turn_off();
    assert_eq!(bulb.state(), "off");
    assert_eq!(stockrs::guide::constgen::run(), ("off", "on", 0x7788));
}

#[test]
fn indices_checked_against_the_length() {
    let x = [1u8, 2, 4, 8, 16, 32];
    assert_eq!(*CustomIndex::<5>.index(&x), 32);
    assert_eq!(*CustomIndex::<0>.index(&x), 1);
    let x = [0x01u8, 0x03, 0x00, 0x00, 0x88, 0x77, 0x66, 0x55];
    assert_eq!(CustomRangeIndex::<4, 2>.index(&x), &[0x88, 0x77]);
    assert_eq!(CustomRangeIndex::<0, 8>.index(&x), &x);
    assert_eq!(from_le_bytes(0x88, 0x77), 0x7788);
    assert_eq!(from_le_bytes(0xff, 0xff), 0xffff);
}

#[test]
fn containers_and_dogs() {
    let _ = Container::new(5);
    let _ = use_container();
    let poodle = use_dog();
    assert_eq!(poodle.breed_name(), "poodle");
}

#[test]
fn dogs_of_each_breed() {
    let peter = Poodle::new("Peter", 7);
    assert_eq!((peter.name().as_str(), peter.age(), peter.breed().as_str()), ("Peter", 7, "Poodle"));
    let l = Labrador::new("L", 1);
    assert_eq!((l.name().as_str(), l.age(), l.breed().as_str()), ("L", 1, "Labrador"));
    let g = Golden::new("G", 2);
    assert_eq!((g.name().as_str(), g.age(), g.breed().as_str()), ("G", 2, "Golden"));
    let ran = stockrs::guide::macros::run();
    assert_eq!(ran.name(), "Peter");
}

#[test]
fn four_more() {
    assert_eq!(add_four(&2), 6);
    assert_eq!(add_four(&-4), 0);
}

#[test]
fn squares_of_the_first_five_even_values() {
    let values: Vec<u64> = (0..100).collect();
    assert_eq!(even_sum_squared(&values), Some(120));
    assert_eq!(even_sum_squared(&vec![1, 3, 5]), Some(0));
    assert_eq!(even_sum_squared(&vec![2, 3, 4]), Some(20));
    assert_eq!(even_sum_squared(&vec![]), Some(0));
    assert_eq!(even_sum_squared(&vec![1 << 32]), None);
    assert_eq!(even_sum_squared(&vec![2, 2, 2, 2, 2, 1 << 32]), Some(20));
}

#[test]
fn values_that_are_there() {
    assert_eq!(flatten(&vec![Some(1), None, Some(2)]), vec![1, 2]);
    assert_eq!(flatten(&vec![None, None]), Vec::<i32>::new());
}

#[test]
fn narrowing_stops_at_the_first_value_out_of_range() {
    assert_eq!(narrow(&vec![0, 1, 255]), Ok(vec![0, 1, 255]));
    assert_eq!(narrow(&vec![0, 1, 2, 3, 4, 512]), Err(OutOfRange { at: 5 }));
    assert_eq!(narrow(&vec![-1, 512]), Err(OutOfRange { at: 0 }));
    assert_eq!(narrow(&vec![1, 256, -1]), Err(OutOfRange { at: 1 }));
    assert_eq!(iterator_is_king(), Err(OutOfRange { at: 5 }));
}

#[test]
fn user_names_read() {
    match read_username("config.dat", Ok("ann".to_string())) {
        Ok(name) => assert_eq!(name, "ann"),
        Err(_) => panic!("a name was read"),
    }
    match read_username("config.dat", Ok(String::new())) {
        Err(e @ ReadUsernameError::EmptyUsername(_)) => {
            assert_eq!(e.fmt(), "Found no username in config.dat")
        }
        _ => panic!("nothing was read"),
    }
    match read_username("config.dat", Err("gone".to_string())) {
        Err(e @ ReadUsernameError::IoError(_)) => assert_eq!(e.fmt(), "IO error: gone"),
        _ => panic!("reading failed"),
    }
}

#[test]
fn small_types_of_ones_own() {
    assert_eq!(MyError::from("m".to_string()).message, "m");
    assert_eq!(StringWrapper::from("w").0, "w");
    assert_eq!(handle_error(), "hello from my string");
    assert_eq!(which_sequence(), (32, 32));
    let mut person = TypicalStruct::default();
    assert_eq!((person.name.as_str(), person.age), ("", 0));
    person.grow();
    assert_eq!(person.age, 1);
    assert_eq!(JapaneseDogBreeds::from(0), JapaneseDogBreeds::AkitaKen);
    assert_eq!(JapaneseDogBreeds::from(1), JapaneseDogBreeds::HokkaidoInu);
}

#[test]
fn log_lines() {
    let entry = LogEntry::from_line("12:00,ann,login").unwrap();
    assert_eq!(
        (entry.timestamp.as_str(), entry.username.as_str(), entry.action.as_str()),
        ("12:00", "ann", "login")
    );
    let entry = LogEntry::from_line(",,").unwrap();
    assert_eq!((entry.timestamp.as_str(), entry.username.as_str(), entry.action.as_str()), ("", "", ""));
    assert!(LogEntry::from_line("12:00,ann").is_none());
    assert!(LogEntry::from_line("12:00,ann,login,extra").is_none());
    assert!(LogEntry::from_line("").is_none());
    assert!(LogEntry::from_fields(&vec!["a".to_string()]).is_none());
}

#[test]
fn accesses_are_counted_per_user() {
    let entries = vec![
        LogEntry::new("1", "ann", "a"),
        LogEntry::new("2", "bob", "b"),
        LogEntry::new("3", "ann", "c"),
        LogEntry::new("4", "cid", "d"),
        LogEntry::new("5", "ann", "e"),
        LogEntry::new("6", "bob", "f"),
    ];
    let counts = user_access_count(&entries);
    assert_eq!(
        counts,
        vec![("ann".to_string(), 3), ("bob".to_string(), 2), ("cid".to_string(), 1)]
    );
    assert!(user_access_count(&vec![]).is_empty());
}

#[test]
fn ranks_start_at_one() {
    assert_eq!(ranked(vec!["Labrador", "Poodle"]), vec![(1, "Labrador"), (2, "Poodle")]);
    assert!(ranked(vec![]).is_empty());
}

#[test]
fn names_with_their_length() {
    let _ = NameLengthCow::new("Jeffrey");
}

#[test]
fn appending_to_a_copied_list_leaves_the_first() {
    let first = SinglyLinkedListCow::new(1);
    let second = first.append(2);
    let third = second.append(3);
    let walk = |list: &SinglyLinkedListCow<i32>| {
        let mut item = list.head();
        let mut seen = vec![*item.data_cow()];
        while let Some(next) = item.next_cow() {
            seen.push(*next.data_cow());
            item = next;
        }
        seen
    };
    assert_eq!(walk(&first), vec![1]);
    assert_eq!(walk(&second), vec![1, 2]);
    assert_eq!(walk(&third), vec![1, 2, 3]);
}

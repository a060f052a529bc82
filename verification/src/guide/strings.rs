//! Texts, sequences and small types of one's own.

use vstd::prelude::*;

verus! {

/// A failure with its message.
#[derive(Debug)]
pub struct MyError {
    pub message: String,
}

impl MyError {
    /// The failure whose message is that of the failed read.
    pub fn from(other: String) -> (error: Self)
        ensures
            error.message == other,
    {
        MyError { message: other }
    }
}

/// A text under a name of its own.
pub struct StringWrapper(pub String);

impl StringWrapper {
    /// The wrapper of a copy of `other`.
    pub fn from(other: &str) -> (wrapper: Self)
        ensures
            wrapper.0@ == other@,
    {
        StringWrapper(other.to_owned())
    }
}

/// What a greeting passed through a wrapper reads.
pub fn handle_error() -> (greeting: String)
    ensures
        greeting@ == "hello from my string"@,
{
    StringWrapper::from("hello from my string").0
}

/// The lengths of the two halves of 64 bytes.
pub fn which_sequence() -> (lengths: (usize, usize))
    ensures
        lengths == (32usize, 32usize),
{
    let array = [0u8; 64];
    let slice: &[u8] = array.as_slice();
    let (first_half, second_half) = slice.split_at(32);
    (first_half.len(), second_half.len())
}

/// A person.
#[derive(Debug, Clone)]
pub struct TypicalStruct {
    pub name: String,
    pub age: i32,
}

impl TypicalStruct {
    /// A person without a name, of age zero.
    pub fn default() -> (person: Self)
        ensures
            person.name@ == Seq::<char>::empty(),
            person.age == 0,
    {
        TypicalStruct { name: String::new(), age: 0 }
    }

    /// One year older.
    pub fn grow(&mut self)
        requires
            old(self).age < i32::MAX,
        ensures
            final(self).age == old(self).age + 1,
            final(self).name == old(self).name,
    {
        self.age += 1;
    }
}

/// Breeds of dogs, in their order.
#[derive(Debug, PartialEq, Eq)]
pub enum JapaneseDogBreeds {
    AkitaKen,
    HokkaidoInu,
    KaiKen,
    KishuInu,
    ShibaInu,
    ShikokuKen,
}

impl JapaneseDogBreeds {
    /// The breed with the number `other`; only the first two have one.
    pub fn from(other: u32) -> (breed: Self)
        requires
            other <= 1,
        ensures
            breed == if other == 0 {
                JapaneseDogBreeds::AkitaKen
            } else {
                JapaneseDogBreeds::HokkaidoInu
            },
    {
        if other == 0 {
            JapaneseDogBreeds::AkitaKen
        } else {
            JapaneseDogBreeds::HokkaidoInu
        }
    }
}

} // verus!

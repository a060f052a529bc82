//! Types with a parameter: one that holds a value of it, and one that only
//! carries it as a mark.

use vstd::prelude::*;
use std::marker::PhantomData;

verus! {

/// Holds one value.
pub struct Container<T> {
    value: T,
}

impl<T> Container<T> {
    /// The value held.
    pub closed spec fn value(&self) -> T {
        self.value
    }

    /// A container of `value`.
    pub fn new(value: T) -> (container: Self)
        ensures
            container.value() == value,
    {
        Self { value }
    }
}

/// A container that holds the absence of a string.
pub fn use_container() -> (container: Container<Option<String>>)
    ensures
        container.value() is None,
{
    Container::<Option<String>>::new(None)
}

/// A dog, marked with its breed.
pub struct Dog<Breed> {
    name: String,
    breed: PhantomData<Breed>,
}

impl<Breed> Dog<Breed> {
    /// The name of the dog.
    pub closed spec fn name(&self) -> Seq<char> {
        self.name@
    }
}

pub struct Labrador {}

pub struct Retriever {}

pub struct Poodle {}

pub struct Dachshunds {}

/// A poodle called Jeffrey.
pub fn use_dog() -> (poodle: Dog<Poodle>)
    ensures
        poodle.name() == "Jeffrey"@,
{
    Dog { name: "Jeffrey".to_owned(), breed: PhantomData }
}

impl Dog<Labrador> {
    pub fn breed_name(&self) -> (name: &'static str)
        ensures
            name@ == "labrador"@,
    {
        "labrador"
    }
}

impl Dog<Retriever> {
    pub fn breed_name(&self) -> (name: &'static str)
        ensures
            name@ == "retriever"@,
    {
        "retriever"
    }
}

impl Dog<Poodle> {
    pub fn breed_name(&self) -> (name: &'static str)
        ensures
            name@ == "poodle"@,
    {
        "poodle"
    }
}

impl Dog<Dachshunds> {
    pub fn breed_name(&self) -> (name: &'static str)
        ensures
            name@ == "dachshund"@,
    {
        "dachshund"
    }
}

} // verus!

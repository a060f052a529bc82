//! Dogs of several breeds, alike in all but the breed, and a thing that
//! can be named in two ways.

use vstd::prelude::*;

verus! {

/// What every dog can tell.
pub trait Dog {
    /// The dog as contracts see it: name, age, breed.
    spec fn told(&self) -> (Seq<char>, i32, Seq<char>);

    fn name(&self) -> (name: &String)
        ensures
            name@ == self.told().0,
    ;

    fn age(&self) -> (age: i32)
        ensures
            age == self.told().1,
    ;

    fn breed(&self) -> (breed: &String)
        ensures
            breed@ == self.told().2,
    ;
}

pub struct Labrador {
    name: String,
    age: i32,
    breed: String,
}

impl Labrador {
    pub fn new(name: &str, age: i32) -> (dog: Self)
        ensures
            dog.told() == (name@, age, "Labrador"@),
    {
        Self { name: name.to_owned(), age, breed: "Labrador".to_owned() }
    }
}

impl Dog for Labrador {
    closed spec fn told(&self) -> (Seq<char>, i32, Seq<char>) {
        (self.name@, self.age, self.breed@)
    }

    fn name(&self) -> (name: &String) {
        &self.name
    }

    fn age(&self) -> (age: i32) {
        self.age
    }

    fn breed(&self) -> (breed: &String) {
        &self.breed
    }
}

pub struct Golden {
    name: String,
    age: i32,
    breed: String,
}

impl Golden {
    pub fn new(name: &str, age: i32) -> (dog: Self)
        ensures
            dog.told() == (name@, age, "Golden"@),
    {
        Self { name: name.to_owned(), age, breed: "Golden".to_owned() }
    }
}

impl Dog for Golden {
    closed spec fn told(&self) -> (Seq<char>, i32, Seq<char>) {
        (self.name@, self.age, self.breed@)
    }

    fn name(&self) -> (name: &String) {
        &self.name
    }

    fn age(&self) -> (age: i32) {
        self.age
    }

    fn breed(&self) -> (breed: &String) {
        &self.breed
    }
}

pub struct Poodle {
    name: String,
    age: i32,
    breed: String,
}

impl Poodle {
    pub fn new(name: &str, age: i32) -> (dog: Self)
        ensures
            dog.told() == (name@, age, "Poodle"@),
    {
        Self { name: name.to_owned(), age, breed: "Poodle".to_owned() }
    }
}

impl Dog for Poodle {
    closed spec fn told(&self) -> (Seq<char>, i32, Seq<char>) {
        (self.name@, self.age, self.breed@)
    }

    fn name(&self) -> (name: &String) {
        &self.name
    }

    fn age(&self) -> (age: i32) {
        self.age
    }

    fn breed(&self) -> (breed: &String) {
        &self.breed
    }
}

/// A thing with a name.
pub struct Container {
    pub name: String,
}

/// Naming without an argument.
pub trait First {
    fn name(&self);
}

/// Naming with an argument.
pub trait Second {
    fn name(&self, flag: bool);
}

impl First for Container {
    fn name(&self) {
    }
}

impl Second for Container {
    fn name(&self, _flag: bool) {
    }
}

/// Names `t` in the first way.
pub fn get_name_first<T: First>(t: &T) {
    t.name()
}

/// Names `t` in the second way.
pub fn get_name_second<T: Second>(t: &T) {
    t.name(true)
}

/// A poodle called Peter, seven years old.
pub fn run() -> (peter: Poodle)
    ensures
        peter.told() == ("Peter"@, 7i32, "Poodle"@),
{
    let peter = Poodle::new("Peter", 7);
    let container = Container { name: "Henry".to_owned() };
    get_name_first(&container);
    get_name_second(&container);
    peter
}

} // verus!

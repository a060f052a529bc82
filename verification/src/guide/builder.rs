//! A bicycle that is put together step by step.

use vstd::prelude::*;

verus! {

/// A bicycle.
#[derive(Debug)]
pub struct Bicycle {
    make: String,
    model: String,
    size: i32,
    colour: String,
}

/// A bicycle as contracts see it.
pub ghost struct BicycleView {
    pub make: Seq<char>,
    pub model: Seq<char>,
    pub size: i32,
    pub colour: Seq<char>,
}

impl View for Bicycle {
    type V = BicycleView;

    closed spec fn view(&self) -> BicycleView {
        BicycleView {
            make: self.make@,
            model: self.model@,
            size: self.size,
            colour: self.colour@,
        }
    }
}

/// The bicycle of which nothing is set yet.
pub open spec fn blank() -> BicycleView {
    BicycleView { make: Seq::empty(), model: Seq::empty(), size: 0, colour: Seq::empty() }
}

/// Puts a bicycle together.
pub struct BicycleBuilder {
    bicycle: Bicycle,
}

impl View for BicycleBuilder {
    type V = BicycleView;

    /// The bicycle as far as it is put together.
    closed spec fn view(&self) -> BicycleView {
        self.bicycle@
    }
}

/// Something that puts a `T` together.
pub trait Builder<T>: Sized {
    /// What is put together so far.
    spec fn so_far(&self) -> T;

    /// A builder that has set nothing yet.
    fn new() -> Self;

    /// The finished thing.
    fn build(self) -> (built: T)
        ensures
            built == self.so_far(),
    ;
}

/// Something that names the builder that puts it together.
pub trait Buildable<Target, B: Builder<Target>> {
    /// A builder for it.
    fn builder() -> B;
}

impl BicycleBuilder {
    /// A builder that has set nothing yet.
    pub fn new() -> (builder: Self)
        ensures
            builder@ == blank(),
    {
        BicycleBuilder {
            bicycle: Bicycle {
                make: String::new(),
                model: String::new(),
                size: 0,
                colour: String::new(),
            },
        }
    }

    /// The finished bicycle.
    pub fn build(self) -> (bicycle: Bicycle)
        ensures
            bicycle@ == self@,
    {
        self.bicycle
    }

    /// Sets the make.
    pub fn with_make(self, make: &str) -> (builder: Self)
        ensures
            builder@ == (BicycleView { make: make@, ..self@ }),
    {
        let Bicycle { make: _, model, size, colour } = self.bicycle;
        BicycleBuilder { bicycle: Bicycle { make: make.to_owned(), model, size, colour } }
    }

    /// Takes the name of a model, and sets the make to it: the model stays
    /// as it was.
    pub fn with_model(self, make: &str) -> (builder: Self)
        ensures
            builder@ == (BicycleView { make: make@, ..self@ }),
    {
        let Bicycle { make: _, model, size, colour } = self.bicycle;
        BicycleBuilder { bicycle: Bicycle { make: make.to_owned(), model, size, colour } }
    }

    /// Sets the size.
    pub fn with_size(self, size: i32) -> (builder: Self)
        ensures
            builder@ == (BicycleView { size, ..self@ }),
    {
        let Bicycle { make, model, size: _, colour } = self.bicycle;
        BicycleBuilder { bicycle: Bicycle { make, model, size, colour } }
    }

    /// Sets the colour.
    pub fn with_colour(self, colour: &str) -> (builder: Self)
        ensures
            builder@ == (BicycleView { colour: colour@, ..self@ }),
    {
        let Bicycle { make, model, size, colour: _ } = self.bicycle;
        BicycleBuilder { bicycle: Bicycle { make, model, size, colour: colour.to_owned() } }
    }
}

impl Builder<Bicycle> for BicycleBuilder {
    closed spec fn so_far(&self) -> Bicycle {
        self.bicycle
    }

    fn new() -> (builder: Self)
        ensures
            builder@ == blank(),
    {
        BicycleBuilder {
            bicycle: Bicycle {
                make: String::new(),
                model: String::new(),
                size: 0,
                colour: String::new(),
            },
        }
    }

    fn build(self) -> (bicycle: Bicycle) {
        self.bicycle
    }
}

impl Buildable<Bicycle, BicycleBuilder> for Bicycle {
    fn builder() -> (builder: BicycleBuilder)
        ensures
            builder@ == blank(),
    {
        BicycleBuilder::new()
    }
}

impl Bicycle {
    /// The make.
    pub fn make(&self) -> (make: &String)
        ensures
            make@ == self@.make,
    {
        &self.make
    }

    /// The model.
    pub fn model(&self) -> (model: &String)
        ensures
            model@ == self@.model,
    {
        &self.model
    }

    /// The size.
    pub fn size(&self) -> (size: i32)
        ensures
            size == self@.size,
    {
        self.size
    }

    /// The colour.
    pub fn colour(&self) -> (colour: &String)
        ensures
            colour@ == self@.colour,
    {
        &self.colour
    }
}

/// A bicycle put together in one chain of steps.
pub fn run() -> (bicycle: Bicycle)
    ensures
        bicycle@ == (BicycleView {
            make: "Madone"@,
            model: Seq::empty(),
            size: 52,
            colour: "purple"@,
        }),
{
    <Bicycle as Buildable<Bicycle, BicycleBuilder>>::builder().with_make("Trek").with_model(
        "Madone",
    ).with_size(52).with_colour("purple").build()
}

} // verus!

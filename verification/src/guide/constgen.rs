//! Sizes and states that are part of a type: a buffer of a fixed length, a
//! light bulb that is on or off by its type, and indices that are checked
//! against the length of an array.

use vstd::prelude::*;
use std::marker::PhantomData;

verus! {

/// A buffer of exactly `LENGTH` values.
pub struct Buffer<T, const LENGTH: usize> {
    buf: [T; LENGTH],
}

impl<T, const LENGTH: usize> View for Buffer<T, LENGTH> {
    type V = Seq<T>;

    /// The values in the buffer.
    closed spec fn view(&self) -> Seq<T> {
        self.buf@
    }
}

/// `TryFrom<Vec<T>>` of std for an array: the array of the values of the
/// vector where the vector has exactly the array's length, and otherwise
/// the vector handed back.
#[verifier::external_body]
fn array_from_vec<T, const LENGTH: usize>(v: Vec<T>) -> (made: Result<[T; LENGTH], Vec<T>>)
    ensures
        match made {
            Ok(array) => v@.len() == LENGTH && array@ == v@,
            Err(back) => v@.len() != LENGTH && back@ == v@,
        },
{
    <[T; LENGTH]>::try_from(v)
}

impl<T, const LENGTH: usize> Buffer<T, LENGTH> {
    /// A buffer of the values of `value`.
    pub fn from(value: [T; LENGTH]) -> (buffer: Self)
        ensures
            buffer@ == value@,
    {
        Buffer { buf: value }
    }
}

impl<T: Default + Copy, const LENGTH: usize> Buffer<T, LENGTH> {
    /// A buffer of the values of `v`, which are as many as the buffer is long.
    pub fn from_vec(v: Vec<T>) -> (buffer: Self)
        requires
            v@.len() == LENGTH,
        ensures
            buffer@ == v@,
    {
        match array_from_vec::<T, LENGTH>(v) {
            Ok(buf) => Buffer { buf },
            Err(_) => unreached(),
        }
    }
}

/// A vector under a name of its own.
pub struct WrapperVec<T>(pub Vec<T>);

impl<T> WrapperVec<T> {
    /// The vector inside.
    pub fn deref(&self) -> (inner: &Vec<T>)
        ensures
            inner@ == self.0@,
    {
        &self.0
    }

    /// The values, handed out.
    pub fn into_iter(self) -> (values: Vec<T>)
        ensures
            values@ == self.0@,
    {
        self.0
    }
}

/// The state of a bulb that is lit.
pub struct On;

/// The state of a bulb that is dark.
pub struct Off;

/// The states that a bulb can be in.
pub trait BulbState {

}

impl BulbState for On {

}

impl BulbState for Off {

}

/// A light bulb whose state is part of its type: a lit bulb can only be
/// turned off and a dark one only be turned on.
pub struct LightBulb<State: BulbState> {
    phantom: PhantomData<State>,
}

impl LightBulb<Off> {
    /// A bulb that is dark.
    pub fn default() -> Self {
        LightBulb { phantom: PhantomData }
    }

    /// The bulb, lit.
    pub fn turn_on(self) -> LightBulb<On> {
        LightBulb { phantom: PhantomData }
    }

    /// The name of the state.
    pub fn state(&self) -> (name: &'static str)
        ensures
            name@ == "off"@,
    {
        "off"
    }
}

impl LightBulb<On> {
    /// The bulb, dark.
    pub fn turn_off(self) -> LightBulb<Off> {
        LightBulb { phantom: PhantomData }
    }

    /// The name of the state.
    pub fn state(&self) -> (name: &'static str)
        ensures
            name@ == "on"@,
    {
        "on"
    }
}

/// The place `I` of an array.
pub struct CustomIndex<const I: usize>;

impl<const I: usize> CustomIndex<I> {
    /// The value at place `I` of `array`, which is longer than `I`.
    pub fn index<T, const N: usize>(self, array: &[T; N]) -> (value: &T)
        requires
            N > I,
        ensures
            *value == array@[I as int],
    {
        &array[I]
    }
}

/// The `LENGTH` places of an array from place `START` on.
pub struct CustomRangeIndex<const START: usize, const LENGTH: usize>;

impl<const START: usize, const LENGTH: usize> CustomRangeIndex<START, LENGTH> {
    /// The values of `array` at the places from `START` up to `START +
    /// LENGTH`, which the array is long enough to have.
    pub fn index<T, const N: usize>(self, array: &[T; N]) -> (values: &[T])
        requires
            N >= START + LENGTH,
        ensures
            values@ == array@.subrange(START as int, START + LENGTH),
    {
        vstd::slice::slice_subrange(array.as_slice(), START, START + LENGTH)
    }
}

/// The number that two bytes spell, the first being the lower one.
pub open spec fn le_number(low: u8, high: u8) -> int {
    low + 256 * high
}

/// The number that two bytes spell, the first being the lower one.
pub fn from_le_bytes(low: u8, high: u8) -> (number: u16)
    ensures
        number == le_number(low, high),
{
    let low: u16 = low as u16;
    let high: u16 = high as u16;
    low + 256 * high
}

/// A bulb turned on, and two bytes read from the middle of an array:
/// returns the names of the bulb's two states and the number read.
pub fn run() -> (seen: (&'static str, &'static str, u16))
    ensures
        seen.0@ == "off"@,
        seen.1@ == "on"@,
        seen.2 == 0x7788,
{
    let lightbulb = LightBulb::<Off>::default();
    let before = lightbulb.state();
    let lightbulb = lightbulb.turn_on();
    let after = lightbulb.state();
    let x: [u8; 8] = [0x01, 0x03, 0x00, 0x00, 0x88, 0x77, 0x66, 0x55];
    let pair = CustomRangeIndex::<4, 2>.index(&x);
    let y = from_le_bytes(pair[0], pair[1]);
    (before, after, y)
}

} // verus!

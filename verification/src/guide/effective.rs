//! Small computations over borrowed values and over sequences.

use vstd::prelude::*;

verus! {

/// Four more than `v`.
pub fn add_four(v: &i32) -> (sum: i32)
    requires
        *v <= i32::MAX - 4,
    ensures
        sum == *v + 4,
{
    *v + 4
}

/// The sum of the squares of the first `wanted` even values of `values`
/// (of all of them where there are fewer).
pub open spec fn even_squares(values: Seq<u64>, wanted: nat) -> int
    decreases values.len(),
{
    if values.len() == 0 || wanted == 0 {
        0
    } else if values[0] % 2 == 0 {
        values[0] * values[0] + even_squares(values.drop_first(), (wanted - 1) as nat)
    } else {
        even_squares(values.drop_first(), wanted)
    }
}

/// The sum of the squares of the first five even values of `values`;
/// `None` where a square or the sum does not fit.
pub fn even_sum_squared(values: &Vec<u64>) -> (sum: Option<u64>)
    ensures
        sum is Some ==> sum->0 == even_squares(values@, 5),
        even_squares(values@, 5) <= u64::MAX ==> sum is Some,
{
    let mut sum: u64 = 0;
    let mut taken: usize = 0;
    let mut i: usize = 0;
    proof {
        assert(values@.skip(0) =~= values@);
    }
    while i < values.len() && taken < 5
        invariant
            i <= values.len(),
            taken <= 5,
            sum + even_squares(values@.skip(i as int), (5 - taken) as nat) == even_squares(
                values@,
                5,
            ),
        decreases values.len() - i,
    {
        let x = values[i];
        proof {
            assert(values@.skip(i as int).drop_first() =~= values@.skip(i + 1));
            assert(values@.skip(i as int)[0] == x);
            lemma_even_squares_nonnegative(values@.skip(i + 1), (5 - taken) as nat);
            lemma_even_squares_nonnegative(values@.skip(i + 1), (4 - taken) as nat);
        }
        if x % 2 == 0 {
            let square = match x.checked_mul(x) {
                Some(square) => square,
                None => {
                    return None;
                },
            };
            sum =
            match sum.checked_add(square) {
                Some(sum) => sum,
                None => {
                    return None;
                },
            };
            taken += 1;
        }
        i += 1;
    }
    proof {
        let rest = values@.skip(i as int);
        if taken < 5 {
            assert(rest.len() == 0);
        }
        assert(even_squares(rest, (5 - taken) as nat) == 0);
    }
    Some(sum)
}

/// A sum of squares is not negative.
proof fn lemma_even_squares_nonnegative(values: Seq<u64>, wanted: nat)
    ensures
        even_squares(values, wanted) >= 0,
    decreases values.len(),
{
    if values.len() != 0 && wanted != 0 {
        if values[0] % 2 == 0 {
            lemma_even_squares_nonnegative(values.drop_first(), (wanted - 1) as nat);
            assert(values[0] * values[0] >= 0) by (nonlinear_arith);
        } else {
            lemma_even_squares_nonnegative(values.drop_first(), wanted);
        }
    }
}

/// The values that are there.
pub open spec fn present(options: Seq<Option<i32>>) -> Seq<i32>
    decreases options.len(),
{
    if options.len() == 0 {
        Seq::empty()
    } else {
        match options.last() {
            Some(value) => present(options.drop_last()).push(value),
            None => present(options.drop_last()),
        }
    }
}

/// The values of `options` that are there, in order.
pub fn flatten(options: &Vec<Option<i32>>) -> (values: Vec<i32>)
    ensures
        values@ == present(options@),
{
    let mut values: Vec<i32> = Vec::new();
    let mut i: usize = 0;
    proof {
        assert(options@.take(0) =~= Seq::<Option<i32>>::empty());
    }
    while i < options.len()
        invariant
            i <= options.len(),
            values@ == present(options@.take(i as int)),
        decreases options.len() - i,
    {
        proof {
            assert(options@.take(i + 1).drop_last() =~= options@.take(i as int));
        }
        match options[i] {
            Some(value) => values.push(value),
            None => {},
        }
        i += 1;
    }
    proof {
        assert(options@.take(options.len() as int) =~= options@);
    }
    values
}

/// `value` is a byte.
pub open spec fn is_byte(value: i64) -> bool {
    0 <= value <= 255
}

/// Every value of `inputs` is a byte.
pub open spec fn all_bytes(inputs: Seq<i64>) -> bool {
    forall|i: int| 0 <= i < inputs.len() ==> is_byte(#[trigger] inputs[i])
}

/// A value that is no byte.
#[derive(Debug, PartialEq, Eq)]
pub struct OutOfRange {
    /// The place of the first such value.
    pub at: usize,
}

/// The values of `inputs` as bytes; where one is no byte, the place of the
/// first such value.
pub fn narrow(inputs: &Vec<i64>) -> (results: Result<Vec<u8>, OutOfRange>)
    ensures
        match results {
            Ok(bytes) => all_bytes(inputs@) && bytes@.len() == inputs@.len() && forall|i: int|
                0 <= i < inputs@.len() ==> bytes@[i] == inputs@[i],
            Err(e) => e.at < inputs@.len() && !is_byte(inputs@[e.at as int]) && all_bytes(
                inputs@.take(e.at as int),
            ),
        },
{
    let mut bytes: Vec<u8> = Vec::new();
    let mut i: usize = 0;
    while i < inputs.len()
        invariant
            i <= inputs.len(),
            bytes@.len() == i,
            all_bytes(inputs@.take(i as int)),
            forall|k: int| 0 <= k < i ==> bytes@[k] == inputs@[k],
        decreases inputs.len() - i,
    {
        let value = inputs[i];
        if 0 <= value && value <= 255 {
            bytes.push(value as u8);
        } else {
            return Err(OutOfRange { at: i });
        }
        proof {
            assert forall|k: int| 0 <= k < i + 1 implies is_byte(
                #[trigger] inputs@.take(i + 1)[k],
            ) by {
                if k < i {
                    assert(inputs@.take(i as int)[k] == inputs@[k]);
                }
            }
        }
        i += 1;
    }
    proof {
        assert(inputs@.take(inputs.len() as int) =~= inputs@);
    }
    Ok(bytes)
}

/// Works through a list of numbers of which the last is no byte: the
/// failure that names its place.
pub fn iterator_is_king() -> (outcome: Result<(), OutOfRange>)
    ensures
        outcome == Err::<(), OutOfRange>(OutOfRange { at: 5 }),
{
    let mut inputs: Vec<i64> = Vec::new();
    inputs.push(0);
    inputs.push(1);
    inputs.push(2);
    inputs.push(3);
    inputs.push(4);
    inputs.push(512);
    match narrow(&inputs) {
        Ok(_) => {
            assert(is_byte(inputs@[5]));
            Ok(())
        },
        Err(e) => {
            proof {
                if e.at < 5 {
                    assert(is_byte(inputs@[e.at as int]));
                }
            }
            Err(e)
        },
    }
}

} // verus!

//! Small verified counterparts of the introductory language demonstrations:
//! a counting loop that breaks with a value, indexing into a sequence, a
//! block used as an expression, and a function returning a constant.

use vstd::prelude::*;

verus! {

/// Returns the constant five, as the smallest possible example of a function
/// with a declared return type and an implicit final-expression return.
pub fn five() -> (r: i32)
    ensures
        r == 5,
{
    5
}

/// Counts up from zero, one per iteration, and breaks out of the loop with
/// the counter as the loop's value once the counter reaches `target`.
/// The value carried out by `break` equals the number of iterations run.
pub fn count_with_break(target: u32) -> (r: u32)
    requires
        target >= 1,
    ensures
        r == target,
{
    let mut counter: u32 = 0;
    loop
        invariant_except_break
            counter < target,
        ensures
            counter == target,
        decreases target - counter,
    {
        counter = counter + 1;
        if counter == target {
            break;
        }
    }
    let result = counter;
    result
}

/// Returns the element at position zero of a non-empty sequence of integers.
pub fn first_element(a: &[i32]) -> (r: i32)
    requires
        a@.len() > 0,
    ensures
        r == a@[0],
{
    a[0]
}

/// Evaluates a block that binds a local and ends in the expression `x + 1`,
/// yielding that expression as the block's value.
pub fn add_one_via_block(x: i32) -> (r: i32)
    requires
        x < i32::MAX,
    ensures
        r == x + 1,
{
    let y = {
        let inner: i32 = x;
        inner + 1
    };
    y
}

} // verus!

//! Numbers and the flow of control: small functions, a test of divisibility,
//! a loop that counts up and one that counts down.

use vstd::prelude::*;

verus! {

/// The number five.
pub fn five() -> (five: i32)
    ensures
        five == 5,
{
    5
}

/// The number after `x`.
pub fn plus_one(x: i32) -> (next: i32)
    requires
        x < i32::MAX,
    ensures
        next == x + 1,
{
    x + 1
}

/// What there is to say of how `number` divides: the first of 4, 3 and 2
/// that divides it is named, or none does.
pub fn divisibility(number: i32) -> (message: &'static str)
    ensures
        number % 4 == 0 ==> message@ == "number is divisible by 4"@,
        number % 4 != 0 && number % 3 == 0 ==> message@ == "number is divisible by 3"@,
        number % 4 != 0 && number % 3 != 0 && number % 2 == 0 ==> message@
            == "number is divisible by 2"@,
        number % 4 != 0 && number % 3 != 0 && number % 2 != 0 ==> message@
            == "number is not divisible by 4, 3, or 2"@,
{
    if number % 4 == 0 {
        "number is divisible by 4"
    } else if number % 3 == 0 {
        "number is divisible by 3"
    } else if number % 2 == 0 {
        "number is divisible by 2"
    } else {
        "number is not divisible by 4, 3, or 2"
    }
}

/// Counts from one up to `limit` and returns twice that.
pub fn count_and_double(limit: u32) -> (result: u32)
    requires
        1 <= limit,
        2 * limit <= u32::MAX,
    ensures
        result == 2 * limit,
{
    let mut counter: u32 = 0;
    loop
        invariant_except_break
            counter < limit,
        invariant
            2 * limit <= u32::MAX,
        ensures
            counter == limit,
        decreases limit - counter,
    {
        counter += 1;
        if counter == limit {
            break ;
        }
    }
    counter * 2
}

/// The numbers from `from` down to one.
pub fn countdown(from: u32) -> (numbers: Vec<u32>)
    ensures
        numbers@.len() == from,
        forall|i: int| 0 <= i < from ==> numbers@[i] == from - i,
{
    let mut numbers: Vec<u32> = Vec::new();
    let mut number = from;
    while number != 0
        invariant
            number <= from,
            numbers@.len() == from - number,
            forall|i: int| 0 <= i < numbers@.len() ==> numbers@[i] == from - i,
        decreases number,
    {
        numbers.push(number);
        number -= 1;
    }
    numbers
}

} // verus!

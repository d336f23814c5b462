//! Additions on machine integers, each proved free of overflow, and a
//! greeting.

use vstd::prelude::*;
use vstd::string::StringExecFns;

verus! {

/// The sum of `left` and `right`.
pub fn add(left: u64, right: u64) -> (sum: u64)
    requires
        left + right <= u64::MAX,
    ensures
        sum == left + right,
{
    left + right
}

/// `a` increased by two.
pub fn add_two(a: usize) -> (sum: usize)
    requires
        a + 2 <= usize::MAX,
    ensures
        sum == a + 2,
{
    a + 2
}

/// `a` increased by two, computed through [`internal_adder`].
pub fn add_two_2(a: usize) -> (sum: usize)
    requires
        a + 2 <= usize::MAX,
    ensures
        sum == a + 2,
{
    internal_adder(a, 2)
}

/// The sum of `left` and `right`.
pub fn internal_adder(left: usize, right: usize) -> (sum: usize)
    requires
        left + right <= usize::MAX,
    ensures
        sum == left + right,
{
    left + right
}

/// A greeting for `name`.
pub fn greeting(name: &str) -> (text: String)
    ensures
        text@ == "Hello "@ + name@ + "!"@,
{
    let mut text = String::from_str("Hello ");
    text.append(name);
    text.append("!");
    text
}

} // verus!

//! Small verified components: a line filter in the manner of `grep`, the rules
//! of a number guessing game, and a handful of arithmetic, text and shape
//! helpers.
//!
//! Verus proves the contracts of the executable functions. Two of them rest
//! on code from outside that Verus does not read: the lower case of a
//! character, which the standard library gives, and the draw of a random
//! number, which the crate `rand` gives.

pub mod adder;
pub mod encoding;
pub mod enums;
pub mod error_handling;
pub mod generics;
pub mod guessing_game;
pub mod lifetimes;
pub mod minigrep;
pub mod ownership;
pub mod restaurant;
pub mod structs;
pub mod text;
pub mod traits;
pub mod variables;

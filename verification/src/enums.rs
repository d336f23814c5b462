//! Values that are one of several kinds: addresses, messages, coins.

use vstd::prelude::*;

verus! {

/// The two kinds of internet address.
pub enum IpAddrKind {
    V4,
    V6,
}

/// Sends traffic the way of `ip_kind`. There is nothing to do yet.
pub fn route(ip_kind: IpAddrKind) {
}

/// An internet address, written out.
pub enum IpAddr2 {
    V4(String),
    V6(String),
}

/// What one part of a program tells another.
pub enum Message {
    Quit,
    Move { x: i32, y: i32 },
    Write(String),
    ChangeColor(i32, i32, i32),
}

impl Message {
    /// Delivers the message. There is nothing to do yet.
    pub fn call(&self) {
    }
}

/// A state of the union, as far as quarters have been struck for it here.
#[derive(Debug)]
pub enum UsState {
    Alabama,
    Alaska,
}

/// A coin.
pub enum Coin {
    Penny,
    Nickel,
    Dime,
    Quarter(UsState),
}

/// The worth of each kind of coin, in cents.
pub open spec fn cents(coin: Coin) -> int {
    match coin {
        Coin::Penny => 1,
        Coin::Nickel => 5,
        Coin::Dime => 10,
        Coin::Quarter(_) => 25,
    }
}

/// The worth of `coin` in cents.
pub fn value_in_cents(coin: Coin) -> (value: u8)
    ensures
        value == cents(coin),
{
    match coin {
        Coin::Penny => 1,
        Coin::Nickel => 5,
        Coin::Dime => 10,
        Coin::Quarter(_) => 25,
    }
}

/// One more than the number in `x`, if there is one and it is not the
/// largest.
pub fn plus_one(x: Option<i32>) -> (next: Option<i32>)
    requires
        x != Some(i32::MAX),
    ensures
        next == match x {
            None => None::<i32>,
            Some(i) => Some((i + 1) as i32),
        },
{
    match x {
        None => None,
        Some(i) => Some(i + 1),
    }
}

/// What a roll of the dice makes a player do.
#[derive(PartialEq, Eq, Structural, Debug)]
pub enum Move {
    AddFancyHat,
    RemoveFancyHat,
    Advance(u8),
}

/// What the roll `dice_roll` makes the player do: a three brings a fancy
/// hat, a seven takes it away, any other roll moves the player by as many
/// spaces.
pub fn move_for(dice_roll: u8) -> (action: Move)
    ensures
        dice_roll == 3 ==> action == Move::AddFancyHat,
        dice_roll == 7 ==> action == Move::RemoveFancyHat,
        dice_roll != 3 && dice_roll != 7 ==> action == Move::Advance(dice_roll),
{
    match dice_roll {
        3 => Move::AddFancyHat,
        7 => Move::RemoveFancyHat,
        other => Move::Advance(other),
    }
}

} // verus!

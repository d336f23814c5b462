//! Records: a user account, colours and points, and rectangles with their
//! areas.

use vstd::prelude::*;

verus! {

/// An account.
pub struct User {
    pub active: bool,
    pub username: String,
    pub email: String,
    pub sign_in_count: u64,
}

/// A new account: active, and signed in once.
pub fn build_user(email: String, username: String) -> (user: User)
    ensures
        user.active,
        user.username == username,
        user.email == email,
        user.sign_in_count == 1,
{
    User { active: true, username: username, email: email, sign_in_count: 1 }
}

/// A new account: active, and signed in once.
pub fn build_user2(email: String, username: String) -> (user: User)
    ensures
        user.active,
        user.username == username,
        user.email == email,
        user.sign_in_count == 1,
{
    User { active: true, username, email, sign_in_count: 1 }
}

/// A colour: red, green, blue.
pub struct Color(pub i32, pub i32, pub i32);

/// A point in space.
pub struct Point(pub i32, pub i32, pub i32);

/// A value with nothing in it.
pub struct AlwaysEqual;

/// A rectangle, by its sides in pixels.
#[derive(Debug)]
pub struct Rectangle {
    pub width: u32,
    pub height: u32,
}

impl Rectangle {
    /// The area of the rectangle, as a number without bound.
    pub open spec fn spec_area(&self) -> int {
        self.width * self.height
    }

    /// Whether `other` fits inside the rectangle with room on every side.
    pub open spec fn spec_can_hold(&self, other: &Rectangle) -> bool {
        self.width > other.width && self.height > other.height
    }

    /// The area of the rectangle.
    pub fn area(&self) -> (area: u32)
        requires
            self.spec_area() <= u32::MAX,
        ensures
            area == self.spec_area(),
    {
        self.width * self.height
    }

    /// Whether `other` fits inside the rectangle with room on every side.
    pub fn can_hold(&self, other: &Rectangle) -> (fits: bool)
        ensures
            fits == self.spec_can_hold(other),
    {
        self.width > other.width && self.height > other.height
    }

    /// Whether `other` fits inside the rectangle with room on every side.
    pub fn can_hold2(&self, other: &Rectangle) -> (fits: bool)
        ensures
            fits == self.spec_can_hold(other),
    {
        self.width > other.width && self.height > other.height
    }

    /// The square of side `size`.
    pub fn square(size: u32) -> (square: Rectangle)
        ensures
            square.width == size,
            square.height == size,
    {
        Rectangle { width: size, height: size }
    }
}

/// The area of a rectangle, by its sides.
pub fn area(width: u32, height: u32) -> (area: u32)
    requires
        width * height <= u32::MAX,
    ensures
        area == width * height,
{
    width * height
}

/// The area of a rectangle, by the pair of its sides.
pub fn area2(dimensions: (u32, u32)) -> (area: u32)
    requires
        dimensions.0 * dimensions.1 <= u32::MAX,
    ensures
        area == dimensions.0 * dimensions.1,
{
    dimensions.0 * dimensions.1
}

/// The area of `rectangle`.
pub fn area3(rectangle: &Rectangle) -> (area: u32)
    requires
        rectangle.spec_area() <= u32::MAX,
    ensures
        area == rectangle.spec_area(),
{
    rectangle.width * rectangle.height
}

} // verus!

//! The largest element of a list, and points and pairs of any type.

use std::cmp::Ordering;
use vstd::laws_cmp::obeys_partial_cmp_spec_properties;
use vstd::prelude::*;
use vstd::std_specs::cmp::PartialOrdSpec;

verus! {

/// The largest number in a list that is not empty.
pub fn largest(list: &[i32]) -> (largest: &i32)
    requires
        list@.len() > 0,
    ensures
        list@.contains(*largest),
        forall|i: int| 0 <= i < list@.len() ==> list@[i] <= *largest,
{
    let mut largest = &list[0];
    let mut next: usize = 1;
    while next < list.len()
        invariant
            1 <= next <= list@.len(),
            exists|k: int| 0 <= k < next && list@[k] == *largest,
            forall|i: int| 0 <= i < next ==> list@[i] <= *largest,
        decreases list@.len() - next,
    {
        let item = &list[next];
        if *item > *largest {
            largest = item;
        }
        next += 1;
    }
    largest
}

/// An element of a list that is not empty which no element of the list is
/// greater than: the first such element that no later one exceeds.
///
/// The second claim holds where the order of `T` is what its specification
/// says and is transitive.
pub fn largest_2<T: PartialOrd>(list: &[T]) -> (largest: &T)
    requires
        list@.len() > 0,
    ensures
        list@.contains(*largest),
        T::obeys_partial_cmp_spec() && obeys_partial_cmp_spec_properties::<T>() ==> forall|
            i: int,
        |
            0 <= i < list@.len() ==> (#[trigger] list@[i]).partial_cmp_spec(largest) != Some(
                Ordering::Greater,
            ),
{
    let mut largest = &list[0];
    let mut next: usize = 1;
    proof {
        reveal(obeys_partial_cmp_spec_properties);
    }
    while next < list.len()
        invariant
            1 <= next <= list@.len(),
            exists|k: int| 0 <= k < next && list@[k] == *largest,
            T::obeys_partial_cmp_spec() && obeys_partial_cmp_spec_properties::<T>() ==> forall|
                i: int,
            |
                0 <= i < next ==> (#[trigger] list@[i]).partial_cmp_spec(largest) != Some(
                    Ordering::Greater,
                ),
        decreases list@.len() - next,
    {
        let item = &list[next];
        let ghost before = *largest;
        if *item > *largest {
            largest = item;
            proof {
                reveal(obeys_partial_cmp_spec_properties);
                if T::obeys_partial_cmp_spec() && obeys_partial_cmp_spec_properties::<T>() {
                    assert(largest.partial_cmp_spec(&before) == Some(Ordering::Greater));
                    assert(before.partial_cmp_spec(largest) == Some(Ordering::Less));
                    assert(largest.partial_cmp_spec(largest) != Some(Ordering::Greater));
                    assert forall|i: int| 0 <= i < next implies (#[trigger] list@[i]).partial_cmp_spec(
                        largest,
                    ) != Some(Ordering::Greater) by {
                        if list@[i].partial_cmp_spec(largest) == Some(Ordering::Greater) {
                            assert(list@[i].partial_cmp_spec(&before) == Some(Ordering::Greater));
                        }
                    }
                }
            }
        }
        next += 1;
    }
    largest
}

/// A point whose two coordinates have one type.
pub struct Point<T> {
    pub x: T,
    pub y: T,
}

/// A point whose coordinates may differ in type.
#[allow(non_camel_case_types)]
pub struct Point_2<T, U> {
    pub x: T,
    pub y: U,
}

impl<T> Point<T> {
    /// The first coordinate.
    pub fn x(&self) -> (x: &T)
        ensures
            *x == self.x,
    {
        &self.x
    }
}

/// A point whose coordinates may differ in type, and which can trade one
/// with another point.
#[allow(non_camel_case_types)]
pub struct Point_3<X1, Y1> {
    pub x: X1,
    pub y: Y1,
}

impl<X1, Y1> Point_3<X1, Y1> {
    /// The point with the first coordinate of this one and the second of
    /// `other`.
    pub fn mixup<X2, Y2>(self, other: Point_3<X2, Y2>) -> (mixed: Point_3<X1, Y2>)
        ensures
            mixed.x == self.x,
            mixed.y == other.y,
    {
        Point_3 { x: self.x, y: other.y }
    }
}

} // verus!

//! The largest element of a slice, concretely and generically.

use core::cmp::Ordering;
use vstd::prelude::*;
use vstd::std_specs::cmp::PartialOrdSpec;

verus! {

/// A point with both coordinates of one type.
pub struct Point<T> {
    pub x: T,
    pub y: T,
}

impl<T> Point<T> {
    /// Borrows the first coordinate.
    pub fn x(&self) -> (r: &T)
        ensures
            *r == self.x,
    {
        &self.x
    }
}

/// The largest of a non-empty slice of integers.
pub fn largest_i32(list: &[i32]) -> (r: i32)
    requires
        list@.len() > 0,
    ensures
        list@.contains(r),
        forall|k: int| 0 <= k < list@.len() ==> list@[k] <= r,
{
    let mut largest = list[0];

    let mut i: usize = 1;
    while i < list.len()
        invariant
            1 <= i <= list@.len(),
            list@.contains(largest),
            forall|k: int| 0 <= k < i ==> list@[k] <= largest,
        decreases list@.len() - i,
    {
        if list[i] > largest {
            largest = list[i];
        }
        i = i + 1;
    }

    largest
}

/// The largest of a non-empty slice of characters.
pub fn largest_char(list: &[char]) -> (r: char)
    requires
        list@.len() > 0,
    ensures
        list@.contains(r),
        forall|k: int| 0 <= k < list@.len() ==> list@[k] <= r,
{
    let mut largest = list[0];

    let mut i: usize = 1;
    while i < list.len()
        invariant
            1 <= i <= list@.len(),
            list@.contains(largest),
            forall|k: int| 0 <= k < i ==> list@[k] <= largest,
        decreases list@.len() - i,
    {
        if list[i] > largest {
            largest = list[i];
        }
        i = i + 1;
    }

    largest
}

/// Whether the order on `T` is lawful enough for a linear maximum scan:
/// its comparison follows its specification and behaves transitively.
pub open spec fn lawful_order<T: PartialOrd>() -> bool {
    &&& vstd::laws_cmp::obeys_cmp_partial_ord::<T>()
    &&& vstd::laws_cmp::obeys_partial_cmp_spec_properties::<T>()
}

/// An element no other element exceeds, from any non-empty slice of an
/// ordered type.  The maximality clause holds whenever the type's order
/// is lawful; the result is an element of the slice regardless.
pub fn largest<T: PartialOrd>(list: &[T]) -> (r: &T)
    requires
        list@.len() > 0,
    ensures
        exists|j: int| 0 <= j < list@.len() && *r == list@[j],
        lawful_order::<T>() ==> forall|k: int|
            0 <= k < list@.len() ==> (#[trigger] list@[k].partial_cmp_spec(r)) != Some(
                Ordering::Greater,
            ),
{
    let mut best: usize = 0;

    proof {
        if lawful_order::<T>() {
            reveal(vstd::laws_cmp::obeys_partial_cmp_spec_properties);
            if list@[0].partial_cmp_spec(&list@[0]) == Some(Ordering::Greater) {
                assert(list@[0].partial_cmp_spec(&list@[0]) == Some(Ordering::Less));
                assert(false);
            }
        }
    }
    let mut i: usize = 1;
    while i < list.len()
        invariant
            0 <= best < list@.len(),
            1 <= i <= list@.len(),
            lawful_order::<T>() ==> forall|k: int|
                0 <= k < i ==> (#[trigger] list@[k].partial_cmp_spec(&list@[best as int])) != Some(
                    Ordering::Greater,
                ),
        decreases list@.len() - i,
    {
        if list[i].gt(&list[best]) {
            proof {
                if lawful_order::<T>() {
                    reveal(vstd::laws_cmp::obeys_cmp_partial_ord);
                    reveal(vstd::laws_cmp::obeys_partial_cmp_spec_properties);
                    assert forall|k: int|
                        0 <= k < i + 1 implies (#[trigger] list@[k].partial_cmp_spec(
                        &list@[i as int],
                    )) != Some(Ordering::Greater) by {
                        if k < i && list@[k].partial_cmp_spec(&list@[i as int]) == Some(
                            Ordering::Greater,
                        ) {
                            assert(list@[k].partial_cmp_spec(&list@[best as int]) == Some(
                                Ordering::Greater,
                            ));
                        }
                    }
                }
            }
            best = i;
        } else {
            proof {
                if lawful_order::<T>() {
                    reveal(vstd::laws_cmp::obeys_cmp_partial_ord);
                }
            }
        }
        i = i + 1;
    }

    &list[best]
}

} // verus!

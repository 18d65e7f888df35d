//! Option pattern matching on small numbers.

use vstd::prelude::*;

verus! {

/// Adds one inside the option, keeping `None` as it is.
pub fn plus_one(x: Option<i32>) -> (r: Option<i32>)
    requires
        x is Some ==> x->0 < i32::MAX,
    ensures
        x is Some ==> r == Some((x->0 + 1) as i32),
        x is None ==> r is None,
{
    match x {
        Some(i) => Some(i + 1),
        None => None,
    }
}

/// Adds one inside the option, defaulting to zero for `None`.
pub fn plus_one_int_return(x: Option<i32>) -> (r: i32)
    requires
        x is Some ==> x->0 < i32::MAX,
    ensures
        x is Some ==> r == x->0 + 1,
        x is None ==> r == 0,
{
    match x {
        Some(i) => (i + 1),
        None => 0,
    }
}

} // verus!

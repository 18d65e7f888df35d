//! A small module-privacy demonstration: a public middle function, a
//! private one, and a nested public module that may still reach it.

pub mod inside;

use vstd::prelude::*;

verus! {

/// Publicly reachable.
pub fn middle_function() {
}

/// Reachable only within this module tree.
pub(crate) fn middle_secret_function() {
}

/// Exercises the reachable functions.
pub fn try_me() {
    middle_function();
    inside::inner_function();
    inside::secret_function();
}

} // verus!

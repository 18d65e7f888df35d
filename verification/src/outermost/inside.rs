//! The nested module: its public functions may call upward into the
//! parent module's private items.

use vstd::prelude::*;

verus! {

/// Calls back up into the parent module.
pub fn inner_function() {
    super::middle_secret_function()
}

/// Publicly reachable, nothing secret about it but the name.
pub fn secret_function() {
}

} // verus!

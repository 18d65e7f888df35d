//! Returning the longer of two borrowed strings.

use vstd::prelude::*;
use vstd::string::StringSliceAdditionalSpecFns;

verus! {

/// The argument with the greater byte length; ties go to the second.
pub fn longest<'a>(x: &'a str, y: &'a str) -> (r: &'a str)
    ensures
        r@ == x@ || r@ == y@,
        x.spec_bytes().len() as usize > y.spec_bytes().len() as usize ==> r@ == x@,
        x.spec_bytes().len() as usize <= y.spec_bytes().len() as usize ==> r@ == y@,
{
    if x.len() > y.len() {
        x
    } else {
        y
    }
}

} // verus!

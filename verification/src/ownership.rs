//! Moving, borrowing, and returning owned strings.

use vstd::prelude::*;
use vstd::string::StringExecFns;

verus! {

/// Creates a string and hands ownership of it to the caller.
pub fn gives_ownership() -> (r: String)
    ensures
        r@ == "hello"@,
{
    let some_string = String::from_str("hello");
    some_string
}

/// Takes a string and returns the very same string.
pub fn takes_and_gives_back(a_string: String) -> (r: String)
    ensures
        r == a_string,
{
    a_string
}

/// Returns the string together with its length in bytes.
pub fn calculate_length(s: String) -> (r: (String, usize))
    ensures
        r.0 == s,
        r.1 == vstd::utf8::encode_utf8(s@).len(),
{
    let length = s.as_str().as_bytes().len();
    (s, length)
}

/// The byte length of a borrowed string.
pub fn calculate_length_by_reference(s: &String) -> (r: usize)
    ensures
        r == vstd::utf8::encode_utf8(s@).len(),
{
    s.as_str().as_bytes().len()
}

/// Appends a greeting tail through a mutable reference.
pub fn change(some_string: &mut String)
    ensures
        final(some_string)@ == old(some_string)@ + ", world"@,
{
    some_string.append(", world");
}

} // verus!

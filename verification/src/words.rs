//! Finding the first word of a string.

use vstd::prelude::*;
use vstd::string::StringSliceAdditionalSpecFns;

verus! {

/// The byte position of the first ASCII space in the string's UTF-8
/// encoding, or the byte length when there is none.
pub fn first_word_index(s: &String) -> (r: usize)
    ensures
        r <= vstd::utf8::encode_utf8(s@).len(),
        r < vstd::utf8::encode_utf8(s@).len() ==> vstd::utf8::encode_utf8(s@)[r as int] == 32
            && forall|k: int| 0 <= k < r ==> vstd::utf8::encode_utf8(s@)[k] != 32,
        r == vstd::utf8::encode_utf8(s@).len() ==> forall|k: int|
            0 <= k < r ==> vstd::utf8::encode_utf8(s@)[k] != 32,
{
    let bytes = s.as_str().as_bytes();
    let n = bytes.len();
    let mut i: usize = 0;
    while i < n
        invariant
            0 <= i <= n,
            n == bytes@.len(),
            bytes@ == vstd::utf8::encode_utf8(s@),
            forall|k: int| 0 <= k < i ==> bytes@[k] != 32,
        decreases n - i,
    {
        if bytes[i] == 32 {
            return i;
        }
        i = i + 1;
    }
    n
}

/// The prefix of the string up to (but not including) its first space
/// character, or the whole string when there is none.
pub fn first_word(s: &str) -> (r: &str)
    ensures
        ({
            let cut = first_space_position(s@);
            r@ == s@.subrange(0, cut)
        }),
{
    let n = s.unicode_len();
    let mut i: usize = 0;
    while i < n
        invariant
            0 <= i <= n,
            n == s@.len(),
            forall|k: int| 0 <= k < i ==> s@[k] != ' ',
        decreases n - i,
    {
        if s.get_char(i) == ' ' {
            proof {
                lemma_first_space_position(s@, i as int);
            }
            return s.substring_char(0, i);
        }
        i = i + 1;
    }
    proof {
        lemma_first_space_position(s@, n as int);
        assert(s@.subrange(0, n as int) =~= s@);
    }
    s
}

/// The position of the first space character, or the length when there
/// is none.
pub open spec fn first_space_position(s: Seq<char>) -> int
    decreases s.len(),
{
    if s.len() == 0 {
        0
    } else if s[0] == ' ' {
        0
    } else {
        1 + first_space_position(s.drop_first())
    }
}

/// A position with only non-spaces before it, and a space (or the end)
/// at it, is the first space position.
proof fn lemma_first_space_position(s: Seq<char>, i: int)
    requires
        0 <= i <= s.len(),
        forall|k: int| 0 <= k < i ==> s[k] != ' ',
        i < s.len() ==> s[i] == ' ',
    ensures
        first_space_position(s) == i,
    decreases s.len(),
{
    if s.len() > 0 && i > 0 {
        lemma_first_space_position(s.drop_first(), i - 1);
    }
}

} // verus!

//! The gifts of the counting carol: the phrase for each day, and the
//! phrases of one verse in sung order.

use vstd::prelude::*;
use vstd::string::StringExecFns;

verus! {

/// The gift phrase of day `i` (counting from zero).
pub open spec fn lyric_spec(i: int) -> Seq<char> {
    if i == 0 {
        "partridge in a pear tree"@
    } else if i == 1 {
        "turtle doves"@
    } else if i == 2 {
        "french hens"@
    } else if i == 3 {
        "calling birds"@
    } else if i == 4 {
        "gold rings"@
    } else if i == 5 {
        "geese a-laying"@
    } else if i == 6 {
        "swans a-swimming"@
    } else if i == 7 {
        "maids a-milking"@
    } else if i == 8 {
        "ladies dancing"@
    } else if i == 9 {
        "lords a-leaping"@
    } else if i == 10 {
        "pipers piping"@
    } else {
        "drummers drumming"@
    }
}

/// The gift phrase of day `index`.
pub fn lyric(index: usize) -> (r: String)
    requires
        index < 12,
    ensures
        r@ == lyric_spec(index as int),
{
    if index == 0 {
        String::from_str("partridge in a pear tree")
    } else if index == 1 {
        String::from_str("turtle doves")
    } else if index == 2 {
        String::from_str("french hens")
    } else if index == 3 {
        String::from_str("calling birds")
    } else if index == 4 {
        String::from_str("gold rings")
    } else if index == 5 {
        String::from_str("geese a-laying")
    } else if index == 6 {
        String::from_str("swans a-swimming")
    } else if index == 7 {
        String::from_str("maids a-milking")
    } else if index == 8 {
        String::from_str("ladies dancing")
    } else if index == 9 {
        String::from_str("lords a-leaping")
    } else if index == 10 {
        String::from_str("pipers piping")
    } else {
        String::from_str("drummers drumming")
    }
}

/// The phrases of verse `index` in sung order: the day's own gift first,
/// then each earlier gift counting down to the first day.
pub fn verse_phrases(index: usize) -> (r: Vec<String>)
    requires
        index < 12,
    ensures
        r.deep_view() == Seq::new((index + 1) as nat, |k: int| lyric_spec(index - k)),
{
    let mut r: Vec<String> = Vec::new();
    let ghost target = Seq::new((index + 1) as nat, |k: int| lyric_spec(index - k));
    let mut k: usize = 0;
    while k <= index
        invariant
            0 <= k <= index + 1,
            index < 12,
            target == Seq::new((index + 1) as nat, |k: int| lyric_spec(index - k)),
            r.deep_view() =~= target.take(k as int),
        decreases index - k + 1,
    {
        let ghost old_dv = r.deep_view();
        r.push(lyric(index - k));
        proof {
            assert(r.deep_view() =~= old_dv.push(lyric_spec(index - k)));
            assert(target.take(k + 1).drop_last() =~= target.take(k as int));
            assert(target.take(k + 1).last() == lyric_spec(index - k));
            assert(r.deep_view() =~= target.take(k + 1));
        }
        k = k + 1;
    }
    proof {
        assert(target.take((index + 1) as int) =~= target);
    }
    r
}

} // verus!

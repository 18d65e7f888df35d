//! Small verified text utilities shared by the demo modules: ASCII case
//! folding, whitespace splitting, joining with spaces, and string
//! equality.

use vstd::prelude::*;
use vstd::string::StringExecFns;

verus! {

/// ASCII whitespace: space, tab, line feed, form feed, carriage return.
pub open spec fn is_space(c: char) -> bool {
    c == ' ' || c == '\t' || c == '\n' || c == '\x0C' || c == '\r'
}

/// Runtime test for [`is_space`].
pub fn is_space_char(c: char) -> (r: bool)
    ensures
        r == is_space(c),
{
    c == ' ' || c == '\t' || c == '\n' || c == '\x0C' || c == '\r'
}

/// The ASCII lower-case fold of one character: letters `A` through `Z`
/// move down one case, everything else is unchanged.
pub open spec fn ascii_lower_char(c: char) -> char {
    if 'A' <= c && c <= 'Z' {
        ((c as u8 + 32) as u8) as char
    } else {
        c
    }
}

/// Runtime ASCII lower-casing of one character.
pub fn to_ascii_lower_char(c: char) -> (r: char)
    ensures
        r == ascii_lower_char(c),
{
    if 'A' <= c && c <= 'Z' {
        ((c as u8) + 32) as char
    } else {
        c
    }
}

/// The ASCII lower-case fold of a whole sequence, character by character.
pub open spec fn ascii_lower_seq(s: Seq<char>) -> Seq<char> {
    s.map_values(|c: char| ascii_lower_char(c))
}

/// Relies on `String::push`: appends one character at the end.
#[verifier::external_body]
pub(crate) fn push_char(s: &mut String, c: char)
    ensures
        final(s)@ == old(s)@.push(c),
{
    s.push(c);
}

/// Builds the ASCII lower-case fold of a string.
pub fn ascii_lowercase(s: &str) -> (r: String)
    ensures
        r@ == ascii_lower_seq(s@),
{
    let n = s.unicode_len();
    let mut r = String::new();
    let mut i: usize = 0;
    while i < n
        invariant
            0 <= i <= n,
            n == s@.len(),
            r@.len() == i,
            forall|k: int| 0 <= k < i ==> r@[k] == ascii_lower_char(s@[k]),
        decreases n - i,
    {
        push_char(&mut r, to_ascii_lower_char(s.get_char(i)));
        i = i + 1;
    }
    proof {
        assert(r@ =~= ascii_lower_seq(s@));
    }
    r
}

/// Character-wise string equality.
pub fn str_eq(a: &str, b: &str) -> (r: bool)
    ensures
        r == (a@ == b@),
{
    let n = a.unicode_len();
    let m = b.unicode_len();
    if n != m {
        return false;
    }
    let mut i: usize = 0;
    while i < n
        invariant
            0 <= i <= n,
            n == a@.len(),
            n == b@.len(),
            forall|k: int| 0 <= k < i ==> a@[k] == b@[k],
        decreases n - i,
    {
        if a.get_char(i) != b.get_char(i) {
            return false;
        }
        i = i + 1;
    }
    proof {
        assert(a@ =~= b@);
    }
    true
}

/// The words of `s`: the maximal runs of non-whitespace characters, in
/// order.  Whitespace here is ASCII whitespace; every word is non-empty.
pub open spec fn split_ws(s: Seq<char>) -> Seq<Seq<char>>
    decreases s.len(),
{
    if s.len() == 0 {
        Seq::empty()
    } else if is_space(s[0]) {
        split_ws(s.drop_first())
    } else {
        let rest = split_ws(s.drop_first());
        if s.len() > 1 && !is_space(s[1]) {
            seq![seq![s[0]] + rest[0]] + rest.drop_first()
        } else {
            seq![seq![s[0]]] + rest
        }
    }
}

/// Every word produced by [`split_ws`] is non-empty.
pub proof fn lemma_split_ws_words_nonempty(s: Seq<char>)
    ensures
        forall|k: int| 0 <= k < split_ws(s).len() ==> #[trigger] split_ws(s)[k].len() > 0,
    decreases s.len(),
{
    if s.len() > 0 {
        lemma_split_ws_words_nonempty(s.drop_first());
        let rest = split_ws(s.drop_first());
        if !is_space(s[0]) {
            assert forall|k: int| 0 <= k < split_ws(s).len() implies #[trigger] split_ws(
                s,
            )[k].len() > 0 by {
                if k > 0 {
                    if s.len() > 1 && !is_space(s[1]) {
                        assert(split_ws(s)[k] == rest[k]);
                    } else {
                        assert(split_ws(s)[k] == rest[k - 1]);
                    }
                }
            }
        }
    }
}

/// Where the first word of `t` ends at position `j` (everything before
/// `j` is non-space and `t[j]`, if present, is space), the words of `t`
/// are that first word followed by the words of the rest.
proof fn lemma_split_ws_word(t: Seq<char>, j: int)
    requires
        0 < j <= t.len(),
        forall|k: int| 0 <= k < j ==> !is_space(t[k]),
        j < t.len() ==> is_space(t[j]),
    ensures
        split_ws(t) == seq![t.subrange(0, j)] + split_ws(t.subrange(j, t.len() as int)),
    decreases j,
{
    let rest = split_ws(t.drop_first());
    if j == 1 {
        assert(t.subrange(1, t.len() as int) =~= t.drop_first());
        assert(seq![t[0]] =~= t.subrange(0, 1));
        assert(split_ws(t) =~= seq![t.subrange(0, 1)] + split_ws(t.subrange(1, t.len() as int)));
    } else {
        let u = t.drop_first();
        lemma_split_ws_word(u, j - 1);
        assert(u.subrange(0, j - 1) =~= t.subrange(1, j));
        assert(rest == seq![t.subrange(1, j)] + split_ws(u.subrange(j - 1, u.len() as int)));
        assert(rest.len() > 0);
        assert(seq![t[0]] + rest[0] =~= t.subrange(0, j));
        assert(rest.drop_first() =~= split_ws(u.subrange(j - 1, u.len() as int)));
        assert(u.subrange(j - 1, u.len() as int) =~= t.subrange(j, t.len() as int));
        assert(split_ws(t) =~= seq![t.subrange(0, j)] + split_ws(t.subrange(j, t.len() as int)));
    }
}

/// Splits a string into its whitespace-separated words, as owned strings.
pub fn split_words(s: &str) -> (r: Vec<String>)
    ensures
        r.deep_view() == split_ws(s@),
{
    let n = s.unicode_len();
    let mut r: Vec<String> = Vec::new();
    proof {
        assert(s@.subrange(0, n as int) =~= s@);
        assert(r.deep_view() =~= Seq::<Seq<char>>::empty());
        assert(r.deep_view() + split_ws(s@) =~= split_ws(s@));
    }
    let mut i: usize = 0;
    while i < n
        invariant
            0 <= i <= n,
            n == s@.len(),
            split_ws(s@) == r.deep_view() + split_ws(s@.subrange(i as int, n as int)),
        decreases n - i,
    {
        let c = s.get_char(i);
        if is_space_char(c) {
            proof {
                let t = s@.subrange(i as int, n as int);
                assert(t.drop_first() =~= s@.subrange(i + 1, n as int));
            }
            i = i + 1;
        } else {
            let start = i;
            let mut j: usize = i + 1;
            while j < n && !is_space_char(s.get_char(j))
                invariant
                    start < j <= n,
                    n == s@.len(),
                    forall|k: int| start <= k < j ==> !is_space(s@[k]),
                decreases n - j,
            {
                j = j + 1;
            }
            let word = s.substring_char(start, j);
            proof {
                let t = s@.subrange(start as int, n as int);
                lemma_split_ws_word(t, j - start);
                assert(t.subrange(0, j - start) =~= s@.subrange(start as int, j as int));
                assert(t.subrange(j - start, t.len() as int) =~= s@.subrange(j as int, n as int));
            }
            let ghost old_dv = r.deep_view();
            r.push(String::from_str(word));
            proof {
                assert(r.deep_view() =~= old_dv.push(word@));
                assert(old_dv.push(word@) + split_ws(s@.subrange(j as int, n as int)) =~= old_dv + (
                seq![word@] + split_ws(s@.subrange(j as int, n as int))));
            }
            i = j;
        }
    }
    proof {
        assert(s@.subrange(n as int, n as int).len() == 0);
        assert(r.deep_view() + split_ws(s@.subrange(n as int, n as int)) =~= r.deep_view());
    }
    r
}

/// Words joined by a single space: the empty word list joins to the
/// empty string.
pub open spec fn join_spaced(ws: Seq<Seq<char>>) -> Seq<char>
    decreases ws.len(),
{
    if ws.len() == 0 {
        Seq::empty()
    } else if ws.len() == 1 {
        ws[0]
    } else {
        join_spaced(ws.drop_last()) + seq![' '] + ws.last()
    }
}

/// Joins the words at positions `from..to` with single spaces.
pub fn join_spaces(words: &Vec<String>, from: usize, to: usize) -> (r: String)
    requires
        from <= to <= words@.len(),
    ensures
        r@ == join_spaced(words.deep_view().subrange(from as int, to as int)),
{
    let mut r = String::new();
    let mut k: usize = from;
    while k < to
        invariant
            from <= k <= to <= words@.len(),
            r@ == join_spaced(words.deep_view().subrange(from as int, k as int)),
        decreases to - k,
    {
        proof {
            let dv = words.deep_view();
            let cur = dv.subrange(from as int, k as int);
            let next = dv.subrange(from as int, k + 1);
            assert(next.drop_last() =~= cur);
            assert(next.last() == dv[k as int]);
            assert(dv[k as int] == words@[k as int]@);
        }
        if k > from {
            push_char(&mut r, ' ');
        }
        let w: &String = &words[k];
        r.append(w.as_str());
        proof {
            let dv = words.deep_view();
            let next = dv.subrange(from as int, k + 1);
            if k == from {
                assert(r@ =~= join_spaced(next));
            } else {
                assert(r@ =~= join_spaced(next));
            }
        }
        k = k + 1;
    }
    r
}

} // verus!

//! The line-oriented search engine.
//!
//! A body of text is split into newline-delimited lines (a trailing
//! unterminated final line is included), and every line that contains the
//! query as a literal substring is returned, as a slice borrowed from the
//! original body, in the original order.  Case-insensitive search folds
//! both the query (once, before the scan) and each line to lower case
//! before the containment test, but emits each matching line with its
//! original casing.

use vstd::prelude::*;

verus! {

/// Whether `needle` occurs in `hay` starting at character position `i`.
pub open spec fn contains_at(hay: Seq<char>, needle: Seq<char>, i: int) -> bool {
    &&& 0 <= i
    &&& i + needle.len() <= hay.len()
    &&& hay.subrange(i, i + needle.len() as int) == needle
}

/// Literal substring containment: `needle` occurs contiguously somewhere
/// in `hay`.  The empty needle is contained in everything.
pub open spec fn contains_seq(hay: Seq<char>, needle: Seq<char>) -> bool {
    exists|i: int| contains_at(hay, needle, i)
}

/// The lines of a text body, split at `'\n'` alone (one fixed,
/// platform-independent convention): each newline terminates a line, and
/// an unterminated trailing line is kept.  The empty body has no lines.
pub open spec fn line_split(body: Seq<char>) -> Seq<Seq<char>>
    decreases body.len(),
{
    if body.len() == 0 {
        Seq::empty()
    } else if body[0] == '\n' {
        seq![Seq::<char>::empty()] + line_split(body.drop_first())
    } else {
        let rest = line_split(body.drop_first());
        if rest.len() == 0 {
            seq![seq![body[0]]]
        } else {
            seq![seq![body[0]] + rest[0]] + rest.drop_first()
        }
    }
}

/// The lower-case fold of a single character.  The executable side relies
/// on the standard library's Unicode tables, so the mapping itself is left
/// unspecified here; all that matters to the contracts is that it is a
/// fixed function of the character alone.
pub uninterp spec fn lower_char(c: char) -> char;

/// Relies on `char::to_lowercase`: the first scalar of the Unicode
/// lowercase mapping, a fixed function of the character alone.  The rare
/// mappings that expand to several scalars are truncated to their first,
/// i.e. this is a simple per-scalar case fold.
#[verifier::external_body]
fn to_lower_char(c: char) -> (r: char)
    ensures
        r == lower_char(c),
{
    c.to_lowercase().next().unwrap_or(c)
}

/// The per-character lower-case fold of a whole sequence.
pub open spec fn lower_seq(s: Seq<char>) -> Seq<char> {
    s.map_values(|c: char| lower_char(c))
}

/// The matching predicate of case-sensitive search, as a function of the
/// query.
pub open spec fn sensitive_pred(query: Seq<char>) -> spec_fn(Seq<char>) -> bool {
    |line: Seq<char>| contains_seq(line, query)
}

/// The matching predicate of case-insensitive search, as a function of
/// the query.
pub open spec fn insensitive_pred(query: Seq<char>) -> spec_fn(Seq<char>) -> bool {
    |line: Seq<char>| contains_seq(lower_seq(line), lower_seq(query))
}

/// The case-sensitive search result: the lines of `body` that contain
/// `query`, in their original order.
pub open spec fn search_spec(query: Seq<char>, body: Seq<char>) -> Seq<Seq<char>> {
    line_split(body).filter(sensitive_pred(query))
}

/// The case-insensitive search result: the lines of `body` whose
/// lower-case fold contains the lower-case fold of `query`, in their
/// original order and with their original casing.
pub open spec fn search_ci_spec(query: Seq<char>, body: Seq<char>) -> Seq<Seq<char>> {
    line_split(body).filter(insensitive_pred(query))
}

/// Whether `needle` occurs in `hay` at character position `i`, checked by
/// comparing characters one by one.
fn matches_at(hay: &str, needle: &str, i: usize) -> (r: bool)
    requires
        i + needle@.len() <= hay@.len(),
        hay@.len() <= usize::MAX,
    ensures
        r == contains_at(hay@, needle@, i as int),
{
    let m = needle.unicode_len();
    let mut j: usize = 0;
    while j < m
        invariant
            0 <= j <= m,
            m == needle@.len(),
            i + m <= hay@.len(),
            hay@.len() <= usize::MAX,
            forall|k: int| 0 <= k < j ==> hay@[i + k] == needle@[k],
        decreases m - j,
    {
        if hay.get_char(i + j) != needle.get_char(j) {
            proof {
                let sub = hay@.subrange(i as int, i + needle@.len() as int);
                assert(sub[j as int] != needle@[j as int]);
            }
            return false;
        }
        j = j + 1;
    }
    proof {
        assert(hay@.subrange(i as int, i + needle@.len() as int) =~= needle@);
    }
    true
}

/// Whether `hay` contains `needle` as a literal substring.
fn str_contains(hay: &str, needle: &str) -> (r: bool)
    ensures
        r == contains_seq(hay@, needle@),
{
    let n = hay.unicode_len();
    let m = needle.unicode_len();
    if m > n {
        proof {
            assert(forall|i: int| !contains_at(hay@, needle@, i));
        }
        return false;
    }
    if m == 0 {
        proof {
            assert(hay@.subrange(0, 0) =~= needle@);
            assert(contains_at(hay@, needle@, 0));
        }
        return true;
    }
    let mut i: usize = 0;
    while i <= n - m
        invariant
            0 <= i <= n - m + 1,
            1 <= m,
            n == hay@.len(),
            m == needle@.len(),
            m <= n,
            forall|k: int| 0 <= k < i ==> !contains_at(hay@, needle@, k),
        decreases n - m - i + 1,
    {
        if matches_at(hay, needle, i) {
            return true;
        }
        i = i + 1;
    }
    proof {
        assert(forall|k: int| contains_at(hay@, needle@, k) ==> 0 <= k <= n - m);
    }
    false
}

/// Where the first newline of `s` sits at position `i`, the lines of `s`
/// are the prefix before it followed by the lines of what comes after it.
proof fn lemma_line_split_first(s: Seq<char>, i: int)
    requires
        0 <= i < s.len(),
        s[i] == '\n',
        forall|k: int| 0 <= k < i ==> s[k] != '\n',
    ensures
        line_split(s) == seq![s.subrange(0, i)] + line_split(s.subrange(i + 1, s.len() as int)),
    decreases i,
{
    if i == 0 {
        assert(s.subrange(0, 0) =~= Seq::<char>::empty());
        assert(s.subrange(1, s.len() as int) =~= s.drop_first());
    } else {
        let t = s.drop_first();
        lemma_line_split_first(t, i - 1);
        let rest = line_split(t);
        assert(t.subrange(0, i - 1) =~= s.subrange(1, i));
        assert(rest == seq![s.subrange(1, i)] + line_split(t.subrange(i - 1 + 1, t.len() as int)));
        assert(rest[0] == s.subrange(1, i));
        assert(rest.len() > 0);
        assert(seq![s[0]] + rest[0] =~= s.subrange(0, i));
        assert(rest.drop_first() =~= line_split(t.subrange(i, t.len() as int)));
        assert(t.subrange(i, t.len() as int) =~= s.subrange(i + 1, s.len() as int));
        assert(line_split(s) =~= seq![s.subrange(0, i)] + line_split(
            s.subrange(i + 1, s.len() as int),
        ));
    }
}

/// A non-empty body without a newline is a single line.
proof fn lemma_line_split_no_newline(s: Seq<char>)
    requires
        s.len() > 0,
        forall|k: int| 0 <= k < s.len() ==> s[k] != '\n',
    ensures
        line_split(s) == seq![s],
    decreases s.len(),
{
    let t = s.drop_first();
    if s.len() == 1 {
        assert(line_split(t) =~= Seq::<Seq<char>>::empty());
        assert(seq![s[0]] =~= s);
        assert(line_split(s) =~= seq![s]);
    } else {
        lemma_line_split_no_newline(t);
        assert(seq![s[0]] + t =~= s);
        assert(line_split(s) =~= seq![s]);
    }
}

/// Splits a body into its newline-delimited lines, each returned as a
/// slice borrowed from the body.
fn split_lines<'a>(contents: &'a str) -> (r: Vec<&'a str>)
    ensures
        r.deep_view() == line_split(contents@),
{
    let n = contents.unicode_len();
    let mut r: Vec<&'a str> = Vec::new();
    proof {
        assert(contents@.subrange(0, n as int) =~= contents@);
        assert(r.deep_view() =~= Seq::<Seq<char>>::empty());
        assert(r.deep_view() + line_split(contents@) =~= line_split(contents@));
    }
    let mut start: usize = 0;
    let mut i: usize = 0;
    while i < n
        invariant
            0 <= start <= i <= n,
            n == contents@.len(),
            forall|k: int| start <= k < i ==> contents@[k] != '\n',
            line_split(contents@) == r.deep_view() + line_split(
                contents@.subrange(start as int, n as int),
            ),
        decreases n - i,
    {
        let c = contents.get_char(i);
        if c == '\n' {
            let line = contents.substring_char(start, i);
            proof {
                let tail = contents@.subrange(start as int, n as int);
                lemma_line_split_first(tail, i - start);
                assert(tail.subrange(0, i - start) =~= contents@.subrange(start as int, i as int));
                assert(tail.subrange(i - start + 1, tail.len() as int) =~= contents@.subrange(
                    i + 1,
                    n as int,
                ));
            }
            let ghost old_dv = r.deep_view();
            r.push(line);
            proof {
                assert(r.deep_view() =~= old_dv.push(line@));
                assert(old_dv.push(line@) + line_split(contents@.subrange(i + 1, n as int))
                    =~= old_dv + (seq![line@] + line_split(contents@.subrange(i + 1, n as int))));
            }
            start = i + 1;
        }
        i = i + 1;
    }
    if start < n {
        let line = contents.substring_char(start, n);
        proof {
            lemma_line_split_no_newline(contents@.subrange(start as int, n as int));
        }
        let ghost old_dv = r.deep_view();
        r.push(line);
        proof {
            assert(r.deep_view() =~= old_dv.push(line@));
            assert(old_dv + seq![line@] =~= old_dv.push(line@));
        }
    } else {
        proof {
            assert(contents@.subrange(start as int, n as int).len() == 0);
            assert(r.deep_view() + line_split(contents@.subrange(start as int, n as int))
                =~= r.deep_view());
        }
    }
    r
}

/// Case-sensitive search: the lines of `contents` that contain `query`
/// literally, as slices of `contents`, in their original order.
pub fn search<'a>(query: &str, contents: &'a str) -> (r: Vec<&'a str>)
    ensures
        r.deep_view() == search_spec(query@, contents@),
{
    let lines = split_lines(contents);
    let ghost pred = sensitive_pred(query@);
    let mut r: Vec<&'a str> = Vec::new();
    proof {
        reveal(Seq::filter);
        assert(lines.deep_view().take(0).filter(pred) =~= r.deep_view());
    }
    let mut idx: usize = 0;
    while idx < lines.len()
        invariant
            0 <= idx <= lines@.len(),
            lines.deep_view() == line_split(contents@),
            pred == sensitive_pred(query@),
            r.deep_view() == lines.deep_view().take(idx as int).filter(pred),
        decreases lines@.len() - idx,
    {
        let line = lines[idx];
        proof {
            assert(lines.deep_view()[idx as int] == lines@[idx as int]@);
        }
        let ghost prefix = lines.deep_view().take(idx as int);
        let ghost next_prefix = lines.deep_view().take(idx + 1);
        proof {
            assert(next_prefix.drop_last() =~= prefix);
            assert(next_prefix.last() == line@);
        }
        proof {
            reveal(Seq::filter);
            assert(pred(line@) == contains_seq(line@, query@));
            if pred(line@) {
                assert(next_prefix.filter(pred) == prefix.filter(pred).push(line@));
            } else {
                assert(next_prefix.filter(pred) == prefix.filter(pred));
            }
        }
        let ghost old_dv = r.deep_view();
        if str_contains(line, query) {
            r.push(line);
            proof {
                assert(r.deep_view() =~= old_dv.push(line@));
            }
        }
        idx = idx + 1;
    }
    proof {
        assert(lines.deep_view().take(lines@.len() as int) =~= lines.deep_view());
    }
    r
}

/// Folds every character of `s` to lower case.
fn lower_chars(s: &str) -> (r: Vec<char>)
    ensures
        r@ == lower_seq(s@),
{
    let n = s.unicode_len();
    let mut r: Vec<char> = Vec::new();
    let mut i: usize = 0;
    while i < n
        invariant
            0 <= i <= n,
            n == s@.len(),
            r@.len() == i,
            forall|k: int| 0 <= k < i ==> r@[k] == lower_char(s@[k]),
        decreases n - i,
    {
        r.push(to_lower_char(s.get_char(i)));
        i = i + 1;
    }
    proof {
        assert(r@ =~= lower_seq(s@));
    }
    r
}

/// Whether the lower-case fold of `needle` occurs in the lower-case fold
/// of `hay` at position `i`; `needle` is already folded.
fn matches_at_lower(hay: &str, needle: &Vec<char>, i: usize) -> (r: bool)
    requires
        i + needle@.len() <= hay@.len(),
        hay@.len() <= usize::MAX,
    ensures
        r == contains_at(lower_seq(hay@), needle@, i as int),
{
    let m = needle.len();
    let mut j: usize = 0;
    while j < m
        invariant
            0 <= j <= m,
            m == needle@.len(),
            i + m <= hay@.len(),
            hay@.len() <= usize::MAX,
            forall|k: int| 0 <= k < j ==> lower_seq(hay@)[i + k] == needle@[k],
        decreases m - j,
    {
        if to_lower_char(hay.get_char(i + j)) != needle[j] {
            proof {
                let sub = lower_seq(hay@).subrange(i as int, i + needle@.len() as int);
                assert(sub[j as int] != needle@[j as int]);
            }
            return false;
        }
        j = j + 1;
    }
    proof {
        assert(lower_seq(hay@).subrange(i as int, i + needle@.len() as int) =~= needle@);
    }
    true
}

/// Whether the lower-case fold of `hay` contains the already-folded
/// `needle` as a literal substring.
fn contains_lower(hay: &str, needle: &Vec<char>) -> (r: bool)
    ensures
        r == contains_seq(lower_seq(hay@), needle@),
{
    let n = hay.unicode_len();
    let m = needle.len();
    proof {
        assert(lower_seq(hay@).len() == hay@.len());
    }
    if m > n {
        proof {
            assert(forall|i: int| !contains_at(lower_seq(hay@), needle@, i));
        }
        return false;
    }
    if m == 0 {
        proof {
            assert(lower_seq(hay@).subrange(0, 0) =~= needle@);
            assert(contains_at(lower_seq(hay@), needle@, 0));
        }
        return true;
    }
    let mut i: usize = 0;
    while i <= n - m
        invariant
            0 <= i <= n - m + 1,
            1 <= m,
            n == hay@.len(),
            m == needle@.len(),
            m <= n,
            forall|k: int| 0 <= k < i ==> !contains_at(lower_seq(hay@), needle@, k),
        decreases n - m - i + 1,
    {
        if matches_at_lower(hay, needle, i) {
            return true;
        }
        i = i + 1;
    }
    proof {
        assert(forall|k: int| contains_at(lower_seq(hay@), needle@, k) ==> 0 <= k <= n - m);
    }
    false
}

/// Case-insensitive search: the lines of `contents` whose lower-case fold
/// contains the lower-case fold of `query`, emitted with their original
/// casing, in their original order.  The query is folded once, before the
/// per-line scan.
pub fn search_case_insensitive<'a>(query: &str, contents: &'a str) -> (r: Vec<&'a str>)
    ensures
        r.deep_view() == search_ci_spec(query@, contents@),
{
    let lowered = lower_chars(query);
    let lines = split_lines(contents);
    let ghost pred = insensitive_pred(query@);
    let mut r: Vec<&'a str> = Vec::new();
    proof {
        reveal(Seq::filter);
        assert(lines.deep_view().take(0).filter(pred) =~= r.deep_view());
    }
    let mut idx: usize = 0;
    while idx < lines.len()
        invariant
            0 <= idx <= lines@.len(),
            lines.deep_view() == line_split(contents@),
            pred == insensitive_pred(query@),
            lowered@ == lower_seq(query@),
            r.deep_view() == lines.deep_view().take(idx as int).filter(pred),
        decreases lines@.len() - idx,
    {
        let line = lines[idx];
        proof {
            assert(lines.deep_view()[idx as int] == lines@[idx as int]@);
        }
        let ghost prefix = lines.deep_view().take(idx as int);
        let ghost next_prefix = lines.deep_view().take(idx + 1);
        proof {
            assert(next_prefix.drop_last() =~= prefix);
            assert(next_prefix.last() == line@);
        }
        proof {
            reveal(Seq::filter);
            assert(pred(line@) == contains_seq(lower_seq(line@), lower_seq(query@)));
            if pred(line@) {
                assert(next_prefix.filter(pred) == prefix.filter(pred).push(line@));
            } else {
                assert(next_prefix.filter(pred) == prefix.filter(pred));
            }
        }
        let ghost old_dv = r.deep_view();
        if contains_lower(line, &lowered) {
            r.push(line);
            proof {
                assert(r.deep_view() =~= old_dv.push(line@));
            }
        }
        idx = idx + 1;
    }
    proof {
        assert(lines.deep_view().take(lines@.len() as int) =~= lines.deep_view());
    }
    r
}

/// Runs the search described by a resolved configuration over an
/// already-loaded body: the configuration picks the case policy and
/// supplies the query.
pub fn search_with_config<'a>(config: &crate::config::Config, contents: &'a str) -> (r: Vec<
    &'a str,
>)
    ensures
        config.case_sensitive ==> r.deep_view() == search_spec(config.query@, contents@),
        !config.case_sensitive ==> r.deep_view() == search_ci_spec(config.query@, contents@),
{
    if config.case_sensitive {
        search(config.query.as_str(), contents)
    } else {
        search_case_insensitive(config.query.as_str(), contents)
    }
}

/// The positions, in increasing order, of the lines of `lines` that
/// satisfy `pred`.
pub open spec fn match_positions(pred: spec_fn(Seq<char>) -> bool, lines: Seq<Seq<char>>) -> Seq<
    int,
>
    decreases lines.len(),
{
    if lines.len() == 0 {
        Seq::empty()
    } else {
        let prefix = match_positions(pred, lines.drop_last());
        if pred(lines.last()) {
            prefix.push(lines.len() - 1)
        } else {
            prefix
        }
    }
}

/// The filtered lines satisfy the predicate, come from the original
/// lines, and miss no line of the original that satisfies it.
proof fn lemma_filter_exact(pred: spec_fn(Seq<char>) -> bool, lines: Seq<Seq<char>>)
    ensures
        forall|k: int|
            0 <= k < lines.filter(pred).len() ==> pred(#[trigger] lines.filter(pred)[k])
                && lines.contains(lines.filter(pred)[k]),
        forall|i: int|
            0 <= i < lines.len() && pred(#[trigger] lines[i]) ==> lines.filter(pred).contains(
                lines[i],
            ),
{
    let result = lines.filter(pred);
    assert forall|k: int| 0 <= k < result.len() implies pred(result[k]) && lines.contains(
        result[k],
    ) by {
        lines.lemma_filter_pred(pred, k);
        lines.lemma_filter_contains_rev(pred, result[k]);
        assert(result.contains(result[k]));
    }
    assert forall|i: int| 0 <= i < lines.len() && pred(lines[i]) implies result.contains(
        lines[i],
    ) by {
        lines.lemma_filter_contains(pred, i);
    }
}

/// Every line of the case-sensitive result contains the query and comes
/// from the body's lines, and every line of the body that contains the
/// query is in the result: the search is exactly the matching lines,
/// nothing more and nothing less.
pub proof fn lemma_search_exact(query: Seq<char>, body: Seq<char>)
    ensures
        forall|k: int|
            0 <= k < search_spec(query, body).len() ==> contains_seq(
                #[trigger] search_spec(query, body)[k],
                query,
            ) && line_split(body).contains(search_spec(query, body)[k]),
        forall|i: int|
            0 <= i < line_split(body).len() && contains_seq(#[trigger] line_split(body)[i], query)
                ==> search_spec(query, body).contains(line_split(body)[i]),
{
    lemma_filter_exact(sensitive_pred(query), line_split(body));
}

/// The case-insensitive counterpart of [`lemma_search_exact`]: the result
/// is exactly the lines whose lower-case fold contains the folded query.
pub proof fn lemma_search_ci_exact(query: Seq<char>, body: Seq<char>)
    ensures
        forall|k: int|
            0 <= k < search_ci_spec(query, body).len() ==> contains_seq(
                lower_seq(#[trigger] search_ci_spec(query, body)[k]),
                lower_seq(query),
            ) && line_split(body).contains(search_ci_spec(query, body)[k]),
        forall|i: int|
            0 <= i < line_split(body).len() && contains_seq(
                lower_seq(#[trigger] line_split(body)[i]),
                lower_seq(query),
            ) ==> search_ci_spec(query, body).contains(line_split(body)[i]),
{
    lemma_filter_exact(insensitive_pred(query), line_split(body));
}

/// Induction behind the order-preservation law: the filtered lines are
/// exactly the lines at the match positions, and those positions increase
/// strictly.
proof fn lemma_match_positions(pred: spec_fn(Seq<char>) -> bool, lines: Seq<Seq<char>>)
    ensures
        ({
            let result = lines.filter(pred);
            let pos = match_positions(pred, lines);
            &&& result.len() == pos.len()
            &&& forall|k: int|
                0 <= k < pos.len() ==> 0 <= #[trigger] pos[k] < lines.len() && result[k]
                    == lines[pos[k]]
            &&& forall|k1: int, k2: int| 0 <= k1 < k2 < pos.len() ==> pos[k1] < pos[k2]
        }),
    decreases lines.len(),
{
    reveal(Seq::filter);
    if lines.len() > 0 {
        lemma_match_positions(pred, lines.drop_last());
    }
}

/// The case-sensitive result preserves the body's line order: the result
/// lines stand at strictly increasing positions of the line sequence, in
/// that order.
pub proof fn lemma_search_preserves_order(query: Seq<char>, body: Seq<char>)
    ensures
        ({
            let lines = line_split(body);
            let result = search_spec(query, body);
            let pos = match_positions(sensitive_pred(query), lines);
            &&& result.len() == pos.len()
            &&& forall|k: int|
                0 <= k < pos.len() ==> 0 <= #[trigger] pos[k] < lines.len() && result[k]
                    == lines[pos[k]]
            &&& forall|k1: int, k2: int| 0 <= k1 < k2 < pos.len() ==> pos[k1] < pos[k2]
        }),
{
    lemma_match_positions(sensitive_pred(query), line_split(body));
}

/// The case-insensitive result preserves the body's line order in the
/// same way.
pub proof fn lemma_search_ci_preserves_order(query: Seq<char>, body: Seq<char>)
    ensures
        ({
            let lines = line_split(body);
            let result = search_ci_spec(query, body);
            let pos = match_positions(insensitive_pred(query), lines);
            &&& result.len() == pos.len()
            &&& forall|k: int|
                0 <= k < pos.len() ==> 0 <= #[trigger] pos[k] < lines.len() && result[k]
                    == lines[pos[k]]
            &&& forall|k1: int, k2: int| 0 <= k1 < k2 < pos.len() ==> pos[k1] < pos[k2]
        }),
{
    lemma_match_positions(insensitive_pred(query), line_split(body));
}

/// A filter with a weaker predicate keeps at least as many elements.
proof fn lemma_filter_weaker_len<A>(s: Seq<A>, p: spec_fn(A) -> bool, q: spec_fn(A) -> bool)
    requires
        forall|x: A| #[trigger] p(x) ==> q(x),
    ensures
        s.filter(p).len() <= s.filter(q).len(),
    decreases s.len(),
{
    reveal(Seq::filter);
    if s.len() > 0 {
        lemma_filter_weaker_len(s.drop_last(), p, q);
    }
}

/// A case-sensitive match implies the corresponding case-insensitive
/// match: folding both sides to lower case maps the occurrence in place.
proof fn lemma_sensitive_implies_insensitive(query: Seq<char>, line: Seq<char>)
    requires
        contains_seq(line, query),
    ensures
        contains_seq(lower_seq(line), lower_seq(query)),
{
    let i = choose|i: int| contains_at(line, query, i);
    assert forall|k: int| 0 <= k < query.len() implies lower_seq(line)[i + k] == lower_seq(
        query,
    )[k] by {
        assert(line.subrange(i, i + query.len() as int)[k] == query[k]);
    }
    assert(lower_seq(line).subrange(i, i + lower_seq(query).len() as int) =~= lower_seq(query));
    assert(contains_at(lower_seq(line), lower_seq(query), i));
}

/// Case-insensitive search matches at least as many lines as
/// case-sensitive search of the same query and body.
pub proof fn lemma_case_insensitive_superset(query: Seq<char>, body: Seq<char>)
    ensures
        search_spec(query, body).len() <= search_ci_spec(query, body).len(),
{
    let p = sensitive_pred(query);
    let q = insensitive_pred(query);
    assert forall|l: Seq<char>| #[trigger] p(l) implies q(l) by {
        lemma_sensitive_implies_insensitive(query, l);
    }
    lemma_filter_weaker_len(line_split(body), p, q);
}

/// A filter whose predicate holds of every element keeps the sequence
/// unchanged.
proof fn lemma_filter_all_true<A>(s: Seq<A>, p: spec_fn(A) -> bool)
    requires
        forall|i: int| 0 <= i < s.len() ==> p(#[trigger] s[i]),
    ensures
        s.filter(p) == s,
    decreases s.len(),
{
    reveal(Seq::filter);
    if s.len() > 0 {
        lemma_filter_all_true(s.drop_last(), p);
        assert(s.filter(p) =~= s);
    }
}

/// The empty query matches every line, under either case policy.
pub proof fn lemma_empty_query_matches_all(query: Seq<char>, body: Seq<char>)
    requires
        query.len() == 0,
    ensures
        search_spec(query, body) == line_split(body),
        search_ci_spec(query, body) == line_split(body),
{
    let p = sensitive_pred(query);
    let q = insensitive_pred(query);
    let lines = line_split(body);
    assert forall|i: int| 0 <= i < lines.len() implies p(#[trigger] lines[i]) by {
        assert(lines[i].subrange(0, 0) =~= query);
        assert(contains_at(lines[i], query, 0));
    }
    assert forall|i: int| 0 <= i < lines.len() implies q(#[trigger] lines[i]) by {
        assert(lower_seq(query) =~= Seq::<char>::empty());
        assert(lower_seq(lines[i]).subrange(0, 0) =~= lower_seq(query));
        assert(contains_at(lower_seq(lines[i]), lower_seq(query), 0));
    }
    lemma_filter_all_true(lines, p);
    lemma_filter_all_true(lines, q);
}

/// Search is deterministic: two calls on identical inputs return
/// identical, identically-ordered results, because each call's contract
/// pins its result to a function of the inputs alone.
pub proof fn lemma_search_idempotent(
    query: Seq<char>,
    body: Seq<char>,
    first: Seq<Seq<char>>,
    second: Seq<Seq<char>>,
)
    requires
        first == search_spec(query, body),
        second == search_spec(query, body),
    ensures
        first == second,
{
}

} // verus!

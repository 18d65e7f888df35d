//! Pig-latin translation: the first consonant of each word moves to the
//! end followed by `ay`, words that start with a vowel get `-hay`
//! appended instead.  Words are the maximal runs of non-whitespace
//! characters (ASCII whitespace), and the result joins the translated
//! words with single spaces.

use crate::text::ascii_lower_char;
use crate::text::is_space;
use crate::text::join_spaced;
use crate::text::lemma_split_ws_words_nonempty;
use crate::text::push_char;
use crate::text::split_words;
use crate::text::split_ws;
use vstd::prelude::*;
use vstd::string::StringExecFns;

verus! {

/// Whether a character counts as a vowel, ignoring ASCII case.
pub open spec fn is_vowel(c: char) -> bool {
    ascii_lower_char(c) == 'a' || ascii_lower_char(c) == 'e' || ascii_lower_char(c) == 'i'
        || ascii_lower_char(c) == 'o' || ascii_lower_char(c) == 'u'
}

/// The pig-latin translation of one word.
pub open spec fn pig_one_spec(word: Seq<char>) -> Seq<char> {
    if word.len() == 0 {
        Seq::empty()
    } else if is_vowel(word[0]) {
        word + "-hay"@
    } else {
        word.drop_first() + "-"@ + seq![word[0]] + "ay"@
    }
}

/// The pig-latin translations of all the words of a sentence, in order.
pub open spec fn pig_words_spec(s: Seq<char>) -> Seq<Seq<char>> {
    split_ws(s).map_values(|w: Seq<char>| pig_one_spec(w))
}

/// The pig-latin translation of a whole sentence: every word translated,
/// joined with single spaces.
pub open spec fn pig_latin_spec(s: Seq<char>) -> Seq<char> {
    join_spaced(pig_words_spec(s))
}

/// Translates one word to pig latin.
pub fn pig_one(word: &str) -> (r: String)
    ensures
        r@ == pig_one_spec(word@),
{
    let n = word.unicode_len();
    if n == 0 {
        return String::new();
    }
    let first = word.get_char(0);
    let lowered = crate::text::to_ascii_lower_char(first);
    if lowered == 'a' || lowered == 'e' || lowered == 'i' || lowered == 'o' || lowered == 'u' {
        let mut r = String::from_str(word);
        r.append("-hay");
        proof {
            assert(r@ =~= pig_one_spec(word@));
        }
        r
    } else {
        let rest = word.substring_char(1, n);
        let mut r = String::from_str(rest);
        r.append("-");
        push_char(&mut r, first);
        r.append("ay");
        proof {
            assert(word@.subrange(1, n as int) =~= word@.drop_first());
            assert(r@ =~= pig_one_spec(word@));
        }
        r
    }
}

/// The translation of a non-empty word is non-empty.
proof fn lemma_pig_one_nonempty(word: Seq<char>)
    requires
        word.len() > 0,
    ensures
        pig_one_spec(word).len() > 0,
{
}

/// One step of building a spaced sentence: a space goes in front of every
/// word but the first.
pub open spec fn folder_spec(current: Seq<char>, next: Seq<char>) -> Seq<char> {
    if current.len() == 0 {
        next
    } else {
        current + seq![' '] + next
    }
}

/// Appends the next word to the sentence built so far, spacing it off
/// unless the sentence is still empty.
pub fn folder(current: String, next: String) -> (r: String)
    ensures
        r@ == folder_spec(current@, next@),
{
    let ghost c0 = current@;
    let mut acc = current;
    if !acc.as_str().is_empty() {
        push_char(&mut acc, ' ');
        proof {
            assert(acc@ =~= c0 + seq![' ']);
        }
    }
    acc.append(next.as_str());
    proof {
        assert(acc@ =~= folder_spec(c0, next@));
    }
    acc
}

/// Translates a sentence to pig latin by collecting the translated words
/// and joining them.
pub fn pig_latin(sentence: &str) -> (r: String)
    ensures
        r@ == pig_latin_spec(sentence@),
{
    let words = split_words(sentence);
    let mut pig_words: Vec<String> = Vec::new();
    proof {
        assert(pig_words.deep_view() =~= pig_words_spec(sentence@).take(0));
    }
    let mut idx: usize = 0;
    while idx < words.len()
        invariant
            0 <= idx <= words@.len(),
            words.deep_view() == split_ws(sentence@),
            pig_words.deep_view() == pig_words_spec(sentence@).take(idx as int),
        decreases words@.len() - idx,
    {
        proof {
            assert(words.deep_view()[idx as int] == words@[idx as int]@);
            assert(pig_words_spec(sentence@)[idx as int] == pig_one_spec(words@[idx as int]@));
        }
        let translated = pig_one(words[idx].as_str());
        let ghost old_dv = pig_words.deep_view();
        pig_words.push(translated);
        proof {
            let pw = pig_words_spec(sentence@);
            assert(pig_words.deep_view() =~= old_dv.push(translated@));
            assert(pw.take(idx + 1).drop_last() =~= pw.take(idx as int));
            assert(pig_words.deep_view() =~= pw.take(idx + 1));
        }
        idx = idx + 1;
    }
    proof {
        assert(pig_words_spec(sentence@).take(words@.len() as int) =~= pig_words_spec(sentence@));
    }
    let out = crate::text::join_spaces(&pig_words, 0, pig_words.len());
    proof {
        assert(pig_words.deep_view().subrange(0, pig_words@.len() as int) =~= pig_words.deep_view());
    }
    out
}

/// Translates a sentence to pig latin by folding the translated words
/// into one accumulator string.
pub fn pig_latin_map_n_fold(sentence: &str) -> (r: String)
    ensures
        r@ == pig_latin_spec(sentence@),
{
    let words = split_words(sentence);
    let mut acc = String::new();
    let mut idx: usize = 0;
    while idx < words.len()
        invariant
            0 <= idx <= words@.len(),
            words.deep_view() == split_ws(sentence@),
            acc@ == join_spaced(pig_words_spec(sentence@).take(idx as int)),
        decreases words@.len() - idx,
    {
        proof {
            assert(words.deep_view()[idx as int] == words@[idx as int]@);
            assert(pig_words_spec(sentence@)[idx as int] == pig_one_spec(words@[idx as int]@));
        }
        let translated = pig_one(words[idx].as_str());
        acc = folder(acc, translated);
        proof {
            lemma_split_ws_words_nonempty(sentence@);
            let pw = pig_words_spec(sentence@);
            let cur = pw.take(idx as int);
            let next = pw.take(idx + 1);
            assert(next.drop_last() =~= cur);
            assert(next.last() == pw[idx as int]);
            if idx == 0 {
                assert(join_spaced(cur).len() == 0);
                assert(join_spaced(next) == next[0]);
            } else {
                lemma_pig_one_nonempty(split_ws(sentence@)[0]);
                if idx == 1 {
                    assert(join_spaced(cur) == cur[0]);
                    assert(cur[0] == pw[0]);
                    assert(join_spaced(cur).len() > 0);
                } else {
                    assert(join_spaced(cur) == join_spaced(cur.drop_last()) + seq![' ']
                        + cur.last());
                    assert(join_spaced(cur).len() > 0);
                }
                assert(join_spaced(next) == join_spaced(cur) + seq![' '] + pw[idx as int]);
            }
        }
        idx = idx + 1;
    }
    proof {
        assert(pig_words_spec(sentence@).take(words@.len() as int) =~= pig_words_spec(sentence@));
    }
    acc
}

} // verus!

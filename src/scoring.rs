use rayon::iter::{IntoParallelRefIterator, ParallelIterator};
use vstd::prelude::*;

use crate::letters::{contains_all, contains_all_letters};

verus! {

/// Points a word earns for its length: a four-letter word is worth one point,
/// any other word one point per character.
pub open spec fn base_points(len: nat) -> nat {
    if len == 4 {
        1
    } else {
        len
    }
}

/// The flat bonus for a word that uses every puzzle letter.
pub const PANGRAM_BONUS: u32 = 7;

/// The word uses every puzzle letter, each matched to an occurrence of its own.
pub open spec fn is_pangram(w: Seq<char>, letters: Seq<char>) -> bool {
    contains_all(w, letters)
}

/// The points of word `w` in a puzzle with letters `letters`.
pub open spec fn points_of(w: Seq<char>, letters: Seq<char>) -> nat {
    base_points(w.len()) + if is_pangram(w, letters) {
        PANGRAM_BONUS as nat
    } else {
        0
    }
}

/// A word short enough that its points fit in a `u32`.
pub open spec fn scorable(w: Seq<char>) -> bool {
    w.len() + PANGRAM_BONUS <= u32::MAX
}

/// Ranked entries as words and points.
pub open spec fn scored_view(s: Seq<(String, u32)>) -> Seq<(Seq<char>, nat)> {
    s.map_values(|e: (String, u32)| (e.0@, e.1 as nat))
}

/// Each word paired with its points, in the order of `words`.
pub open spec fn scored_words(words: Seq<Seq<char>>, letters: Seq<char>) -> Seq<(Seq<char>, nat)> {
    words.map_values(|w: Seq<char>| (w, points_of(w, letters)))
}

/// The entries worth exactly `p` points, in their order.
pub open spec fn worth(s: Seq<(Seq<char>, nat)>, p: nat) -> Seq<(Seq<char>, nat)> {
    s.filter(|e: (Seq<char>, nat)| e.1 == p)
}

/// Points never increase along the list.
pub open spec fn sorted_by_points_desc(s: Seq<(String, u32)>) -> bool {
    forall|i: int, j: int| 0 <= i < j < s.len() ==> s[i].1 >= s[j].1
}

/// The points that `word` earns in a puzzle with letters `letters`.
pub fn word_points(word: &String, letters: &Vec<char>) -> (r: u32)
    requires
        scorable(word@),
    ensures
        r == points_of(word@, letters@),
{
    let all_letters_used = contains_all_letters(word, letters);
    let len = word.as_str().unicode_len();
    let mut points: u32 = if len == 4 {
        1
    } else {
        len as u32
    };
    if all_letters_used {
        points = points + PANGRAM_BONUS;
    }
    points
}

/// `word` paired with its points.
pub fn score_word(word: &String, letters: &Vec<char>) -> (r: (String, u32))
    requires
        scorable(word@),
    ensures
        r.0@ == word@,
        r.1 == points_of(word@, letters@),
{
    (word.clone(), word_points(word, letters))
}

/// Relies on rayon's `par_iter().map(..).collect()` into a `Vec`: one result
/// per word, in the order of the words.
#[verifier::external_body]
fn par_score(words: &Vec<String>, letters: &Vec<char>) -> (r: Vec<(String, u32)>)
    requires
        forall|i: int| 0 <= i < words@.len() ==> scorable(#[trigger] words@[i]@),
    ensures
        scored_view(r@) == scored_words(words.deep_view(), letters@),
{
    words.par_iter().map(|w| score_word(w, letters)).collect()
}

/// Relies on `slice::sort_by` with a comparator on the points, highest first:
/// the entries are only reordered, points never increase along the result,
/// and the sort is stable, so entries of equal points keep their order.
#[verifier::external_body]
fn sort_by_points_desc(v: &mut Vec<(String, u32)>)
    ensures
        scored_view(final(v)@).to_multiset() == scored_view(old(v)@).to_multiset(),
        sorted_by_points_desc(final(v)@),
        forall|p: nat| #[trigger] worth(scored_view(final(v)@), p) == worth(scored_view(old(v)@), p),
{
    v.sort_by(|a, b| b.1.cmp(&a.1))
}

/// Every word of `words` paired with its points, highest points first. Words
/// with equal points keep their order in `words`.
pub fn rank_words(words: &Vec<String>, letters: &Vec<char>) -> (r: Vec<(String, u32)>)
    requires
        forall|i: int| 0 <= i < words@.len() ==> scorable(#[trigger] words@[i]@),
    ensures
        scored_view(r@).to_multiset() == scored_words(words.deep_view(), letters@).to_multiset(),
        sorted_by_points_desc(r@),
        forall|p: nat| #[trigger] worth(scored_view(r@), p) == worth(
            scored_words(words.deep_view(), letters@),
            p,
        ),
{
    let mut ranked_words = par_score(words, letters);
    sort_by_points_desc(&mut ranked_words);
    ranked_words
}

} // verus!

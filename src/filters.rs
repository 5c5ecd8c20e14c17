use rayon::iter::{IntoParallelRefIterator, ParallelIterator};
use vstd::multiset::Multiset;
use vstd::prelude::*;

use crate::letters::{contains_all, contains_all_letters, uses_only, uses_only_letters};

verus! {

/// A length of `n` characters lies in the inclusive range `lo ..= hi`, where
/// an unset bound leaves that side open.
pub open spec fn in_length_range(n: nat, lo: Option<usize>, hi: Option<usize>) -> bool {
    &&& match lo {
        Some(m) => n >= m,
        None => true,
    }
    &&& match hi {
        Some(m) => n <= m,
        None => true,
    }
}

/// The words whose length lies in `lo ..= hi`, in their original order.
pub open spec fn length_filtered(words: Seq<Seq<char>>, lo: Option<usize>, hi: Option<usize>) -> Seq<
    Seq<char>,
> {
    words.filter(|w: Seq<char>| in_length_range(w.len(), lo, hi))
}

/// The words spelled only with `letters`, in their original order.
pub open spec fn letters_filtered(words: Seq<Seq<char>>, letters: Seq<char>) -> Seq<Seq<char>> {
    words.filter(|w: Seq<char>| uses_only(w, letters))
}

/// The words that contain every letter of `required`, each matched to its own
/// occurrence, in their original order.
pub open spec fn inclusion_filtered(words: Seq<Seq<char>>, required: Seq<char>) -> Seq<Seq<char>> {
    words.filter(|w: Seq<char>| contains_all(w, required))
}

/// One test that a word has to pass to stay in a collection.
pub enum WordRule<'a> {
    /// The word's length lies in an inclusive range; `None` leaves a side open.
    Length(Option<usize>, Option<usize>),
    /// Every character of the word is one of these letters.
    OnlyLetters(&'a Vec<char>),
    /// Every one of these letters is matched to its own occurrence in the word.
    AllLetters(&'a Vec<char>),
}

impl<'a> WordRule<'a> {
    pub open spec fn spec_keeps(&self, w: Seq<char>) -> bool {
        match *self {
            WordRule::Length(lo, hi) => in_length_range(w.len(), lo, hi),
            WordRule::OnlyLetters(letters) => uses_only(w, letters@),
            WordRule::AllLetters(required) => contains_all(w, required@),
        }
    }

    /// Whether `word` passes this test.
    pub fn keeps(&self, word: &String) -> (r: bool)
        ensures
            r == self.spec_keeps(word@),
    {
        match self {
            WordRule::Length(lo, hi) => {
                let n = word.as_str().unicode_len();
                let above = match lo {
                    Some(m) => n >= *m,
                    None => true,
                };
                let below = match hi {
                    Some(m) => n <= *m,
                    None => true,
                };
                above && below
            },
            WordRule::OnlyLetters(letters) => uses_only_letters(word, letters),
            WordRule::AllLetters(required) => contains_all_letters(word, required),
        }
    }
}

/// Relies on rayon's `par_iter().filter(..).cloned().collect()` into a `Vec`:
/// the words that pass the test come out cloned and in their original order
/// (the list reducer appends left part before right part).
#[verifier::external_body]
fn par_retain(words: &Vec<String>, rule: &WordRule) -> (r: Vec<String>)
    ensures
        r.deep_view() == words.deep_view().filter(|w: Seq<char>| rule.spec_keeps(w)),
{
    words.par_iter().filter(|w| rule.keeps(w)).cloned().collect()
}

/// A filter whose test every element passes keeps the whole sequence.
pub proof fn lemma_filter_keeps_all<A>(s: Seq<A>, p: spec_fn(A) -> bool)
    requires
        forall|i: int| 0 <= i < s.len() ==> p(#[trigger] s[i]),
    ensures
        s.filter(p) == s,
    decreases s.len(),
{
    reveal(Seq::filter);
    if s.len() > 0 {
        lemma_filter_keeps_all(s.drop_last(), p);
        assert(s.drop_last().push(s.last()) =~= s);
    } else {
        assert(s =~= Seq::<A>::empty());
    }
}

/// Filtering a second time with the same test removes nothing more.
pub proof fn lemma_filter_twice<A>(s: Seq<A>, p: spec_fn(A) -> bool)
    ensures
        s.filter(p).filter(p) == s.filter(p),
{
    broadcast use vstd::seq_lib::group_filter_ensures;

    lemma_filter_keeps_all(s.filter(p), p);
}

/// The words of `words` whose character count lies in the inclusive range
/// `word_length`; a bound set to `None` leaves that side open, and with both
/// unset the collection comes back whole.
pub fn filter_words_by_length(words: &Vec<String>, word_length: (Option<usize>, Option<usize>)) -> (r:
    Vec<String>)
    ensures
        r.deep_view() == length_filtered(words.deep_view(), word_length.0, word_length.1),
        word_length.0 is None && word_length.1 is None ==> r.deep_view() == words.deep_view(),
{
    let rule = WordRule::Length(word_length.0, word_length.1);
    let r = par_retain(words, &rule);
    proof {
        let pred = |w: Seq<char>| in_length_range(w.len(), word_length.0, word_length.1);
        assert((|w: Seq<char>| rule.spec_keeps(w)) =~= pred);
        if word_length.0 is None && word_length.1 is None {
            lemma_filter_keeps_all(words.deep_view(), pred);
        }
    }
    r
}

/// The words of `words` in which every character is one of `letters`; a
/// letter may repeat any number of times.
pub fn filter_words_with_any_include_letters(words: &Vec<String>, letters: &Vec<char>) -> (r: Vec<
    String,
>)
    ensures
        r.deep_view() == letters_filtered(words.deep_view(), letters@),
{
    let rule = WordRule::OnlyLetters(letters);
    let r = par_retain(words, &rule);
    proof {
        assert((|w: Seq<char>| rule.spec_keeps(w)) =~= (|w: Seq<char>| uses_only(w, letters@)));
    }
    r
}

/// The words of `words` that hold every letter of `letters`, each matched to
/// an occurrence of its own: a letter listed twice must occur twice.
pub fn filter_words_with_all_include_letters(words: &Vec<String>, letters: &Vec<char>) -> (r: Vec<
    String,
>)
    ensures
        r.deep_view() == inclusion_filtered(words.deep_view(), letters@),
{
    let rule = WordRule::AllLetters(letters);
    let r = par_retain(words, &rule);
    proof {
        assert((|w: Seq<char>| rule.spec_keeps(w)) =~= (|w: Seq<char>| contains_all(w, letters@)));
    }
    r
}

/// With neither bound set, the length filter keeps every word, in order.
pub proof fn length_filter_without_bounds_is_identity(words: Seq<Seq<char>>)
    ensures
        length_filtered(words, None, None) == words,
{
    lemma_filter_keeps_all(words, |w: Seq<char>| in_length_range(w.len(), None, None));
}

/// Every character of every word that the letter-set filter keeps is one of
/// the permitted letters.
pub proof fn letters_filter_keeps_only_permitted(words: Seq<Seq<char>>, letters: Seq<char>)
    ensures
        forall|i: int, j: int|
            0 <= i < letters_filtered(words, letters).len() && 0 <= j < letters_filtered(
                words,
                letters,
            )[i].len() ==> letters.contains(#[trigger] letters_filtered(words, letters)[i][j]),
{
    broadcast use vstd::seq_lib::group_filter_ensures;

}

/// Every word that the inclusion filter keeps has an occurrence of its own
/// for each required letter.
pub proof fn inclusion_filter_keeps_only_matches(words: Seq<Seq<char>>, required: Seq<char>)
    ensures
        forall|i: int|
            0 <= i < inclusion_filtered(words, required).len() ==> contains_all(
                #[trigger] inclusion_filtered(words, required)[i],
                required,
            ),
{
    broadcast use vstd::seq_lib::group_filter_ensures;

}

/// A single required letter is matched exactly when the word contains it.
pub proof fn single_required_letter(w: Seq<char>, c: char)
    ensures
        contains_all(w, seq![c]) <==> w.contains(c),
{
    broadcast use vstd::seq_lib::group_to_multiset_ensures;
    broadcast use vstd::multiset::group_multiset_axioms;

    assert(seq![c] =~= Seq::<char>::empty().push(c));
    assert(seq![c].to_multiset() =~= Multiset::<char>::empty().insert(c));
    w.to_multiset_ensures();
    if w.contains(c) {
        assert(w.to_multiset().count(c) > 0);
        assert forall|x: char| seq![c].to_multiset().count(x) <= w.to_multiset().count(x) by {}
        assert(contains_all(w, seq![c]));
    } else {
        assert(w.to_multiset().count(c) == 0);
        assert(seq![c].to_multiset().count(c) == 1);
        assert(!contains_all(w, seq![c]));
    }
}

/// Applying the length filter twice with the same range gives what applying
/// it once gives.
pub proof fn length_filter_idempotent(words: Seq<Seq<char>>, lo: Option<usize>, hi: Option<usize>)
    ensures
        length_filtered(length_filtered(words, lo, hi), lo, hi) == length_filtered(words, lo, hi),
{
    lemma_filter_twice(words, |w: Seq<char>| in_length_range(w.len(), lo, hi));
}

/// Applying the letter-set filter twice with the same letters gives what
/// applying it once gives.
pub proof fn letters_filter_idempotent(words: Seq<Seq<char>>, letters: Seq<char>)
    ensures
        letters_filtered(letters_filtered(words, letters), letters) == letters_filtered(
            words,
            letters,
        ),
{
    lemma_filter_twice(words, |w: Seq<char>| uses_only(w, letters));
}

/// Applying the inclusion filter twice with the same required letters gives
/// what applying it once gives.
pub proof fn inclusion_filter_idempotent(words: Seq<Seq<char>>, required: Seq<char>)
    ensures
        inclusion_filtered(inclusion_filtered(words, required), required) == inclusion_filtered(
            words,
            required,
        ),
{
    lemma_filter_twice(words, |w: Seq<char>| contains_all(w, required));
}

} // verus!

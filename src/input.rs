use vstd::prelude::*;

use crate::letters::has_letter;

verus! {

/// Whether `char::is_alphabetic` holds of `c` (the Unicode `Alphabetic` property).
pub uninterp spec fn alphabetic(c: char) -> bool;

/// The first character of `char::to_lowercase` of `c`.
pub uninterp spec fn lowercase_first(c: char) -> char;

/// Relies on `char::is_alphabetic`: whether `c` has the Unicode
/// `Alphabetic` property, a function of `c` alone.
#[verifier::external_body]
fn is_alphabetic(c: char) -> (r: bool)
    ensures
        r == alphabetic(c),
{
    c.is_alphabetic()
}

/// Relies on `char::to_lowercase`, which yields at least one character: the
/// first of them, a function of `c` alone.
#[verifier::external_body]
fn to_lowercase_first(c: char) -> (r: char)
    ensures
        r == lowercase_first(c),
{
    c.to_lowercase().next().unwrap()
}

/// The test that keeps alphabetic characters.
pub open spec fn alphabetic_test() -> spec_fn(char) -> bool {
    |c: char| alphabetic(c)
}

/// The map that lowercases a character.
pub open spec fn lowercase_map() -> spec_fn(char) -> char {
    |c: char| lowercase_first(c)
}

/// The test that keeps characters not in `excluded`.
pub open spec fn not_in_test(excluded: Seq<char>) -> spec_fn(char) -> bool {
    |c: char| !excluded.contains(c)
}

/// The alphabetic characters of `s`, each lowercased, in order.
pub open spec fn letters_in(s: Seq<char>) -> Seq<char> {
    s.filter(alphabetic_test()).map_values(lowercase_map())
}

/// `s` without the characters that occur in `excluded`.
pub open spec fn without(s: Seq<char>, excluded: Seq<char>) -> Seq<char> {
    s.filter(not_in_test(excluded))
}

/// The letters kept from already lowercased `letters`: those not in
/// `letters_not_in`, with repeats removed when `must_be_unique` is `Some(true)`.
pub open spec fn selected_letters(
    letters: Seq<char>,
    must_be_unique: Option<bool>,
    letters_not_in: Option<Seq<char>>,
) -> Seq<char> {
    let kept = match letters_not_in {
        Some(ex) => without(letters, ex),
        None => letters,
    };
    if must_be_unique == Some(true) {
        kept.remove_duplicates(Seq::empty())
    } else {
        kept
    }
}

/// The view of an optional list of letters.
pub open spec fn opt_view(v: Option<Vec<char>>) -> Option<Seq<char>> {
    match v {
        Some(ex) => Some(ex@),
        None => None,
    }
}

/// An answer of `n` letters satisfies the wanted count, if one is set.
pub open spec fn count_accepted(n: nat, length: Option<u32>) -> bool {
    match length {
        Some(len) => n == len,
        None => true,
    }
}

/// Filtering a sequence extended by one element.
pub proof fn lemma_filter_push<A>(s: Seq<A>, x: A, p: spec_fn(A) -> bool)
    ensures
        s.push(x).filter(p) == if p(x) {
            s.filter(p).push(x)
        } else {
            s.filter(p)
        },
{
    reveal(Seq::filter);
    assert(s.push(x).drop_last() =~= s);
}

/// Mapping a sequence extended by one element.
pub proof fn lemma_map_push<A, B>(s: Seq<A>, x: A, f: spec_fn(A) -> B)
    ensures
        s.push(x).map_values(f) == s.map_values(f).push(f(x)),
{
    assert(s.push(x).map_values(f) =~= s.map_values(f).push(f(x)));
}

/// The alphabetic characters of `input`, lowercased.
fn letters_of_answer(input: &str) -> (r: Vec<char>)
    ensures
        r@ == letters_in(input@),
{
    let mut r: Vec<char> = Vec::new();
    for c in it: input.chars()
        invariant
            it.seq() == input@,
            r@ == it.seq().take(it.index() as int).filter(alphabetic_test()).map_values(lowercase_map()),
    {
        let ghost pre = it.seq().take(it.index() as int);
        proof {
            assert(it.seq().take(it.index() + 1) =~= pre.push(c));
            lemma_filter_push(pre, c, alphabetic_test());
        }
        if is_alphabetic(c) {
            r.push(to_lowercase_first(c));
            proof {
                lemma_map_push(pre.filter(alphabetic_test()), c, lowercase_map());
                assert(alphabetic_test()(c));
            }
        }
    }
    proof {
        assert(input@.take(input@.len() as int) =~= input@);
    }
    r
}

/// `letters` without the characters that occur in `excluded`.
fn drop_excluded(letters: &Vec<char>, excluded: &Vec<char>) -> (r: Vec<char>)
    ensures
        r@ == without(letters@, excluded@),
{
    let mut r: Vec<char> = Vec::new();
    let mut i: usize = 0;
    while i < letters.len()
        invariant
            i <= letters.len(),
            r@ == letters@.take(i as int).filter(not_in_test(excluded@)),
        decreases letters.len() - i,
    {
        let c = letters[i];
        proof {
            assert(letters@.take(i + 1) =~= letters@.take(i as int).push(c));
            lemma_filter_push(letters@.take(i as int), c, not_in_test(excluded@));
        }
        if !has_letter(excluded, c) {
            r.push(c);
            proof {
                assert(not_in_test(excluded@)(c));
            }
        } else {
            proof {
                assert(!not_in_test(excluded@)(c));
            }
        }
        i += 1;
    }
    proof {
        assert(letters@.take(i as int) =~= letters@);
    }
    r
}

/// `letters` with each repeat removed; first occurrences keep their order.
fn first_occurrences(letters: &Vec<char>) -> (r: Vec<char>)
    ensures
        r@ == letters@.remove_duplicates(Seq::empty()),
{
    let mut r: Vec<char> = Vec::new();
    let mut i: usize = 0;
    proof {
        assert(letters@.take(0) =~= Seq::<char>::empty());
        reveal_with_fuel(Seq::remove_duplicates, 1);
    }
    while i < letters.len()
        invariant
            i <= letters.len(),
            r@ == letters@.take(i as int).remove_duplicates(Seq::empty()),
        decreases letters.len() - i,
    {
        let c = letters[i];
        let ghost pre = letters@.take(i as int);
        proof {
            assert(letters@.take(i + 1) =~= pre.push(c));
            assert(pre + Seq::<char>::empty() =~= pre);
            pre.lemma_remove_duplicates_append(c, Seq::empty());
            pre.lemma_remove_duplicates_properties(Seq::empty());
        }
        if !has_letter(&r, c) {
            r.push(c);
        }
        i += 1;
    }
    proof {
        assert(letters@.take(i as int) =~= letters@);
    }
    r
}

/// Applies the exclusion and the removal of repeats to `letters`, then
/// accepts the result (`Some`) exactly when `length` is unset or equals the
/// number of letters that remain.
pub fn select_letters(
    letters: Vec<char>,
    length: Option<u32>,
    must_be_unique: Option<bool>,
    letters_not_in: &Option<Vec<char>>,
) -> (r: Option<Vec<char>>)
    ensures
        ({
            let want = selected_letters(letters@, must_be_unique, opt_view(*letters_not_in));
            match r {
                Some(v) => count_accepted(want.len(), length) && v@ == want,
                None => !count_accepted(want.len(), length),
            }
        }),
{
    let mut letters = letters;
    match letters_not_in {
        Some(excluded) => {
            letters = drop_excluded(&letters, excluded);
        },
        None => {},
    }
    if must_be_unique == Some(true) {
        letters = first_occurrences(&letters);
    }
    match length {
        Some(len) => {
            if letters.len() == len as usize {
                Some(letters)
            } else {
                None
            }
        },
        None => Some(letters),
    }
}

/// The letters of one typed answer: its alphabetic characters, lowercased,
/// without those in `letters_not_in`, and with repeats removed when
/// `must_be_unique` is `Some(true)`. The answer is accepted (`Some`) exactly
/// when `length` is unset or equals the number of letters that remain.
pub fn parse_letters(
    input: &str,
    length: Option<u32>,
    must_be_unique: Option<bool>,
    letters_not_in: &Option<Vec<char>>,
) -> (r: Option<Vec<char>>)
    ensures
        ({
            let want = selected_letters(letters_in(input@), must_be_unique, opt_view(*letters_not_in));
            match r {
                Some(v) => count_accepted(want.len(), length) && v@ == want,
                None => !count_accepted(want.len(), length),
            }
        }),
{
    select_letters(letters_of_answer(input), length, must_be_unique, letters_not_in)
}

/// What `str::trim` leaves of `s`.
pub uninterp spec fn trimmed(s: Seq<char>) -> Seq<char>;

/// What `str::to_lowercase` makes of `s`.
pub uninterp spec fn lowercased(s: Seq<char>) -> Seq<char>;

/// Relies on `str::trim`: `s` without leading and trailing white space.
#[verifier::external_body]
fn trim(s: &str) -> (r: &str)
    ensures
        r@ == trimmed(s@),
{
    s.trim()
}

/// Relies on `str::to_lowercase`: the lowercase mapping of `s`, a function
/// of its characters alone.
#[verifier::external_body]
fn to_lowercase(s: &str) -> (r: String)
    ensures
        r@ == lowercased(s@),
{
    s.to_lowercase()
}

/// The meaning of a normalized yes/no answer: `y` and `yes` agree, `n` and
/// `no` refuse, anything else is no answer.
pub open spec fn yes_no_of(s: Seq<char>) -> Option<bool> {
    if s == seq!['y'] || s == seq!['y', 'e', 's'] {
        Some(true)
    } else if s == seq!['n'] || s == seq!['n', 'o'] {
        Some(false)
    } else {
        None
    }
}

/// Reads an answer that is already trimmed and lowercased.
pub fn yes_no_answer(answer: &str) -> (r: Option<bool>)
    ensures
        r == yes_no_of(answer@),
{
    let n = answer.unicode_len();
    if n == 1 {
        let c = answer.get_char(0);
        proof {
            assert(answer@ =~= seq![c]);
        }
        if c == 'y' {
            Some(true)
        } else if c == 'n' {
            Some(false)
        } else {
            None
        }
    } else if n == 2 {
        let a = answer.get_char(0);
        let b = answer.get_char(1);
        proof {
            assert(answer@ =~= seq![a, b]);
        }
        if a == 'n' && b == 'o' {
            Some(false)
        } else {
            proof {
                assert(answer@ != seq!['n', 'o']);
            }
            None
        }
    } else if n == 3 {
        let a = answer.get_char(0);
        let b = answer.get_char(1);
        let c = answer.get_char(2);
        proof {
            assert(answer@ =~= seq![a, b, c]);
        }
        if a == 'y' && b == 'e' && c == 's' {
            Some(true)
        } else {
            proof {
                assert(answer@ != seq!['y', 'e', 's']);
            }
            None
        }
    } else {
        proof {
            assert(seq!['y'].len() == 1 && seq!['y', 'e', 's'].len() == 3);
            assert(seq!['n'].len() == 1 && seq!['n', 'o'].len() == 2);
        }
        None
    }
}

/// Reads a typed yes/no answer: white space around it is ignored and case
/// does not matter.
pub fn parse_yes_no(input: &str) -> (r: Option<bool>)
    ensures
        r == yes_no_of(lowercased(trimmed(input@))),
{
    let lowered = to_lowercase(trim(input));
    yes_no_answer(lowered.as_str())
}

} // verus!

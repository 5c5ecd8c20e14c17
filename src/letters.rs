use vstd::prelude::*;

verus! {

/// Every character of `w` is one of `letters` (repeats allowed).
pub open spec fn uses_only(w: Seq<char>, letters: Seq<char>) -> bool {
    forall|i: int| 0 <= i < w.len() ==> letters.contains(#[trigger] w[i])
}

/// Each required letter can be matched to its own occurrence in `w`:
/// the required letters, counted with repeats, form a sub-multiset of `w`.
pub open spec fn contains_all(w: Seq<char>, required: Seq<char>) -> bool {
    required.to_multiset().subset_of(w.to_multiset())
}

/// The characters of a word, in order.
pub fn chars_of(word: &String) -> (r: Vec<char>)
    ensures
        r@ == word@,
{
    let mut r: Vec<char> = Vec::new();
    for c in it: word.as_str().chars()
        invariant
            it.seq() == word@,
            r@ == it.seq().take(it.index() as int),
    {
        r.push(c);
    }
    r
}

/// Whether `c` occurs in `letters`.
pub fn has_letter(letters: &Vec<char>, c: char) -> (r: bool)
    ensures
        r == letters@.contains(c),
{
    let mut i: usize = 0;
    while i < letters.len()
        invariant
            i <= letters.len(),
            forall|j: int| 0 <= j < i ==> letters@[j] != c,
        decreases letters.len() - i,
    {
        if letters[i] == c {
            return true;
        }
        i += 1;
    }
    false
}

/// Whether every character of `word` is one of `letters`.
pub fn uses_only_letters(word: &String, letters: &Vec<char>) -> (r: bool)
    ensures
        r == uses_only(word@, letters@),
{
    let chars = chars_of(word);
    let mut i: usize = 0;
    while i < chars.len()
        invariant
            chars@ == word@,
            i <= chars.len(),
            forall|j: int| 0 <= j < i ==> letters@.contains(#[trigger] word@[j]),
        decreases chars.len() - i,
    {
        if !has_letter(letters, chars[i]) {
            return false;
        }
        i += 1;
    }
    true
}

/// The first position of `c` in `v`, if it occurs there.
fn position_of(v: &Vec<char>, c: char) -> (r: Option<usize>)
    ensures
        match r {
            Some(p) => p < v@.len() && v@[p as int] == c,
            None => !v@.contains(c),
        },
{
    let mut i: usize = 0;
    while i < v.len()
        invariant
            i <= v.len(),
            forall|j: int| 0 <= j < i ==> v@[j] != c,
        decreases v.len() - i,
    {
        if v[i] == c {
            return Some(i);
        }
        i += 1;
    }
    None
}

/// Whether each letter of `required` can be matched to its own occurrence in
/// `word`. Matched occurrences are taken out one by one, so a letter that is
/// required twice needs two occurrences.
pub fn contains_all_letters(word: &String, required: &Vec<char>) -> (r: bool)
    ensures
        r == contains_all(word@, required@),
{
    broadcast use vstd::seq_lib::group_to_multiset_ensures;

    let mut rest = chars_of(word);
    let mut i: usize = 0;
    proof {
        assert(required@.take(0) =~= Seq::<char>::empty());
    }
    while i < required.len()
        invariant
            i <= required.len(),
            forall|x: char|
                #[trigger] rest@.to_multiset().count(x) + required@.take(i as int).to_multiset().count(x)
                    == word@.to_multiset().count(x),
        decreases required.len() - i,
    {
        let c = required[i];
        let ghost before = rest@;
        proof {
            assert(required@.take(i + 1) =~= required@.take(i as int).push(c));
            required@.take(i as int).to_multiset_ensures();
            before.to_multiset_ensures();
            assert(before.to_multiset().count(c) + required@.take(i as int).to_multiset().count(c)
                == word@.to_multiset().count(c));
        }
        match position_of(&rest, c) {
            Some(p) => {
                rest.remove(p);
                proof {
                    assert(rest@.to_multiset() =~= before.to_multiset().remove(c));
                    assert(required@.take(i + 1).to_multiset()
                        =~= required@.take(i as int).to_multiset().insert(c));
                    assert forall|x: char|
                        #[trigger] rest@.to_multiset().count(x) + required@.take(i + 1).to_multiset().count(x)
                            == word@.to_multiset().count(x) by {
                        assert(before.to_multiset().count(x) + required@.take(i as int).to_multiset().count(x)
                            == word@.to_multiset().count(x));
                    }
                }
            },
            None => {
                proof {
                    rest@.to_multiset_ensures();
                    let pre = required@.take(i + 1);
                    assert(required@ =~= pre + required@.skip(i + 1));
                    vstd::seq_lib::lemma_multiset_commutative(pre, required@.skip(i + 1));
                    assert(rest@.to_multiset().count(c) == 0);
                    assert(required@.to_multiset().count(c) > word@.to_multiset().count(c));
                    assert(!required@.to_multiset().subset_of(word@.to_multiset()));
                }
                return false;
            },
        }
        i += 1;
    }
    proof {
        assert(required@.take(i as int) =~= required@);
        assert forall|x: char| required@.to_multiset().count(x) <= word@.to_multiset().count(x) by {
            assert(rest@.to_multiset().count(x) + required@.take(i as int).to_multiset().count(x)
                == word@.to_multiset().count(x));
        }
    }
    true
}

} // verus!

use vstd::hash_set::StringHashSet;
use vstd::prelude::*;

verus! {

/// The lines of `text` as `str::lines` splits them.
pub uninterp spec fn lines_of(text: Seq<char>) -> Seq<Seq<char>>;

/// Relies on `str::lines`: the text split at each `\n` (a `\r` before it
/// dropped), with no empty line after a final `\n`; a function of the text
/// alone.
#[verifier::external_body]
fn split_lines(text: &str) -> (r: Vec<String>)
    ensures
        r.deep_view() == lines_of(text@),
{
    text.lines().map(|line| line.to_string()).collect()
}

/// The known words: each word once, in the order of first appearance.
pub struct Lexicon {
    words: Vec<String>,
}

impl View for Lexicon {
    type V = Seq<Seq<char>>;

    closed spec fn view(&self) -> Seq<Seq<char>> {
        self.words.deep_view()
    }
}

impl Lexicon {
    /// No word occurs twice.
    pub open spec fn wf(&self) -> bool {
        self@.no_duplicates()
    }

    /// A lexicon of the given lines, each distinct line once, in the order in
    /// which it first appears.
    pub fn from_lines(lines: Vec<String>) -> (r: Lexicon)
        ensures
            r.wf(),
            r@ == lines.deep_view().remove_duplicates(Seq::empty()),
    {
        let ghost all = lines.deep_view();
        let mut seen = StringHashSet::new();
        let mut words: Vec<String> = Vec::new();
        let mut i: usize = 0;
        proof {
            assert(all.take(0) =~= Seq::<Seq<char>>::empty());
            reveal_with_fuel(Seq::remove_duplicates, 1);
        }
        while i < lines.len()
            invariant
                all == lines.deep_view(),
                i <= lines.len(),
                words.deep_view() == all.take(i as int).remove_duplicates(Seq::empty()),
                forall|x: Seq<char>| seen@.contains(x) <==> all.take(i as int).contains(x),
                words.deep_view().no_duplicates(),
            decreases lines.len() - i,
        {
            let line = &lines[i];
            let ghost pre = all.take(i as int);
            proof {
                assert(all.take(i + 1) =~= pre.push(line@));
                assert(pre + Seq::<Seq<char>>::empty() =~= pre);
                pre.lemma_remove_duplicates_append(line@, Seq::empty());
                pre.lemma_remove_duplicates_properties(Seq::empty());
            }
            if !seen.contains(line.as_str()) {
                seen.insert(line.clone());
                let ghost before = words.deep_view();
                words.push(line.clone());
                proof {
                    assert(words.deep_view() =~= before.push(line@));
                    assert(!pre.contains(line@));
                    assert(!before.contains(line@));
                    assert forall|a: int, b: int|
                        0 <= a < b < words.deep_view().len() implies words.deep_view()[a]
                        != words.deep_view()[b] by {
                        if b == before.len() {
                            assert(before[a] == words.deep_view()[a]);
                        }
                    }
                }
            }
            proof {
                assert forall|x: Seq<char>| seen@.contains(x) <==> all.take(i + 1).contains(x) by {
                    if x == line@ {
                        assert(all.take(i + 1)[i as int] == x);
                    }
                    if all.take(i + 1).contains(x) && x != line@ {
                        let k = choose|k: int| 0 <= k < i + 1 && #[trigger] all.take(i + 1)[k] == x;
                        assert(pre[k] == x);
                    }
                }
            }
            i += 1;
        }
        proof {
            assert(all.take(i as int) =~= all);
        }
        Lexicon { words }
    }

    /// A lexicon of the lines of a newline-delimited word list.
    pub fn from_text(text: &str) -> (r: Lexicon)
        ensures
            r.wf(),
            r@ == lines_of(text@).remove_duplicates(Seq::empty()),
    {
        Lexicon::from_lines(split_lines(text))
    }

    /// The number of words.
    pub fn len(&self) -> (r: usize)
        ensures
            r == self@.len(),
    {
        self.words.len()
    }

    /// The words, each once.
    pub fn words(&self) -> (r: &Vec<String>)
        ensures
            r.deep_view() == self@,
    {
        &self.words
    }
}

} // verus!

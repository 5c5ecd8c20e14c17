use vstd::prelude::*;

verus! {

/// The sum of the points of the ranked entries.
pub open spec fn sum_points(s: Seq<(String, u32)>) -> nat
    decreases s.len(),
{
    if s.len() == 0 {
        0
    } else {
        sum_points(s.drop_last()) + s.last().1 as nat
    }
}

/// The character count of the longest word among the ranked entries; zero
/// when there is none.
pub open spec fn longest_length(s: Seq<(String, u32)>) -> nat
    decreases s.len(),
{
    if s.len() == 0 {
        0
    } else {
        let rest = longest_length(s.drop_last());
        let n = s.last().0@.len();
        if n > rest {
            n
        } else {
            rest
        }
    }
}

/// The total of all points in a ranked list, the figure a table reports
/// under its rows.
pub fn total_points(ranked_words: &Vec<(String, u32)>) -> (r: u128)
    ensures
        r == sum_points(ranked_words@),
{
    let mut total: u128 = 0;
    let mut i: usize = 0;
    while i < ranked_words.len()
        invariant
            i <= ranked_words.len(),
            total == sum_points(ranked_words@.take(i as int)),
            total <= i * 0xffff_ffff,
        decreases ranked_words.len() - i,
    {
        proof {
            assert(ranked_words@.take(i + 1).drop_last() =~= ranked_words@.take(i as int));
        }
        let points = ranked_words[i].1;
        proof {
            assert(total + points <= (i + 1) * 0xffff_ffff) by (nonlinear_arith)
                requires
                    total <= i * 0xffff_ffff,
                    points <= 0xffff_ffff,
            ;
            assert(i < 0x1_0000_0000_0000_0000);
            assert((i + 1) * 0xffff_ffff <= 0x1_0000_0000_0000_0000 * 0xffff_ffff) by (nonlinear_arith)
                requires
                    i < 0x1_0000_0000_0000_0000,
            ;
        }
        total = total + points as u128;
        i += 1;
    }
    proof {
        assert(ranked_words@.take(i as int) =~= ranked_words@);
    }
    total
}

/// The character count of the longest word in a ranked list, the width of a
/// table's word column; zero for an empty list.
pub fn longest_word_length(ranked_words: &Vec<(String, u32)>) -> (r: usize)
    ensures
        r == longest_length(ranked_words@),
{
    let mut longest: usize = 0;
    let mut i: usize = 0;
    while i < ranked_words.len()
        invariant
            i <= ranked_words.len(),
            longest == longest_length(ranked_words@.take(i as int)),
        decreases ranked_words.len() - i,
    {
        proof {
            assert(ranked_words@.take(i + 1).drop_last() =~= ranked_words@.take(i as int));
        }
        let n = ranked_words[i].0.as_str().unicode_len();
        if n > longest {
            longest = n;
        }
        i += 1;
    }
    proof {
        assert(ranked_words@.take(i as int) =~= ranked_words@);
    }
    longest
}

} // verus!

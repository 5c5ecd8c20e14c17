use spelling_bee::filters::{
    filter_words_by_length, filter_words_with_all_include_letters,
    filter_words_with_any_include_letters,
};
use spelling_bee::input::{parse_letters, parse_yes_no, yes_no_answer};
use spelling_bee::letters::{contains_all_letters, uses_only_letters};
use spelling_bee::lexicon::Lexicon;
use spelling_bee::scoring::{rank_words, word_points};
use spelling_bee::table::{longest_word_length, total_points};
use spelling_bee::typing::{word_key_actions, KeyAction};

fn words(list: &[&str]) -> Vec<String> {
    list.iter().map(|w| w.to_string()).collect()
}

fn sorted(mut v: Vec<String>) -> Vec<String> {
    v.sort();
    v
}

/// Runs the whole pipeline: length at least four, only the puzzle letters,
/// the center letter present, then ranking.
fn solve(list: &[&str], center: char, others: &[char]) -> Vec<(String, u32)> {
    let mut all_letters = vec![center];
    all_letters.extend_from_slice(others);
    let long_enough = filter_words_by_length(&words(list), (Some(4), None));
    let possible = filter_words_with_any_include_letters(&long_enough, &all_letters);
    let possible = filter_words_with_all_include_letters(&possible, &vec![center]);
    rank_words(&possible, &all_letters)
}

#[test]
fn scenario_repeated_letters_score_by_length() {
    let ranked = solve(&["test", "tests", "testy"], 't', &['e', 's', 'y', 'a', 'b', 'c']);
    assert_eq!(ranked.len(), 3);
    let points_of = |w: &str| ranked.iter().find(|(x, _)| x == w).unwrap().1;
    assert_eq!(points_of("test"), 1);
    assert_eq!(points_of("tests"), 5);
    assert_eq!(points_of("testy"), 5);
    assert_eq!(ranked[2], ("test".to_string(), 1));
}

#[test]
fn scenario_cabbage_is_not_a_pangram() {
    let letters = vec!['a', 'b', 'c', 'd', 'e', 'f', 'g'];
    assert_eq!(word_points(&"cabbage".to_string(), &letters), 7);
    let ranked = solve(&["cabbage"], 'a', &['b', 'c', 'd', 'e', 'f', 'g']);
    assert_eq!(ranked, vec![("cabbage".to_string(), 7)]);
}

#[test]
fn scenario_pangram_earns_bonus() {
    let ranked = solve(&["tracing", "grant", "cart"], 'r', &['a', 'c', 't', 'i', 'n', 'g']);
    assert_eq!(
        ranked,
        vec![
            ("tracing".to_string(), 14),
            ("grant".to_string(), 5),
            ("cart".to_string(), 1)
        ]
    );
}

#[test]
fn scenario_empty_collection() {
    let ranked = rank_words(&Vec::new(), &vec!['a', 'b', 'c', 'd', 'e', 'f', 'g']);
    assert!(ranked.is_empty());
    assert_eq!(ranked.len(), 0);
    assert_eq!(total_points(&ranked), 0);
    assert_eq!(longest_word_length(&ranked), 0);
}

#[test]
fn inclusion_needs_one_occurrence_per_required_letter() {
    let w = words(&["bet", "beet", "tree"]);
    let kept = filter_words_with_all_include_letters(&w, &vec!['e', 'e']);
    assert_eq!(kept, words(&["beet", "tree"]));
    assert!(!contains_all_letters(&"bet".to_string(), &vec!['e', 'e']));
    assert!(contains_all_letters(&"bet".to_string(), &vec!['e']));
    assert!(contains_all_letters(&"bet".to_string(), &vec![]));
}

#[test]
fn length_filter_without_bounds_keeps_everything() {
    let w = words(&["a", "bee", "honey", "hive"]);
    assert_eq!(filter_words_by_length(&w, (None, None)), w);
}

#[test]
fn length_filter_bounds_are_inclusive() {
    let w = words(&["a", "bee", "honey", "hive", "queen"]);
    assert_eq!(filter_words_by_length(&w, (Some(4), None)), words(&["honey", "hive", "queen"]));
    assert_eq!(filter_words_by_length(&w, (None, Some(3))), words(&["a", "bee"]));
    assert_eq!(filter_words_by_length(&w, (Some(3), Some(4))), words(&["bee", "hive"]));
    assert!(filter_words_by_length(&w, (Some(6), Some(5))).is_empty());
}

#[test]
fn length_counts_characters() {
    let w = words(&["caf\u{e9}", "cafe", "caf"]);
    assert_eq!(filter_words_by_length(&w, (Some(4), Some(4))), words(&["caf\u{e9}", "cafe"]));
}

#[test]
fn letter_set_filter_keeps_only_permitted_characters() {
    let letters = vec!['a', 'b', 'c', 'd', 'e', 'f', 'g'];
    let w = words(&["cabbage", "badge", "bagel", "faced", "zebra"]);
    let kept = filter_words_with_any_include_letters(&w, &letters);
    assert_eq!(kept, words(&["cabbage", "badge", "faced"]));
    for word in kept.iter() {
        assert!(word.chars().all(|c| letters.contains(&c)));
    }
    assert!(uses_only_letters(&"".to_string(), &vec![]));
    assert!(!uses_only_letters(&"a".to_string(), &vec![]));
}

#[test]
fn filters_are_idempotent() {
    let letters = vec!['t', 'e', 's', 'y', 'a', 'b', 'c'];
    let w = words(&["test", "tests", "bat", "zest", "yeast", "tea"]);
    let once = filter_words_by_length(&w, (Some(4), Some(5)));
    assert_eq!(filter_words_by_length(&once, (Some(4), Some(5))), once);
    let once = filter_words_with_any_include_letters(&w, &letters);
    assert_eq!(filter_words_with_any_include_letters(&once, &letters), once);
    let once = filter_words_with_all_include_letters(&w, &vec!['t', 'e']);
    assert_eq!(filter_words_with_all_include_letters(&once, &vec!['t', 'e']), once);
}

#[test]
fn scoring_is_repeatable() {
    let letters = vec!['r', 'a', 'c', 't', 'i', 'n', 'g'];
    let word = "tracing".to_string();
    let first = word_points(&word, &letters);
    for _ in 0..5 {
        assert_eq!(word_points(&word, &letters), first);
    }
    assert_eq!(first, 14);
}

#[test]
fn four_letter_words_earn_one_point() {
    let letters = vec!['a', 'b', 'c', 'd', 'e', 'f', 'g'];
    assert_eq!(word_points(&"face".to_string(), &letters), 1);
    assert_eq!(word_points(&"faced".to_string(), &letters), 5);
    assert_eq!(word_points(&"bag".to_string(), &letters), 3);
    assert_eq!(word_points(&"fadedcbag".to_string(), &letters), 16);
}

#[test]
fn ranking_orders_by_points_descending() {
    let letters = vec!['a', 'b', 'c', 'd', 'e', 'f', 'g'];
    let w = words(&["face", "cabbage", "faced", "badged", "gbfedca"]);
    let ranked = rank_words(&w, &letters);
    let points: Vec<u32> = ranked.iter().map(|e| e.1).collect();
    assert_eq!(points, vec![14, 7, 6, 5, 1]);
    assert_eq!(ranked[0].0, "gbfedca");
    assert_eq!(total_points(&ranked), 33);
    assert_eq!(longest_word_length(&ranked), 7);
    let mut names: Vec<String> = ranked.iter().map(|e| e.0.clone()).collect();
    names.sort();
    assert_eq!(names, sorted(w));
}

#[test]
fn letters_are_lowercased_and_filtered() {
    assert_eq!(parse_letters("A, b c", None, None, &None), Some(vec!['a', 'b', 'c']));
    assert_eq!(parse_letters("a1b2 c!", Some(3), None, &None), Some(vec!['a', 'b', 'c']));
    assert_eq!(parse_letters("ABC", Some(2), None, &None), None);
    assert_eq!(parse_letters("", Some(0), None, &None), Some(vec![]));
}

#[test]
fn letters_can_be_made_unique_and_excluded() {
    assert_eq!(
        parse_letters("a,b,a,c,b", None, Some(true), &None),
        Some(vec!['a', 'b', 'c'])
    );
    assert_eq!(
        parse_letters("a,b,a,c,b", None, Some(false), &None),
        Some(vec!['a', 'b', 'a', 'c', 'b'])
    );
    assert_eq!(
        parse_letters("t e s y a b c", Some(6), Some(true), &Some(vec!['t'])),
        Some(vec!['e', 's', 'y', 'a', 'b', 'c'])
    );
    assert_eq!(parse_letters("T,e,s", Some(3), Some(true), &Some(vec!['t'])), None);
}

#[test]
fn yes_no_answers() {
    assert_eq!(parse_yes_no(" Yes \n"), Some(true));
    assert_eq!(parse_yes_no("y"), Some(true));
    assert_eq!(parse_yes_no("NO"), Some(false));
    assert_eq!(parse_yes_no("n\n"), Some(false));
    assert_eq!(parse_yes_no("maybe"), None);
    assert_eq!(parse_yes_no(""), None);
    assert_eq!(yes_no_answer("yes"), Some(true));
    assert_eq!(yes_no_answer("Yes"), None);
    assert_eq!(yes_no_answer("nope"), None);
}

#[test]
fn lexicon_keeps_each_line_once() {
    let lexicon = Lexicon::from_text("apple\nbee\r\napple\nhive\n");
    assert_eq!(lexicon.len(), 3);
    assert_eq!(*lexicon.words(), words(&["apple", "bee", "hive"]));
    assert_eq!(Lexicon::from_text("").len(), 0);
    let from_lines = Lexicon::from_lines(words(&["b", "a", "b", "a"]));
    assert_eq!(*from_lines.words(), words(&["b", "a"]));
}

#[test]
fn typing_steps_for_a_word() {
    let steps = word_key_actions(&"ab".to_string(), 750);
    assert_eq!(
        steps,
        vec![
            KeyAction::Press('a'),
            KeyAction::Wait(10),
            KeyAction::Release('a'),
            KeyAction::Wait(10),
            KeyAction::Press('b'),
            KeyAction::Wait(10),
            KeyAction::Release('b'),
            KeyAction::Wait(10),
            KeyAction::PressReturn,
            KeyAction::Wait(25),
            KeyAction::ReleaseReturn,
            KeyAction::Wait(25),
            KeyAction::PressReturn,
            KeyAction::Wait(25),
            KeyAction::ReleaseReturn,
            KeyAction::Wait(750),
        ]
    );
    assert_eq!(word_key_actions(&"".to_string(), 5).len(), 8);
}

#[test]
fn ties_keep_input_order() {
    let letters = vec!['a', 'b', 'c', 'd', 'e', 'f', 'g'];
    let w = words(&["faced", "face", "badge", "ebbed", "gbfedca"]);
    let ranked = rank_words(&w, &letters);
    let names: Vec<&str> = ranked.iter().map(|e| e.0.as_str()).collect();
    assert_eq!(names, vec!["gbfedca", "faced", "badge", "ebbed", "face"]);
}

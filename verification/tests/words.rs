use hangman::word::{GuessResult, Word};

fn unknowns(w: &Word) -> usize {
    w.word().chars().filter(|c| *c == '_').count()
}

#[test]
fn new_word_is_all_unknown() {
    let w = Word::new(String::from("apple"));
    assert_eq!(w.word(), "_____");
    assert_eq!(w.target(), "apple");
}

#[test]
fn single_letter_hit_reveals_positions() {
    let mut w = Word::new(String::from("apple"));
    let r = w.guess(String::from("a"));
    assert_eq!(r, GuessResult::Hit);
    assert_eq!(w.word(), "a____");
    let r = w.guess(String::from("p"));
    assert_eq!(r, GuessResult::Hit);
    assert_eq!(w.word(), "app__");
}

#[test]
fn miss_changes_nothing() {
    let mut w = Word::new(String::from("apple"));
    let before = w.word();
    let n = unknowns(&w);
    let r = w.guess(String::from("z"));
    assert_eq!(r, GuessResult::Miss);
    assert_eq!(w.word(), before);
    assert_eq!(unknowns(&w), n);
}

#[test]
fn hit_strictly_decreases_unknowns() {
    let mut w = Word::new(String::from("apple"));
    let n = unknowns(&w);
    assert_eq!(w.guess(String::from("p")), GuessResult::Hit);
    assert!(unknowns(&w) < n);
}

#[test]
fn solved_leaves_no_unknowns() {
    let mut w = Word::new(String::from("dog"));
    assert_eq!(w.guess(String::from("d")), GuessResult::Hit);
    assert_eq!(w.guess(String::from("o")), GuessResult::Hit);
    assert_eq!(w.guess(String::from("g")), GuessResult::Solved);
    assert_eq!(unknowns(&w), 0);
    assert_eq!(w.word(), "dog");
}

#[test]
fn whole_word_guess_ignores_case_and_preserves_target_case() {
    let mut w = Word::new(String::from("Banane"));
    let r = w.guess(String::from("banane"));
    assert_eq!(r, GuessResult::Solved);
    assert_eq!(w.word(), "Banane");
}

#[test]
fn single_letter_match_is_case_insensitive() {
    let mut w = Word::new(String::from("Banane"));
    let r = w.guess(String::from("b"));
    assert_eq!(r, GuessResult::Hit);
    assert_eq!(w.word(), "B_____");
}

#[test]
fn empty_guess_is_a_miss() {
    let mut w = Word::new(String::from("dog"));
    assert_eq!(w.guess(String::new()), GuessResult::Miss);
    assert_eq!(w.word(), "___");
}

#[test]
fn multi_letter_non_matching_guess_is_a_miss() {
    let mut w = Word::new(String::from("dog"));
    assert_eq!(w.guess(String::from("do")), GuessResult::Miss);
    assert_eq!(w.word(), "___");
}

#[test]
fn combining_mark_cluster_is_one_unit() {
    // "e" followed by a combining acute accent is a single grapheme cluster.
    let target = String::from("e\u{301}x");
    let mut w = Word::new(target);
    assert_eq!(w.word(), "__");
    let r = w.guess(String::from("e\u{301}"));
    assert_eq!(r, GuessResult::Hit);
    assert_eq!(w.word(), "e\u{301}_");
}

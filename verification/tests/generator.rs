use hangman::settings::{Difficulty, GameLanguage};
use hangman::word_generator::{wordlist_path_for_language, GeneratorError, WordGenerator};

fn lines(n: usize) -> Vec<String> {
    (0..n).map(|i| format!("word{}", i)).collect()
}

#[test]
fn word_range_partitions_into_quarters() {
    let gen = WordGenerator::preprocess(
        String::from("wordlists"),
        vec![(GameLanguage::English, 100)],
    );
    let lang = GameLanguage::English;
    assert_eq!(gen.word_range(&lang, &Difficulty::Random).unwrap(), (0, 100));
    assert_eq!(gen.word_range(&lang, &Difficulty::Easy).unwrap(), (0, 25));
    assert_eq!(gen.word_range(&lang, &Difficulty::Medium).unwrap(), (25, 50));
    assert_eq!(gen.word_range(&lang, &Difficulty::Hard).unwrap(), (50, 75));
    assert_eq!(gen.word_range(&lang, &Difficulty::Insane).unwrap(), (75, 100));
}

#[test]
fn word_range_rounds_down_uneven_counts() {
    let gen = WordGenerator::preprocess(
        String::from("wordlists"),
        vec![(GameLanguage::French, 103)],
    );
    let lang = GameLanguage::French;
    assert_eq!(gen.word_range(&lang, &Difficulty::Random).unwrap(), (0, 103));
    assert_eq!(gen.word_range(&lang, &Difficulty::Insane).unwrap(), (75, 100));
}

#[test]
fn generate_draws_from_the_difficulty_band() {
    let gen = WordGenerator::preprocess(
        String::from("wordlists"),
        vec![(GameLanguage::English, 100)],
    );
    let lang = GameLanguage::English;
    let ls = lines(100);
    for _ in 0..20 {
        let w = gen.generate(&lang, &Difficulty::Medium, &ls).unwrap();
        let idx: usize = w.trim_start_matches("word").parse().unwrap();
        assert!((25..50).contains(&idx));
    }
    let w = gen.generate(&lang, &Difficulty::Random, &ls).unwrap();
    assert!(ls.contains(&w));
}

#[test]
fn missing_language_is_reported() {
    let gen = WordGenerator::preprocess(
        String::from("wordlists"),
        vec![(GameLanguage::English, 100)],
    );
    let r = gen.generate(&GameLanguage::Russian, &Difficulty::Random, &lines(100));
    assert!(matches!(r, Err(GeneratorError::LanguageNotPreprocessed)));
    assert!(matches!(
        gen.word_range(&GameLanguage::Turkish, &Difficulty::Easy),
        Err(GeneratorError::LanguageNotPreprocessed)
    ));
}

#[test]
fn wordlist_paths_name_each_language() {
    assert_eq!(
        wordlist_path_for_language("lists", &GameLanguage::English),
        "lists/eng-com_web-public_2018_1M-words.pre.txt"
    );
    assert_eq!(
        wordlist_path_for_language("lists", &GameLanguage::German),
        "lists/deu-de_web_2021_1M-words.pre.txt"
    );
    assert_eq!(
        wordlist_path_for_language("x", &GameLanguage::Turkish),
        "x/tur-tr_web_2019_1M-words.pre.txt"
    );
}

//! Word sampling: per-language word counts and difficulty-banded draws.
//!
//! The caller reads wordlist files and hands their lines in; this module
//! owns the counting and banding rules and the draw itself.

use vstd::prelude::*;
use crate::rng::random_in_range;
use crate::settings::{Difficulty, GameLanguage};

verus! {

/// Pre-indexed word counts per language, plus where the lists live.
#[derive(Debug)]
pub struct WordGenerator {
    /// Directory the wordlist files are read from.
    pub wordlists_dir: String,
    /// Eligible line count per preprocessed language.
    pub limits: Vec<(GameLanguage, usize)>,
}

/// Why sampling failed.
#[derive(Debug)]
pub enum GeneratorError {
    /// An I/O failure of the caller, carried through unchanged.
    Io(String),
    /// The requested language was never preprocessed.
    LanguageNotPreprocessed,
}

/// The count stored for a language: the first matching entry.
pub open spec fn find_limit(s: Seq<(GameLanguage, usize)>, lang: GameLanguage) -> Option<usize>
    decreases s.len(),
{
    if s.len() == 0 {
        None
    } else if s[0].0 == lang {
        Some(s[0].1)
    } else {
        find_limit(s.drop_first(), lang)
    }
}

/// The half-open index range a difficulty draws from, over `n` words:
/// the whole list for `Random`, else the k-th quarter, easiest first.
pub open spec fn band_of(difficulty: Difficulty, n: usize) -> (int, int) {
    let frac = n as int / 4;
    match difficulty {
        Difficulty::Random => (0, n as int),
        Difficulty::Easy => (0, frac),
        Difficulty::Medium => (frac, 2 * frac),
        Difficulty::Hard => (2 * frac, 3 * frac),
        Difficulty::Insane => (3 * frac, 4 * frac),
    }
}

impl WordGenerator {
    /// Record the per-language eligible word counts the caller computed by
    /// reading each wordlist once.
    pub fn preprocess(wordlists_dir: String, counts: Vec<(GameLanguage, usize)>) -> (r: Self)
        ensures
            r.wordlists_dir@ == wordlists_dir@,
            r.limits@ == counts@,
    {
        WordGenerator { wordlists_dir, limits: counts }
    }

    /// The stored word count for a language, if it was preprocessed.
    pub fn limit_for(&self, lang: &GameLanguage) -> (r: Option<usize>)
        ensures
            r == find_limit(self.limits@, *lang),
    {
        let n = self.limits.len();
        let mut i: usize = 0;
        proof {
            assert(self.limits@.skip(0) =~= self.limits@);
        }
        while i < n
            invariant
                n == self.limits@.len(),
                i <= n,
                find_limit(self.limits@, *lang) == find_limit(self.limits@.skip(i as int), *lang),
            decreases n - i,
        {
            proof {
                assert(self.limits@.skip(i as int).drop_first() =~= self.limits@.skip(i as int + 1));
                assert(self.limits@.skip(i as int)[0] == self.limits@[i as int]);
            }
            if self.limits[i].0 == *lang {
                return Some(self.limits[i].1);
            }
            i = i + 1;
        }
        proof {
            assert(self.limits@.skip(n as int).len() == 0);
        }
        None
    }

    /// The index range a draw for this language and difficulty samples from.
    pub fn word_range(&self, lang: &GameLanguage, difficulty: &Difficulty) -> (r: Result<
        (usize, usize),
        GeneratorError,
    >)
        ensures
            match r {
                Ok((lo, hi)) => {
                    &&& find_limit(self.limits@, *lang) is Some
                    &&& (lo as int, hi as int) == band_of(
                        *difficulty,
                        find_limit(self.limits@, *lang)->0,
                    )
                },
                Err(e) => e is LanguageNotPreprocessed && find_limit(self.limits@, *lang)
                    is None,
            },
    {
        let n = match self.limit_for(lang) {
            Some(n) => n,
            None => {
                return Err(GeneratorError::LanguageNotPreprocessed);
            }
        };
        let frac = n / 4;
        let r = match difficulty {
            Difficulty::Random => (0, n),
            Difficulty::Easy => (0, frac),
            Difficulty::Medium => (frac, 2 * frac),
            Difficulty::Hard => (2 * frac, 3 * frac),
            Difficulty::Insane => (3 * frac, 4 * frac),
        };
        Ok(r)
    }

    /// Draw one word for the language and difficulty from the wordlist's
    /// lines: a uniformly random line of the difficulty's band.
    pub fn generate(&self, lang: &GameLanguage, difficulty: &Difficulty, lines: &Vec<String>) -> (r:
        Result<String, GeneratorError>)
        requires
            find_limit(self.limits@, *lang) matches Some(n) ==> n >= 4 && n <= lines@.len(),
        ensures
            match r {
                Ok(w) => {
                    &&& find_limit(self.limits@, *lang) is Some
                    &&& exists|i: int|
                        {
                            &&& band_of(*difficulty, find_limit(self.limits@, *lang)->0).0 <= i
                                < band_of(*difficulty, find_limit(self.limits@, *lang)->0).1
                            &&& w@ == lines@[i]@
                        }
                },
                Err(e) => e is LanguageNotPreprocessed && find_limit(self.limits@, *lang)
                    is None,
            },
    {
        let (lo, hi) = match self.word_range(lang, difficulty) {
            Ok(b) => b,
            Err(e) => {
                return Err(e);
            }
        };
        let idx = random_in_range(lo, hi);
        let w = lines[idx].clone();
        proof {
            let n = find_limit(self.limits@, *lang)->0;
            assert(hi <= n);
            assert(w@ == lines@[idx as int]@);
        }
        Ok(w)
    }
}

/// The wordlist file a language is read from, under the given directory.
pub open spec fn wordlist_file_of(lang: GameLanguage) -> Seq<char> {
    match lang {
        GameLanguage::English => "eng-com_web-public_2018_1M-words.pre.txt"@,
        GameLanguage::Spanish => "spa_web_2016_1M-words.pre.txt"@,
        GameLanguage::French => "fra_mixed_2009_1M-words.pre.txt"@,
        GameLanguage::German => "deu-de_web_2021_1M-words.pre.txt"@,
        GameLanguage::Russian => "rus-ru_web-public_2019_1M-words.pre.txt"@,
        GameLanguage::Turkish => "tur-tr_web_2019_1M-words.pre.txt"@,
    }
}

/// Path of the preprocessed wordlist for a language.
pub fn wordlist_path_for_language(wordlists_dir: &str, lang: &GameLanguage) -> (r: String)
    ensures
        r@ == wordlists_dir@ + "/"@ + wordlist_file_of(*lang),
{
    let mut out = String::new();
    out.append(wordlists_dir);
    out.append("/");
    match lang {
        GameLanguage::English => out.append("eng-com_web-public_2018_1M-words.pre.txt"),
        GameLanguage::Spanish => out.append("spa_web_2016_1M-words.pre.txt"),
        GameLanguage::French => out.append("fra_mixed_2009_1M-words.pre.txt"),
        GameLanguage::German => out.append("deu-de_web_2021_1M-words.pre.txt"),
        GameLanguage::Russian => out.append("rus-ru_web-public_2019_1M-words.pre.txt"),
        GameLanguage::Turkish => out.append("tur-tr_web_2019_1M-words.pre.txt"),
    }
    proof {
        assert(out@ =~= wordlists_dir@ + "/"@ + wordlist_file_of(*lang));
    }
    out
}

} // verus!

//! Room settings: mode, wordlist language and sampling difficulty.

use vstd::prelude::*;

verus! {

/// How a room is played: one shared word, or one word and score per player.
#[derive(Clone, Copy, Debug, PartialEq, Eq, Structural, Hash)]
pub enum GameMode {
    Team,
    Competitive,
}

impl Default for GameMode {
    fn default() -> (r: Self)
        ensures
            r == GameMode::Team,
    {
        GameMode::Team
    }
}

impl GameMode {
    /// Every mode, in display order.
    pub fn all() -> (r: Vec<GameMode>)
        ensures
            r@ == seq![GameMode::Team, GameMode::Competitive],
    {
        let r = vec![GameMode::Team, GameMode::Competitive];
        proof {
            assert(r@ =~= seq![GameMode::Team, GameMode::Competitive]);
        }
        r
    }

    /// The display name of the mode.
    pub fn name(&self) -> (r: &'static str)
        ensures
            self == GameMode::Team ==> r@ == "Team"@,
            self == GameMode::Competitive ==> r@ == "Competitive"@,
    {
        match self {
            GameMode::Team => "Team",
            GameMode::Competitive => "Competitive",
        }
    }
}

/// The language a room's words are drawn from.
#[derive(Clone, Copy, Debug, PartialEq, Eq, Structural, Hash)]
pub enum GameLanguage {
    English,
    Spanish,
    French,
    German,
    Russian,
    Turkish,
}

impl Default for GameLanguage {
    fn default() -> (r: Self)
        ensures
            r == GameLanguage::English,
    {
        GameLanguage::English
    }
}

impl GameLanguage {
    /// Every language, in display order.
    pub fn all() -> (r: Vec<GameLanguage>)
        ensures
            r@ == seq![
                GameLanguage::English,
                GameLanguage::Spanish,
                GameLanguage::French,
                GameLanguage::German,
                GameLanguage::Russian,
                GameLanguage::Turkish,
            ],
    {
        let r = vec![
            GameLanguage::English,
            GameLanguage::Spanish,
            GameLanguage::French,
            GameLanguage::German,
            GameLanguage::Russian,
            GameLanguage::Turkish,
        ];
        proof {
            assert(r@ =~= seq![
                GameLanguage::English,
                GameLanguage::Spanish,
                GameLanguage::French,
                GameLanguage::German,
                GameLanguage::Russian,
                GameLanguage::Turkish,
            ]);
        }
        r
    }

    /// The language's name in that language.
    pub fn name(&self) -> (r: &'static str)
        ensures
            self == GameLanguage::English ==> r@ == "English"@,
            self == GameLanguage::Spanish ==> r@ == "Español"@,
            self == GameLanguage::French ==> r@ == "Français"@,
            self == GameLanguage::German ==> r@ == "Deutsch"@,
            self == GameLanguage::Russian ==> r@ == "Русский"@,
            self == GameLanguage::Turkish ==> r@ == "Türkçe"@,
    {
        match self {
            GameLanguage::English => "English",
            GameLanguage::Spanish => "Español",
            GameLanguage::French => "Français",
            GameLanguage::German => "Deutsch",
            GameLanguage::Russian => "Русский",
            GameLanguage::Turkish => "Türkçe",
        }
    }
}

/// How hard a sampled word should be. The four named levels pick from the
/// quarter of the wordlist with the matching frequency; `Random` picks from
/// the whole list.
#[derive(Clone, Copy, Debug, PartialEq, Eq, Structural, Hash)]
pub enum Difficulty {
    Random,
    Easy,
    Medium,
    Hard,
    Insane,
}

impl Default for Difficulty {
    fn default() -> (r: Self)
        ensures
            r == Difficulty::Medium,
    {
        Difficulty::Medium
    }
}

impl Difficulty {
    /// Every difficulty, in display order.
    pub fn all() -> (r: Vec<Difficulty>)
        ensures
            r@ == seq![
                Difficulty::Random,
                Difficulty::Easy,
                Difficulty::Medium,
                Difficulty::Hard,
                Difficulty::Insane,
            ],
    {
        let r = vec![
            Difficulty::Random,
            Difficulty::Easy,
            Difficulty::Medium,
            Difficulty::Hard,
            Difficulty::Insane,
        ];
        proof {
            assert(r@ =~= seq![
                Difficulty::Random,
                Difficulty::Easy,
                Difficulty::Medium,
                Difficulty::Hard,
                Difficulty::Insane,
            ]);
        }
        r
    }

    /// The display name of the difficulty.
    pub fn name(&self) -> (r: &'static str)
        ensures
            self == Difficulty::Random ==> r@ == "Random"@,
            self == Difficulty::Easy ==> r@ == "Easy"@,
            self == Difficulty::Medium ==> r@ == "Medium"@,
            self == Difficulty::Hard ==> r@ == "Hard"@,
            self == Difficulty::Insane ==> r@ == "Insane"@,
    {
        match self {
            Difficulty::Random => "Random",
            Difficulty::Easy => "Easy",
            Difficulty::Medium => "Medium",
            Difficulty::Hard => "Hard",
            Difficulty::Insane => "Insane",
        }
    }
}

/// Everything a room is created with.
#[derive(Clone, Copy, Debug, PartialEq, Eq, Structural, Hash)]
pub struct GameSettings {
    pub mode: GameMode,
    pub language: GameLanguage,
    pub difficulty: Difficulty,
}

} // verus!

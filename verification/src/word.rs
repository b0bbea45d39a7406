//! The word oracle: per-target guessing state, grapheme by grapheme.

use vstd::prelude::*;
use vstd::pervasive::VecAdditionalExecFns;
use crate::messages::ChatColor;
use crate::text::{
    concat_all, graphemes_of, lemma_concat_all_take_step, lower_of, lowercase, split_graphemes,
    string_eq, vec_string_eq,
};

verus! {

/// One slot of the revealed word.
#[derive(Debug)]
enum Character {
    Unknown,
    /// The grapheme at this position, case preserved from the target.
    Guessed(String),
}

impl Clone for Character {
    fn clone(&self) -> (r: Self)
        ensures
            r == *self,
    {
        match self {
            Character::Unknown => Character::Unknown,
            Character::Guessed(s) => Character::Guessed(s.clone()),
        }
    }
}

/// Guessing state for one target word.
#[derive(Debug)]
pub struct Word {
    /// The target, split into extended grapheme clusters.
    target: Vec<String>,
    /// What has been revealed so far, one slot per target grapheme.
    current: Vec<Character>,
}

/// Mathematical model of a [`Word`]: the target graphemes and, per slot,
/// the revealed grapheme or nothing.
pub struct WordV {
    pub target: Seq<Seq<char>>,
    pub current: Seq<Option<Seq<char>>>,
}

spec fn char_view(c: Character) -> Option<Seq<char>> {
    match c {
        Character::Unknown => None,
        Character::Guessed(s) => Some(s@),
    }
}

impl View for Word {
    type V = WordV;

    closed spec fn view(&self) -> WordV {
        WordV {
            target: self.target.deep_view(),
            current: self.current@.map_values(|c: Character| char_view(c)),
        }
    }
}

impl WordV {
    /// One slot per target grapheme, and a revealed slot always shows the
    /// target's grapheme.
    pub open spec fn wf(self) -> bool {
        &&& self.current.len() == self.target.len()
        &&& forall|i: int|
            0 <= i < self.current.len() ==> (self.current[i] is Some ==> self.current[i]->0
                == self.target[i])
    }
}

/// How a guess was classified.
#[derive(Clone, Copy, Debug, PartialEq, Eq, Structural)]
pub enum GuessResult {
    Hit,
    Miss,
    Solved,
}

/// The chat colour a guess result is shown in.
pub open spec fn color_of(r: GuessResult) -> ChatColor {
    match r {
        GuessResult::Hit => ChatColor::Green,
        GuessResult::Miss => ChatColor::Red,
        GuessResult::Solved => ChatColor::Green,
    }
}

impl GuessResult {
    /// The chat colour this result is shown in: green for progress, red for
    /// a miss.
    pub fn chat_color(&self) -> (c: ChatColor)
        ensures
            c == color_of(*self),
    {
        match self {
            GuessResult::Hit => ChatColor::Green,
            GuessResult::Miss => ChatColor::Red,
            GuessResult::Solved => ChatColor::Green,
        }
    }
}

/// Each grapheme lowercased.
pub open spec fn lowered(gs: Seq<Seq<char>>) -> Seq<Seq<char>> {
    gs.map_values(|g: Seq<char>| lower_of(g))
}

/// A guess as the oracle reads it: grapheme clusters, each lowercased.
pub open spec fn guess_graphemes(s: Seq<char>) -> Seq<Seq<char>> {
    lowered(graphemes_of(s))
}

/// Whether a lowercased grapheme occurs in the target.
pub open spec fn matches_somewhere(w: WordV, g: Seq<char>) -> bool {
    exists|i: int| 0 <= i < w.target.len() && lower_of(w.target[i]) == g
}

/// The slots after revealing every position whose target grapheme lowers to
/// `g`; other slots are kept.
pub open spec fn reveal_positions(w: WordV, g: Seq<char>) -> Seq<Option<Seq<char>>> {
    Seq::new(
        w.current.len(),
        |i: int| if lower_of(w.target[i]) == g {
            Some(w.target[i])
        } else {
            w.current[i]
        },
    )
}

/// Whether every slot is revealed.
pub open spec fn all_revealed(c: Seq<Option<Seq<char>>>) -> bool {
    forall|i: int| 0 <= i < c.len() ==> c[i] is Some
}

/// What one guess does: the oracle state after it, and its classification.
///
/// A guess equal to the whole lowercased target reveals everything and is
/// `Solved`. Otherwise a single grapheme reveals its positions: none is a
/// `Miss`, all slots revealed is `Solved`, anything else a `Hit`. Any other
/// guess is a `Miss` and changes nothing.
pub open spec fn guess_step(w: WordV, s: Seq<char>) -> (WordV, GuessResult) {
    let gs = guess_graphemes(s);
    if gs == lowered(w.target) {
        (
            WordV { target: w.target, current: w.target.map_values(|g: Seq<char>| Some(g)) },
            GuessResult::Solved,
        )
    } else if gs.len() == 1 {
        let g = gs[0];
        if !matches_somewhere(w, g) {
            (w, GuessResult::Miss)
        } else {
            let c2 = reveal_positions(w, g);
            if all_revealed(c2) {
                (WordV { target: w.target, current: c2 }, GuessResult::Solved)
            } else {
                (WordV { target: w.target, current: c2 }, GuessResult::Hit)
            }
        }
    } else {
        (w, GuessResult::Miss)
    }
}

/// How a slot renders: its grapheme, or an underscore.
pub open spec fn render_slot(c: Option<Seq<char>>) -> Seq<char> {
    match c {
        None => seq!['_'],
        Some(g) => g,
    }
}

/// The rendered form of the oracle state.
pub open spec fn render_of(w: WordV) -> Seq<char> {
    concat_all(w.current.map_values(|c: Option<Seq<char>>| render_slot(c)))
}

/// Number of slots not yet revealed.
pub open spec fn unknown_count(c: Seq<Option<Seq<char>>>) -> nat
    decreases c.len(),
{
    if c.len() == 0 {
        0
    } else {
        unknown_count(c.drop_last()) + if c.last() is None {
            1nat
        } else {
            0
        }
    }
}

impl Word {
    /// A fresh oracle for a target: nothing revealed yet.
    pub fn new(target: String) -> (w: Word)
        ensures
            w@.target == graphemes_of(target@),
            w@.current.len() == w@.target.len(),
            forall|i: int| 0 <= i < w@.current.len() ==> w@.current[i] is None,
            w@.wf(),
    {
        let tg = split_graphemes(target.as_str());
        let n = tg.len();
        let mut current: Vec<Character> = Vec::new();
        let mut i: usize = 0;
        while i < n
            invariant
                i <= n,
                current@.len() == i,
                forall|j: int| 0 <= j < i ==> current@[j] is Unknown,
            decreases n - i,
        {
            current.push(Character::Unknown);
            i = i + 1;
        }
        let w = Word { target: tg, current };
        proof {
            assert(forall|j: int| 0 <= j < w@.current.len() ==> w@.current[j] is None);
        }
        w
    }

    /// The target word, graphemes joined back together.
    pub fn target(&self) -> (r: String)
        ensures
            r@ == concat_all(self@.target),
    {
        let mut out = String::new();
        let n = self.target.len();
        let mut i: usize = 0;
        while i < n
            invariant
                n == self.target@.len(),
                i <= n,
                out@ == concat_all(self@.target.take(i as int)),
            decreases n - i,
        {
            out.append(self.target[i].as_str());
            proof {
                lemma_concat_all_take_step(self@.target, i as int);
            }
            i = i + 1;
        }
        proof {
            assert(self@.target.take(n as int) =~= self@.target);
        }
        out
    }

    /// The word as the players see it: revealed graphemes, `_` elsewhere.
    pub fn word(&self) -> (r: String)
        ensures
            r@ == render_of(self@),
    {
        let ghost slots = self@.current.map_values(|c: Option<Seq<char>>| render_slot(c));
        let mut out = String::new();
        let n = self.current.len();
        let mut i: usize = 0;
        while i < n
            invariant
                n == self.current@.len(),
                slots == self@.current.map_values(|c: Option<Seq<char>>| render_slot(c)),
                slots.len() == n,
                i <= n,
                out@ == concat_all(slots.take(i as int)),
            decreases n - i,
        {
            match &self.current[i] {
                Character::Unknown => {
                    out.push('_');
                    proof {
                        assert(slots[i as int] =~= seq!['_']);
                    }
                }
                Character::Guessed(s) => {
                    out.append(s.as_str());
                    proof {
                        assert(slots[i as int] == s@);
                    }
                }
            }
            proof {
                lemma_concat_all_take_step(slots, i as int);
            }
            i = i + 1;
        }
        proof {
            assert(slots.take(n as int) =~= slots);
        }
        out
    }

    /// Classify one guess and reveal what it earns.
    #[verifier::loop_isolation(false)]
    pub fn guess(&mut self, s: String) -> (r: GuessResult)
        requires
            old(self)@.wf(),
        ensures
            final(self)@ == guess_step(old(self)@, s@).0,
            r == guess_step(old(self)@, s@).1,
            final(self)@.target == old(self)@.target,
            final(self)@.wf(),
    {
        let ghost w0 = self@;
        let gs = split_graphemes(s.as_str());
        let mut lowered_gs: Vec<String> = Vec::new();
        let gn = gs.len();
        let mut i: usize = 0;
        while i < gn
            invariant
                gn == gs@.len(),
                i <= gn,
                lowered_gs@.len() == i,
                forall|j: int| 0 <= j < i ==> lowered_gs@[j]@ == lower_of(gs@[j]@),
            decreases gn - i,
        {
            lowered_gs.push(lowercase(gs[i].as_str()));
            i = i + 1;
        }
        proof {
            assert(lowered_gs.deep_view() =~= guess_graphemes(s@));
        }

        let mut lowered_t: Vec<String> = Vec::new();
        let tn = self.target.len();
        let mut i: usize = 0;
        while i < tn
            invariant
                tn == self.target@.len(),
                i <= tn,
                lowered_t@.len() == i,
                forall|j: int| 0 <= j < i ==> lowered_t@[j]@ == lower_of(self.target@[j]@),
            decreases tn - i,
        {
            lowered_t.push(lowercase(self.target[i].as_str()));
            i = i + 1;
        }
        proof {
            assert(lowered_t.deep_view() =~= lowered(w0.target));
        }

        if vec_string_eq(&lowered_t, &lowered_gs) {
            // Whole-word guess: reveal everything.
            let mut current: Vec<Character> = Vec::new();
            let mut i: usize = 0;
            while i < tn
                invariant
                    tn == self.target@.len(),
                    self@ == w0,
                    i <= tn,
                    current@.len() == i,
                    forall|j: int|
                        0 <= j < i ==> current@[j] == Character::Guessed(self.target@[j]),
                decreases tn - i,
            {
                current.push(Character::Guessed(self.target[i].clone()));
                i = i + 1;
            }
            self.current = current;
            proof {
                assert(self@.current =~= w0.target.map_values(|g: Seq<char>| Some(g)));
            }
            GuessResult::Solved
        } else if gn == 1 {
            let g = &lowered_gs[0];
            let ghost gv = guess_graphemes(s@)[0];
            let mut newcur: Vec<Character> = Vec::new();
            let mut found = false;
            let mut i: usize = 0;
            while i < tn
                invariant
                    i <= tn,
                    self@ == w0,
                    newcur@.len() == i,
                    forall|j: int|
                        0 <= j < i ==> char_view(newcur@[j]) == (if lower_of(w0.target[j]) == gv {
                            Some(w0.target[j])
                        } else {
                            w0.current[j]
                        }),
                    found == exists|j: int| 0 <= j < i && lower_of(w0.target[j]) == gv,
                decreases tn - i,
            {
                proof {
                    assert(lowered_t.deep_view()[i as int] == lowered(w0.target)[i as int]);
                    assert(lowered_t@[i as int]@ == lower_of(w0.target[i as int]));
                    assert(lowered_gs.deep_view()[0] == guess_graphemes(s@)[0]);
                    assert(g@ == gv);
                }
                if string_eq(&lowered_t[i], g) {
                    newcur.push(Character::Guessed(self.target[i].clone()));
                    found = true;
                } else {
                    newcur.push(self.current[i].clone());
                }
                i = i + 1;
            }
            self.current = newcur;
            if !found {
                proof {
                    assert(!matches_somewhere(w0, gv));
                    assert(self@.current =~= w0.current);
                }
                GuessResult::Miss
            } else {
                proof {
                    assert(matches_somewhere(w0, gv));
                    assert(self@.current =~= reveal_positions(w0, gv));
                }
                let mut all = true;
                let mut i: usize = 0;
                while i < tn
                    invariant
                        tn == self.current@.len(),
                        self@.current.len() == tn,
                        i <= tn,
                        all == forall|j: int| 0 <= j < i ==> self@.current[j] is Some,
                    decreases tn - i,
                {
                    match &self.current[i] {
                        Character::Unknown => {
                            all = false;
                        }
                        Character::Guessed(_) => {}
                    }
                    proof {
                        if self@.current[i as int] is Some {
                        } else {
                            assert(!(forall|j: int|
                                0 <= j < i + 1 ==> self@.current[j] is Some));
                        }
                    }
                    i = i + 1;
                }
                if all {
                    GuessResult::Solved
                } else {
                    GuessResult::Hit
                }
            }
        } else {
            proof {
                assert(guess_graphemes(s@).len() != 1);
            }
            GuessResult::Miss
        }
    }
}

impl Clone for Word {
    fn clone(&self) -> (r: Self)
        ensures
            r@ == self@,
    {
        let mut current: Vec<Character> = Vec::new();
        let n = self.current.len();
        let mut i: usize = 0;
        while i < n
            invariant
                n == self.current@.len(),
                i <= n,
                current@ =~= self.current@.take(i as int),
            decreases n - i,
        {
            current.push(self.current[i].clone());
            i = i + 1;
        }
        proof {
            assert(current@ =~= self.current@);
        }
        Word { target: crate::text::clone_strings(&self.target), current }
    }
}

proof fn lemma_count_le(a: Seq<Option<Seq<char>>>, b: Seq<Option<Seq<char>>>)
    requires
        a.len() == b.len(),
        forall|i: int| 0 <= i < a.len() ==> (a[i] is Some ==> b[i] is Some),
    ensures
        unknown_count(b) <= unknown_count(a),
    decreases a.len(),
{
    if a.len() > 0 {
        lemma_count_le(a.drop_last(), b.drop_last());
    }
}

proof fn lemma_count_lt(a: Seq<Option<Seq<char>>>, b: Seq<Option<Seq<char>>>, k: int)
    requires
        a.len() == b.len(),
        forall|i: int| 0 <= i < a.len() ==> (a[i] is Some ==> b[i] is Some),
        0 <= k < a.len(),
        a[k] is None,
        b[k] is Some,
    ensures
        unknown_count(b) < unknown_count(a),
    decreases a.len(),
{
    if k == a.len() - 1 {
        lemma_count_le(a.drop_last(), b.drop_last());
    } else {
        lemma_count_lt(a.drop_last(), b.drop_last(), k);
    }
}

proof fn lemma_count_zero(c: Seq<Option<Seq<char>>>)
    requires
        all_revealed(c),
    ensures
        unknown_count(c) == 0,
    decreases c.len(),
{
    if c.len() > 0 {
        assert(c[c.len() - 1] is Some);
        lemma_count_zero(c.drop_last());
    }
}

/// A missed guess changes nothing: the slots, the rendered word and the
/// number of unknown slots all stay as they were.
pub proof fn lemma_miss_preserves_word(w: WordV, s: Seq<char>)
    requires
        w.wf(),
        guess_step(w, s).1 == GuessResult::Miss,
    ensures
        guess_step(w, s).0 == w,
        render_of(guess_step(w, s).0) == render_of(w),
        unknown_count(guess_step(w, s).0.current) == unknown_count(w.current),
{
}

/// A hit on a grapheme with at least one unrevealed matching position
/// strictly decreases the number of unknown slots. A hit on a grapheme
/// whose positions were all revealed before leaves the count unchanged, so
/// the count never grows.
pub proof fn lemma_hit_reveals(w: WordV, s: Seq<char>)
    requires
        w.wf(),
        guess_step(w, s).1 == GuessResult::Hit,
        exists|i: int|
            0 <= i < w.current.len() && w.current[i] is None && lower_of(w.target[i])
                == guess_graphemes(s)[0],
    ensures
        unknown_count(guess_step(w, s).0.current) < unknown_count(w.current),
{
    let g = guess_graphemes(s)[0];
    let c2 = reveal_positions(w, g);
    assert(guess_step(w, s).0.current == c2);
    let k = choose|i: int|
        0 <= i < w.current.len() && w.current[i] is None && lower_of(w.target[i]) == g;
    assert(c2[k] is Some);
    lemma_count_lt(w.current, c2, k);
}

/// A hit never increases the number of unknown slots.
pub proof fn lemma_hit_never_unreveals(w: WordV, s: Seq<char>)
    requires
        w.wf(),
        guess_step(w, s).1 == GuessResult::Hit,
    ensures
        unknown_count(guess_step(w, s).0.current) <= unknown_count(w.current),
{
    let g = guess_graphemes(s)[0];
    let c2 = reveal_positions(w, g);
    assert(guess_step(w, s).0.current == c2);
    lemma_count_le(w.current, c2);
}

/// A solved guess leaves zero unknown slots.
pub proof fn lemma_solved_reveals_all(w: WordV, s: Seq<char>)
    requires
        w.wf(),
        guess_step(w, s).1 == GuessResult::Solved,
    ensures
        all_revealed(guess_step(w, s).0.current),
        unknown_count(guess_step(w, s).0.current) == 0,
{
    let c2 = guess_step(w, s).0.current;
    assert(all_revealed(c2));
    lemma_count_zero(c2);
}

} // verus!

//! The competitive game loop: per-player words and scores, a shared draw
//! order, and a global round deadline.
//!
//! Like the team loop this is a single-writer state machine: the caller owns
//! the mailbox, feeds messages into [`CompetitiveGame::handle_message`] with
//! the current time and a fresh word draw, performs the returned sends,
//! schedules a countdown task when told to, and routes that task's firing
//! into [`CompetitiveGame::countdown_fired`].

use vstd::prelude::*;
use crate::code::GameCode;
use crate::logic::{
    add_player_spec, has_token, names_of, players_wf, remove_player_spec, token_index,
    GameMessageInner, GameMessageInnerV, Players,
};
use crate::messages::{
    clone_chat, join_message, join_message_v, leave_message, leave_message_v, started_message,
    started_message_v, system_messages_only, system_only, view_chat, view_scores, ChatColor,
    ChatMessage, ChatMessageV, ClientMessage, ClientMessageV, CompetitiveState,
    CompetitiveStateV, Game, GameV, Score, ScoreV, ServerMessageInner, ServerMessageInnerV,
};
use crate::rank::{compute_scores, entry_pair, row_pair, scoreboard_wf};
use crate::settings::GameSettings;
use crate::team::fresh_word_v;
use crate::text::{clone_strings, concat_all};
use crate::user::{spec_hashed, UserToken};
use crate::word::{color_of, guess_step, render_of, GuessResult, Word, WordV};

verus! {

/// Length of one competitive round, in milliseconds.
pub const GAME_DURATION_MS: i64 = 180000;

/// One player's private round state.
#[derive(Debug)]
pub struct PlayerState {
    pub tries_used: u32,
    pub chat: Vec<ChatMessage>,
    /// Absolute round deadline, milliseconds since the epoch.
    pub countdown: i64,
    pub word: Word,
    /// Position in the room's shared draw order.
    pub word_index: usize,
    pub score: u32,
}

/// Mathematical model of a [`PlayerState`].
pub struct PlayerStateV {
    pub tries_used: u32,
    pub chat: Seq<ChatMessageV>,
    pub countdown: i64,
    pub word: WordV,
    pub word_index: usize,
    pub score: u32,
}

impl View for PlayerState {
    type V = PlayerStateV;

    open spec fn view(&self) -> PlayerStateV {
        PlayerStateV {
            tries_used: self.tries_used,
            chat: view_chat(self.chat@),
            countdown: self.countdown,
            word: self.word@,
            word_index: self.word_index,
            score: self.score,
        }
    }
}

/// The client-facing form of a player's state.
pub open spec fn to_state_v(ps: PlayerStateV) -> CompetitiveStateV {
    CompetitiveStateV {
        chat: ps.chat,
        tries_used: ps.tries_used,
        word: render_of(ps.word),
        countdown: ps.countdown,
        word_index: ps.word_index,
        score: ps.score,
    }
}

impl PlayerState {
    /// The state as this player sees it.
    pub fn to_state(&self) -> (r: CompetitiveState)
        ensures
            r@ == to_state_v(self@),
    {
        CompetitiveState {
            chat: clone_chat(&self.chat),
            tries_used: self.tries_used,
            word: self.word.word(),
            countdown: self.countdown,
            word_index: self.word_index,
            score: self.score,
        }
    }
}

/// The model of the keyed player-state list.
pub open spec fn states_view(v: Seq<(UserToken, PlayerState)>) -> Seq<(UserToken, PlayerStateV)> {
    v.map_values(|p: (UserToken, PlayerState)| (p.0, p.1@))
}

/// A competitive room: the loop's entire mutable state.
#[derive(Debug)]
pub struct CompetitiveGame {
    pub code: GameCode,
    pub owner: UserToken,
    pub settings: GameSettings,
    pub players: Players,
    pub player_states: Vec<(UserToken, PlayerState)>,
    pub global_chat: Vec<ChatMessage>,
    /// The shared draw order: the word at index `n` is every player's `n`-th
    /// word, memoized when first needed.
    pub words: Vec<Word>,
    /// The current round's absolute deadline; none while waiting to start.
    pub countdown: Option<i64>,
    /// The last round's final scoreboard, once its countdown fired.
    pub results: Option<Vec<Score>>,
    /// Monotone round counter: a countdown task acts only if its generation
    /// is still current.
    pub generation: u64,
}

/// Mathematical model of a [`CompetitiveGame`].
pub struct CompetitiveGameV {
    pub code: GameCode,
    pub owner: UserToken,
    pub settings: GameSettings,
    pub players: Seq<(UserToken, Seq<char>)>,
    pub player_states: Seq<(UserToken, PlayerStateV)>,
    pub global_chat: Seq<ChatMessageV>,
    pub words: Seq<WordV>,
    pub countdown: Option<i64>,
    pub results: Option<Seq<ScoreV>>,
    pub generation: u64,
}

impl View for CompetitiveGame {
    type V = CompetitiveGameV;

    open spec fn view(&self) -> CompetitiveGameV {
        CompetitiveGameV {
            code: self.code,
            owner: self.owner,
            settings: self.settings,
            players: self.players@,
            player_states: states_view(self.player_states@),
            global_chat: view_chat(self.global_chat@),
            words: self.words@.map_values(|w: Word| w@),
            countdown: self.countdown,
            results: match self.results {
                Some(ref r) => Some(view_scores(r@)),
                None => None,
            },
            generation: self.generation,
        }
    }
}

impl CompetitiveGameV {
    /// Tokens unique in both keyed lists, oracles well-formed, at least one
    /// shared word, fewer than nine tries stored, and every word index
    /// inside the shared draw order.
    pub open spec fn wf(self) -> bool {
        &&& players_wf(self.players)
        &&& players_wf(self.player_states)
        &&& 1 <= self.words.len() <= usize::MAX
        &&& forall|i: int| 0 <= i < self.words.len() ==> (#[trigger] self.words[i]).wf()
        &&& forall|i: int|
            0 <= i < self.player_states.len() ==> {
                let ps = (#[trigger] self.player_states[i]).1;
                &&& ps.word.wf()
                &&& ps.tries_used <= 8
                &&& ps.word_index < self.words.len()
            }
    }
}

/// The envelope sent to a competitive player.
pub open spec fn comp_env(
    owner: UserToken,
    settings: GameSettings,
    names: Seq<Seq<char>>,
    state: Option<CompetitiveStateV>,
) -> GameV<CompetitiveStateV> {
    GameV { owner_hash: UserToken(spec_hashed(owner.0)), settings, players: names, state }
}

/// Per-state updates: each state-holder still connected receives an envelope
/// of its own state, in list order. While no round has started the envelope's
/// state is empty.
pub open spec fn state_updates(
    states: Seq<(UserToken, PlayerStateV)>,
    players: Seq<(UserToken, Seq<char>)>,
    owner: UserToken,
    settings: GameSettings,
    names: Seq<Seq<char>>,
    countdown: Option<i64>,
) -> Seq<(UserToken, ServerMessageInnerV<CompetitiveStateV>)>
    decreases states.len(),
{
    if states.len() == 0 {
        Seq::empty()
    } else {
        let rest = state_updates(states.drop_last(), players, owner, settings, names, countdown);
        let (t, ps) = states.last();
        if has_token(players, t) {
            rest.push(
                (
                    t,
                    ServerMessageInnerV::UpdateGame(
                        comp_env(
                            owner,
                            settings,
                            names,
                            match countdown {
                                Some(_) => Some(to_state_v(ps)),
                                None => None,
                            },
                        ),
                    ),
                ),
            )
        } else {
            rest
        }
    }
}

/// The final scoreboard sent to each state-holder still connected, in list
/// order.
pub open spec fn results_sends(
    states: Seq<(UserToken, PlayerStateV)>,
    players: Seq<(UserToken, Seq<char>)>,
    scores: Seq<ScoreV>,
) -> Seq<(UserToken, ServerMessageInnerV<CompetitiveStateV>)>
    decreases states.len(),
{
    if states.len() == 0 {
        Seq::empty()
    } else {
        let rest = results_sends(states.drop_last(), players, scores);
        let (t, _ps) = states.last();
        if has_token(players, t) {
            rest.push((t, ServerMessageInnerV::Results(scores)))
        } else {
            rest
        }
    }
}

/// One identical message per connected player, in list order.
pub open spec fn all_player_sends(
    players: Seq<(UserToken, Seq<char>)>,
    payload: ServerMessageInnerV<CompetitiveStateV>,
) -> Seq<(UserToken, ServerMessageInnerV<CompetitiveStateV>)> {
    players.map_values(|p: (UserToken, Seq<char>)| (p.0, payload))
}

/// The banner pushed when a player's word ends: solved, or out of tries.
pub open spec fn comp_end_banner_v(res: GuessResult, w: WordV) -> ChatMessageV {
    if res is Solved {
        ChatMessageV {
            from: None,
            content: "You guessed \""@ + concat_all(w.target) + "\""@,
            color: ChatColor::Green,
        }
    } else {
        ChatMessageV {
            from: None,
            content: "No tries left! The word was \""@ + concat_all(w.target) + "\""@,
            color: ChatColor::Red,
        }
    }
}

/// The banner appended to every player-state's chat.
pub open spec fn push_banner_states(
    states: Seq<(UserToken, PlayerStateV)>,
    banner: ChatMessageV,
) -> Seq<(UserToken, PlayerStateV)> {
    states.map_values(
        |p: (UserToken, PlayerStateV)|
            (p.0, PlayerStateV { chat: p.1.chat.push(banner), ..p.1 }),
    )
}

/// Round start: every state gets the banner and the new deadline.
pub open spec fn start_states(
    states: Seq<(UserToken, PlayerStateV)>,
    banner: ChatMessageV,
    deadline: i64,
) -> Seq<(UserToken, PlayerStateV)> {
    states.map_values(
        |p: (UserToken, PlayerStateV)|
            (p.0, PlayerStateV { chat: p.1.chat.push(banner), countdown: deadline, ..p.1 }),
    )
}

/// The round counter, one further on; pinned at its greatest value.
pub open spec fn next_generation(g: u64) -> u64 {
    if g == u64::MAX {
        g
    } else {
        (g + 1) as u64
    }
}

/// Everything a delivered message asks of the caller, beside the new state.
pub struct CompStepV {
    pub state: CompetitiveGameV,
    pub sends: Seq<(UserToken, ServerMessageInnerV<CompetitiveStateV>)>,
    pub close: bool,
    /// A countdown task to schedule: its generation and absolute deadline.
    pub schedule: Option<(u64, i64)>,
}

/// A join: the banner goes to the global chat and every player state; every
/// connected state-holder gets a fresh envelope; the joiner is registered,
/// given back its old state when its token is known, a fresh one otherwise,
/// and finally receives its own envelope, or the results when the round has
/// already ended.
pub open spec fn comp_join(
    s: CompetitiveGameV,
    token: UserToken,
    name: Seq<char>,
    now: i64,
) -> CompStepV {
    let banner = join_message_v(name);
    let global2 = s.global_chat.push(banner);
    let states2 = push_banner_states(s.player_states, banner);
    let sends1 = state_updates(
        states2,
        s.players,
        s.owner,
        s.settings,
        names_of(s.players),
        s.countdown,
    );
    let players2 = add_player_spec(s.players, token, name);
    let rejoin = has_token(states2, token);
    let joiner = if rejoin {
        states2[token_index(states2, token)].1
    } else {
        PlayerStateV {
            tries_used: 0,
            chat: global2,
            countdown: match s.countdown {
                Some(d) => d,
                None => now,
            },
            word: s.words[0],
            word_index: 0,
            score: 0,
        }
    };
    let states3 = if rejoin {
        states2
    } else {
        states2.push((token, joiner))
    };
    let last_send = match s.results {
        None => (
            token,
            ServerMessageInnerV::<CompetitiveStateV>::UpdateGame(
                comp_env(
                    s.owner,
                    s.settings,
                    names_of(players2),
                    match s.countdown {
                        Some(_) => Some(to_state_v(joiner)),
                        None => None,
                    },
                ),
            ),
        ),
        Some(res) => (token, ServerMessageInnerV::<CompetitiveStateV>::Results(res)),
    };
    CompStepV {
        state: CompetitiveGameV {
            players: players2,
            player_states: states3,
            global_chat: global2,
            ..s
        },
        sends: sends1.push(last_send),
        close: false,
        schedule: None,
    }
}

/// A leave: the player goes, the banner goes everywhere, the remaining
/// connected state-holders get fresh envelopes, and the room closes when it
/// empties or its owner left. An unknown token changes nothing.
pub open spec fn comp_leave(s: CompetitiveGameV, token: UserToken) -> CompStepV {
    if !has_token(s.players, token) {
        CompStepV { state: s, sends: Seq::empty(), close: false, schedule: None }
    } else {
        let name = s.players[token_index(s.players, token)].1;
        let banner = leave_message_v(name);
        let global2 = s.global_chat.push(banner);
        let states2 = push_banner_states(s.player_states, banner);
        let players2 = remove_player_spec(s.players, token);
        let sends = state_updates(
            states2,
            players2,
            s.owner,
            s.settings,
            names_of(players2),
            s.countdown,
        );
        CompStepV {
            state: CompetitiveGameV {
                players: players2,
                player_states: states2,
                global_chat: global2,
                ..s
            },
            sends,
            close: players2.len() == 0 || token == s.owner,
            schedule: None,
        }
    }
}

/// A guess from a registered player during a live round: a miss burns a try,
/// a solve scores; on a solve or the ninth miss the banner is pushed, user
/// chat is stripped, and the player advances to the next shared word,
/// memoized in the draw order. Only the guesser is updated.
pub open spec fn comp_guess(
    s: CompetitiveGameV,
    token: UserToken,
    text: Seq<char>,
    draw: Seq<char>,
) -> CompStepV {
    if !has_token(s.players, token) || s.countdown is None || !has_token(
        s.player_states,
        token,
    ) {
        CompStepV { state: s, sends: Seq::empty(), close: false, schedule: None }
    } else {
        let name = s.players[token_index(s.players, token)].1;
        let idx = token_index(s.player_states, token);
        let ps = s.player_states[idx].1;
        let res = guess_step(ps.word, text).1;
        let w2 = guess_step(ps.word, text).0;
        let tries2 = if res is Miss {
            (ps.tries_used + 1) as u32
        } else {
            ps.tries_used
        };
        let score2 = if res is Solved {
            if ps.score == u32::MAX {
                ps.score
            } else {
                (ps.score + 1) as u32
            }
        } else {
            ps.score
        };
        let chat2 = ps.chat.push(
            ChatMessageV { from: Some(name), content: text, color: color_of(res) },
        );
        let advance = res is Solved || tries2 == 9;
        let ps2 = if advance {
            let wi2 = (ps.word_index + 1) as usize;
            PlayerStateV {
                tries_used: 0,
                chat: chat2.push(comp_end_banner_v(res, ps.word)).filter(system_only()),
                countdown: ps.countdown,
                word: if wi2 < s.words.len() {
                    s.words[wi2 as int]
                } else {
                    fresh_word_v(draw)
                },
                word_index: wi2,
                score: score2,
            }
        } else {
            PlayerStateV {
                tries_used: tries2,
                chat: chat2,
                countdown: ps.countdown,
                word: w2,
                word_index: ps.word_index,
                score: score2,
            }
        };
        let words2 = if advance && ps.word_index + 1 >= s.words.len() {
            s.words.push(fresh_word_v(draw))
        } else {
            s.words
        };
        let states2 = s.player_states.update(idx, (token, ps2));
        CompStepV {
            state: CompetitiveGameV { player_states: states2, words: words2, ..s },
            sends: seq![
                (
                    token,
                    ServerMessageInnerV::UpdateGame(
                        comp_env(s.owner, s.settings, names_of(s.players), Some(to_state_v(ps2))),
                    ),
                ),
            ],
            close: false,
            schedule: None,
        }
    }
}

/// `NextRound` from the owner starts the first round; during a live round it
/// restarts the whole match for everyone: fresh draw order, chats and states
/// reset, results cleared, new deadline and generation.
pub open spec fn comp_next_round(
    s: CompetitiveGameV,
    token: UserToken,
    now: i64,
    draw: Seq<char>,
) -> CompStepV {
    if !has_token(s.players, token) {
        CompStepV { state: s, sends: Seq::empty(), close: false, schedule: None }
    } else {
        let name = s.players[token_index(s.players, token)].1;
        let deadline = (now + GAME_DURATION_MS) as i64;
        let gen2 = next_generation(s.generation);
        match s.countdown {
            None => {
                if token == s.owner {
                    let banner = started_message_v(name, true);
                    let global2 = s.global_chat.push(banner);
                    let states2 = start_states(s.player_states, banner, deadline);
                    let sends = state_updates(
                        states2,
                        s.players,
                        s.owner,
                        s.settings,
                        names_of(s.players),
                        Some(deadline),
                    );
                    CompStepV {
                        state: CompetitiveGameV {
                            global_chat: global2,
                            player_states: states2,
                            countdown: Some(deadline),
                            generation: gen2,
                            ..s
                        },
                        sends,
                        close: false,
                        schedule: Some((gen2, deadline)),
                    }
                } else {
                    CompStepV { state: s, sends: Seq::empty(), close: false, schedule: None }
                }
            }
            Some(_) => {
                let banner = started_message_v(name, false);
                let global2 = seq![banner];
                let words2 = seq![fresh_word_v(draw)];
                let fresh = PlayerStateV {
                    tries_used: 0,
                    chat: global2,
                    countdown: deadline,
                    word: words2[0],
                    word_index: 0,
                    score: 0,
                };
                let states2 = s.player_states.map_values(
                    |p: (UserToken, PlayerStateV)| (p.0, fresh),
                );
                let env_state = CompetitiveStateV {
                    chat: global2,
                    tries_used: 0,
                    word: render_of(words2[0]),
                    countdown: deadline,
                    word_index: 0,
                    score: 0,
                };
                CompStepV {
                    state: CompetitiveGameV {
                        global_chat: global2,
                        words: words2,
                        player_states: states2,
                        countdown: Some(deadline),
                        results: None,
                        generation: gen2,
                        ..s
                    },
                    sends: all_player_sends(
                        s.players,
                        ServerMessageInnerV::UpdateGame(
                            comp_env(s.owner, s.settings, names_of(s.players), Some(env_state)),
                        ),
                    ),
                    close: false,
                    schedule: Some((gen2, deadline)),
                }
            }
        }
    }
}

/// What one delivered message does to a competitive room. The post-state and
/// everything sent are a function of the pre-state, the message, the clock
/// reading and the word draw alone.
pub open spec fn comp_step(
    s: CompetitiveGameV,
    m: GameMessageInnerV,
    now: i64,
    draw: Seq<char>,
) -> CompStepV {
    match m {
        GameMessageInnerV::Join { token, name } => comp_join(s, token, name, now),
        GameMessageInnerV::Leave(token) => comp_leave(s, token),
        GameMessageInnerV::ClientMessage { token, message } => match message {
            ClientMessageV::ChatMessage(text) => comp_guess(s, token, text, draw),
            ClientMessageV::NextRound => comp_next_round(s, token, now, draw),
        },
    }
}

/// The (nickname, score) pairs the final ranking is computed from: one per
/// state-holder still connected, in list order.
pub open spec fn joined_scores(
    states: Seq<(UserToken, PlayerStateV)>,
    players: Seq<(UserToken, Seq<char>)>,
) -> Seq<(Seq<char>, u32)>
    decreases states.len(),
{
    if states.len() == 0 {
        Seq::empty()
    } else {
        let rest = joined_scores(states.drop_last(), players);
        let (t, ps) = states.last();
        if has_token(players, t) {
            rest.push((players[token_index(players, t)].1, ps.score))
        } else {
            rest
        }
    }
}

/// Determinism: what one delivered message does to a competitive room is a
/// pure function of the pre-state, the message, the clock reading and the
/// word draw. Two rooms in equal states handle equal inputs identically.
pub proof fn lemma_comp_step_deterministic(
    s1: CompetitiveGameV,
    s2: CompetitiveGameV,
    m1: GameMessageInnerV,
    m2: GameMessageInnerV,
    now1: i64,
    now2: i64,
    d1: Seq<char>,
    d2: Seq<char>,
)
    requires
        s1 == s2,
        m1 == m2,
        now1 == now2,
        d1 == d2,
    ensures
        comp_step(s1, m1, now1, d1) == comp_step(s2, m2, now2, d2),
{
}

/// Within a round, a guess never decreases any player's tries: a player's
/// tries reset only when that player's word advances.
pub proof fn lemma_comp_tries_monotone(
    s: CompetitiveGameV,
    token: UserToken,
    text: Seq<char>,
    draw: Seq<char>,
)
    requires
        s.wf(),
    ensures
        comp_guess(s, token, text, draw).state.player_states.len() == s.player_states.len(),
        forall|i: int|
            0 <= i < s.player_states.len() ==> {
                let ps0 = (#[trigger] s.player_states[i]).1;
                let ps1 = comp_guess(s, token, text, draw).state.player_states[i].1;
                ps1.word_index == ps0.word_index ==> ps1.tries_used >= ps0.tries_used
            },
{
    let st = comp_guess(s, token, text, draw).state;
    if !(!has_token(s.players, token) || s.countdown is None || !has_token(
        s.player_states,
        token,
    )) {
        let idx = token_index(s.player_states, token);
        assert forall|i: int|
            0 <= i < s.player_states.len() implies {
            let ps0 = (#[trigger] s.player_states[i]).1;
            let ps1 = st.player_states[i].1;
            ps1.word_index == ps0.word_index ==> ps1.tries_used >= ps0.tries_used
        } by {
            if i != idx {
                assert(st.player_states[i] == s.player_states[i]);
            } else {
                let ps = s.player_states[idx].1;
                assert(ps.tries_used <= 8);
                let res = guess_step(ps.word, text).1;
                let tries2 = if res is Miss {
                    (ps.tries_used + 1) as u32
                } else {
                    ps.tries_used
                };
                if res is Solved || tries2 == 9 {
                    let wi2 = (ps.word_index + 1) as usize;
                    assert(st.player_states[i].1.word_index == wi2);
                    assert(ps.word_index < usize::MAX);
                    assert(wi2 != ps.word_index);
                } else {
                    assert(st.player_states[i].1.tries_used == tries2);
                }
            }
        }
    }
}

/// What the caller must do after a message: the sends, whether to close the
/// room, and a countdown task to schedule, if any.
#[derive(Debug)]
pub struct CompetitiveStep {
    pub sends: Vec<(UserToken, ServerMessageInner<CompetitiveState>)>,
    pub close: bool,
    pub schedule: Option<(u64, i64)>,
}

/// The model of a send list.
pub open spec fn view_comp_sends(v: Seq<(UserToken, ServerMessageInner<CompetitiveState>)>) -> Seq<
    (UserToken, ServerMessageInnerV<CompetitiveStateV>),
> {
    v.map_values(|p: (UserToken, ServerMessageInner<CompetitiveState>)| (p.0, p.1@))
}

/// The envelope as one competitive player receives it.
fn make_env(
    owner: UserToken,
    settings: GameSettings,
    names: Vec<String>,
    state: Option<CompetitiveState>,
) -> (g: Game<CompetitiveState>)
    ensures
        g@ == comp_env(
            owner,
            settings,
            names.deep_view(),
            match state {
                Some(s) => Some(s@),
                None => None,
            },
        ),
{
    Game { owner_hash: owner.hashed(), settings, players: names, state }
}

/// A copy of a scoreboard, equal row by row.
fn clone_scores(v: &Vec<Score>) -> (r: Vec<Score>)
    ensures
        r@ == v@,
{
    let mut r: Vec<Score> = Vec::new();
    let n = v.len();
    let mut i: usize = 0;
    while i < n
        invariant
            n == v@.len(),
            i <= n,
            r@ =~= v@.take(i as int),
        decreases n - i,
    {
        r.push(v[i].clone());
        i = i + 1;
    }
    proof {
        assert(r@ =~= v@);
    }
    r
}

/// The position of the state keyed by this token.
#[verifier::loop_isolation(false)]
fn find_state(states: &Vec<(UserToken, PlayerState)>, token: UserToken) -> (r: Option<usize>)
    requires
        players_wf(states_view(states@)),
    ensures
        match r {
            Some(i) => i < states@.len() && states@[i as int].0 == token && i as int == token_index(
                states_view(states@),
                token,
            ),
            None => !has_token(states_view(states@), token),
        },
{
    let n = states.len();
    let mut i: usize = 0;
    while i < n
        invariant
            n == states@.len(),
            i <= n,
            forall|j: int| 0 <= j < i ==> states_view(states@)[j].0 != token,
        decreases n - i,
    {
        if states[i].0.0 == token.0 {
            proof {
                let sv = states_view(states@);
                assert(sv[i as int].0 == token);
                let j = token_index(sv, token);
                assert(0 <= j < sv.len() && sv[j].0 == token);
                assert(j == i as int);
            }
            return Some(i);
        }
        i = i + 1;
    }
    None
}

/// Every state's chat gets the banner; with a deadline given, its countdown
/// is moved to it as well.
#[verifier::loop_isolation(false)]
fn states_with_banner(
    states: &Vec<(UserToken, PlayerState)>,
    banner: &ChatMessage,
    deadline: Option<i64>,
) -> (r: Vec<(UserToken, PlayerState)>)
    ensures
        deadline is None ==> states_view(r@) == push_banner_states(states_view(states@), banner@),
        deadline matches Some(d) ==> states_view(r@) == start_states(
            states_view(states@),
            banner@,
            d,
        ),
{
    let mut r: Vec<(UserToken, PlayerState)> = Vec::new();
    let n = states.len();
    let ghost sv = states_view(states@);
    let mut i: usize = 0;
    while i < n
        invariant
            n == states@.len(),
            sv == states_view(states@),
            i <= n,
            r@.len() == i,
            forall|j: int|
                0 <= j < i ==> (#[trigger] states_view(r@)[j]) == (
                sv[j].0,
                PlayerStateV {
                    chat: sv[j].1.chat.push(banner@),
                    countdown: match deadline {
                        Some(d) => d,
                        None => sv[j].1.countdown,
                    },
                    ..sv[j].1
                },
            ),
        decreases n - i,
    {
        let t = states[i].0;
        let mut chat = clone_chat(&states[i].1.chat);
        chat.push(banner.clone());
        let cd = match deadline {
            Some(d) => d,
            None => states[i].1.countdown,
        };
        let ps = PlayerState {
            tries_used: states[i].1.tries_used,
            chat,
            countdown: cd,
            word: states[i].1.word.clone(),
            word_index: states[i].1.word_index,
            score: states[i].1.score,
        };
        let ghost r0 = r@;
        r.push((t, ps));
        proof {
            assert(view_chat(r@[i as int].1.chat@) =~= sv[i as int].1.chat.push(banner@));
            assert forall|j: int| 0 <= j < i + 1 implies (#[trigger] states_view(r@)[j]) == (
                sv[j].0,
                PlayerStateV {
                    chat: sv[j].1.chat.push(banner@),
                    countdown: match deadline {
                        Some(d) => d,
                        None => sv[j].1.countdown,
                    },
                    ..sv[j].1
                },
            ) by {
                if j < i {
                    assert(r@[j] == r0[j]);
                    assert(states_view(r@)[j] == states_view(r0)[j]);
                } else {
                    assert(r@[j] == (t, ps));
                    assert(states_view(r@)[j] == (t, ps@));
                    assert(ps@.chat == sv[j].1.chat.push(banner@));
                    assert(ps@.word == sv[j].1.word);
                    assert(ps@.tries_used == sv[j].1.tries_used);
                    assert(ps@.word_index == sv[j].1.word_index);
                    assert(ps@.score == sv[j].1.score);
                }
            }
        }
        i = i + 1;
    }
    proof {
        if deadline is None {
            assert(states_view(r@) =~= push_banner_states(sv, banner@));
        } else {
            let d = deadline->0;
            assert(states_view(r@) =~= start_states(sv, banner@, d));
        }
    }
    r
}

/// One envelope per connected state-holder, each of its own state.
#[verifier::loop_isolation(false)]
fn build_state_updates(
    states: &Vec<(UserToken, PlayerState)>,
    players: &Players,
    owner: UserToken,
    settings: GameSettings,
    names: &Vec<String>,
    countdown: Option<i64>,
) -> (sends: Vec<(UserToken, ServerMessageInner<CompetitiveState>)>)
    requires
        players_wf(players@),
    ensures
        view_comp_sends(sends@) == state_updates(
            states_view(states@),
            players@,
            owner,
            settings,
            names.deep_view(),
            countdown,
        ),
{
    let ghost sv = states_view(states@);
    let mut sends: Vec<(UserToken, ServerMessageInner<CompetitiveState>)> = Vec::new();
    let n = states.len();
    let mut i: usize = 0;
    proof {
        assert(sv.take(0) =~= Seq::<(UserToken, PlayerStateV)>::empty());
        assert(view_comp_sends(sends@) =~= state_updates(
            sv.take(0),
            players@,
            owner,
            settings,
            names.deep_view(),
            countdown,
        ));
    }
    while i < n
        invariant
            n == states@.len(),
            sv == states_view(states@),
            i <= n,
            view_comp_sends(sends@) == state_updates(
                sv.take(i as int),
                players@,
                owner,
                settings,
                names.deep_view(),
                countdown,
            ),
        decreases n - i,
    {
        proof {
            assert(sv.take(i as int + 1).drop_last() =~= sv.take(i as int));
            assert(sv.take(i as int + 1).last() == sv[i as int]);
        }
        let ghost sends0 = sends@;
        let t = states[i].0;
        if players.contains_token(t) {
            let state = match countdown {
                Some(_) => Some(states[i].1.to_state()),
                None => None,
            };
            let env = make_env(owner, settings, clone_strings(names), state);
            sends.push((t, ServerMessageInner::UpdateGame(env)));
            proof {
                assert(view_comp_sends(sends@) =~= view_comp_sends(sends0).push(
                    (t, sends@[sends@.len() - 1].1@),
                ));
            }
        }
        i = i + 1;
    }
    proof {
        assert(sv.take(n as int) =~= sv);
    }
    sends
}

impl CompetitiveGame {
    /// A fresh room in its waiting phase, with its first shared word drawn.
    pub fn new(code: GameCode, settings: GameSettings, owner: UserToken, first_word: String) -> (r:
        Self)
        ensures
            r@ == (CompetitiveGameV {
                code,
                owner,
                settings,
                players: Seq::empty(),
                player_states: Seq::empty(),
                global_chat: Seq::empty(),
                words: seq![fresh_word_v(first_word@)],
                countdown: None,
                results: None,
                generation: 0,
            }),
            r@.wf(),
    {
        let word = Word::new(first_word);
        let mut words: Vec<Word> = Vec::new();
        words.push(word);
        let r = CompetitiveGame {
            code,
            owner,
            settings,
            players: Players::new(),
            player_states: Vec::new(),
            global_chat: Vec::new(),
            words,
            countdown: None,
            results: None,
            generation: 0,
        };
        proof {
            assert(r@.players =~= Seq::<(UserToken, Seq<char>)>::empty());
            assert(r@.player_states =~= Seq::<(UserToken, PlayerStateV)>::empty());
            assert(r@.global_chat =~= Seq::<ChatMessageV>::empty());
            assert(r@.words[0].current =~= fresh_word_v(first_word@).current);
            assert(r@.words =~= seq![fresh_word_v(first_word@)]);
        }
        r
    }

    /// A step that changes nothing and sends nothing.
    fn no_step(&self) -> (r: CompetitiveStep)
        ensures
            view_comp_sends(r.sends@) =~= Seq::<
                (UserToken, ServerMessageInnerV<CompetitiveStateV>),
            >::empty(),
            r.sends@.len() == 0,
            r.close == false,
            r.schedule is None,
    {
        CompetitiveStep { sends: Vec::new(), close: false, schedule: None }
    }

    /// Feed one message to the room. `now` is the clock reading and `draw` a
    /// freshly sampled word; both are used only where [`comp_step`] says so.
    /// Everything returned follows [`comp_step`].
    #[verifier::rlimit(100)]
    #[verifier::loop_isolation(false)]
    pub fn handle_message(&mut self, msg: GameMessageInner, now: i64, draw: String) -> (r:
        CompetitiveStep)
        requires
            old(self)@.wf(),
            now <= i64::MAX - GAME_DURATION_MS,
        ensures
            final(self)@ == comp_step(old(self)@, msg@, now, draw@).state,
            final(self)@.wf(),
            view_comp_sends(r.sends@) == comp_step(old(self)@, msg@, now, draw@).sends,
            r.close == comp_step(old(self)@, msg@, now, draw@).close,
            r.schedule == comp_step(old(self)@, msg@, now, draw@).schedule,
    {
        let ghost s0 = self@;
        match msg {
            GameMessageInner::Join { user } => {
                let token = user.token;
                let ghost namev = user.nickname@;
                let banner = join_message(user.nickname.as_str());
                self.global_chat.push(banner.clone());
                proof {
                    assert(view_chat(self.global_chat@) =~= s0.global_chat.push(
                        join_message_v(namev),
                    ));
                }
                let with_banner = states_with_banner(&self.player_states, &banner, None);
                self.player_states = with_banner;
                let ghost states2 = push_banner_states(s0.player_states, join_message_v(namev));
                proof {
                    assert(states_view(self.player_states@) == states2);
                    assert(players_wf(states2)) by {
                        assert forall|a: int, b: int|
                            0 <= a < b < states2.len() implies states2[a].0 != states2[b].0 by {
                            assert(states2[a].0 == s0.player_states[a].0);
                            assert(states2[b].0 == s0.player_states[b].0);
                        }
                    }
                }
                let names0 = self.players.player_names();
                let mut sends = build_state_updates(
                    &self.player_states,
                    &self.players,
                    self.owner,
                    self.settings,
                    &names0,
                    self.countdown,
                );
                self.players.add_player(user);
                let ghost spec_step = comp_join(s0, token, namev, now);
                let st = match find_state(&self.player_states, token) {
                    Some(i) => {
                        proof {
                            assert(states2[i as int].0 == token);
                            assert(has_token(states2, token));
                        }
                        match self.countdown {
                            Some(_) => Some(self.player_states[i].1.to_state()),
                            None => None,
                        }
                    }
                    None => {
                        let fresh = PlayerState {
                            tries_used: 0,
                            chat: clone_chat(&self.global_chat),
                            countdown: match self.countdown {
                                Some(d) => d,
                                None => now,
                            },
                            word: self.words[0].clone(),
                            word_index: 0,
                            score: 0,
                        };
                        proof {
                            assert(!has_token(states2, token));
                            assert(fresh@ == (PlayerStateV {
                                tries_used: 0,
                                chat: s0.global_chat.push(join_message_v(namev)),
                                countdown: match s0.countdown {
                                    Some(d) => d,
                                    None => now,
                                },
                                word: s0.words[0],
                                word_index: 0,
                                score: 0,
                            }));
                        }
                        let st = match self.countdown {
                            Some(_) => Some(fresh.to_state()),
                            None => None,
                        };
                        self.player_states.push((token, fresh));
                        proof {
                            assert(states_view(self.player_states@) =~= states2.push(
                                (token, fresh@),
                            ));
                        }
                        st
                    }
                };
                let last = match &self.results {
                    None => {
                        let env = make_env(
                            self.owner,
                            self.settings,
                            self.players.player_names(),
                            st,
                        );
                        (token, ServerMessageInner::UpdateGame(env))
                    }
                    Some(res) => (token, ServerMessageInner::Results(clone_scores(res))),
                };
                proof {
                    assert(self@.player_states == spec_step.state.player_states);
                    assert(self@.players == spec_step.state.players);
                    assert(self@.global_chat == spec_step.state.global_chat);
                    assert(self@ == spec_step.state);
                    assert(last.1@ == spec_step.sends.last().1);
                    assert(players_wf(self@.player_states)) by {
                        if !has_token(states2, token) {
                            assert forall|a: int, b: int|
                                0 <= a < b < self@.player_states.len() implies self@
                                .player_states[a].0 != self@.player_states[b].0 by {
                                if b < self@.player_states.len() - 1 {
                                    assert(self@.player_states[a] == states2[a]);
                                    assert(self@.player_states[b] == states2[b]);
                                } else {
                                    assert(self@.player_states[a] == states2[a]);
                                    assert(self@.player_states[b].0 == token);
                                }
                            }
                        }
                    }
                }
                let ghost sends0 = sends@;
                sends.push(last);
                proof {
                    assert(view_comp_sends(sends@) =~= view_comp_sends(sends0).push(
                        (token, sends@[sends@.len() - 1].1@),
                    ));
                    assert(view_comp_sends(sends@) =~= spec_step.sends);
                }
                CompetitiveStep { sends, close: false, schedule: None }
            }
            GameMessageInner::Leave(token) => {
                match self.players.remove_player(token) {
                    None => self.no_step(),
                    Some(user) => {
                        let banner = leave_message(user.nickname.as_str());
                        self.global_chat.push(banner.clone());
                        proof {
                            assert(view_chat(self.global_chat@) =~= s0.global_chat.push(banner@));
                        }
                        let with_banner = states_with_banner(&self.player_states, &banner, None);
                        self.player_states = with_banner;
                        proof {
                            assert(players_wf(self@.player_states)) by {
                                assert forall|a: int, b: int|
                                    0 <= a < b < self@.player_states.len() implies self@
                                    .player_states[a].0 != self@.player_states[b].0 by {
                                    assert(self@.player_states[a].0 == s0.player_states[a].0);
                                    assert(self@.player_states[b].0 == s0.player_states[b].0);
                                }
                            }
                        }
                        let names2 = self.players.player_names();
                        let sends = build_state_updates(
                            &self.player_states,
                            &self.players,
                            self.owner,
                            self.settings,
                            &names2,
                            self.countdown,
                        );
                        let close = self.players.is_empty() || token.0 == self.owner.0;
                        proof {
                            let spec_step = comp_leave(s0, token);
                            assert(self@ == spec_step.state);
                            assert(close == spec_step.close);
                        }
                        CompetitiveStep { sends, close, schedule: None }
                    }
                }
            }
            GameMessageInner::ClientMessage { token, message } => match message {
                ClientMessage::ChatMessage(text) => {
                    let name = match self.players.get_name(token) {
                        None => {
                            return self.no_step();
                        }
                        Some(name) => name,
                    };
                    if self.countdown.is_none() {
                        return self.no_step();
                    }
                    let idx = match find_state(&self.player_states, token) {
                        None => {
                            return self.no_step();
                        }
                        Some(i) => i,
                    };
                    let ghost psv = s0.player_states[idx as int].1;
                    let mut word = self.player_states[idx].1.word.clone();
                    let res = word.guess(text.clone());
                    let tries2 = if matches!(res, GuessResult::Miss) {
                        self.player_states[idx].1.tries_used + 1
                    } else {
                        self.player_states[idx].1.tries_used
                    };
                    let score0 = self.player_states[idx].1.score;
                    let score2 = if matches!(res, GuessResult::Solved) {
                        if score0 == u32::MAX {
                            score0
                        } else {
                            score0 + 1
                        }
                    } else {
                        score0
                    };
                    let mut chat = clone_chat(&self.player_states[idx].1.chat);
                    chat.push(
                        ChatMessage {
                            from: Some(name),
                            content: text,
                            color: res.chat_color(),
                        },
                    );
                    proof {
                        assert(view_chat(chat@) =~= psv.chat.push(
                            ChatMessageV {
                                from: Some(s0.players[token_index(s0.players, token)].1),
                                content: comp_guess_text(msg@),
                                color: color_of(guess_step(psv.word, comp_guess_text(msg@)).1),
                            },
                        ));
                    }
                    let advance = matches!(res, GuessResult::Solved) || tries2 == 9;
                    let cd = self.player_states[idx].1.countdown;
                    let ps2 = if advance {
                        let mut content = String::new();
                        if matches!(res, GuessResult::Solved) {
                            content.append("You guessed \"");
                        } else {
                            content.append("No tries left! The word was \"");
                        }
                        let target = word.target();
                        content.append(target.as_str());
                        content.append("\"");
                        let banner = ChatMessage {
                            from: None,
                            content,
                            color: if matches!(res, GuessResult::Solved) {
                                ChatColor::Green
                            } else {
                                ChatColor::Red
                            },
                        };
                        proof {
                            assert(banner@ == comp_end_banner_v(
                                guess_step(psv.word, comp_guess_text(msg@)).1,
                                psv.word,
                            )) by {
                                assert(banner.content@ =~= (if matches!(res, GuessResult::Solved) {
                                    "You guessed \""@ + concat_all(psv.word.target) + "\""@
                                } else {
                                    "No tries left! The word was \""@ + concat_all(psv.word.target)
                                        + "\""@
                                }));
                            }
                        }
                        let ghost chat2v = view_chat(chat@);
                        chat.push(banner);
                        proof {
                            assert(view_chat(chat@) =~= chat2v.push(comp_end_banner_v(
                                guess_step(psv.word, comp_guess_text(msg@)).1,
                                psv.word,
                            )));
                        }
                        let kept = system_messages_only(&chat);
                        let wlen = self.words.len();
                        proof {
                            assert(states_view(self.player_states@)[idx as int].1 == psv);
                            assert(psv.word_index < s0.words.len());
                            assert(self.player_states@[idx as int].1.word_index == psv.word_index);
                            assert(self.player_states@[idx as int].1.word_index < wlen);
                        }
                        let wi2 = self.player_states[idx].1.word_index + 1;
                        let new_word = if wi2 < self.words.len() {
                            proof {
                                assert(self.words@[wi2 as int]@ == s0.words[wi2 as int]);
                            }
                            self.words[wi2].clone()
                        } else {
                            let nw = Word::new(draw.clone());
                            let ghost words0 = self@.words;
                            self.words.push(nw);
                            proof {
                                assert(self@.words =~= words0.push(fresh_word_v(draw@))) by {
                                    assert(self@.words.last().current =~= fresh_word_v(
                                        draw@,
                                    ).current);
                                }
                            }
                            proof {
                                assert(self.words@[wi2 as int]@.current =~= fresh_word_v(
                                    draw@,
                                ).current);
                                assert(self.words@[wi2 as int]@.target == fresh_word_v(
                                    draw@,
                                ).target);
                                assert(self.words@[wi2 as int]@ == fresh_word_v(draw@));
                            }
                            let w = self.words[wi2].clone();
                            w
                        };
                        PlayerState {
                            tries_used: 0,
                            chat: kept,
                            countdown: cd,
                            word: new_word,
                            word_index: wi2,
                            score: score2,
                        }
                    } else {
                        PlayerState {
                            tries_used: tries2,
                            chat,
                            countdown: cd,
                            word,
                            word_index: self.player_states[idx].1.word_index,
                            score: score2,
                        }
                    };
                    let ghost ps2v = ps2@;
                    let st = ps2.to_state();
                    let ghost states0 = self@.player_states;
                    self.player_states.set(idx, (token, ps2));
                    proof {
                        let spec_ps2 = comp_guess(
                            s0,
                            token,
                            comp_guess_text(msg@),
                            draw@,
                        ).state.player_states[idx as int].1;
                        assert(ps2v.tries_used == spec_ps2.tries_used);
                        assert(ps2v.chat == spec_ps2.chat);
                        assert(ps2v.countdown == spec_ps2.countdown);
                        assert(ps2v.word == spec_ps2.word);
                        assert(ps2v.word_index == spec_ps2.word_index);
                        assert(ps2v.score == spec_ps2.score);
                        assert(ps2v == spec_ps2);
                        assert(self.player_states@[idx as int] == (token, ps2));
                        assert(states_view(self.player_states@)[idx as int] == (token, ps2v));
                    }
                    let env = make_env(
                        self.owner,
                        self.settings,
                        self.players.player_names(),
                        Some(st),
                    );
                    let mut sends: Vec<(UserToken, ServerMessageInner<CompetitiveState>)> =
                        Vec::new();
                    sends.push((token, ServerMessageInner::UpdateGame(env)));
                    proof {
                        let spec_step = comp_guess(s0, token, comp_guess_text(msg@), draw@);
                        assert(self@.player_states =~= states0.update(
                            idx as int,
                            (token, spec_step.state.player_states[idx as int].1),
                        ));
                        assert(self@ == spec_step.state);
                        assert(view_comp_sends(sends@) =~= spec_step.sends);
                        assert(self@.wf()) by {
                            assert(self@.words.len() <= usize::MAX) by {
                                broadcast use vstd::std_specs::vec::axiom_spec_len;
                                assert(self.words.len() == self.words@.len());
                            }
                            assert forall|i: int|
                                0 <= i < self@.player_states.len() implies {
                                let ps = (#[trigger] self@.player_states[i]).1;
                                &&& ps.word.wf()
                                &&& ps.tries_used <= 8
                                &&& ps.word_index < self@.words.len()
                            } by {
                                if i != idx as int {
                                    assert(self@.player_states[i] == s0.player_states[i]);
                                }
                            }
                        }
                    }
                    CompetitiveStep { sends, close: false, schedule: None }
                }
                ClientMessage::NextRound => {
                    let name = match self.players.get_name(token) {
                        None => {
                            return self.no_step();
                        }
                        Some(name) => name,
                    };
                    let deadline = now + GAME_DURATION_MS;
                    let is_waiting = self.countdown.is_none();
                    if is_waiting {
                        if token.0 == self.owner.0 {
                            let banner = started_message(name.as_str(), true);
                            self.global_chat.push(banner.clone());
                            proof {
                                assert(view_chat(self.global_chat@) =~= s0.global_chat.push(
                                    banner@,
                                ));
                            }
                            let with_banner = states_with_banner(
                                &self.player_states,
                                &banner,
                                Some(deadline),
                            );
                            self.player_states = with_banner;
                            self.countdown = Some(deadline);
                            self.generation = if self.generation == u64::MAX {
                                self.generation
                            } else {
                                self.generation + 1
                            };
                            proof {
                                assert(players_wf(self@.player_states)) by {
                                    assert forall|a: int, b: int|
                                        0 <= a < b < self@.player_states.len() implies self@
                                        .player_states[a].0 != self@.player_states[b].0 by {
                                        assert(self@.player_states[a].0 == s0.player_states[a].0);
                                        assert(self@.player_states[b].0 == s0.player_states[b].0);
                                    }
                                }
                            }
                            let names = self.players.player_names();
                            let sends = build_state_updates(
                                &self.player_states,
                                &self.players,
                                self.owner,
                                self.settings,
                                &names,
                                Some(deadline),
                            );
                            proof {
                                let spec_step = comp_next_round(s0, token, now, draw@);
                                assert(self@ == spec_step.state);
                            }
                            let generation = self.generation;
                            CompetitiveStep {
                                sends,
                                close: false,
                                schedule: Some((generation, deadline)),
                            }
                        } else {
                            proof {
                                assert(token != s0.owner);
                            }
                            self.no_step()
                        }
                    } else {
                        let banner = started_message(name.as_str(), false);
                        let mut fresh_chat: Vec<ChatMessage> = Vec::new();
                        fresh_chat.push(banner);
                        self.global_chat = fresh_chat;
                        proof {
                            assert(view_chat(self.global_chat@) =~= seq![started_message_v(
                                s0.players[token_index(s0.players, token)].1,
                                false,
                            )]);
                        }
                        let nw = Word::new(draw.clone());
                        let mut fresh_words: Vec<Word> = Vec::new();
                        fresh_words.push(nw);
                        self.words = fresh_words;
                        proof {
                            assert(self@.words[0].current =~= fresh_word_v(draw@).current);
                            assert(self@.words =~= seq![fresh_word_v(draw@)]);
                        }
                        self.countdown = Some(deadline);
                        self.results = None;
                        self.generation = if self.generation == u64::MAX {
                            self.generation
                        } else {
                            self.generation + 1
                        };
                        let ghost freshv = PlayerStateV {
                            tries_used: 0,
                            chat: self@.global_chat,
                            countdown: deadline,
                            word: self@.words[0],
                            word_index: 0,
                            score: 0,
                        };
                        let mut sts: Vec<(UserToken, PlayerState)> = Vec::new();
                        let n = self.player_states.len();
                        let mut i: usize = 0;
                        while i < n
                            invariant
                                n == self.player_states@.len(),
                                i <= n,
                                sts@.len() == i,
                                self@.global_chat == freshv.chat,
                                self@.words.len() == 1 && self@.words[0] == freshv.word,
                                forall|j: int|
                                    0 <= j < i ==> (#[trigger] states_view(sts@)[j]) == (
                                    states_view(self.player_states@)[j].0,
                                    freshv,
                                ),
                            decreases n - i,
                        {
                            let t = self.player_states[i].0;
                            let fresh = PlayerState {
                                tries_used: 0,
                                chat: clone_chat(&self.global_chat),
                                countdown: deadline,
                                word: self.words[0].clone(),
                                word_index: 0,
                                score: 0,
                            };
                            proof {
                                assert(view_chat(fresh.chat@) == freshv.chat);
                                assert(fresh@.word == freshv.word);
                                assert(fresh@ == freshv);
                            }
                            let ghost sts0 = sts@;
                            sts.push((t, fresh));
                            proof {
                                assert forall|j: int|
                                    0 <= j < i + 1 implies (#[trigger] states_view(sts@)[j]) == (
                                    states_view(self.player_states@)[j].0,
                                    freshv,
                                ) by {
                                    if j < i {
                                        assert(sts@[j] == sts0[j]);
                                        assert(states_view(sts@)[j] == states_view(sts0)[j]);
                                    } else {
                                        assert(sts@[j] == (t, fresh));
                                        assert(states_view(sts@)[j] == (t, fresh@));
                                        assert(t == states_view(self.player_states@)[j].0);
                                    }
                                }
                            }
                            i = i + 1;
                        }
                        self.player_states = sts;
                        proof {
                            let spec_step = comp_next_round(s0, token, now, draw@);
                            assert(self@.player_states =~= spec_step.state.player_states);
                            assert(self@ == spec_step.state);
                        }
                        let mut sends: Vec<(UserToken, ServerMessageInner<CompetitiveState>)> =
                            Vec::new();
                        let pn = self.players.len();
                        let mut i: usize = 0;
                        while i < pn
                            invariant
                                pn == s0.players.len(),
                                self@ == comp_next_round(s0, token, now, draw@).state,
                                sends@.len() == i,
                                i <= pn,
                                forall|j: int|
                                    0 <= j < i ==> (#[trigger] view_comp_sends(sends@)[j]) == (
                                    s0.players[j].0,
                                    comp_next_round(s0, token, now, draw@).sends[j].1,
                                ),
                            decreases pn - i,
                        {
                            let t = self.players.token_at(i);
                            let st = CompetitiveState {
                                chat: clone_chat(&self.global_chat),
                                tries_used: 0,
                                word: self.words[0].word(),
                                countdown: deadline,
                                word_index: 0,
                                score: 0,
                            };
                            let env = make_env(
                                self.owner,
                                self.settings,
                                self.players.player_names(),
                                Some(st),
                            );
                            proof {
                                assert(st@ == spec_env_state(s0, token, now, draw@)) by {
                                    assert(view_chat(st.chat@) == self@.global_chat);
                                    assert(st@.word == render_of(self@.words[0]));
                                    assert(self@.words[0] == fresh_word_v(draw@));
                                }
                            }
                            let ghost sends0 = sends@;
                            sends.push((t, ServerMessageInner::UpdateGame(env)));
                            proof {
                                let spec_step2 = comp_next_round(s0, token, now, draw@);
                                let payload = ServerMessageInnerV::<CompetitiveStateV>::UpdateGame(
                                    comp_env(
                                        s0.owner,
                                        s0.settings,
                                        names_of(s0.players),
                                        Some(spec_env_state(s0, token, now, draw@)),
                                    ),
                                );
                                assert(spec_step2.sends[i as int] == (s0.players[i as int].0, payload));
                                assert forall|j: int|
                                    0 <= j < i + 1 implies (#[trigger] view_comp_sends(sends@)[j])
                                    == (s0.players[j].0, spec_step2.sends[j].1) by {
                                    if j < i {
                                        assert(sends@[j] == sends0[j]);
                                        assert(view_comp_sends(sends@)[j] == view_comp_sends(
                                            sends0,
                                        )[j]);
                                    } else {
                                        assert(sends@[j] == (t, ServerMessageInner::<
                                            CompetitiveState,
                                        >::UpdateGame(env)));
                                        assert(sends@[j].1@ == payload);
                                    }
                                }
                            }
                            i = i + 1;
                        }
                        proof {
                            assert(view_comp_sends(sends@) =~= comp_next_round(
                                s0,
                                token,
                                now,
                                draw@,
                            ).sends);
                        }
                        let generation = self.generation;
                        CompetitiveStep { sends, close: false, schedule: Some((generation, deadline)) }
                    }
                }
            },
        }
    }

    /// The round's countdown fired. Acts only when `generation` is still the
    /// current round: ranks the connected players' scores densely, stores
    /// them as the results, and sends them to every connected state-holder.
    #[verifier::rlimit(60)]
    #[verifier::loop_isolation(false)]
    pub fn countdown_fired(&mut self, generation: u64) -> (r: CompetitiveStep)
        requires
            old(self)@.wf(),
            old(self)@.player_states.len() < 0xffff_ffff,
        ensures
            final(self)@.wf(),
            generation != old(self)@.generation ==> final(self)@ == old(self)@ && r.sends@.len()
                == 0 && r.close == false && r.schedule is None,
            generation == old(self)@.generation ==> ({
                let rv = final(self)@.results->0;
                &&& final(self)@ == (CompetitiveGameV { results: Some(rv), ..old(self)@ })
                &&& final(self)@.results is Some
                &&& scoreboard_wf(rv)
                &&& rv.len() == joined_scores(old(self)@.player_states, old(self)@.players).len()
                &&& rv.map_values(|s: ScoreV| (s.nickname, s.score)).to_multiset()
                    == joined_scores(old(self)@.player_states, old(self)@.players).to_multiset()
                &&& view_comp_sends(r.sends@) == results_sends(
                    old(self)@.player_states,
                    old(self)@.players,
                    rv,
                )
                &&& r.close == false
                &&& r.schedule is None
            }),
    {
        if generation != self.generation {
            return self.no_step();
        }
        let ghost s0 = self@;
        let ghost sv = states_view(self.player_states@);
        let mut entries: Vec<(String, u32)> = Vec::new();
        let n = self.player_states.len();
        let mut i: usize = 0;
        proof {
            assert(sv.take(0) =~= Seq::<(UserToken, PlayerStateV)>::empty());
            assert(entries@.map_values(|p: (String, u32)| entry_pair(p)) =~= joined_scores(
                sv.take(0),
                s0.players,
            ));
        }
        while i < n
            invariant
                n == self.player_states@.len(),
                self@ == s0,
                sv == states_view(self.player_states@),
                players_wf(s0.players),
                i <= n,
                entries@.len() <= i,
                entries@.map_values(|p: (String, u32)| entry_pair(p)) == joined_scores(
                    sv.take(i as int),
                    s0.players,
                ),
            decreases n - i,
        {
            proof {
                assert(sv.take(i as int + 1).drop_last() =~= sv.take(i as int));
                assert(sv.take(i as int + 1).last() == sv[i as int]);
            }
            let ghost e0 = entries@;
            let t = self.player_states[i].0;
            match self.players.get_name(t) {
                Some(name) => {
                    let sc = self.player_states[i].1.score;
                    entries.push((name, sc));
                    proof {
                        assert(entries@.map_values(|p: (String, u32)| entry_pair(p)) =~= e0
                            .map_values(|p: (String, u32)| entry_pair(p)).push(
                            entry_pair(entries@[entries@.len() - 1]),
                        ));
                    }
                }
                None => {}
            }
            i = i + 1;
        }
        proof {
            assert(sv.take(n as int) =~= sv);
        }
        let scores = compute_scores(entries);
        let stored = clone_scores(&scores);
        self.results = Some(stored);
        proof {
            assert(self@.results->0 =~= view_scores(scores@));
            assert(self@.results->0.map_values(|s: ScoreV| (s.nickname, s.score)) =~= scores@
                .map_values(|s: Score| row_pair(s)));
        }
        let mut sends: Vec<(UserToken, ServerMessageInner<CompetitiveState>)> = Vec::new();
        let mut i: usize = 0;
        proof {
            assert(view_comp_sends(sends@) =~= results_sends(
                sv.take(0),
                s0.players,
                self@.results->0,
            ));
        }
        while i < n
            invariant
                n == self.player_states@.len(),
                sv == states_view(self.player_states@),
                self@.results is Some,
                self@.results->0 == view_scores(scores@),
                players_wf(s0.players),
                self.players@ == s0.players,
                i <= n,
                view_comp_sends(sends@) == results_sends(
                    sv.take(i as int),
                    s0.players,
                    self@.results->0,
                ),
            decreases n - i,
        {
            proof {
                assert(sv.take(i as int + 1).drop_last() =~= sv.take(i as int));
                assert(sv.take(i as int + 1).last() == sv[i as int]);
            }
            let ghost sends0 = sends@;
            let t = self.player_states[i].0;
            if self.players.contains_token(t) {
                sends.push((t, ServerMessageInner::Results(clone_scores(&scores))));
                proof {
                    assert(view_comp_sends(sends@) =~= view_comp_sends(sends0).push(
                        (t, sends@[sends@.len() - 1].1@),
                    ));
                    assert(sends@[sends@.len() - 1].1@ == ServerMessageInnerV::<
                        CompetitiveStateV,
                    >::Results(self@.results->0));
                }
            }
            i = i + 1;
        }
        proof {
            assert(sv.take(n as int) =~= sv);
        }
        CompetitiveStep { sends, close: false, schedule: None }
    }
}

/// The guess text carried by a chat message.
pub open spec fn comp_guess_text(m: GameMessageInnerV) -> Seq<char> {
    m->ClientMessage_message->ChatMessage_0
}

/// The identical per-player state broadcast on a match restart.
pub open spec fn spec_env_state(
    s: CompetitiveGameV,
    token: UserToken,
    now: i64,
    draw: Seq<char>,
) -> CompetitiveStateV {
    let name = s.players[token_index(s.players, token)].1;
    CompetitiveStateV {
        chat: seq![started_message_v(name, false)],
        tries_used: 0,
        word: render_of(fresh_word_v(draw)),
        countdown: (now + GAME_DURATION_MS) as i64,
        word_index: 0,
        score: 0,
    }
}

} // verus!

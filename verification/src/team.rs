//! The team game loop: one shared word, shared tries, every player sees the
//! same state.
//!
//! The loop is a single-writer state machine: the caller owns the mailbox and
//! feeds one message at a time into [`TeamGame::handle_message`], together
//! with a freshly drawn word for transitions that need one, then performs the
//! returned sends and closes the room when told to.

use vstd::prelude::*;
use crate::code::GameCode;
use crate::logic::{
    add_player_spec, has_token, names_of, players_wf, remove_player_spec, token_index,
    GameMessageInner, GameMessageInnerV, Players,
};
use crate::messages::{
    clone_chat, join_message, join_message_v, leave_message, leave_message_v, started_message,
    started_message_v, system_messages_only, system_only, view_chat, ChatColor, ChatMessage,
    ChatMessageV, ClientMessage, ClientMessageV, Game, GameV, ServerMessageInner,
    ServerMessageInnerV, TeamState, TeamStateV,
};
use crate::settings::GameSettings;
use crate::text::{concat_all, graphemes_of};
use crate::user::{spec_hashed, UserToken};
use crate::word::{color_of, guess_step, render_of, GuessResult, Word, WordV};

verus! {

/// A team room: the loop's entire mutable state.
#[derive(Debug)]
pub struct TeamGame {
    pub code: GameCode,
    pub owner: UserToken,
    pub settings: GameSettings,
    pub players: Players,
    pub chat: Vec<ChatMessage>,
    pub word: Word,
    pub tries_used: u32,
    pub started: bool,
    pub round_finished: bool,
}

/// Mathematical model of a [`TeamGame`].
pub struct TeamGameV {
    pub code: GameCode,
    pub owner: UserToken,
    pub settings: GameSettings,
    pub players: Seq<(UserToken, Seq<char>)>,
    pub chat: Seq<ChatMessageV>,
    pub word: WordV,
    pub tries_used: u32,
    pub started: bool,
    pub round_finished: bool,
}

impl View for TeamGame {
    type V = TeamGameV;

    open spec fn view(&self) -> TeamGameV {
        TeamGameV {
            code: self.code,
            owner: self.owner,
            settings: self.settings,
            players: self.players@,
            chat: view_chat(self.chat@),
            word: self.word@,
            tries_used: self.tries_used,
            started: self.started,
            round_finished: self.round_finished,
        }
    }
}

impl TeamGameV {
    /// Tokens unique, the oracle well-formed, at most nine tries, nine tries
    /// only with the round finished, and a finished round only once started.
    pub open spec fn wf(self) -> bool {
        &&& players_wf(self.players)
        &&& self.word.wf()
        &&& self.tries_used <= 9
        &&& (self.tries_used == 9 ==> self.round_finished)
        &&& (self.round_finished ==> self.started)
    }
}

/// A fresh oracle for a newly drawn word: nothing revealed.
pub open spec fn fresh_word_v(draw: Seq<char>) -> WordV {
    WordV {
        target: graphemes_of(draw),
        current: Seq::new(graphemes_of(draw).len(), |i: int| None),
    }
}

/// The banner pushed when a round ends: solved, or out of tries.
pub open spec fn end_banner_v(res: GuessResult, w: WordV) -> ChatMessageV {
    if res is Solved {
        ChatMessageV { from: None, content: "You guessed the word!"@, color: ChatColor::Green }
    } else {
        ChatMessageV {
            from: None,
            content: "No tries left! The word was \""@ + concat_all(w.target) + "\""@,
            color: ChatColor::Red,
        }
    }
}

/// The envelope every player of a team room receives.
pub open spec fn team_envelope_v(s: TeamGameV) -> GameV<TeamStateV> {
    GameV {
        owner_hash: UserToken(spec_hashed(s.owner.0)),
        settings: s.settings,
        players: names_of(s.players),
        state: if s.started {
            Some(
                TeamStateV {
                    chat: s.chat,
                    tries_used: s.tries_used,
                    word: render_of(s.word),
                    round_finished: s.round_finished,
                },
            )
        } else {
            None
        },
    }
}

/// A join: register the player and push the join banner.
pub open spec fn team_join(s: TeamGameV, token: UserToken, name: Seq<char>) -> TeamGameV {
    TeamGameV {
        players: add_player_spec(s.players, token, name),
        chat: s.chat.push(join_message_v(name)),
        ..s
    }
}

/// A leave: drop the player, push the leave banner; the room closes when it
/// empties or its owner left. An unknown token changes nothing.
pub open spec fn team_leave(s: TeamGameV, token: UserToken) -> (TeamGameV, bool, bool) {
    if !has_token(s.players, token) {
        (s, false, false)
    } else {
        let name = s.players[token_index(s.players, token)].1;
        let s2 = TeamGameV {
            players: remove_player_spec(s.players, token),
            chat: s.chat.push(leave_message_v(name)),
            ..s
        };
        (s2, true, s2.players.len() == 0 || token == s.owner)
    }
}

/// A chat message is a guess. It counts only from a registered player while
/// a round is live; a miss burns a try, and the round ends on a solve or on
/// the ninth miss.
pub open spec fn team_guess(s: TeamGameV, token: UserToken, text: Seq<char>) -> (TeamGameV, bool) {
    if !has_token(s.players, token) || !s.started || s.round_finished {
        (s, false)
    } else {
        let name = s.players[token_index(s.players, token)].1;
        let res = guess_step(s.word, text).1;
        let w2 = guess_step(s.word, text).0;
        let tries2 = if res is Miss {
            (s.tries_used + 1) as u32
        } else {
            s.tries_used
        };
        let finished = res is Solved || tries2 == 9;
        let chat1 = s.chat.push(
            ChatMessageV { from: Some(name), content: text, color: color_of(res) },
        );
        let chat2 = if finished {
            chat1.push(end_banner_v(res, s.word))
        } else {
            chat1
        };
        (
            TeamGameV {
                word: w2,
                tries_used: tries2,
                round_finished: finished,
                chat: chat2,
                ..s
            },
            true,
        )
    }
}

/// The first `NextRound` from the owner starts the game; once a round has
/// finished, anyone's `NextRound` strips user chat, draws a fresh word and
/// starts the next one. Anything else changes nothing.
pub open spec fn team_next_round(s: TeamGameV, token: UserToken, draw: Seq<char>) -> (
    TeamGameV,
    bool,
) {
    if !has_token(s.players, token) {
        (s, false)
    } else {
        let name = s.players[token_index(s.players, token)].1;
        if !s.started {
            if token == s.owner {
                (
                    TeamGameV {
                        started: true,
                        tries_used: 0,
                        round_finished: false,
                        chat: s.chat.push(started_message_v(name, true)),
                        ..s
                    },
                    true,
                )
            } else {
                (s, false)
            }
        } else if s.round_finished {
            (
                TeamGameV {
                    chat: s.chat.filter(system_only()).push(started_message_v(name, false)),
                    tries_used: 0,
                    word: fresh_word_v(draw),
                    round_finished: false,
                    ..s
                },
                true,
            )
        } else {
            (s, false)
        }
    }
}

/// What one delivered message does to a team room: the post-state, whether
/// the full envelope is broadcast, and whether the room closes. The
/// post-state is a function of the pre-state, the message and the word draw
/// alone.
pub open spec fn team_step(s: TeamGameV, m: GameMessageInnerV, draw: Seq<char>) -> (
    TeamGameV,
    bool,
    bool,
) {
    match m {
        GameMessageInnerV::Join { token, name } => (team_join(s, token, name), true, false),
        GameMessageInnerV::Leave(token) => team_leave(s, token),
        GameMessageInnerV::ClientMessage { token, message } => match message {
            ClientMessageV::ChatMessage(text) => {
                let (s2, b) = team_guess(s, token, text);
                (s2, b, false)
            }
            ClientMessageV::NextRound => {
                let (s2, b) = team_next_round(s, token, draw);
                (s2, b, false)
            }
        },
    }
}

/// Determinism: what one delivered message does to a team room is a pure
/// function of the pre-state, the message and the word draw. Two rooms in
/// equal states handle an equal message with an equal draw identically.
pub proof fn lemma_team_step_deterministic(
    s1: TeamGameV,
    s2: TeamGameV,
    m1: GameMessageInnerV,
    m2: GameMessageInnerV,
    d1: Seq<char>,
    d2: Seq<char>,
)
    requires
        s1 == s2,
        m1 == m2,
        d1 == d2,
    ensures
        team_step(s1, m1, d1) == team_step(s2, m2, d2),
{
}

/// Every send of one team broadcast carries the same payload: all players
/// see byte-identical state.
pub proof fn lemma_team_broadcast_identical(
    sends: Seq<(UserToken, ServerMessageInnerV<TeamStateV>)>,
    s: TeamGameV,
    i: int,
    j: int,
)
    requires
        is_team_broadcast(sends, s),
        0 <= i < sends.len(),
        0 <= j < sends.len(),
    ensures
        sends[i].1 == sends[j].1,
{
}

/// Within a round, the tries used never decrease: only a `NextRound` message
/// can reset them.
pub proof fn lemma_team_tries_monotone(s: TeamGameV, m: GameMessageInnerV, draw: Seq<char>)
    requires
        s.wf(),
        !(m matches GameMessageInnerV::ClientMessage {
            token: _,
            message: ClientMessageV::NextRound,
        }),
    ensures
        team_step(s, m, draw).0.tries_used >= s.tries_used,
{
}

/// What the caller must do after a message: send each listed message to the
/// listed player's session, then close the room if `close` is set.
#[derive(Debug)]
pub struct TeamStep {
    pub sends: Vec<(UserToken, ServerMessageInner<TeamState>)>,
    pub close: bool,
}

/// The sends of a step that broadcasts: one identical envelope per player.
pub open spec fn is_team_broadcast(
    sends: Seq<(UserToken, ServerMessageInnerV<TeamStateV>)>,
    s: TeamGameV,
) -> bool {
    &&& sends.len() == s.players.len()
    &&& forall|i: int|
        0 <= i < sends.len() ==> (#[trigger] sends[i]).0 == s.players[i].0 && sends[i].1
            == ServerMessageInnerV::UpdateGame(team_envelope_v(s))
}

/// The model of a send list.
pub open spec fn view_sends(v: Seq<(UserToken, ServerMessageInner<TeamState>)>) -> Seq<
    (UserToken, ServerMessageInnerV<TeamStateV>),
> {
    v.map_values(|p: (UserToken, ServerMessageInner<TeamState>)| (p.0, p.1@))
}

impl TeamGame {
    /// A fresh room in its waiting phase, with its first word already drawn.
    pub fn new(code: GameCode, settings: GameSettings, owner: UserToken, first_word: String) -> (r:
        Self)
        ensures
            r@ == (TeamGameV {
                code,
                owner,
                settings,
                players: Seq::empty(),
                chat: Seq::empty(),
                word: fresh_word_v(first_word@),
                tries_used: 0,
                started: false,
                round_finished: false,
            }),
            r@.wf(),
    {
        let word = Word::new(first_word);
        let r = TeamGame {
            code,
            owner,
            settings,
            players: Players::new(),
            chat: Vec::new(),
            word,
            tries_used: 0,
            started: false,
            round_finished: false,
        };
        proof {
            assert(r@.players =~= Seq::<(UserToken, Seq<char>)>::empty());
            assert(r@.chat =~= Seq::<ChatMessageV>::empty());
            assert(r@.word.current =~= fresh_word_v(first_word@).current);
        }
        r
    }

    /// The full envelope as it stands now.
    pub fn envelope(&self) -> (g: Game<TeamState>)
        ensures
            g@ == team_envelope_v(self@),
    {
        let state = if self.started {
            Some(
                TeamState {
                    chat: clone_chat(&self.chat),
                    tries_used: self.tries_used,
                    word: self.word.word(),
                    round_finished: self.round_finished,
                },
            )
        } else {
            None
        };
        let g = Game {
            owner_hash: self.owner.hashed(),
            settings: self.settings,
            players: self.players.player_names(),
            state,
        };
        proof {
            assert(g@.owner_hash == UserToken(spec_hashed(self.owner.0)));
        }
        g
    }

    /// One envelope per player, all identical.
    fn broadcast_to_all(&self) -> (sends: Vec<(UserToken, ServerMessageInner<TeamState>)>)
        ensures
            is_team_broadcast(view_sends(sends@), self@),
    {
        let mut sends: Vec<(UserToken, ServerMessageInner<TeamState>)> = Vec::new();
        let n = self.players.len();
        let mut i: usize = 0;
        while i < n
            invariant
                n == self@.players.len(),
                i <= n,
                sends@.len() == i,
                forall|j: int|
                    0 <= j < i ==> (#[trigger] sends@[j]).0 == self@.players[j].0 && sends@[j].1@
                        == ServerMessageInnerV::<TeamStateV>::UpdateGame(team_envelope_v(self@)),
            decreases n - i,
        {
            let t = self.players.token_at(i);
            sends.push((t, ServerMessageInner::UpdateGame(self.envelope())));
            i = i + 1;
        }
        sends
    }

    /// Feed one message to the room. `draw` is a freshly sampled word, used
    /// only by a round change. Everything returned follows [`team_step`].
    pub fn handle_message(&mut self, msg: GameMessageInner, draw: String) -> (r: TeamStep)
        requires
            old(self)@.wf(),
        ensures
            final(self)@ == team_step(old(self)@, msg@, draw@).0,
            final(self)@.wf(),
            r.close == team_step(old(self)@, msg@, draw@).2,
            team_step(old(self)@, msg@, draw@).1 ==> is_team_broadcast(
                view_sends(r.sends@),
                final(self)@,
            ),
            !team_step(old(self)@, msg@, draw@).1 ==> r.sends@.len() == 0,
    {
        let ghost s0 = self@;
        match msg {
            GameMessageInner::Join { user } => {
                let banner = join_message(user.nickname.as_str());
                self.players.add_player(user);
                self.chat.push(banner);
                proof {
                    assert(view_chat(self.chat@) =~= s0.chat.push(banner@));
                }
                let sends = self.broadcast_to_all();
                TeamStep { sends, close: false }
            }
            GameMessageInner::Leave(token) => {
                match self.players.remove_player(token) {
                    None => TeamStep { sends: Vec::new(), close: false },
                    Some(user) => {
                        self.chat.push(leave_message(user.nickname.as_str()));
                        proof {
                            assert(view_chat(self.chat@) =~= s0.chat.push(leave_message_v(
                                s0.players[token_index(s0.players, token)].1,
                            )));
                        }
                        let sends = self.broadcast_to_all();
                        let close = self.players.is_empty() || token.0 == self.owner.0;
                        TeamStep { sends, close }
                    }
                }
            }
            GameMessageInner::ClientMessage { token, message } => match message {
                ClientMessage::ChatMessage(text) => {
                    let name = match self.players.get_name(token) {
                        None => {
                            return TeamStep { sends: Vec::new(), close: false };
                        }
                        Some(name) => name,
                    };
                    if !self.started || self.round_finished {
                        return TeamStep { sends: Vec::new(), close: false };
                    }
                    let res = self.word.guess(text.clone());
                    if matches!(res, GuessResult::Miss) {
                        self.tries_used = self.tries_used + 1;
                    }
                    self.chat.push(
                        ChatMessage { from: Some(name), content: text, color: res.chat_color() },
                    );
                    let finished = matches!(res, GuessResult::Solved) || self.tries_used == 9;
                    self.round_finished = finished;
                    if finished {
                        let banner = match res {
                            GuessResult::Solved => {
                                let mut content = String::new();
                                content.append("You guessed the word!");
                                proof {
                                    assert(content@ =~= "You guessed the word!"@);
                                }
                                ChatMessage { from: None, content, color: ChatColor::Green }
                            }
                            _ => {
                                let mut content = String::new();
                                content.append("No tries left! The word was \"");
                                let target = self.word.target();
                                content.append(target.as_str());
                                content.append("\"");
                                proof {
                                    assert(content@ =~= "No tries left! The word was \""@
                                        + concat_all(s0.word.target) + "\""@);
                                }
                                ChatMessage { from: None, content, color: ChatColor::Red }
                            }
                        };
                        self.chat.push(banner);
                    }
                    proof {
                        let spec_post = team_step(s0, msg@, draw@).0;
                        assert(view_chat(self.chat@) =~= spec_post.chat);
                        assert(self@ == spec_post);
                    }
                    let sends = self.broadcast_to_all();
                    TeamStep { sends, close: false }
                }
                ClientMessage::NextRound => {
                    let name = match self.players.get_name(token) {
                        None => {
                            return TeamStep { sends: Vec::new(), close: false };
                        }
                        Some(name) => name,
                    };
                    if !self.started {
                        if token.0 == self.owner.0 {
                            self.started = true;
                            self.tries_used = 0;
                            self.round_finished = false;
                            self.chat.push(started_message(name.as_str(), true));
                            proof {
                                assert(view_chat(self.chat@) =~= s0.chat.push(started_message_v(
                                    s0.players[token_index(s0.players, token)].1,
                                    true,
                                )));
                            }
                            let sends = self.broadcast_to_all();
                            TeamStep { sends, close: false }
                        } else {
                            proof {
                                assert(token != s0.owner);
                            }
                            TeamStep { sends: Vec::new(), close: false }
                        }
                    } else if self.round_finished {
                        let kept = system_messages_only(&self.chat);
                        self.chat = kept;
                        self.tries_used = 0;
                        self.word = Word::new(draw);
                        self.chat.push(started_message(name.as_str(), false));
                        self.round_finished = false;
                        proof {
                            let spec_post = team_step(s0, msg@, draw@).0;
                            assert(view_chat(self.chat@) =~= spec_post.chat);
                            assert(self@.word.current =~= fresh_word_v(draw@).current);
                            assert(self@ == spec_post);
                        }
                        let sends = self.broadcast_to_all();
                        TeamStep { sends, close: false }
                    } else {
                        TeamStep { sends: Vec::new(), close: false }
                    }
                }
            },
        }
    }
}

} // verus!

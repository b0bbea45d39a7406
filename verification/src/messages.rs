//! The message taxonomy and the state objects sent to clients.

use vstd::prelude::*;
use crate::settings::GameSettings;
use crate::user::UserToken;

verus! {

/// Colour of one chat line: neutral system text, or green/red feedback.
#[derive(Clone, Copy, Debug, PartialEq, Eq, Structural)]
pub enum ChatColor {
    Neutral,
    Green,
    Red,
}

impl Default for ChatColor {
    fn default() -> (r: Self)
        ensures
            r == ChatColor::Neutral,
    {
        ChatColor::Neutral
    }
}

/// One chat line. `from == None` marks a system message.
#[derive(Debug, PartialEq)]
pub struct ChatMessage {
    pub from: Option<String>,
    pub content: String,
    pub color: ChatColor,
}

/// Mathematical model of a [`ChatMessage`].
pub struct ChatMessageV {
    pub from: Option<Seq<char>>,
    pub content: Seq<char>,
    pub color: ChatColor,
}

impl View for ChatMessage {
    type V = ChatMessageV;

    open spec fn view(&self) -> ChatMessageV {
        ChatMessageV { from: self.from.deep_view(), content: self.content@, color: self.color }
    }
}

impl Clone for ChatMessage {
    fn clone(&self) -> (r: Self)
        ensures
            r == *self,
    {
        ChatMessage {
            from: match &self.from {
                Some(s) => Some(s.clone()),
                None => None,
            },
            content: self.content.clone(),
            color: self.color,
        }
    }
}

/// The model of a sequence of chat lines.
pub open spec fn view_chat(v: Seq<ChatMessage>) -> Seq<ChatMessageV> {
    v.map_values(|m: ChatMessage| m@)
}

/// The chat lines kept when user entries are stripped at a round change.
pub open spec fn system_only() -> spec_fn(ChatMessageV) -> bool {
    |m: ChatMessageV| m.from is None
}

/// A copy of a chat log, equal message by message.
pub fn clone_chat(v: &Vec<ChatMessage>) -> (r: Vec<ChatMessage>)
    ensures
        r@ == v@,
{
    let mut r: Vec<ChatMessage> = Vec::new();
    let n = v.len();
    let mut i: usize = 0;
    while i < n
        invariant
            n == v@.len(),
            i <= n,
            r@ =~= v@.take(i as int),
        decreases n - i,
    {
        r.push(v[i].clone());
        i = i + 1;
    }
    proof {
        assert(r@ =~= v@);
    }
    r
}

/// The system messages of a chat log, user entries stripped.
#[verifier::loop_isolation(false)]
pub fn system_messages_only(v: &Vec<ChatMessage>) -> (r: Vec<ChatMessage>)
    ensures
        view_chat(r@) == view_chat(v@).filter(system_only()),
{
    let ghost pred = system_only();
    let mut r: Vec<ChatMessage> = Vec::new();
    let n = v.len();
    let mut i: usize = 0;
    proof {
        reveal(Seq::filter);
        assert(view_chat(v@.take(0)).filter(pred) =~= Seq::<ChatMessageV>::empty());
        assert(view_chat(r@) =~= Seq::<ChatMessageV>::empty());
    }
    while i < n
        invariant
            n == v@.len(),
            i <= n,
            view_chat(r@) == view_chat(v@.take(i as int)).filter(pred),
        decreases n - i,
    {
        proof {
            reveal(Seq::filter);
            assert(view_chat(v@.take(i as int + 1)).drop_last() =~= view_chat(v@.take(i as int)));
            assert(view_chat(v@.take(i as int + 1)).last() == v@[i as int]@);
        }
        let ghost r0 = r@;
        match &v[i].from {
            None => {
                r.push(v[i].clone());
                proof {
                    assert(pred(v@[i as int]@));
                    assert(view_chat(r@) =~= view_chat(r0).push(v@[i as int]@));
                }
            }
            Some(_) => {
                proof {
                    assert(!pred(v@[i as int]@));
                }
            }
        }
        i = i + 1;
    }
    proof {
        assert(v@.take(n as int) =~= v@);
        assert(view_chat(v@.take(n as int)) =~= view_chat(v@));
    }
    r
}

/// The system banner pushed when a player joins.
pub open spec fn join_message_v(name: Seq<char>) -> ChatMessageV {
    ChatMessageV {
        from: None,
        content: "→ "@ + name + " joined the game"@,
        color: ChatColor::Neutral,
    }
}

/// The system banner pushed when a player leaves.
pub open spec fn leave_message_v(name: Seq<char>) -> ChatMessageV {
    ChatMessageV {
        from: None,
        content: "← "@ + name + " left the game"@,
        color: ChatColor::Neutral,
    }
}

/// The system banner pushed when a round is started.
pub open spec fn started_message_v(name: Seq<char>, first: bool) -> ChatMessageV {
    ChatMessageV {
        from: None,
        content: if first {
            name + " started the game"@
        } else {
            name + " started a new round"@
        },
        color: ChatColor::Neutral,
    }
}

/// System banner: someone joined.
pub fn join_message(name: &str) -> (r: ChatMessage)
    ensures
        r@ == join_message_v(name@),
{
    let mut content = String::new();
    content.append("→ ");
    content.append(name);
    content.append(" joined the game");
    proof {
        assert(content@ =~= "→ "@ + name@ + " joined the game"@);
    }
    ChatMessage { from: None, content, color: ChatColor::Neutral }
}

/// System banner: someone left.
pub fn leave_message(name: &str) -> (r: ChatMessage)
    ensures
        r@ == leave_message_v(name@),
{
    let mut content = String::new();
    content.append("← ");
    content.append(name);
    content.append(" left the game");
    proof {
        assert(content@ =~= "← "@ + name@ + " left the game"@);
    }
    ChatMessage { from: None, content, color: ChatColor::Neutral }
}

/// System banner: someone started the first round (`first`) or a new one.
pub fn started_message(name: &str, first: bool) -> (r: ChatMessage)
    ensures
        r@ == started_message_v(name@, first),
{
    let mut content = String::new();
    content.append(name);
    if first {
        content.append(" started the game");
        proof {
            assert(content@ =~= name@ + " started the game"@);
        }
    } else {
        content.append(" started a new round");
        proof {
            assert(content@ =~= name@ + " started a new round"@);
        }
    }
    ChatMessage { from: None, content, color: ChatColor::Neutral }
}

/// What a client may send over its channel.
#[derive(Debug, PartialEq)]
pub enum ClientMessage {
    /// A guess, shown in chat.
    ChatMessage(String),
    /// Start the game, or the next round.
    NextRound,
}

/// Mathematical model of a [`ClientMessage`].
pub enum ClientMessageV {
    ChatMessage(Seq<char>),
    NextRound,
}

impl View for ClientMessage {
    type V = ClientMessageV;

    open spec fn view(&self) -> ClientMessageV {
        match self {
            ClientMessage::ChatMessage(s) => ClientMessageV::ChatMessage(s@),
            ClientMessage::NextRound => ClientMessageV::NextRound,
        }
    }
}

impl Clone for ClientMessage {
    fn clone(&self) -> (r: Self)
        ensures
            r == *self,
    {
        match self {
            ClientMessage::ChatMessage(s) => ClientMessage::ChatMessage(s.clone()),
            ClientMessage::NextRound => ClientMessage::NextRound,
        }
    }
}

/// Whether a round is still being played. Part of the client-facing model.
#[derive(Clone, Copy, Debug, PartialEq, Eq, Structural)]
pub enum GameState {
    Playing,
    RoundFinished,
}

/// One row of a final scoreboard.
#[derive(Debug, PartialEq)]
pub struct Score {
    /// Dense one-based rank: tied scores share a rank.
    pub rank: u32,
    pub nickname: String,
    pub score: u32,
}

/// Mathematical model of a [`Score`].
pub struct ScoreV {
    pub rank: u32,
    pub nickname: Seq<char>,
    pub score: u32,
}

impl View for Score {
    type V = ScoreV;

    open spec fn view(&self) -> ScoreV {
        ScoreV { rank: self.rank, nickname: self.nickname@, score: self.score }
    }
}

impl Clone for Score {
    fn clone(&self) -> (r: Self)
        ensures
            r == *self,
    {
        Score { rank: self.rank, nickname: self.nickname.clone(), score: self.score }
    }
}

/// The model of a scoreboard.
pub open spec fn view_scores(v: Seq<Score>) -> Seq<ScoreV> {
    v.map_values(|s: Score| s@)
}

/// What every member of a team room sees while a round is live.
#[derive(Debug, PartialEq)]
pub struct TeamState {
    pub chat: Vec<ChatMessage>,
    pub tries_used: u32,
    /// The word as revealed so far, `_` per unknown grapheme.
    pub word: String,
    pub round_finished: bool,
}

/// Mathematical model of a [`TeamState`].
pub struct TeamStateV {
    pub chat: Seq<ChatMessageV>,
    pub tries_used: u32,
    pub word: Seq<char>,
    pub round_finished: bool,
}

impl View for TeamState {
    type V = TeamStateV;

    open spec fn view(&self) -> TeamStateV {
        TeamStateV {
            chat: view_chat(self.chat@),
            tries_used: self.tries_used,
            word: self.word@,
            round_finished: self.round_finished,
        }
    }
}

/// What one player of a competitive room sees while a round is live.
#[derive(Debug, PartialEq)]
pub struct CompetitiveState {
    pub chat: Vec<ChatMessage>,
    pub tries_used: u32,
    /// That player's word as revealed so far.
    pub word: String,
    /// Absolute round deadline, milliseconds since the epoch.
    pub countdown: i64,
    /// Position in the room's shared draw order.
    pub word_index: usize,
    pub score: u32,
}

/// Mathematical model of a [`CompetitiveState`].
pub struct CompetitiveStateV {
    pub chat: Seq<ChatMessageV>,
    pub tries_used: u32,
    pub word: Seq<char>,
    pub countdown: i64,
    pub word_index: usize,
    pub score: u32,
}

impl View for CompetitiveState {
    type V = CompetitiveStateV;

    open spec fn view(&self) -> CompetitiveStateV {
        CompetitiveStateV {
            chat: view_chat(self.chat@),
            tries_used: self.tries_used,
            word: self.word@,
            countdown: self.countdown,
            word_index: self.word_index,
            score: self.score,
        }
    }
}

/// The total envelope sent to a client on every update. `state == None`
/// means the room is still waiting to start.
#[derive(Debug, PartialEq)]
pub struct Game<S> {
    /// The permuted form of the owner's token, never the raw token.
    pub owner_hash: UserToken,
    pub settings: GameSettings,
    pub players: Vec<String>,
    pub state: Option<S>,
}

/// Mathematical model of a [`Game`] envelope.
pub struct GameV<SV> {
    pub owner_hash: UserToken,
    pub settings: GameSettings,
    pub players: Seq<Seq<char>>,
    pub state: Option<SV>,
}

impl<S: View> View for Game<S> {
    type V = GameV<S::V>;

    open spec fn view(&self) -> GameV<S::V> {
        GameV {
            owner_hash: self.owner_hash,
            settings: self.settings,
            players: self.players.deep_view(),
            state: match self.state {
                Some(ref s) => Some(s@),
                None => None,
            },
        }
    }
}

/// One message from a loop to one client: a fresh total state, or the final
/// scoreboard of a competitive round.
#[derive(Debug, PartialEq)]
pub enum ServerMessageInner<S> {
    UpdateGame(Game<S>),
    Results(Vec<Score>),
}

/// Mathematical model of a [`ServerMessageInner`].
pub enum ServerMessageInnerV<SV> {
    UpdateGame(GameV<SV>),
    Results(Seq<ScoreV>),
}

impl<S: View> View for ServerMessageInner<S> {
    type V = ServerMessageInnerV<S::V>;

    open spec fn view(&self) -> ServerMessageInnerV<S::V> {
        match self {
            ServerMessageInner::UpdateGame(g) => ServerMessageInnerV::UpdateGame(g@),
            ServerMessageInner::Results(s) => ServerMessageInnerV::Results(view_scores(s@)),
        }
    }
}

/// A loop-to-client message tagged with the mode it belongs to.
#[derive(Debug, PartialEq)]
pub enum ServerMessage {
    Team(ServerMessageInner<TeamState>),
    Competitive(ServerMessageInner<CompetitiveState>),
}

/// The body of a room-creation request.
#[derive(Clone, Copy, Debug)]
pub struct CreateGameBody {
    pub token: UserToken,
    pub settings: GameSettings,
}

} // verus!

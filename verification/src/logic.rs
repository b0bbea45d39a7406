//! What both game loops share: their inbound message type and the ordered
//! player list.

use vstd::prelude::*;
use crate::messages::{ClientMessage, ClientMessageV};
use crate::settings::GameMode;

use crate::user::{User, UserToken};

verus! {

/// One message delivered to a game loop's mailbox.
#[derive(Debug)]
pub enum GameMessageInner {
    /// A player's session registered with the loop.
    Join { user: User },
    /// A player's session ended, by close frame or transport loss.
    Leave(UserToken),
    /// A frame the player sent.
    ClientMessage { token: UserToken, message: ClientMessage },
}

/// Mathematical model of a [`GameMessageInner`].
pub enum GameMessageInnerV {
    Join { token: UserToken, name: Seq<char> },
    Leave(UserToken),
    ClientMessage { token: UserToken, message: ClientMessageV },
}

impl View for GameMessageInner {
    type V = GameMessageInnerV;

    open spec fn view(&self) -> GameMessageInnerV {
        match self {
            GameMessageInner::Join { user } => GameMessageInnerV::Join {
                token: user.token,
                name: user.nickname@,
            },
            GameMessageInner::Leave(t) => GameMessageInnerV::Leave(*t),
            GameMessageInner::ClientMessage { token, message } => GameMessageInnerV::ClientMessage {
                token: *token,
                message: message@,
            },
        }
    }
}

/// A loop message tagged with the mode of the loop it is for.
#[derive(Debug)]
pub enum GameMessage {
    Team(GameMessageInner),
    Competitive(GameMessageInner),
}

impl GameMessage {
    /// The mode of loop this message addresses.
    pub fn mode(&self) -> (m: GameMode)
        ensures
            m == (match self {
                GameMessage::Team(_) => GameMode::Team,
                GameMessage::Competitive(_) => GameMode::Competitive,
            }),
    {
        match self {
            GameMessage::Team(_) => GameMode::Team,
            GameMessage::Competitive(_) => GameMode::Competitive,
        }
    }
}

/// The model of a player list: token and nickname, in join order.
pub open spec fn players_view(v: Seq<(UserToken, String)>) -> Seq<(UserToken, Seq<char>)> {
    v.map_values(|p: (UserToken, String)| (p.0, p.1@))
}

/// Whether some entry is keyed by this token.
pub open spec fn has_token<T>(ps: Seq<(UserToken, T)>, t: UserToken) -> bool {
    exists|i: int| 0 <= i < ps.len() && ps[i].0 == t
}

/// The index of the entry keyed by this token.
pub open spec fn token_index<T>(ps: Seq<(UserToken, T)>, t: UserToken) -> int {
    choose|i: int| 0 <= i < ps.len() && ps[i].0 == t
}

/// Keys are unique across the list.
pub open spec fn players_wf<T>(ps: Seq<(UserToken, T)>) -> bool {
    forall|i: int, j: int| 0 <= i < j < ps.len() ==> ps[i].0 != ps[j].0
}

/// Registering a player: a known token keeps its place with the new
/// nickname, a fresh one is appended.
pub open spec fn add_player_spec(
    ps: Seq<(UserToken, Seq<char>)>,
    t: UserToken,
    name: Seq<char>,
) -> Seq<(UserToken, Seq<char>)> {
    if has_token(ps, t) {
        ps.update(token_index(ps, t), (t, name))
    } else {
        ps.push((t, name))
    }
}

/// Removing a player: a known token's entry goes, anything else changes
/// nothing.
pub open spec fn remove_player_spec(ps: Seq<(UserToken, Seq<char>)>, t: UserToken) -> Seq<
    (UserToken, Seq<char>),
> {
    if has_token(ps, t) {
        ps.remove(token_index(ps, t))
    } else {
        ps
    }
}

/// The nicknames, in join order.
pub open spec fn names_of(ps: Seq<(UserToken, Seq<char>)>) -> Seq<Seq<char>> {
    ps.map_values(|p: (UserToken, Seq<char>)| p.1)
}

/// The players registered with a loop, in join order, tokens unique.
#[derive(Debug)]
pub struct Players {
    pub list: Vec<(UserToken, String)>,
}

impl View for Players {
    type V = Seq<(UserToken, Seq<char>)>;

    open spec fn view(&self) -> Seq<(UserToken, Seq<char>)> {
        players_view(self.list@)
    }
}

impl Players {
    /// An empty list.
    pub fn new() -> (r: Self)
        ensures
            r@.len() == 0,
            players_wf(r@),
    {
        Players { list: Vec::new() }
    }

    pub fn len(&self) -> (n: usize)
        ensures
            n == self@.len(),
    {
        self.list.len()
    }

    pub fn is_empty(&self) -> (r: bool)
        ensures
            r == (self@.len() == 0),
    {
        self.list.len() == 0
    }

    /// The index of the entry with this token, if any.
    #[verifier::loop_isolation(false)]
    fn find(&self, token: UserToken) -> (r: Option<usize>)
        requires
            players_wf(self@),
        ensures
            match r {
                Some(i) => i < self@.len() && self@[i as int].0 == token && i as int == token_index(
                    self@,
                    token,
                ),
                None => !has_token(self@, token),
            },
    {
        let n = self.list.len();
        let mut i: usize = 0;
        while i < n
            invariant
                n == self.list@.len(),
                i <= n,
                forall|j: int| 0 <= j < i ==> self@[j].0 != token,
            decreases n - i,
        {
            if self.list[i].0.0 == token.0 {
                proof {
                    assert(self@[i as int].0 == token);
                    let j = token_index(self@, token);
                    assert(0 <= j < self@.len() && self@[j].0 == token);
                    assert(j == i as int);
                }
                return Some(i);
            }
            i = i + 1;
        }
        None
    }

    /// Whether this token is registered.
    pub fn contains_token(&self, token: UserToken) -> (r: bool)
        requires
            players_wf(self@),
        ensures
            r == has_token(self@, token),
    {
        match self.find(token) {
            Some(_) => true,
            None => false,
        }
    }

    /// Register a player: replaces the entry of a returning token, appends a
    /// fresh one.
    pub fn add_player(&mut self, user: User)
        requires
            players_wf(old(self)@),
        ensures
            final(self)@ == add_player_spec(old(self)@, user.token, user.nickname@),
            players_wf(final(self)@),
            has_token(final(self)@, user.token),
    {
        let ghost ps0 = self@;
        let ghost name = user.nickname@;
        match self.find(user.token) {
            Some(i) => {
                let token = user.token;
                self.list.set(i, (token, user.nickname));
                proof {
                    assert(self@ =~= ps0.update(i as int, (token, name)));
                    assert(i as int == token_index(ps0, token));
                    assert forall|a: int, b: int|
                        0 <= a < b < self@.len() implies self@[a].0 != self@[b].0 by {
                        assert(self@[a].0 == ps0[a].0);
                        assert(self@[b].0 == ps0[b].0);
                    }
                    assert(self@[i as int].0 == token);
                }
            }
            None => {
                let token = user.token;
                self.list.push((token, user.nickname));
                proof {
                    assert(self@ =~= ps0.push((token, name)));
                    assert(self@[self@.len() - 1].0 == token);
                }
            }
        }
    }

    /// Unregister a token. Returns the user it belonged to, or nothing when
    /// the token was unknown.
    pub fn remove_player(&mut self, token: UserToken) -> (r: Option<User>)
        requires
            players_wf(old(self)@),
        ensures
            final(self)@ == remove_player_spec(old(self)@, token),
            players_wf(final(self)@),
            match r {
                Some(u) => has_token(old(self)@, token) && u.token == token && u.nickname@ == old(
                    self,
                )@[token_index(old(self)@, token)].1,
                None => !has_token(old(self)@, token),
            },
    {
        let ghost ps0 = self@;
        match self.find(token) {
            Some(i) => {
                let (t, name) = self.list.remove(i);
                proof {
                    assert(self@ =~= ps0.remove(i as int));
                    assert forall|a: int, b: int|
                        0 <= a < b < self@.len() implies self@[a].0 != self@[b].0 by {
                        if a < i as int {
                            assert(self@[a] == ps0[a]);
                        } else {
                            assert(self@[a] == ps0[a + 1]);
                        }
                        if b < i as int {
                            assert(self@[b] == ps0[b]);
                        } else {
                            assert(self@[b] == ps0[b + 1]);
                        }
                    }
                }
                Some(User { nickname: name, token: t })
            }
            None => None,
        }
    }

    /// The nickname registered under a token.
    pub fn get_name(&self, token: UserToken) -> (r: Option<String>)
        requires
            players_wf(self@),
        ensures
            match r {
                Some(name) => has_token(self@, token) && name@ == self@[token_index(
                    self@,
                    token,
                )].1,
                None => !has_token(self@, token),
            },
    {
        match self.find(token) {
            Some(i) => Some(self.list[i].1.clone()),
            None => None,
        }
    }

    /// Every nickname, in join order.
    pub fn player_names(&self) -> (r: Vec<String>)
        ensures
            r.deep_view() == names_of(self@),
    {
        let mut r: Vec<String> = Vec::new();
        let n = self.list.len();
        let mut i: usize = 0;
        while i < n
            invariant
                n == self.list@.len(),
                i <= n,
                r@.len() == i,
                forall|j: int| 0 <= j < i ==> r@[j]@ == self@[j].1,
            decreases n - i,
        {
            r.push(self.list[i].1.clone());
            i = i + 1;
        }
        proof {
            assert(r.deep_view() =~= names_of(self@));
        }
        r
    }

    /// The token at a position.
    pub fn token_at(&self, i: usize) -> (t: UserToken)
        requires
            i < self@.len(),
        ensures
            t == self@[i as int].0,
    {
        self.list[i].0
    }
}

/// A deep copy of the list.
impl Clone for Players {
    fn clone(&self) -> (r: Self)
        ensures
            r@ == self@,
    {
        let mut list: Vec<(UserToken, String)> = Vec::new();
        let n = self.list.len();
        let mut i: usize = 0;
        while i < n
            invariant
                n == self.list@.len(),
                i <= n,
                list@ =~= self.list@.take(i as int),
            decreases n - i,
        {
            let token = self.list[i].0;
            list.push((token, self.list[i].1.clone()));
            i = i + 1;
        }
        proof {
            assert(list@ =~= self.list@);
        }
        Players { list }
    }
}

} // verus!

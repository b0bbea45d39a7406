use hangman::code::GameCode;
use hangman::logic::GameMessageInner;
use hangman::messages::{ChatColor, ClientMessage, Game, ServerMessageInner, TeamState};
use hangman::settings::{Difficulty, GameLanguage, GameMode, GameSettings};
use hangman::team::TeamGame;
use hangman::user::{User, UserToken};

fn settings() -> GameSettings {
    GameSettings {
        mode: GameMode::Team,
        language: GameLanguage::English,
        difficulty: Difficulty::Medium,
    }
}

fn game_of(msg: &ServerMessageInner<TeamState>) -> &Game<TeamState> {
    match msg {
        ServerMessageInner::UpdateGame(g) => g,
        ServerMessageInner::Results(_) => panic!("expected an update"),
    }
}

fn join(g: &mut TeamGame, token: UserToken, name: &str) -> hangman::team::TeamStep {
    g.handle_message(
        GameMessageInner::Join {
            user: User {
                nickname: String::from(name),
                token,
            },
        },
        String::from("unused"),
    )
}

fn chat(g: &mut TeamGame, token: UserToken, text: &str) -> hangman::team::TeamStep {
    g.handle_message(
        GameMessageInner::ClientMessage {
            token,
            message: ClientMessage::ChatMessage(String::from(text)),
        },
        String::from("unused"),
    )
}

fn next_round(g: &mut TeamGame, token: UserToken, draw: &str) -> hangman::team::TeamStep {
    g.handle_message(
        GameMessageInner::ClientMessage {
            token,
            message: ClientMessage::NextRound,
        },
        String::from(draw),
    )
}

#[test]
fn team_happy_path_solve() {
    let owner = UserToken(1);
    let bob = UserToken(2);
    let mut g = TeamGame::new(GameCode(0x1234), settings(), owner, String::from("apple"));

    join(&mut g, owner, "Alice");
    let step = join(&mut g, bob, "Bob");
    assert_eq!(step.sends.len(), 2);

    // Owner starts the round.
    let step = next_round(&mut g, owner, "unused");
    let env = game_of(&step.sends[0].1);
    let st = env.state.as_ref().unwrap();
    assert_eq!(st.word, "_____");
    assert_eq!(st.tries_used, 0);
    assert!(!st.round_finished);

    // Alice guesses a single letter.
    let step = chat(&mut g, owner, "a");
    let env = game_of(&step.sends[0].1);
    let st = env.state.as_ref().unwrap();
    assert_eq!(st.word, "a____");
    assert_eq!(st.tries_used, 0);
    let last = st.chat.last().unwrap();
    assert_eq!(last.from.as_deref(), Some("Alice"));
    assert_eq!(last.content, "a");
    assert_eq!(last.color, ChatColor::Green);

    // Bob guesses the whole word, in spite of the case.
    let step = chat(&mut g, bob, "apple");
    let env = game_of(&step.sends[0].1);
    let st = env.state.as_ref().unwrap();
    assert_eq!(st.word, "apple");
    assert_eq!(st.tries_used, 0);
    assert!(st.round_finished);
    let last = st.chat.last().unwrap();
    assert_eq!(last.from, None);
    assert_eq!(last.content, "You guessed the word!");
    assert_eq!(last.color, ChatColor::Green);

    // Further chat is ignored until the next round.
    let step = chat(&mut g, owner, "x");
    assert_eq!(step.sends.len(), 0);
}

#[test]
fn team_out_of_tries() {
    let owner = UserToken(7);
    let mut g = TeamGame::new(GameCode(0x0001), settings(), owner, String::from("dog"));
    join(&mut g, owner, "Alice");
    next_round(&mut g, owner, "unused");

    let misses = ["x", "y", "z", "q", "w", "r", "t", "u", "i"];
    let mut last_step = None;
    for m in misses {
        last_step = Some(chat(&mut g, owner, m));
    }
    let step = last_step.unwrap();
    let env = game_of(&step.sends[0].1);
    let st = env.state.as_ref().unwrap();
    assert_eq!(st.tries_used, 9);
    assert!(st.round_finished);
    let last = st.chat.last().unwrap();
    assert_eq!(last.content, "No tries left! The word was \"dog\"");
    assert_eq!(last.color, ChatColor::Red);
}

#[test]
fn tries_are_monotone_within_a_round() {
    let owner = UserToken(7);
    let mut g = TeamGame::new(GameCode(0x0001), settings(), owner, String::from("dog"));
    join(&mut g, owner, "Alice");
    next_round(&mut g, owner, "unused");
    let mut prev = 0u32;
    for m in ["x", "d", "y", "o", "z"] {
        let step = chat(&mut g, owner, m);
        let st_tries = game_of(&step.sends[0].1).state.as_ref().unwrap().tries_used;
        assert!(st_tries >= prev);
        prev = st_tries;
    }
}

#[test]
fn join_during_waiting_broadcasts_owner_hash() {
    let owner = UserToken(0xdead);
    let joiner = UserToken(0xbeef);
    let mut g = TeamGame::new(GameCode(0x00AB), settings(), owner, String::from("apple"));
    join(&mut g, owner, "Alice");
    let step = join(&mut g, joiner, "Bob");
    // The joiner's copy of the envelope announces the owner's hashed token.
    let (to, msg) = &step.sends[1];
    assert_eq!(*to, joiner);
    let env = game_of(msg);
    assert_eq!(env.owner_hash, owner.hashed());
    assert!(env.state.is_none());
    assert_eq!(env.players, vec!["Alice", "Bob"]);
}

#[test]
fn team_broadcast_is_identical_for_all_players() {
    let owner = UserToken(1);
    let bob = UserToken(2);
    let mut g = TeamGame::new(GameCode(0x1234), settings(), owner, String::from("apple"));
    join(&mut g, owner, "Alice");
    join(&mut g, bob, "Bob");
    next_round(&mut g, owner, "unused");
    let step = chat(&mut g, bob, "p");
    assert_eq!(step.sends.len(), 2);
    assert_eq!(step.sends[0].1, step.sends[1].1);
}

#[test]
fn leave_by_owner_closes_room() {
    let owner = UserToken(1);
    let b = UserToken(2);
    let c = UserToken(3);
    let mut g = TeamGame::new(GameCode(0x1234), settings(), owner, String::from("apple"));
    join(&mut g, owner, "Alice");
    join(&mut g, b, "Bob");
    join(&mut g, c, "Carol");
    next_round(&mut g, owner, "unused");

    let step = g.handle_message(GameMessageInner::Leave(owner), String::from("unused"));
    assert!(step.close);
    // The app maps a closed loop to transport close code 4001.
    assert_eq!(hangman::session::CLOSE_GAME_CLOSED, 4001);
}

#[test]
fn leave_by_last_player_closes_room() {
    let owner = UserToken(1);
    let b = UserToken(2);
    let mut g = TeamGame::new(GameCode(0x1234), settings(), owner, String::from("apple"));
    join(&mut g, owner, "Alice");
    join(&mut g, b, "Bob");
    let step = g.handle_message(GameMessageInner::Leave(b), String::from("unused"));
    assert!(!step.close);
    let step = g.handle_message(GameMessageInner::Leave(owner), String::from("unused"));
    assert!(step.close);
}

#[test]
fn non_owner_cannot_start_the_game() {
    let owner = UserToken(1);
    let bob = UserToken(2);
    let mut g = TeamGame::new(GameCode(0x1234), settings(), owner, String::from("apple"));
    join(&mut g, owner, "Alice");
    join(&mut g, bob, "Bob");
    let step = next_round(&mut g, bob, "unused");
    assert_eq!(step.sends.len(), 0);
    // A guess before the start does nothing either.
    let step = chat(&mut g, bob, "a");
    assert_eq!(step.sends.len(), 0);
}

#[test]
fn next_round_strips_user_chat_and_draws_fresh_word() {
    let owner = UserToken(1);
    let mut g = TeamGame::new(GameCode(0x1234), settings(), owner, String::from("dog"));
    join(&mut g, owner, "Alice");
    next_round(&mut g, owner, "unused");
    chat(&mut g, owner, "dog");
    let step = next_round(&mut g, owner, "cat");
    let env = game_of(&step.sends[0].1);
    let st = env.state.as_ref().unwrap();
    assert_eq!(st.word, "___");
    assert_eq!(st.tries_used, 0);
    assert!(!st.round_finished);
    assert!(st.chat.iter().all(|m| m.from.is_none()));
    // The fresh word is really the drawn one.
    let step = chat(&mut g, owner, "cat");
    let env2 = game_of(&step.sends[0].1);
    let st2 = env2.state.as_ref().unwrap();
    assert_eq!(st2.word, "cat");
    assert!(st2.round_finished);
}

#[test]
fn same_state_same_message_same_outcome() {
    // Two rooms built alike and fed alike evolve alike, given the same draw.
    let owner = UserToken(1);
    let mut g1 = TeamGame::new(GameCode(0x4242), settings(), owner, String::from("apple"));
    let mut g2 = TeamGame::new(GameCode(0x4242), settings(), owner, String::from("apple"));
    for g in [&mut g1, &mut g2] {
        join(g, owner, "Alice");
        next_round(g, owner, "unused");
    }
    let s1 = chat(&mut g1, owner, "apple");
    let s2 = chat(&mut g2, owner, "apple");
    assert_eq!(s1.sends, s2.sends);
    assert_eq!(s1.close, s2.close);
    let s1 = next_round(&mut g1, owner, "cat");
    let s2 = next_round(&mut g2, owner, "cat");
    assert!(s1.sends.len() > 0);
    assert_eq!(s1.sends, s2.sends);
}

#[test]
fn unknown_token_messages_are_dropped() {
    let owner = UserToken(1);
    let mut g = TeamGame::new(GameCode(0x1234), settings(), owner, String::from("dog"));
    join(&mut g, owner, "Alice");
    let step = chat(&mut g, UserToken(99), "d");
    assert_eq!(step.sends.len(), 0);
    let step = g.handle_message(GameMessageInner::Leave(UserToken(99)), String::from("u"));
    assert_eq!(step.sends.len(), 0);
    assert!(!step.close);
}

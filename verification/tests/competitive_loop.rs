use hangman::code::GameCode;
use hangman::competitive::{CompetitiveGame, GAME_DURATION_MS};
use hangman::logic::GameMessageInner;
use hangman::messages::{ClientMessage, CompetitiveState, Game, ServerMessageInner};
use hangman::settings::{Difficulty, GameLanguage, GameMode, GameSettings};
use hangman::user::{User, UserToken};

fn settings() -> GameSettings {
    GameSettings {
        mode: GameMode::Competitive,
        language: GameLanguage::English,
        difficulty: Difficulty::Medium,
    }
}

fn game_of(msg: &ServerMessageInner<CompetitiveState>) -> &Game<CompetitiveState> {
    match msg {
        ServerMessageInner::UpdateGame(g) => g,
        ServerMessageInner::Results(_) => panic!("expected an update"),
    }
}

fn join(g: &mut CompetitiveGame, token: UserToken, name: &str) -> hangman::competitive::CompetitiveStep {
    g.handle_message(
        GameMessageInner::Join {
            user: User {
                nickname: String::from(name),
                token,
            },
        },
        0,
        String::from("unused"),
    )
}

fn chat(g: &mut CompetitiveGame, token: UserToken, text: &str, draw: &str) -> hangman::competitive::CompetitiveStep {
    g.handle_message(
        GameMessageInner::ClientMessage {
            token,
            message: ClientMessage::ChatMessage(String::from(text)),
        },
        0,
        String::from(draw),
    )
}

fn next_round(g: &mut CompetitiveGame, token: UserToken, now: i64, draw: &str) -> hangman::competitive::CompetitiveStep {
    g.handle_message(
        GameMessageInner::ClientMessage {
            token,
            message: ClientMessage::NextRound,
        },
        now,
        String::from(draw),
    )
}

#[test]
fn competitive_independent_progress() {
    let alice = UserToken(1);
    let bob = UserToken(2);
    let mut g = CompetitiveGame::new(GameCode(0x2222), settings(), alice, String::from("dog"));
    join(&mut g, alice, "Alice");
    join(&mut g, bob, "Bob");

    // Owner starts; a countdown task is scheduled.
    let step = next_round(&mut g, alice, 1_000, "unused");
    let (generation, deadline) = step.schedule.unwrap();
    assert_eq!(deadline, 1_000 + GAME_DURATION_MS);

    // Both start at the first word.
    for (_, msg) in &step.sends {
        let st = game_of(msg).state.as_ref().unwrap();
        assert_eq!(st.word_index, 0);
        assert_eq!(st.word, "___");
    }

    // Bob misses twice.
    chat(&mut g, bob, "x", "unused");
    let step = chat(&mut g, bob, "y", "unused");
    assert_eq!(step.sends.len(), 1);
    assert_eq!(step.sends[0].0, bob);
    let st = game_of(&step.sends[0].1).state.as_ref().unwrap();
    assert_eq!(st.word_index, 0);
    assert_eq!(st.tries_used, 2);
    assert_eq!(st.score, 0);

    // Alice solves her word and advances to the second draw.
    let step = chat(&mut g, alice, "dog", "cat");
    assert_eq!(step.sends.len(), 1);
    assert_eq!(step.sends[0].0, alice);
    let st = game_of(&step.sends[0].1).state.as_ref().unwrap();
    assert_eq!(st.word_index, 1);
    assert_eq!(st.score, 1);
    assert_eq!(st.tries_used, 0);
    assert_eq!(st.word, "___");
    assert!(st.chat.iter().all(|m| m.from.is_none()));

    // Bob still sees his own word, not Alice's progress.
    let step = chat(&mut g, bob, "z", "unused");
    let st = game_of(&step.sends[0].1).state.as_ref().unwrap();
    assert_eq!(st.word_index, 0);
    assert_eq!(st.tries_used, 3);

    // Bob reaches Alice's index and receives the same memoized second word.
    let step = chat(&mut g, bob, "dog", "ignored");
    let st = game_of(&step.sends[0].1).state.as_ref().unwrap();
    assert_eq!(st.word_index, 1);
    assert_eq!(st.word, "___");
    let step = chat(&mut g, bob, "cat", "unused");
    let st = game_of(&step.sends[0].1).state.as_ref().unwrap();
    assert_eq!(st.score, 2);
    let _ = generation;
}

#[test]
fn competitive_round_end_sends_dense_results() {
    let alice = UserToken(1);
    let bob = UserToken(2);
    let mut g = CompetitiveGame::new(GameCode(0x2222), settings(), alice, String::from("dog"));
    join(&mut g, alice, "Alice");
    join(&mut g, bob, "Bob");
    let step = next_round(&mut g, alice, 0, "unused");
    let (generation, _) = step.schedule.unwrap();
    chat(&mut g, alice, "dog", "cat");

    let step = g.countdown_fired(generation);
    assert_eq!(step.sends.len(), 2);
    for (_, msg) in &step.sends {
        match msg {
            ServerMessageInner::Results(scores) => {
                assert_eq!(scores.len(), 2);
                assert_eq!(scores[0].rank, 1);
                assert_eq!(scores[0].nickname, "Alice");
                assert_eq!(scores[0].score, 1);
                assert_eq!(scores[1].rank, 2);
                assert_eq!(scores[1].nickname, "Bob");
                assert_eq!(scores[1].score, 0);
            }
            ServerMessageInner::UpdateGame(_) => panic!("expected results"),
        }
    }

    // A stale countdown is a no-op: the next round's timer owns the results.
    let step = next_round(&mut g, bob, 9_000, "owl");
    let (generation2, _) = step.schedule.unwrap();
    let stale = g.countdown_fired(generation);
    assert_eq!(stale.sends.len(), 0);
    let fresh = g.countdown_fired(generation2);
    assert_eq!(fresh.sends.len(), 2);
}

#[test]
fn anyone_may_restart_a_running_match() {
    let alice = UserToken(1);
    let bob = UserToken(2);
    let mut g = CompetitiveGame::new(GameCode(0x2222), settings(), alice, String::from("dog"));
    join(&mut g, alice, "Alice");
    join(&mut g, bob, "Bob");
    // Only the owner may start the first round.
    let step = next_round(&mut g, bob, 0, "unused");
    assert_eq!(step.sends.len(), 0);
    assert!(step.schedule.is_none());
    next_round(&mut g, alice, 0, "unused");
    chat(&mut g, alice, "dog", "cat");
    // Bob restarts the whole match: everyone is reset.
    let step = next_round(&mut g, bob, 50, "owl");
    assert!(step.schedule.is_some());
    assert_eq!(step.sends.len(), 2);
    for (_, msg) in &step.sends {
        let st = game_of(msg).state.as_ref().unwrap();
        assert_eq!(st.word_index, 0);
        assert_eq!(st.score, 0);
        assert_eq!(st.tries_used, 0);
        assert_eq!(st.word, "___");
    }
}

#[test]
fn rejoining_token_resumes_its_state() {
    let alice = UserToken(1);
    let bob = UserToken(2);
    let mut g = CompetitiveGame::new(GameCode(0x2222), settings(), alice, String::from("dog"));
    join(&mut g, alice, "Alice");
    join(&mut g, bob, "Bob");
    next_round(&mut g, alice, 0, "unused");
    chat(&mut g, bob, "x", "unused");
    g.handle_message(GameMessageInner::Leave(bob), 0, String::from("unused"));
    // Bob comes back: his try count survived.
    let step = join(&mut g, bob, "Bob");
    let (to, msg) = step.sends.last().unwrap();
    assert_eq!(*to, bob);
    let st = game_of(msg).state.as_ref().unwrap();
    assert_eq!(st.tries_used, 1);
}

#[test]
fn out_of_tries_advances_competitive_word() {
    let alice = UserToken(1);
    let mut g = CompetitiveGame::new(GameCode(0x2222), settings(), alice, String::from("dog"));
    join(&mut g, alice, "Alice");
    next_round(&mut g, alice, 0, "unused");
    let misses = ["j", "k", "l", "m", "n", "p", "q", "r", "s"];
    let mut last = None;
    for m in misses {
        last = Some(chat(&mut g, alice, m, "cat"));
    }
    let step = last.unwrap();
    let st = game_of(&step.sends[0].1).state.as_ref().unwrap();
    // The ninth miss ends the word: no score, fresh tries, next word.
    assert_eq!(st.tries_used, 0);
    assert_eq!(st.score, 0);
    assert_eq!(st.word_index, 1);
    let banner = st.chat.last().unwrap();
    assert_eq!(banner.content, "No tries left! The word was \"dog\"");
}

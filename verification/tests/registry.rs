use hangman::code::GameCode;
use hangman::logic::{GameMessage, GameMessageInner};
use hangman::manager::GameManager;
use hangman::session::{frame_action, InboundFrame, CLOSE_GAME_CLOSED, CLOSE_GAME_NOT_FOUND};
use hangman::messages::ClientMessage;
use hangman::settings::GameMode;
use hangman::user::UserToken;

#[test]
fn registry_add_get_remove() {
    let mut m = GameManager::new();
    assert!(m.add_game(GameCode(0x1111), GameMode::Team, 7));
    assert!(m.add_game(GameCode(0x2222), GameMode::Competitive, 8));
    assert_eq!(m.get_game(GameCode(0x1111)), Some((GameMode::Team, 7)));
    assert_eq!(m.get_game(GameCode(0x2222)), Some((GameMode::Competitive, 8)));
    assert_eq!(m.get_game(GameCode(0x3333)), None);

    // A taken code is refused and the registry is unchanged.
    assert!(!m.add_game(GameCode(0x1111), GameMode::Competitive, 9));
    assert_eq!(m.get_game(GameCode(0x1111)), Some((GameMode::Team, 7)));

    m.remove_game(GameCode(0x1111));
    assert_eq!(m.get_game(GameCode(0x1111)), None);
    assert_eq!(m.get_game(GameCode(0x2222)), Some((GameMode::Competitive, 8)));
}

#[test]
fn frame_actions_drive_the_session() {
    let t = UserToken(5);
    let (msg, done) = frame_action(
        GameMode::Team,
        t,
        InboundFrame::Message(ClientMessage::NextRound),
    );
    assert!(!done);
    assert!(matches!(
        msg,
        Some(GameMessage::Team(GameMessageInner::ClientMessage { .. }))
    ));

    let (msg, done) = frame_action(GameMode::Competitive, t, InboundFrame::Malformed);
    assert!(!done);
    assert!(msg.is_none());

    let (msg, done) = frame_action(GameMode::Competitive, t, InboundFrame::Closed);
    assert!(done);
    assert!(matches!(
        msg,
        Some(GameMessage::Competitive(GameMessageInner::Leave(tok))) if tok == t
    ));
}

#[test]
fn close_codes_are_fixed() {
    assert_eq!(CLOSE_GAME_NOT_FOUND, 4000);
    assert_eq!(CLOSE_GAME_CLOSED, 4001);
}

#[test]
fn enums_enumerate_in_display_order() {
    assert_eq!(GameMode::all().len(), 2);
    assert_eq!(hangman::settings::GameLanguage::all().len(), 6);
    assert_eq!(hangman::settings::Difficulty::all().len(), 5);
    assert_eq!(GameMode::Team.name(), "Team");
    assert_eq!(hangman::settings::GameLanguage::French.name(), "Français");
    assert_eq!(hangman::settings::Difficulty::default(), hangman::settings::Difficulty::Medium);
}

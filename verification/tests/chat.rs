use hangman::messages::{join_message, leave_message, ChatColor};

#[test]
fn join_and_leave_banners() {
    let j = join_message("Alice");
    assert_eq!(j.content, "→ Alice joined the game");
    assert_eq!(j.from, None);
    assert_eq!(j.color, ChatColor::Neutral);

    let l = leave_message("Bob");
    assert_eq!(l.content, "← Bob left the game");
    assert_eq!(l.from, None);
    assert_eq!(l.color, ChatColor::Neutral);
}

#[test]
fn default_chat_color_is_neutral() {
    assert_eq!(ChatColor::default(), ChatColor::Neutral);
}

use hangman::user::{User, UserToken};

#[test]
fn hashed_is_deterministic_and_not_identity() {
    let t = UserToken(0x0123_4567_89ab_cdef);
    assert_eq!(t.hashed(), t.hashed());
    assert_ne!(t.hashed().0, t.0);
    let u = UserToken(0x0123_4567_89ab_cdee);
    assert_ne!(t.hashed().0, u.hashed().0);
}

#[test]
fn token_format_is_sixteen_lowercase_hex() {
    let t = UserToken(0x0123_4567_89ab_cdef);
    assert_eq!(t.format(), "0123456789abcdef");
    assert_eq!(UserToken(0).format(), "0000000000000000");
    assert_eq!(UserToken(u64::MAX).format(), "ffffffffffffffff");
}

#[test]
fn token_round_trips() {
    let samples: Vec<u64> = vec![0, 1, 0xdead_beef, u64::MAX];
    for v in samples {
        let t = UserToken(v);
        assert_eq!(UserToken::parse(&t.format()), Some(t));
    }
    assert_eq!(UserToken::parse("123"), None);
    assert_eq!(UserToken::parse("00000000000000zz"), None);
}

#[test]
fn new_user_keeps_nickname() {
    let u = User::new("Alice");
    assert_eq!(u.nickname, "Alice");
}

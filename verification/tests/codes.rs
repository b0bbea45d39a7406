use hangman::code::{GameCode, ParseGameCodeError};

#[test]
fn parse_code() {
    let code = GameCode::parse("1337").unwrap();
    assert_eq!(code.0, 0x1337);
    assert_eq!(code.format(), "1337");

    assert_eq!(
        GameCode::parse("error"),
        Err(ParseGameCodeError::InvalidLength)
    );
    assert!(GameCode::parse("error").is_err());
}

#[test]
fn format_is_uppercase_and_four_digits() {
    assert_eq!(GameCode(0).format(), "0000");
    assert_eq!(GameCode(0xABCD).format(), "ABCD");
    assert_eq!(GameCode(0xFFFF).format(), "FFFF");
    assert_eq!(GameCode(0x00FF).format(), "00FF");
}

#[test]
fn parse_is_case_insensitive() {
    assert_eq!(GameCode::parse("abcd").unwrap().0, 0xABCD);
    assert_eq!(GameCode::parse("AbCd").unwrap().0, 0xABCD);
}

#[test]
fn code_round_trips() {
    let samples: Vec<u16> = vec![0, 1, 0x1337, 0x8000, 0xABCD, 0xFFFE, 0xFFFF];
    for v in samples {
        let c = GameCode(v);
        assert_eq!(GameCode::parse(&c.format()), Ok(c));
    }
}

#[test]
fn parse_rejects_wrong_length_and_bad_digits() {
    assert_eq!(GameCode::parse("12345"), Err(ParseGameCodeError::InvalidLength));
    assert_eq!(GameCode::parse(""), Err(ParseGameCodeError::InvalidLength));
    assert_eq!(GameCode::parse("ERR0"), Err(ParseGameCodeError::InvalidDigit));
    assert_eq!(GameCode::parse("12G4"), Err(ParseGameCodeError::InvalidDigit));
}

#[test]
fn random_codes_are_valid() {
    for _ in 0..16 {
        let c = GameCode::random();
        let s = c.format();
        assert_eq!(s.chars().count(), 4);
        assert_eq!(GameCode::parse(&s), Ok(c));
    }
}

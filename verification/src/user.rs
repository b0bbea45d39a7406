//! Player identities: opaque 64-bit tokens and nicknames.

use vstd::prelude::*;
use crate::code::{hex_digit_val, hex_prefix_val, is_hex_digit, pow16};
use vstd::wrapping::u64_specs;

verus! {

/// An opaque player identifier, chosen by the client. External form is
/// sixteen lowercase hex digits.
#[derive(Clone, Copy, Debug, PartialEq, Eq, Structural, Hash)]
pub struct UserToken(pub u64);

/// The fixed-seed 64-bit permutation behind [`UserToken::hashed`].
pub open spec fn spec_hashed(x: u64) -> u64 {
    let a = x ^ (x >> 30u64);
    let b = u64_specs::wrapping_mul(a, 0xbf58476d1ce4e5b9);
    let c = b ^ (b >> 27u64);
    let d = u64_specs::wrapping_mul(c, 0x94d049bb133111eb);
    d ^ (d >> 31u64)
}

/// The lowercase hex digit for a value below sixteen.
pub open spec fn hex_char_lower(v: int) -> char {
    if v == 0 { '0' } else if v == 1 { '1' } else if v == 2 { '2' }
    else if v == 3 { '3' } else if v == 4 { '4' } else if v == 5 { '5' }
    else if v == 6 { '6' } else if v == 7 { '7' } else if v == 8 { '8' }
    else if v == 9 { '9' } else if v == 10 { 'a' } else if v == 11 { 'b' }
    else if v == 12 { 'c' } else if v == 13 { 'd' } else if v == 14 { 'e' }
    else { 'f' }
}

/// The sixteen lowercase hex digits of a token, most significant first.
pub open spec fn token_chars(v: u64) -> Seq<char> {
    Seq::new(16, |i: int| hex_char_lower(v as int / pow16(15 - i) % 16))
}

/// The lowercase hex digit of a value below sixteen.
fn hex_char(v: u64) -> (c: char)
    requires
        v < 16,
    ensures
        c == hex_char_lower(v as int),
{
    match v {
        0 => '0', 1 => '1', 2 => '2', 3 => '3', 4 => '4', 5 => '5', 6 => '6',
        7 => '7', 8 => '8', 9 => '9', 10 => 'a', 11 => 'b', 12 => 'c',
        13 => 'd', 14 => 'e', _ => 'f',
    }
}

/// The hex value of one character, if it is a hex digit.
fn hex_digit(c: char) -> (r: Option<u64>)
    ensures
        r is Some <==> is_hex_digit(c),
        r is Some ==> r->0 == hex_digit_val(c),
{
    let u = c as u32;
    if '0' as u32 <= u && u <= '9' as u32 {
        Some((u - '0' as u32) as u64)
    } else if 'a' as u32 <= u && u <= 'f' as u32 {
        Some((10 + u - 'a' as u32) as u64)
    } else if 'A' as u32 <= u && u <= 'F' as u32 {
        Some((10 + u - 'A' as u32) as u64)
    } else {
        None
    }
}

/// What parsing a candidate token returns, for every input: sixteen hex
/// digits in either case, or nothing.
pub open spec fn parse_token_spec(s: Seq<char>) -> Option<UserToken> {
    if s.len() == 16 && (forall|j: int| 0 <= j < 16 ==> is_hex_digit(s[j])) {
        Some(UserToken(hex_prefix_val(s, 16) as u64))
    } else {
        None
    }
}

impl UserToken {
    /// A fresh random token.
    pub fn random() -> Self {
        UserToken(rand::random::<u64>())
    }

    /// A deterministic, non-cryptographic permutation of the token, announced
    /// to clients in place of the owner's raw token.
    pub fn hashed(&self) -> (r: Self)
        ensures
            r.0 == spec_hashed(self.0),
    {
        let x = self.0;
        let a = x ^ (x >> 30u64);
        let b = a.wrapping_mul(0xbf58476d1ce4e5b9);
        let c = b ^ (b >> 27u64);
        let d = c.wrapping_mul(0x94d049bb133111eb);
        UserToken(d ^ (d >> 31u64))
    }

    /// Parse a token: exactly sixteen hex digits.
    pub fn parse(s: &str) -> (r: Option<UserToken>)
        ensures
            r == parse_token_spec(s@),
    {
        let n = s.unicode_len();
        if n != 16 {
            return None;
        }
        let mut v: u64 = 0;
        let mut i: usize = 0;
        while i < 16
            invariant
                i <= 16,
                s@.len() == 16,
                forall|j: int| 0 <= j < i ==> is_hex_digit(s@[j]),
                v == hex_prefix_val(s@, i as int),
                v < pow16(i as int),
            decreases 16 - i,
        {
            let c = s.get_char(i);
            match hex_digit(c) {
                None => {
                    return None;
                }
                Some(d) => {
                    assert(pow16(i as int) <= pow16(15)) by {
                        lemma_pow16_increases(i as int, 15);
                    }
                    assert(pow16(15) == 0x1000000000000000) by {
                        reveal_with_fuel(pow16, 17);
                    }
                    v = v * 16 + d;
                }
            }
            i = i + 1;
        }
        Some(UserToken(v))
    }

    /// Emit the token as sixteen lowercase hex digits.
    pub fn format(&self) -> (r: String)
        ensures
            r@ == token_chars(self.0),
    {
        let mut out = String::new();
        let mut i: usize = 0;
        let mut p: u64 = 0x1000000000000000;
        proof {
            reveal_with_fuel(pow16, 17);
        }
        while i < 16
            invariant
                i <= 16,
                i < 16 ==> p == pow16(15 - i as int),
                out@ == token_chars(self.0).take(i as int),
            decreases 16 - i,
        {
            proof {
                reveal_with_fuel(pow16, 17);
            }
            out.push(hex_char(self.0 / p % 16));
            proof {
                assert(out@ =~= token_chars(self.0).take(i as int + 1));
            }
            if i < 15 {
                p = p / 16;
            }
            i = i + 1;
        }
        proof {
            assert(out@ =~= token_chars(self.0));
        }
        out
    }
}

proof fn lemma_pow16_pos(n: int)
    ensures
        pow16(n) >= 1,
    decreases n,
{
    if n > 0 {
        lemma_pow16_pos(n - 1);
    }
}

proof fn lemma_pow16_increases(a: int, b: int)
    requires
        0 <= a <= b,
    ensures
        pow16(a) <= pow16(b),
    decreases b,
{
    if a < b {
        lemma_pow16_increases(a, b - 1);
        lemma_pow16_pos(b - 1);
    }
}

/// A connected player: nickname plus identifying token.
#[derive(Debug, PartialEq)]
pub struct User {
    pub nickname: String,
    pub token: UserToken,
}

impl Clone for User {
    fn clone(&self) -> (r: Self)
        ensures
            r == *self,
    {
        User { nickname: self.nickname.clone(), token: self.token }
    }
}

impl User {
    /// A user with the given nickname and a fresh random token.
    pub fn new(nickname: &str) -> (r: Self)
        ensures
            r.nickname@ == nickname@,
    {
        User { nickname: nickname.to_owned(), token: UserToken::random() }
    }
}

} // verus!

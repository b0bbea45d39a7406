//! Game room codes: sixteen bits, shown as exactly four uppercase hex digits.

use vstd::prelude::*;

verus! {

/// A room identifier. External form is four hex digits: parsing is
/// case-insensitive, emitting uses uppercase.
#[derive(Clone, Copy, Debug, PartialEq, Eq, Structural, Hash)]
pub struct GameCode(pub u16);

/// Why a string failed to parse as a [`GameCode`].
#[derive(Clone, Copy, Debug, PartialEq, Eq, Structural)]
pub enum ParseGameCodeError {
    /// The input was not exactly four characters long.
    InvalidLength,
    /// The input held a character that is not a hex digit.
    InvalidDigit,
}

/// Value of a hex digit, or -1 for any other character.
pub open spec fn hex_digit_val(c: char) -> int {
    if '0' as u32 <= c as u32 && c as u32 <= '9' as u32 {
        c as u32 - '0' as u32
    } else if 'a' as u32 <= c as u32 && c as u32 <= 'f' as u32 {
        10 + c as u32 - 'a' as u32
    } else if 'A' as u32 <= c as u32 && c as u32 <= 'F' as u32 {
        10 + c as u32 - 'A' as u32
    } else {
        -1
    }
}

pub open spec fn is_hex_digit(c: char) -> bool {
    hex_digit_val(c) >= 0
}

/// The uppercase hex digit for a value below sixteen.
pub open spec fn hex_char_upper(v: int) -> char {
    if v == 0 { '0' } else if v == 1 { '1' } else if v == 2 { '2' }
    else if v == 3 { '3' } else if v == 4 { '4' } else if v == 5 { '5' }
    else if v == 6 { '6' } else if v == 7 { '7' } else if v == 8 { '8' }
    else if v == 9 { '9' } else if v == 10 { 'A' } else if v == 11 { 'B' }
    else if v == 12 { 'C' } else if v == 13 { 'D' } else if v == 14 { 'E' }
    else { 'F' }
}

/// The four uppercase hex digits of a code, most significant first.
pub open spec fn code_chars(v: u16) -> Seq<char> {
    seq![
        hex_char_upper(v as int / 4096 % 16),
        hex_char_upper(v as int / 256 % 16),
        hex_char_upper(v as int / 16 % 16),
        hex_char_upper(v as int % 16),
    ]
}

/// What parsing a candidate code returns, for every input.
pub open spec fn parse_code_spec(s: Seq<char>) -> Result<GameCode, ParseGameCodeError> {
    if s.len() != 4 {
        Err(ParseGameCodeError::InvalidLength)
    } else if !(is_hex_digit(s[0]) && is_hex_digit(s[1]) && is_hex_digit(s[2])
        && is_hex_digit(s[3])) {
        Err(ParseGameCodeError::InvalidDigit)
    } else {
        Ok(GameCode(
            (hex_digit_val(s[0]) * 4096 + hex_digit_val(s[1]) * 256 + hex_digit_val(s[2]) * 16
                + hex_digit_val(s[3])) as u16,
        ))
    }
}

/// The hex value of one character, if it is a hex digit.
fn hex_digit(c: char) -> (r: Option<u16>)
    ensures
        r is Some <==> is_hex_digit(c),
        r is Some ==> r->0 == hex_digit_val(c),
{
    let u = c as u32;
    if '0' as u32 <= u && u <= '9' as u32 {
        Some((u - '0' as u32) as u16)
    } else if 'a' as u32 <= u && u <= 'f' as u32 {
        Some((10 + u - 'a' as u32) as u16)
    } else if 'A' as u32 <= u && u <= 'F' as u32 {
        Some((10 + u - 'A' as u32) as u16)
    } else {
        None
    }
}

/// The uppercase hex digit of a value below sixteen.
fn hex_char(v: u16) -> (c: char)
    requires
        v < 16,
    ensures
        c == hex_char_upper(v as int),
{
    match v {
        0 => '0', 1 => '1', 2 => '2', 3 => '3', 4 => '4', 5 => '5', 6 => '6',
        7 => '7', 8 => '8', 9 => '9', 10 => 'A', 11 => 'B', 12 => 'C',
        13 => 'D', 14 => 'E', _ => 'F',
    }
}

impl GameCode {
    /// A fresh random code. A collision with a live room is astronomically
    /// unlikely and left to the caller to retry.
    pub fn random() -> Self {
        GameCode(rand::random::<u16>())
    }

    /// The sixteen-bit value of the code.
    pub fn value(&self) -> (v: u16)
        ensures
            v == self.0,
    {
        self.0
    }

    /// Parse a code: exactly four characters, each a hex digit in either case.
    pub fn parse(s: &str) -> (r: Result<GameCode, ParseGameCodeError>)
        ensures
            r == parse_code_spec(s@),
    {
        let n = s.unicode_len();
        if n != 4 {
            return Err(ParseGameCodeError::InvalidLength);
        }
        let mut v: u16 = 0;
        let mut i: usize = 0;
        while i < 4
            invariant
                i <= 4,
                n == 4,
                s@.len() == 4,
                forall|j: int| 0 <= j < i ==> is_hex_digit(s@[j]),
                v == hex_prefix_val(s@, i as int),
                v < pow16(i as int),
            decreases 4 - i,
        {
            let c = s.get_char(i);
            match hex_digit(c) {
                None => {
                    return Err(ParseGameCodeError::InvalidDigit);
                }
                Some(d) => {
                    assert(pow16(i as int) <= 4096) by {
                        reveal_with_fuel(pow16, 5);
                    }
                    v = v * 16 + d;
                }
            }
            i = i + 1;
        }
        proof {
            reveal_with_fuel(pow16, 5);
            lemma_hex_prefix_full(s@);
        }
        Ok(GameCode(v))
    }

    /// Emit the code as four uppercase hex digits.
    pub fn format(&self) -> (r: String)
        ensures
            r@ == code_chars(self.0),
    {
        let mut out = String::new();
        out.push(hex_char(self.0 / 4096 % 16));
        out.push(hex_char(self.0 / 256 % 16));
        out.push(hex_char(self.0 / 16 % 16));
        out.push(hex_char(self.0 % 16));
        proof {
            assert(out@ =~= code_chars(self.0));
        }
        out
    }
}

/// Sixteen to the power `n`.
pub open spec fn pow16(n: int) -> int
    decreases n,
{
    if n <= 0 {
        1
    } else {
        16 * pow16(n - 1)
    }
}

/// Value of the first `n` characters of a hex string.
pub open spec fn hex_prefix_val(s: Seq<char>, n: int) -> int
    decreases n,
{
    if n <= 0 {
        0
    } else {
        hex_prefix_val(s, n - 1) * 16 + hex_digit_val(s[n - 1])
    }
}

proof fn lemma_hex_prefix_full(s: Seq<char>)
    requires
        s.len() == 4,
    ensures
        hex_prefix_val(s, 4) == hex_digit_val(s[0]) * 4096 + hex_digit_val(s[1]) * 256
            + hex_digit_val(s[2]) * 16 + hex_digit_val(s[3]),
{
    reveal_with_fuel(hex_prefix_val, 5);
}

/// A code survives a round trip: parsing its own four-digit form gives it back.
pub proof fn lemma_code_roundtrip(code: GameCode)
    ensures
        parse_code_spec(code_chars(code.0)) == Ok::<GameCode, ParseGameCodeError>(code),
{
    let s = code_chars(code.0);
    let v = code.0 as int;
    assert forall|d: int| 0 <= d < 16 implies hex_digit_val(hex_char_upper(d)) == d by {
    }
    assert(v / 4096 % 16 * 4096 + v / 256 % 16 * 256 + v / 16 % 16 * 16 + v % 16 == v) by {
        assert(v < 65536);
        assert(v / 4096 % 16 == v / 4096) by {
            assert(v / 4096 < 16);
        }
        lemma_digit_sum(v);
    }
}

proof fn lemma_digit_sum(v: int)
    requires
        0 <= v < 65536,
    ensures
        v / 4096 * 4096 + v / 256 % 16 * 256 + v / 16 % 16 * 16 + v % 16 == v,
{
    assert(v / 4096 * 4096 + v / 256 % 16 * 256 + v / 16 % 16 * 16 + v % 16 == v)
        by (nonlinear_arith)
        requires 0 <= v < 65536;
}

} // verus!

//! Reading a guess from what the player typed.

use vstd::prelude::*;
use vstd::string::*;
use crate::error::GameError;

verus! {

/// The value of a decimal digit; no value for any other character.
pub open spec fn digit_value(c: char) -> Option<nat> {
    match c {
        '0' => Some(0),
        '1' => Some(1),
        '2' => Some(2),
        '3' => Some(3),
        '4' => Some(4),
        '5' => Some(5),
        '6' => Some(6),
        '7' => Some(7),
        '8' => Some(8),
        '9' => Some(9),
        _ => None,
    }
}

/// The number that a run of decimal digits writes; no number where a character
/// is no digit.
pub open spec fn digits_value(digits: Seq<char>) -> Option<nat>
    decreases digits.len(),
{
    if digits.len() == 0 {
        Some(0)
    } else {
        match (digits_value(digits.drop_last()), digit_value(digits.last())) {
            (Some(high), Some(low)) => Some(10 * high + low),
            _ => None,
        }
    }
}

/// The digits of a token: the token without the `+` it may start with.
pub open spec fn digits_of(token: Seq<char>) -> Seq<char> {
    if token.len() > 0 && token[0] == '+' {
        token.drop_first()
    } else {
        token
    }
}

/// The guess that a token writes: one or more decimal digits, after a `+` or
/// not, whose number is at most `u16::MAX`. Every other token writes none.
pub open spec fn guess_of(token: Seq<char>) -> Option<u16> {
    match digits_value(digits_of(token)) {
        Some(n) => if digits_of(token).len() > 0 && n <= u16::MAX {
            Some(n as u16)
        } else {
            None
        },
        None => None,
    }
}

/// The digits before a position write no more than the whole run, and where
/// the whole run writes a number they write one.
proof fn lemma_prefix_value(digits: Seq<char>, k: int)
    requires
        0 <= k <= digits.len(),
    ensures
        digits_value(digits) matches Some(n) ==> digits_value(digits.take(k)) matches Some(m) && m
            <= n,
    decreases digits.len(),
{
    if k == digits.len() {
        assert(digits.take(k) =~= digits);
    } else {
        lemma_prefix_value(digits.drop_last(), k);
        assert(digits.drop_last().take(k) =~= digits.take(k));
    }
}

fn digit_of(c: char) -> (value: Option<u32>)
    ensures
        match value {
            Some(d) => digit_value(c) == Some(d as nat),
            None => digit_value(c) is None,
        },
{
    match c {
        '0' => Some(0),
        '1' => Some(1),
        '2' => Some(2),
        '3' => Some(3),
        '4' => Some(4),
        '5' => Some(5),
        '6' => Some(6),
        '7' => Some(7),
        '8' => Some(8),
        '9' => Some(9),
        _ => None,
    }
}

/// Reads a guess from its token, or refuses the token with `InvalidGuess`.
pub fn parse_guess(token: &str) -> (parsed: Result<u16, GameError>)
    ensures
        parsed == match guess_of(token@) {
            Some(guess) => Ok::<u16, GameError>(guess),
            None => Err(GameError::InvalidGuess),
        },
{
    let len = token.unicode_len();
    let start: usize = if len > 0 && token.get_char(0) == '+' {
        1
    } else {
        0
    };
    let ghost digits = digits_of(token@);
    assert(digits =~= token@.skip(start as int));
    if start == len {
        return Err(GameError::InvalidGuess);
    }
    let mut value: u32 = 0;
    let mut index: usize = start;
    while index < len
        invariant
            start <= index <= len,
            len == token@.len(),
            digits == token@.skip(start as int),
            digits == digits_of(token@),
            value <= u16::MAX,
            digits_value(digits.take(index - start)) == Some(value as nat),
        decreases len - index,
    {
        let ghost read = digits.take(index - start + 1);
        proof {
            lemma_prefix_value(digits, index - start + 1);
            assert(read.drop_last() =~= digits.take(index - start));
            assert(read.last() == token@[index as int]);
        }
        match digit_of(token.get_char(index)) {
            Some(d) => {
                value = 10 * value + d;
                if value > 65535 {
                    return Err(GameError::InvalidGuess);
                }
            },
            None => {
                return Err(GameError::InvalidGuess);
            },
        }
        index = index + 1;
    }
    assert(digits.take(index - start) =~= digits);
    Ok(value as u16)
}

} // verus!

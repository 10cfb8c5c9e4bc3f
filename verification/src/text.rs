//! The sentences in which hints are told.

use vstd::prelude::*;
use vstd::string::*;
use crate::hint::{relation_of, HintResult};

verus! {

/// The character of a decimal digit.
pub open spec fn digit(d: int) -> char {
    seq!['0', '1', '2', '3', '4', '5', '6', '7', '8', '9'][d]
}

/// `n` written in decimal digits, without leading zeros.
pub open spec fn decimal(n: nat) -> Seq<char>
    decreases n,
{
    if n < 10 {
        seq![digit(n as int)]
    } else {
        decimal(n / 10).push(digit((n % 10) as int))
    }
}

/// The sentence that tells a hint.
pub open spec fn hint_text(result: HintResult) -> Seq<char> {
    match result {
        HintResult::Hint { category, value } => "Hint: the number is "@ + relation_of(category)
            + " "@ + decimal(value as nat) + "."@,
        HintResult::NoHintAvailable => "No more hints available."@,
    }
}

fn digit_str(d: u16) -> (text: &'static str)
    requires
        d < 10,
    ensures
        text@ == seq![digit(d as int)],
{
    proof {
        reveal_strlit("0");
        reveal_strlit("1");
        reveal_strlit("2");
        reveal_strlit("3");
        reveal_strlit("4");
        reveal_strlit("5");
        reveal_strlit("6");
        reveal_strlit("7");
        reveal_strlit("8");
        reveal_strlit("9");
    }
    let text = match d {
        0 => "0",
        1 => "1",
        2 => "2",
        3 => "3",
        4 => "4",
        5 => "5",
        6 => "6",
        7 => "7",
        8 => "8",
        _ => "9",
    };
    assert(text@ =~= seq![digit(d as int)]);
    text
}

/// Appends `n` in decimal digits to `text`.
pub fn push_decimal(text: &mut String, n: u16)
    ensures
        final(text)@ == old(text)@ + decimal(n as nat),
    decreases n,
{
    if n >= 10 {
        push_decimal(text, n / 10);
    }
    text.append(digit_str(n % 10));
    assert(text@ =~= old(text)@ + decimal(n as nat));
}

/// Tells a hint: `Hint: the number is {relation} {value}.`, or that no hints
/// are left.
pub fn format_hint(result: &HintResult) -> (text: String)
    ensures
        text@ == hint_text(*result),
{
    match result {
        HintResult::Hint { category, value } => {
            let mut text = String::from_str("Hint: the number is ");
            text.append(category.relation());
            text.append(" ");
            push_decimal(&mut text, *value);
            text.append(".");
            text
        },
        HintResult::NoHintAvailable => String::from_str("No more hints available."),
    }
}

} // verus!

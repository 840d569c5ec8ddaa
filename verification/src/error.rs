//! The errors of the library, and the texts that tell of them.

use crate::grammar::Expected;
use crate::lsp::basic::{DocumentUri, Position};
use vstd::prelude::*;
use vstd::string::StringExecFns;

verus! {

/// What can go wrong with a document.
#[derive(Clone, Debug, PartialEq, Eq)]
pub enum Error {
    /// The text is no program: where it stops being one, and what was
    /// expected there.
    ParseError(Position, String),
    /// Reading a document failed, with the reason as a text.
    IoError(String),
    /// No document of that name is open.
    NonExistantDocument(DocumentUri),
    /// A name that nothing declares.
    UndefinedSymbol(String),
}

/// The character that writes the digit `d`.
pub open spec fn digit_char(d: nat) -> char {
    if d == 0 {
        '0'
    } else if d == 1 {
        '1'
    } else if d == 2 {
        '2'
    } else if d == 3 {
        '3'
    } else if d == 4 {
        '4'
    } else if d == 5 {
        '5'
    } else if d == 6 {
        '6'
    } else if d == 7 {
        '7'
    } else if d == 8 {
        '8'
    } else {
        '9'
    }
}

/// The decimal digits that write the number `n`, without leading zeros.
pub open spec fn digits_of(n: nat) -> Seq<char>
    decreases n,
{
    if n < 10 {
        seq![digit_char(n)]
    } else {
        digits_of(n / 10).push(digit_char(n % 10))
    }
}

/// The text that tells of `e`: `expected` and the name of what was missing,
/// a symbol between single quotes.
pub open spec fn expected_text(e: Expected) -> Seq<char> {
    match e {
        Expected::Identifier => "expected identifier"@,
        Expected::Expression => "expected expression"@,
        Expected::Statement => "expected statement"@,
        Expected::Block => "expected block"@,
        Expected::EndOfInput => "expected end of input"@,
        Expected::Symbol(c) => "expected '"@ + seq![c] + "'"@,
    }
}

/// The text that tells of the error `e`. A parse error is told as line,
/// colon, character, colon, space and message, line and character counted
/// from one.
pub open spec fn error_text(e: Error) -> Seq<char> {
    match e {
        Error::ParseError(pos, message) => digits_of((pos.line + 1) as nat) + ":"@ + digits_of(
            (pos.character + 1) as nat,
        ) + ": "@ + message@,
        Error::IoError(reason) => "IO error: "@ + reason@,
        Error::NonExistantDocument(uri) => "No such document at "@ + uri@,
        Error::UndefinedSymbol(name) => "Undefined symbol: "@ + name@,
    }
}

/// The character that writes the digit `d`.
fn digit_to_char(d: u128) -> (c: char)
    requires
        d < 10,
    ensures
        c == digit_char(d as nat),
{
    if d == 0 {
        '0'
    } else if d == 1 {
        '1'
    } else if d == 2 {
        '2'
    } else if d == 3 {
        '3'
    } else if d == 4 {
        '4'
    } else if d == 5 {
        '5'
    } else if d == 6 {
        '6'
    } else if d == 7 {
        '7'
    } else if d == 8 {
        '8'
    } else {
        '9'
    }
}

/// The number `n` in decimal digits.
pub fn decimal_string(n: u128) -> (text: String)
    ensures
        text@ == digits_of(n as nat),
{
    let mut low_first: Vec<char> = Vec::new();
    let mut m: u128 = n;
    loop
        invariant_except_break
            digits_of(n as nat) == digits_of(m as nat) + low_first@.reverse(),
        ensures
            digits_of(n as nat) == low_first@.reverse(),
            low_first@.len() > 0,
        decreases m,
    {
        let ghost before = low_first@;
        let c = digit_to_char(m % 10);
        low_first.push(c);
        assert(low_first@.reverse() =~= seq![c] + before.reverse());
        if m < 10 {
            assert(digits_of(m as nat) + before.reverse() =~= low_first@.reverse());
            break ;
        }
        assert(digits_of(m as nat) + before.reverse() =~= digits_of((m / 10) as nat)
            + low_first@.reverse());
        m = m / 10;
    }
    let mut text = String::new();
    let mut i: usize = low_first.len();
    while i > 0
        invariant
            i <= low_first@.len(),
            text@ == low_first@.reverse().subrange(0, low_first@.len() - i),
        decreases i,
    {
        i -= 1;
        text.push(low_first[i]);
        assert(low_first@.reverse().subrange(0, low_first@.len() - i) =~= low_first@.reverse().subrange(
            0,
            low_first@.len() - i - 1,
        ).push(low_first@[i as int]));
    }
    assert(low_first@.reverse().subrange(0, low_first@.len() as int) =~= low_first@.reverse());
    text
}

impl Expected {
    /// The text that tells what was expected.
    pub fn describe(&self) -> (text: String)
        ensures
            text@ == expected_text(*self),
    {
        match self {
            Expected::Identifier => String::from_str("expected identifier"),
            Expected::Expression => String::from_str("expected expression"),
            Expected::Statement => String::from_str("expected statement"),
            Expected::Block => String::from_str("expected block"),
            Expected::EndOfInput => String::from_str("expected end of input"),
            Expected::Symbol(c) => {
                let mut text = String::from_str("expected '");
                text.push(*c);
                text.append("'");
                text
            },
        }
    }
}

impl Error {
    /// The text that tells of the error.
    pub fn describe(&self) -> (text: String)
        ensures
            text@ == error_text(*self),
    {
        match self {
            Error::ParseError(pos, message) => {
                let mut text = decimal_string(pos.line as u128 + 1);
                text.append(":");
                text.append(decimal_string(pos.character as u128 + 1).as_str());
                text.append(": ");
                text.append(message.as_str());
                text
            },
            Error::IoError(reason) => {
                let mut text = String::from_str("IO error: ");
                text.append(reason.as_str());
                text
            },
            Error::NonExistantDocument(uri) => {
                let mut text = String::from_str("No such document at ");
                text.append(uri.as_str());
                text
            },
            Error::UndefinedSymbol(name) => {
                let mut text = String::from_str("Undefined symbol: ");
                text.append(name.as_str());
                text
            },
        }
    }
}

} // verus!

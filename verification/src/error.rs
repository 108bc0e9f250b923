//! The failures that end a scan.

use vstd::prelude::*;
use vstd::string::StringExecFns;
use crate::position::Position;

verus! {

/// Why a scan stopped.
#[derive(Clone, Copy, Debug, PartialEq, Eq, Structural)]
pub enum LexErrorKind {
    /// A numeric literal holds a second decimal point.
    MultipleDecimalPoints,
    /// The text ends inside a string literal.
    UnclosedString,
    /// A backslash is followed by this character, which names no escape.
    InvalidEscape(char),
    /// A character literal has this character where its closing quote is due.
    UnexpectedCharacter(char),
}

/// A fatal lexical error: what went wrong, and where.
#[derive(Clone, Copy, Debug, PartialEq, Eq, Structural)]
pub struct LexError {
    pub kind: LexErrorKind,
    pub position: Position,
}

impl LexErrorKind {
    /// The message that tells a reader of the source what is wrong.
    pub open spec fn message_text(self) -> Seq<char> {
        match self {
            LexErrorKind::MultipleDecimalPoints =>
                "Floating point numbers can only have a single decimal point."@,
            LexErrorKind::UnclosedString => "Unclosed string literal."@,
            LexErrorKind::InvalidEscape(c) => "Invalid escape sequence: `\\"@.push(c) + "`."@,
            LexErrorKind::UnexpectedCharacter(c) => "Unexpected character `"@.push(c)
                + "`. Expected (closing) single quote."@,
        }
    }

    pub fn message(&self) -> (m: String)
        ensures
            m@ == self.message_text(),
    {
        match self {
            LexErrorKind::MultipleDecimalPoints => String::from_str(
                "Floating point numbers can only have a single decimal point.",
            ),
            LexErrorKind::UnclosedString => String::from_str("Unclosed string literal."),
            LexErrorKind::InvalidEscape(c) => {
                let mut m = String::from_str("Invalid escape sequence: `\\");
                m.push(*c);
                m.append("`.");
                m
            },
            LexErrorKind::UnexpectedCharacter(c) => {
                let mut m = String::from_str("Unexpected character `");
                m.push(*c);
                m.append("`. Expected (closing) single quote.");
                m
            },
        }
    }
}

impl LexError {
    pub fn message(&self) -> (m: String)
        ensures
            m@ == self.kind.message_text(),
    {
        self.kind.message()
    }
}

} // verus!

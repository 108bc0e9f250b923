//! Source positions.

use vstd::prelude::*;
use vstd::string::StringExecFns;
use crate::text::{decimal, push_decimal};

verus! {

/// Where a lexeme lies in the source: its line, and the columns of its
/// first and last characters.
#[derive(Clone, Copy, Debug, PartialEq, Eq, Structural)]
pub struct Position {
    pub line: usize,
    pub start: usize,
    pub end: usize,
}

impl Position {
    /// The columns are in order: the span does not end before it starts.
    pub open spec fn is_ordered(&self) -> bool {
        self.start <= self.end
    }

    pub fn new(line: usize, start: usize, end: usize) -> (p: Self)
        ensures
            p == (Position { line, start, end }),
    {
        Self { line, start, end }
    }

    /// A span of one column.
    pub fn new_single(line: usize, position: usize) -> (p: Self)
        ensures
            p == (Position { line, start: position, end: position }),
            p.is_ordered(),
    {
        Position::new(line, position, position)
    }

    /// The position as text: the line, then the column, or the two columns
    /// where the span has more than one.
    pub open spec fn text(&self) -> Seq<char> {
        if self.end == self.start {
            "Line: "@ + decimal(self.line as nat) + ", Column: "@ + decimal(self.start as nat)
        } else {
            "Line: "@ + decimal(self.line as nat) + ", Columns: "@ + decimal(self.start as nat)
                + "-"@ + decimal(self.end as nat)
        }
    }

    pub fn to_string(&self) -> (s: String)
        ensures
            s@ == self.text(),
    {
        let mut s = String::from_str("Line: ");
        push_decimal(&mut s, self.line);
        if self.end == self.start {
            s.append(", Column: ");
            push_decimal(&mut s, self.start);
        } else {
            s.append(", Columns: ");
            push_decimal(&mut s, self.start);
            s.append("-");
            push_decimal(&mut s, self.end);
        }
        s
    }
}

} // verus!

//! Rendering a diagnostic: the message, the offending source line, and a
//! row of carets under the offending span.

use vstd::prelude::*;
use vstd::string::StringExecFns;
use crate::position::Position;
use crate::text::{decimal, push_decimal, push_repeated, repeated};

verus! {

// ---------------------------------------------------------------------------
// Source lines
// ---------------------------------------------------------------------------

/// The index of the first newline at or after `from`, or the length of
/// the text where there is none.
pub open spec fn next_newline(s: Seq<char>, from: int) -> int
    decreases s.len() - from,
{
    if from < 0 || from >= s.len() {
        s.len() as int
    } else if s[from] == '\n' {
        from
    } else {
        next_newline(s, from + 1)
    }
}

/// The index at which line `n` starts, counted from 0; the length of the
/// text where it has no such line.
pub open spec fn line_start(s: Seq<char>, n: nat) -> int
    decreases n,
{
    if n == 0 {
        0
    } else {
        let ending = next_newline(s, line_start(s, (n - 1) as nat));
        if ending < s.len() {
            ending + 1
        } else {
            s.len() as int
        }
    }
}

/// Where the text of the line that starts at `start` ends: before its
/// newline, and before a carriage return that the newline follows.
pub open spec fn line_stop(s: Seq<char>, start: int) -> int {
    let ending = next_newline(s, start);
    if start < ending < s.len() && s[ending - 1] == '\r' {
        ending - 1
    } else {
        ending
    }
}

/// The text of line `n` without its line ending; empty where the text has
/// no such line.
pub open spec fn line_text(s: Seq<char>, n: nat) -> Seq<char> {
    s.subrange(line_start(s, n), line_stop(s, line_start(s, n)))
}

/// The index of the first newline at or after `from`.
fn find_newline(source: &Vec<char>, from: usize) -> (at: usize)
    requires
        from <= source.len(),
    ensures
        at == next_newline(source@, from as int),
        from <= at <= source.len(),
{
    let mut at = from;
    while at < source.len() && source[at] != '\n'
        invariant
            from <= at <= source.len(),
            next_newline(source@, from as int) == next_newline(source@, at as int),
        decreases source.len() - at,
    {
        at += 1;
    }
    at
}

/// Appends the text of line `n` of `source`.
fn push_line(out: &mut String, source: &Vec<char>, n: usize)
    ensures
        final(out)@ == old(out)@ + line_text(source@, n as nat),
{
    let mut start: usize = 0;
    let mut line: usize = 0;
    while line < n
        invariant
            line <= n,
            start <= source.len(),
            start == line_start(source@, line as nat),
        decreases n - line,
    {
        let ending = find_newline(source, start);
        start = if ending < source.len() {
            ending + 1
        } else {
            source.len()
        };
        line += 1;
    }
    let ending = find_newline(source, start);
    let stop = if start < ending && ending < source.len() && source[ending - 1] == '\r' {
        ending - 1
    } else {
        ending
    };
    let mut i = start;
    while i < stop
        invariant
            start <= i <= stop <= source.len(),
            out@ == old(out)@ + source@.subrange(start as int, i as int),
        decreases stop - i,
    {
        out.push(source[i]);
        i += 1;
        proof {
            assert(out@ =~= old(out)@ + source@.subrange(start as int, i as int));
        }
    }
}

// ---------------------------------------------------------------------------
// The report
// ---------------------------------------------------------------------------

/// How many carets underline a span: as many as its columns lie apart,
/// and never fewer than two.
pub open spec fn underline_width(position: Position) -> nat {
    if position.end - position.start <= 1 {
        2
    } else {
        (position.end - position.start) as nat
    }
}

/// How far the carets are moved in under the source line: one less than
/// the span's first column.
pub open spec fn underline_indent(position: Position) -> nat {
    if position.start == 0 {
        0
    } else {
        (position.start - 1) as nat
    }
}

/// The diagnostic for `message` at `position` in `source`: a headline
/// with the line number and the message, the source line behind its
/// number, and carets under the span.
pub open spec fn report_text(source: Seq<char>, message: Seq<char>, position: Position) -> Seq<
    char,
> {
    let number = decimal(position.line as nat);
    "Error on line "@ + number + ": "@ + message + "\n "@ + number + " | "@ + line_text(
        source,
        position.line as nat,
    ) + "\n "@ + repeated(' ', number.len()) + "   "@ + repeated(' ', underline_indent(position))
        + repeated('^', underline_width(position)) + " <- Here"@
}

/// Renders the diagnostic for `message` at `position` in `source`.
pub fn render_report(source: &Vec<char>, message: &str, position: Position) -> (report: String)
    ensures
        report@ == report_text(source@, message@, position),
{
    let mut number = String::new();
    push_decimal(&mut number, position.line);
    let width = number.as_str().unicode_len();
    let carets = if position.end <= position.start || position.end - position.start <= 1 {
        2
    } else {
        position.end - position.start
    };
    let indent = if position.start == 0 {
        0
    } else {
        position.start - 1
    };
    let mut report = String::from_str("Error on line ");
    report.append(number.as_str());
    report.append(": ");
    report.append(message);
    report.append("\n ");
    report.append(number.as_str());
    report.append(" | ");
    push_line(&mut report, source, position.line);
    report.append("\n ");
    push_repeated(&mut report, ' ', width);
    report.append("   ");
    push_repeated(&mut report, ' ', indent);
    push_repeated(&mut report, '^', carets);
    report.append(" <- Here");
    proof {
        assert(number@ =~= decimal(position.line as nat));
    }
    report
}

} // verus!

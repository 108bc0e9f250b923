//! The lexical grammar as mathematics: character classes, the cursor's
//! line and column, and what each kind of lexeme denotes.

use vstd::prelude::*;
use crate::error::{LexError, LexErrorKind};
use crate::keyword::KeywordView;
use crate::position::Position;
use crate::token::TokenView;
use crate::token_type::TokenType;

verus! {

// ---------------------------------------------------------------------------
// Character classes
// ---------------------------------------------------------------------------

pub open spec fn is_letter(c: char) -> bool {
    ('a' <= c && c <= 'z') || ('A' <= c && c <= 'Z')
}

pub open spec fn is_digit(c: char) -> bool {
    '0' <= c && c <= '9'
}

/// A character that may open an identifier.
pub open spec fn is_identifier_start(c: char) -> bool {
    is_letter(c) || c == '_'
}

/// A character that may continue an identifier.
pub open spec fn is_identifier_part(c: char) -> bool {
    is_identifier_start(c) || is_digit(c)
}

/// A character that may continue a numeric literal.
pub open spec fn is_number_part(c: char) -> bool {
    is_digit(c) || c == '.' || c == '_'
}

/// A character that separates lexemes and yields no token.
pub open spec fn is_blank(c: char) -> bool {
    c == ' ' || c == '\n' || c == '\t' || c == '\r'
}

/// The character under index `p`, or the null character where the text has
/// none.
pub open spec fn char_at(s: Seq<char>, p: int) -> char {
    if 0 <= p < s.len() {
        s[p]
    } else {
        '\0'
    }
}

// ---------------------------------------------------------------------------
// The cursor
// ---------------------------------------------------------------------------

/// The line of the character at index `p`: the number of newlines among
/// `s[0..=p]`. A newline itself already counts as standing on the line it
/// opens.
pub open spec fn line_at(s: Seq<char>, p: int) -> nat
    decreases p,
{
    if p < 0 || p >= s.len() {
        0
    } else {
        let before = if p == 0 {
            0nat
        } else {
            line_at(s, p - 1)
        };
        if s[p] == '\n' {
            before + 1
        } else {
            before
        }
    }
}

/// The column of the character at index `p`. A newline stands in column 0
/// of the line it opens and the first character of the text stands in
/// column 0 as well; every other character stands one column right of its
/// predecessor.
pub open spec fn col_at(s: Seq<char>, p: int) -> nat
    decreases p,
{
    if p <= 0 || p >= s.len() {
        0
    } else if s[p] == '\n' {
        0
    } else {
        col_at(s, p - 1) + 1
    }
}

/// The index that the cursor last rested on when it has made its way to
/// `p`: `p` itself inside the text, the last index beyond it.
pub open spec fn resting(s: Seq<char>, p: int) -> int {
    if p < s.len() {
        p
    } else {
        s.len() - 1
    }
}

/// The cursor's line at offset `p`; past the end it stays where the last
/// character left it.
pub open spec fn cursor_line(s: Seq<char>, p: int) -> nat {
    line_at(s, resting(s, p))
}

/// The cursor's column at offset `p`; past the end it stays where the last
/// character left it.
pub open spec fn cursor_col(s: Seq<char>, p: int) -> nat {
    col_at(s, resting(s, p))
}

/// Lines and columns never run ahead of the index they belong to.
pub proof fn lemma_cursor_bounds(s: Seq<char>, p: int)
    ensures
        0 <= p ==> line_at(s, p) <= p + 1 && col_at(s, p) <= p,
        p < 0 ==> line_at(s, p) == 0 && col_at(s, p) == 0,
    decreases p,
{
    if 0 < p < s.len() {
        lemma_cursor_bounds(s, p - 1);
    }
}

/// The span of the lexeme `s[first..=last]`: the line and column of its
/// first character and the column of its last.
pub open spec fn span_of(s: Seq<char>, first: int, last: int) -> Position {
    Position {
        line: line_at(s, first) as usize,
        start: col_at(s, first) as usize,
        end: col_at(s, last) as usize,
    }
}

/// The one-column span of the character at index `p`.
pub open spec fn point_at(s: Seq<char>, p: int) -> Position {
    span_of(s, p, p)
}

// ---------------------------------------------------------------------------
// One step of the scan
// ---------------------------------------------------------------------------

/// What scanning one lexeme yields: a token, or none for white space, and
/// the offset at which the next lexeme starts.
pub struct Step {
    pub token: Option<TokenView>,
    pub next: int,
}

/// A lexeme that carries no payload.
pub open spec fn bare(kind: TokenType, span: Position) -> TokenView {
    TokenView { kind, payload: None, span }
}

/// A lexeme with its decoded text.
pub open spec fn laden(kind: TokenType, text: Seq<char>, span: Position) -> TokenView {
    TokenView { kind, payload: Some(text), span }
}

// ---- identifiers, keywords, booleans --------------------------------------

/// The end of the longest run of identifier characters that starts at
/// `from`: the first index at or after `from` that holds none.
pub open spec fn word_end(s: Seq<char>, from: int) -> int
    decreases s.len() - from,
{
    if 0 <= from < s.len() && is_identifier_part(s[from]) {
        word_end(s, from + 1)
    } else {
        from
    }
}

/// The kind of the first keyword, from index `from` on, whose pattern is
/// exactly `word`.
pub open spec fn keyword_from(table: Seq<KeywordView>, word: Seq<char>, from: int) -> Option<
    TokenType,
>
    decreases table.len() - from,
{
    if from < 0 || from >= table.len() {
        None
    } else if table[from].pattern == word {
        Some(table[from].kind)
    } else {
        keyword_from(table, word, from + 1)
    }
}

/// The kind that the table reserves for `word`, if any.
pub open spec fn keyword_kind(table: Seq<KeywordView>, word: Seq<char>) -> Option<TokenType> {
    keyword_from(table, word, 0)
}

pub open spec fn is_boolean_word(word: Seq<char>) -> bool {
    word == "true"@ || word == "false"@
}

/// A word is a boolean literal first, a keyword second and an identifier
/// otherwise. Only booleans and identifiers keep their text.
pub open spec fn word_token(table: Seq<KeywordView>, word: Seq<char>, span: Position) -> TokenView {
    if is_boolean_word(word) {
        laden(TokenType::Boolean, word, span)
    } else {
        match keyword_kind(table, word) {
            Some(kind) => bare(kind, span),
            None => laden(TokenType::Identifier, word, span),
        }
    }
}

/// The word that starts at `at`.
pub open spec fn word_step(s: Seq<char>, table: Seq<KeywordView>, at: int) -> Step {
    let end = word_end(s, at);
    Step { token: Some(word_token(table, s.subrange(at, end), span_of(s, at, end - 1))), next: end }
}

// ---- numbers --------------------------------------------------------------

/// The end of the longest run of digits, points and underscores that
/// starts at `from`.
pub open spec fn number_end(s: Seq<char>, from: int) -> int
    decreases s.len() - from,
{
    if 0 <= from < s.len() && is_number_part(s[from]) {
        number_end(s, from + 1)
    } else {
        from
    }
}

/// The index of the first decimal point in `s[from..to)`, or `to` where
/// there is none.
pub open spec fn next_point(s: Seq<char>, from: int, to: int) -> int
    decreases to - from,
{
    if from >= to {
        to
    } else if char_at(s, from) == '.' {
        from
    } else {
        next_point(s, from + 1, to)
    }
}

/// What a numeric literal keeps of its text: everything but the group
/// separator.
pub open spec fn is_kept_in_number() -> spec_fn(char) -> bool {
    |c: char| c != '_'
}

/// The numeric literal that starts at `at`: an integer without a decimal
/// point, a float with one, and an error at the second point where it has
/// more.
pub open spec fn number_step(s: Seq<char>, at: int) -> Result<Step, LexError> {
    let end = number_end(s, at);
    let first = next_point(s, at, end);
    let second = next_point(s, first + 1, end);
    if first < end && second < end {
        Err(LexError { kind: LexErrorKind::MultipleDecimalPoints, position: point_at(s, second) })
    } else {
        let kind = if first < end {
            TokenType::Float
        } else {
            TokenType::Integer
        };
        let text = s.subrange(at, end).filter(is_kept_in_number());
        Ok(Step { token: Some(laden(kind, text, span_of(s, at, end - 1))), next: end })
    }
}

// ---- escapes --------------------------------------------------------------

/// The character that an escape letter stands for.
pub open spec fn unescape(c: char) -> Option<char> {
    if c == 'n' {
        Some('\n')
    } else if c == 'r' {
        Some('\r')
    } else if c == 't' {
        Some('\r')
    } else if c == '\'' {
        Some('\'')
    } else if c == '"' {
        Some('"')
    } else if c == '\\' {
        Some('\\')
    } else if c == '0' {
        Some('\0')
    } else {
        None
    }
}

/// The error for a backslash at index `slash` that no escape letter
/// follows. Its span runs from the backslash to where the cursor stands on
/// the offending character.
pub open spec fn escape_error(s: Seq<char>, slash: int) -> LexError {
    LexError {
        kind: LexErrorKind::InvalidEscape(char_at(s, slash + 1)),
        position: Position {
            line: cursor_line(s, slash + 1) as usize,
            start: col_at(s, slash) as usize,
            end: cursor_col(s, slash + 1) as usize,
        },
    }
}

// ---- strings --------------------------------------------------------------

/// How the body of a string literal ends.
pub enum Quoted {
    /// The closing quote stands at `close`; `text` is the decoded body.
    Closed { text: Seq<char>, close: int },
    /// The text ends before a closing quote.
    Unclosed,
    /// The backslash at `slash` opens no escape sequence.
    BadEscape { slash: int },
}

/// `q` with `c` put in front of its text.
pub open spec fn led_by(c: char, q: Quoted) -> Quoted {
    match q {
        Quoted::Closed { text, close } => Quoted::Closed { text: seq![c] + text, close },
        _ => q,
    }
}

/// The body of a string literal from index `from`, which lies behind the
/// opening quote.
pub open spec fn string_body(s: Seq<char>, from: int) -> Quoted
    decreases s.len() - from,
{
    if from < 0 || from >= s.len() {
        Quoted::Unclosed
    } else if s[from] == '"' {
        Quoted::Closed { text: Seq::empty(), close: from }
    } else if s[from] == '\\' {
        match unescape(char_at(s, from + 1)) {
            Some(c) => led_by(c, string_body(s, from + 2)),
            None => Quoted::BadEscape { slash: from },
        }
    } else {
        led_by(s[from], string_body(s, from + 1))
    }
}

/// The string literal whose opening quote stands at `at`.
pub open spec fn string_step(s: Seq<char>, at: int) -> Result<Step, LexError> {
    match string_body(s, at + 1) {
        Quoted::Closed { text, close } => Ok(
            Step { token: Some(laden(TokenType::String, text, span_of(s, at, close))), next: close + 1 },
        ),
        Quoted::Unclosed => Err(
            LexError { kind: LexErrorKind::UnclosedString, position: point_at(s, at) },
        ),
        Quoted::BadEscape { slash } => Err(escape_error(s, slash)),
    }
}

// ---- character literals ---------------------------------------------------

/// The error for a character literal opened at `at` that has something
/// other than a closing quote at `close`.
pub open spec fn closing_error(s: Seq<char>, at: int, close: int) -> LexError {
    LexError {
        kind: LexErrorKind::UnexpectedCharacter(char_at(s, close)),
        position: Position {
            line: line_at(s, at) as usize,
            start: cursor_col(s, close) as usize,
            end: cursor_col(s, close) as usize,
        },
    }
}

/// The character literal opened at `at`, given its decoded value and the
/// index `close` at which the closing quote is due.
pub open spec fn char_closing(s: Seq<char>, at: int, value: char, close: int) -> Result<
    Step,
    LexError,
> {
    if char_at(s, close) == '\'' {
        Ok(
            Step {
                token: Some(laden(TokenType::Char, seq![value], span_of(s, at, close))),
                next: close + 1,
            },
        )
    } else {
        Err(closing_error(s, at, close))
    }
}

/// The character literal whose opening quote stands at `at`.
pub open spec fn char_step(s: Seq<char>, at: int) -> Result<Step, LexError> {
    if char_at(s, at + 1) == '\\' {
        match unescape(char_at(s, at + 2)) {
            Some(c) => char_closing(s, at, c, at + 3),
            None => Err(escape_error(s, at + 1)),
        }
    } else {
        char_closing(s, at, char_at(s, at + 1), at + 2)
    }
}

// ---- operators and punctuation --------------------------------------------

/// The kind of the two-character lexeme `a b`, if it is one.
pub open spec fn pair_kind(a: char, b: char) -> Option<TokenType> {
    if a == '+' && b == '+' {
        Some(TokenType::Increment)
    } else if a == '+' && b == '=' {
        Some(TokenType::PositionalAdd)
    } else if a == '-' && b == '-' {
        Some(TokenType::Decrement)
    } else if a == '-' && b == '=' {
        Some(TokenType::PositionalSubtract)
    } else if a == '*' && b == '=' {
        Some(TokenType::PositionalMultiply)
    } else if a == '/' && b == '=' {
        Some(TokenType::PositionalDivide)
    } else if a == '%' && b == '=' {
        Some(TokenType::PositionalRemainder)
    } else if a == '^' && b == '=' {
        Some(TokenType::PositionalPower)
    } else if a == '=' && b == '=' {
        Some(TokenType::Equal)
    } else if a == '!' && b == '=' {
        Some(TokenType::NotEqual)
    } else if a == '<' && b == '=' {
        Some(TokenType::LessThanOrEqual)
    } else if a == '>' && b == '=' {
        Some(TokenType::GreaterThanOrEqual)
    } else if a == '&' && b == '&' {
        Some(TokenType::And)
    } else if a == '|' && b == '|' {
        Some(TokenType::Or)
    } else {
        None
    }
}

/// The kind of the one-character lexeme `a`, if it is one.
pub open spec fn single_kind(a: char) -> Option<TokenType> {
    if a == '+' {
        Some(TokenType::Plus)
    } else if a == '-' {
        Some(TokenType::Minus)
    } else if a == '*' {
        Some(TokenType::Star)
    } else if a == '/' {
        Some(TokenType::ForwardSlash)
    } else if a == '%' {
        Some(TokenType::Remainder)
    } else if a == '^' {
        Some(TokenType::Power)
    } else if a == '.' {
        Some(TokenType::Period)
    } else if a == ',' {
        Some(TokenType::Comma)
    } else if a == ';' {
        Some(TokenType::Semicolon)
    } else if a == ':' {
        Some(TokenType::Colon)
    } else if a == '=' {
        Some(TokenType::Assign)
    } else if a == '!' {
        Some(TokenType::ExclamationMark)
    } else if a == '<' {
        Some(TokenType::LessThan)
    } else if a == '>' {
        Some(TokenType::GreaterThan)
    } else if a == '(' {
        Some(TokenType::LeftParenthesis)
    } else if a == ')' {
        Some(TokenType::RightParenthesis)
    } else if a == '[' {
        Some(TokenType::LeftBracket)
    } else if a == ']' {
        Some(TokenType::RightBracket)
    } else if a == '{' {
        Some(TokenType::LeftBrace)
    } else if a == '}' {
        Some(TokenType::RightBrace)
    } else {
        None
    }
}

/// The operator or punctuation mark at `at`, longest match first; a
/// character that is neither becomes a token of the catch-all kind.
pub open spec fn symbol_step(s: Seq<char>, at: int) -> Step {
    match pair_kind(char_at(s, at), char_at(s, at + 1)) {
        Some(kind) => Step { token: Some(bare(kind, span_of(s, at, at + 1))), next: at + 2 },
        None => match single_kind(char_at(s, at)) {
            Some(kind) => Step { token: Some(bare(kind, point_at(s, at))), next: at + 1 },
            None => Step {
                token: Some(laden(TokenType::Character, seq![char_at(s, at)], point_at(s, at))),
                next: at + 1,
            },
        },
    }
}

// ---------------------------------------------------------------------------
// Progress
// ---------------------------------------------------------------------------

/// A run of identifier characters ends behind its start and inside the
/// text.
pub proof fn lemma_word_end_bounds(s: Seq<char>, from: int)
    requires
        0 <= from <= s.len(),
    ensures
        from <= word_end(s, from) <= s.len(),
        from < s.len() && is_identifier_part(s[from]) ==> from < word_end(s, from),
    decreases s.len() - from,
{
    if from < s.len() && is_identifier_part(s[from]) {
        lemma_word_end_bounds(s, from + 1);
    }
}

/// A run of number characters ends behind its start and inside the text.
pub proof fn lemma_number_end_bounds(s: Seq<char>, from: int)
    requires
        0 <= from <= s.len(),
    ensures
        from <= number_end(s, from) <= s.len(),
        from < s.len() && is_number_part(s[from]) ==> from < number_end(s, from),
    decreases s.len() - from,
{
    if from < s.len() && is_number_part(s[from]) {
        lemma_number_end_bounds(s, from + 1);
    }
}

/// The closing quote of a string literal stands inside the text, at or
/// behind the start of the body; so does a backslash that opens no escape.
pub proof fn lemma_string_body_bounds(s: Seq<char>, from: int)
    requires
        0 <= from,
    ensures
        match string_body(s, from) {
            Quoted::Closed { text, close } => from <= close < s.len() && s[close] == '"',
            Quoted::Unclosed => true,
            Quoted::BadEscape { slash } => from <= slash < s.len() && s[slash] == '\\'
                && unescape(char_at(s, slash + 1)) is None,
        },
    decreases s.len() - from,
{
    if from < s.len() && s[from] != '"' {
        if s[from] == '\\' {
            if unescape(char_at(s, from + 1)) is Some {
                lemma_string_body_bounds(s, from + 2);
            }
        } else {
            lemma_string_body_bounds(s, from + 1);
        }
    }
}

/// Every lexeme takes at least one character.
pub proof fn lemma_step_advances(s: Seq<char>, table: Seq<KeywordView>, at: int)
    requires
        0 <= at < s.len(),
    ensures
        step_at(s, table, at) matches Ok(step) ==> at < step.next <= s.len(),
{
    lemma_word_end_bounds(s, at);
    lemma_number_end_bounds(s, at);
    lemma_string_body_bounds(s, at + 1);
}

// ---------------------------------------------------------------------------
// The whole scan
// ---------------------------------------------------------------------------

/// The lexeme that starts at `at`, an index inside the text.
pub open spec fn step_at(s: Seq<char>, table: Seq<KeywordView>, at: int) -> Result<Step, LexError> {
    let c = char_at(s, at);
    if is_identifier_start(c) {
        Ok(word_step(s, table, at))
    } else if is_digit(c) {
        number_step(s, at)
    } else if c == '"' {
        string_step(s, at)
    } else if c == '\'' {
        char_step(s, at)
    } else if is_blank(c) {
        Ok(Step { token: None, next: at + 1 })
    } else {
        Ok(symbol_step(s, at))
    }
}

/// The marker that closes every token sequence. It stands where the
/// cursor came to rest.
pub open spec fn end_marker(s: Seq<char>) -> TokenView {
    bare(
        TokenType::EOF,
        Position {
            line: cursor_line(s, s.len() as int) as usize,
            start: cursor_col(s, s.len() as int) as usize,
            end: cursor_col(s, s.len() as int) as usize,
        },
    )
}

/// `tokens` with the token of `step`, if it has one, put in front.
pub open spec fn preceded_by(step: Step, tokens: Seq<TokenView>) -> Seq<TokenView> {
    match step.token {
        Some(t) => seq![t] + tokens,
        None => tokens,
    }
}

/// The tokens of `s` from offset `from` to its end, closed by the end
/// marker, or the first error that the scan meets.
pub open spec fn tokens_from(s: Seq<char>, table: Seq<KeywordView>, from: int) -> Result<
    Seq<TokenView>,
    LexError,
>
    decreases s.len() - from,
{
    if from < 0 || from >= s.len() {
        Ok(seq![end_marker(s)])
    } else {
        match step_at(s, table, from) {
            Err(e) => Err(e),
            Ok(step) => {
                proof {
                    lemma_step_advances(s, table, from);
                }
                match tokens_from(s, table, step.next) {
                    Err(e) => Err(e),
                    Ok(rest) => Ok(preceded_by(step, rest)),
                }
            },
        }
    }
}

/// The tokens of the whole text `s`.
pub open spec fn tokens_of(s: Seq<char>, table: Seq<KeywordView>) -> Result<
    Seq<TokenView>,
    LexError,
> {
    tokens_from(s, table, 0)
}

} // verus!

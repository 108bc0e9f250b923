//! The scanning engine: a cursor over the source text that turns it into
//! tokens, one lexeme at a time.

use vstd::prelude::*;
use vstd::string::StringExecFns;
use crate::error::{LexError, LexErrorKind};
use crate::grammar::{
    char_at, char_step, col_at, cursor_col, cursor_line, end_marker, escape_error, is_blank,
    is_digit, is_identifier_part, is_identifier_start, is_kept_in_number, is_number_part,
    keyword_from, keyword_kind, lemma_cursor_bounds, lemma_number_end_bounds,
    lemma_step_advances, line_at,
    next_point, number_end, number_step, pair_kind, single_kind, step_at, string_body,
    string_step, symbol_step, tokens_from, unescape, word_end, word_step, Quoted, Step,
};
use crate::keyword::{table_view, Keyword, KeywordView};
use crate::position::Position;
use crate::text::scalars_of;
use crate::token::{tokens_view, Token, TokenView};
use crate::token_type::TokenType;

verus! {

/// The lexer, or tokenizer: the source text, the reserved words, and a
/// cursor with the line and column it stands on.
#[derive(Debug)]
pub struct Lexer {
    source: Vec<char>,
    keywords: Vec<Keyword>,
    position: usize,
    line: usize,
    column: usize,
}

/// What a scan hands back, as the grammar sees it.
pub open spec fn outcome_view(outcome: Result<Vec<Token>, LexError>) -> Result<
    Seq<TokenView>,
    LexError,
> {
    match outcome {
        Ok(tokens) => Ok(tokens_view(tokens@)),
        Err(e) => Err(e),
    }
}

/// What an optional token is to the grammar.
pub open spec fn token_view(found: Option<Token>) -> Option<TokenView> {
    match found {
        Some(token) => Some(token@),
        None => None,
    }
}

/// `rest` with the tokens `done` put in front; an error stays as it is.
pub open spec fn continued(done: Seq<TokenView>, rest: Result<Seq<TokenView>, LexError>) -> Result<
    Seq<TokenView>,
    LexError,
> {
    match rest {
        Ok(tokens) => Ok(done + tokens),
        Err(e) => Err(e),
    }
}

/// `q` with `prefix` put in front of its text.
pub open spec fn prefixed(prefix: Seq<char>, q: Quoted) -> Quoted {
    match q {
        Quoted::Closed { text, close } => Quoted::Closed { text: prefix + text, close },
        _ => q,
    }
}

fn starts_identifier(c: char) -> (b: bool)
    ensures
        b == is_identifier_start(c),
{
    (c >= 'a' && c <= 'z') || (c >= 'A' && c <= 'Z') || c == '_'
}

fn is_decimal_digit(c: char) -> (b: bool)
    ensures
        b == is_digit(c),
{
    c >= '0' && c <= '9'
}

fn continues_identifier(c: char) -> (b: bool)
    ensures
        b == is_identifier_part(c),
{
    starts_identifier(c) || is_decimal_digit(c)
}

fn continues_number(c: char) -> (b: bool)
    ensures
        b == is_number_part(c),
{
    is_decimal_digit(c) || c == '.' || c == '_'
}

fn is_skipped(c: char) -> (b: bool)
    ensures
        b == is_blank(c),
{
    c == ' ' || c == '\n' || c == '\t' || c == '\r'
}

/// The kind of a two-character operator.
fn two_character_kind(a: char, b: char) -> (kind: Option<TokenType>)
    ensures
        kind == pair_kind(a, b),
{
    if a == '+' && b == '+' {
        Some(TokenType::Increment)
    } else if a == '+' && b == '=' {
        Some(TokenType::PositionalAdd)
    } else if a == '-' && b == '-' {
        Some(TokenType::Decrement)
    } else if a == '-' && b == '=' {
        Some(TokenType::PositionalSubtract)
    } else if a == '*' && b == '=' {
        Some(TokenType::PositionalMultiply)
    } else if a == '/' && b == '=' {
        Some(TokenType::PositionalDivide)
    } else if a == '%' && b == '=' {
        Some(TokenType::PositionalRemainder)
    } else if a == '^' && b == '=' {
        Some(TokenType::PositionalPower)
    } else if a == '=' && b == '=' {
        Some(TokenType::Equal)
    } else if a == '!' && b == '=' {
        Some(TokenType::NotEqual)
    } else if a == '<' && b == '=' {
        Some(TokenType::LessThanOrEqual)
    } else if a == '>' && b == '=' {
        Some(TokenType::GreaterThanOrEqual)
    } else if a == '&' && b == '&' {
        Some(TokenType::And)
    } else if a == '|' && b == '|' {
        Some(TokenType::Or)
    } else {
        None
    }
}

/// The kind of a one-character operator or punctuation mark.
fn one_character_kind(a: char) -> (kind: Option<TokenType>)
    ensures
        kind == single_kind(a),
{
    if a == '+' {
        Some(TokenType::Plus)
    } else if a == '-' {
        Some(TokenType::Minus)
    } else if a == '*' {
        Some(TokenType::Star)
    } else if a == '/' {
        Some(TokenType::ForwardSlash)
    } else if a == '%' {
        Some(TokenType::Remainder)
    } else if a == '^' {
        Some(TokenType::Power)
    } else if a == '.' {
        Some(TokenType::Period)
    } else if a == ',' {
        Some(TokenType::Comma)
    } else if a == ';' {
        Some(TokenType::Semicolon)
    } else if a == ':' {
        Some(TokenType::Colon)
    } else if a == '=' {
        Some(TokenType::Assign)
    } else if a == '!' {
        Some(TokenType::ExclamationMark)
    } else if a == '<' {
        Some(TokenType::LessThan)
    } else if a == '>' {
        Some(TokenType::GreaterThan)
    } else if a == '(' {
        Some(TokenType::LeftParenthesis)
    } else if a == ')' {
        Some(TokenType::RightParenthesis)
    } else if a == '[' {
        Some(TokenType::LeftBracket)
    } else if a == ']' {
        Some(TokenType::RightBracket)
    } else if a == '{' {
        Some(TokenType::LeftBrace)
    } else if a == '}' {
        Some(TokenType::RightBrace)
    } else {
        None
    }
}

impl Lexer {
    /// The source text, one scalar value per element.
    pub closed spec fn text(&self) -> Seq<char> {
        self.source@
    }

    /// The reserved words, in the order in which they are tried.
    pub closed spec fn table(&self) -> Seq<KeywordView> {
        table_view(self.keywords@)
    }

    /// How many characters the cursor has behind it.
    pub closed spec fn offset(&self) -> int {
        self.position as int
    }

    /// The cursor lies inside the text or at its end, and the line and
    /// column it carries are those of its offset.
    pub closed spec fn wf(&self) -> bool {
        &&& self.position <= self.source.len()
        &&& self.line == cursor_line(self.source@, self.position as int)
        &&& self.column == cursor_col(self.source@, self.position as int)
    }

    /// What a scan from where this lexer stands hands back: the tokens of
    /// the text behind its cursor, or the first error among them.
    pub open spec fn lexes_to(&self, outcome: Result<Vec<Token>, LexError>) -> bool {
        outcome_view(outcome) == tokens_from(self.text(), self.table(), self.offset())
    }

    /// A lexer at the start of `source`.
    pub fn new(source: String, keywords: Vec<Keyword>) -> (lexer: Self)
        ensures
            lexer.wf(),
            lexer.text() == source@,
            lexer.table() == table_view(keywords@),
            lexer.offset() == 0,
    {
        let source = scalars_of(source.as_str());
        let line: usize = if source.len() > 0 && source[0] == '\n' {
            1
        } else {
            0
        };
        Self { source, keywords, position: 0, line, column: 0 }
    }

    /// Maps the letter of an escape sequence to the character it stands
    /// for; the flag tells whether there is such a character.
    fn parse_escape_sequence(input: char) -> (decoded: (char, bool))
        ensures
            match unescape(input) {
                Some(c) => decoded == (c, true),
                None => decoded == ('\0', false),
            },
    {
        match input {
            'n' => ('\n', true),
            'r' => ('\r', true),
            't' => ('\r', true),
            '\'' => ('\'', true),
            '"' => ('"', true),
            '\\' => ('\\', true),
            '0' => ('\0', true),
            _ => ('\0', false),
        }
    }

    /// The character under the cursor.
    fn peek(&self) -> (c: char)
        requires
            self.wf(),
        ensures
            c == char_at(self.text(), self.offset()),
    {
        if self.position < self.source.len() {
            self.source[self.position]
        } else {
            '\0'
        }
    }

    /// The character `amount` places ahead of the cursor.
    fn peek_ahead(&self, amount: usize) -> (c: char)
        requires
            self.wf(),
        ensures
            c == char_at(self.text(), self.offset() + amount),
    {
        if amount < self.source.len() - self.position {
            self.source[self.position + amount]
        } else {
            '\0'
        }
    }

    /// Moves the cursor one character on; at the end of the text it stays.
    fn advance(&mut self)
        requires
            old(self).wf(),
        ensures
            final(self).wf(),
            final(self).text() == old(self).text(),
            final(self).table() == old(self).table(),
            final(self).offset() == if old(self).offset() < old(self).text().len() {
                old(self).offset() + 1
            } else {
                old(self).offset()
            },
    {
        if self.position < self.source.len() {
            proof {
                lemma_cursor_bounds(self.source@, self.position as int);
            }
            self.position += 1;
            if self.position < self.source.len() {
                if self.source[self.position] == '\n' {
                    self.line += 1;
                    self.column = 0;
                } else {
                    self.column += 1;
                }
            }
        }
    }

    /// Moves the cursor `amount` characters on, or to the end of the text.
    fn consume(&mut self, amount: usize)
        requires
            old(self).wf(),
        ensures
            final(self).wf(),
            final(self).text() == old(self).text(),
            final(self).table() == old(self).table(),
            final(self).offset() == if old(self).offset() + amount <= old(self).text().len() {
                old(self).offset() + amount
            } else {
                old(self).text().len() as int
            },
    {
        let mut done: usize = 0;
        while done < amount
            invariant
                self.wf(),
                self.text() == old(self).text(),
                self.table() == old(self).table(),
                done <= amount,
                self.offset() == if old(self).offset() + done <= old(self).text().len() {
                    old(self).offset() + done
                } else {
                    old(self).text().len() as int
                },
            decreases amount - done,
        {
            self.advance();
            done += 1;
        }
    }

    /// Looks `word` up among the reserved words.
    fn find_keyword(&self, word: &String) -> (kind: Option<TokenType>)
        ensures
            kind == keyword_kind(self.table(), word@),
    {
        let mut i: usize = 0;
        while i < self.keywords.len()
            invariant
                i <= self.keywords.len(),
                keyword_kind(self.table(), word@) == keyword_from(self.table(), word@, i as int),
            decreases self.keywords.len() - i,
        {
            if self.keywords[i].matches(word.clone()) {
                return Some(self.keywords[i].token_type());
            }
            i += 1;
        }
        None
    }

    /// Scans the identifier, keyword or boolean literal under the cursor.
    fn scan_word(&mut self) -> (token: Token)
        requires
            old(self).wf(),
            is_identifier_start(char_at(old(self).text(), old(self).offset())),
        ensures
            final(self).wf(),
            final(self).text() == old(self).text(),
            final(self).table() == old(self).table(),
            word_step(old(self).text(), old(self).table(), old(self).offset()) == (Step {
                token: Some(token@),
                next: final(self).offset(),
            }),
    {
        let ghost at = self.position as int;
        let line = self.line;
        let start = self.column;
        let mut end = self.column;
        let mut word = String::new();
        while continues_identifier(self.peek())
            invariant
                self.wf(),
                self.text() == old(self).text(),
                self.table() == old(self).table(),
                0 <= at <= self.offset() <= self.text().len(),
                word_end(self.text(), at) == word_end(self.text(), self.offset()),
                word@ == self.text().subrange(at, self.offset()),
                at < self.offset() ==> end == col_at(self.text(), self.offset() - 1),
            decreases self.text().len() - self.offset(),
        {
            word.push(self.peek());
            end = self.column;
            proof {
                assert(self.text().subrange(at, self.offset() + 1) =~= self.text().subrange(
                    at,
                    self.offset(),
                ).push(self.text()[self.offset()]));
            }
            self.advance();
        }
        let span = Position::new(line, start, end);
        let is_boolean = word == String::from_str("true") || word == String::from_str("false");
        if is_boolean {
            Token::new(TokenType::Boolean, Some(word), span)
        } else {
            match self.find_keyword(&word) {
                Some(kind) => Token::new_empty(kind, span),
                None => Token::new(TokenType::Identifier, Some(word), span),
            }
        }
    }

    /// Scans the numeric literal under the cursor.
    fn scan_number(&mut self) -> (outcome: Result<Token, LexError>)
        requires
            old(self).wf(),
            is_digit(char_at(old(self).text(), old(self).offset())),
        ensures
            final(self).wf(),
            final(self).text() == old(self).text(),
            final(self).table() == old(self).table(),
            match outcome {
                Ok(token) => number_step(old(self).text(), old(self).offset()) == Ok::<
                    Step,
                    LexError,
                >(Step { token: Some(token@), next: final(self).offset() }),
                Err(e) => number_step(old(self).text(), old(self).offset()) == Err::<
                    Step,
                    LexError,
                >(e),
            },
    {
        let ghost at = self.position as int;
        let ghost stop = number_end(self.source@, at);
        let ghost mut first = stop;
        let line = self.line;
        let start = self.column;
        let mut end = self.column;
        let mut seen_point = false;
        let mut digits = String::new();
        proof {
            lemma_number_end_bounds(self.source@, at);
        }
        while continues_number(self.peek())
            invariant
                self.wf(),
                self.text() == old(self).text(),
                self.table() == old(self).table(),
                at == old(self).offset(),
                0 <= at <= self.offset() <= stop <= self.text().len(),
                stop == number_end(self.text(), at),
                stop == number_end(self.text(), self.offset()),
                digits@ == self.text().subrange(at, self.offset()).filter(is_kept_in_number()),
                at < self.offset() ==> end == col_at(self.text(), self.offset() - 1),
                !seen_point ==> next_point(self.text(), at, stop) == next_point(
                    self.text(),
                    self.offset(),
                    stop,
                ),
                seen_point ==> first == next_point(self.text(), at, stop) && first < self.offset()
                    && next_point(self.text(), first + 1, stop) == next_point(
                    self.text(),
                    self.offset(),
                    stop,
                ),
            decreases self.text().len() - self.offset(),
        {
            let c = self.peek();
            proof {
                lemma_number_end_bounds(self.text(), self.offset());
                let upto = self.text().subrange(at, self.offset() + 1);
                assert(upto.drop_last() =~= self.text().subrange(at, self.offset()));
                assert(upto.last() == c);
                reveal(Seq::filter);
            }
            if c == '.' {
                if seen_point {
                    return Err(
                        LexError {
                            kind: LexErrorKind::MultipleDecimalPoints,
                            position: Position::new_single(self.line, self.column),
                        },
                    );
                }
                seen_point = true;
                proof {
                    first = self.offset();
                }
                digits.push(c);
            } else if c != '_' {
                digits.push(c);
            }
            end = self.column;
            self.advance();
        }
        let kind = if seen_point {
            TokenType::Float
        } else {
            TokenType::Integer
        };
        Ok(Token::new(kind, Some(digits), Position::new(line, start, end)))
    }

    /// The error for the backslash that the cursor has just passed, which
    /// stood in column `slash_column`.
    fn bad_escape(&self, slash_column: usize) -> (e: LexError)
        requires
            self.wf(),
            0 < self.offset(),
            self.offset() - 1 < self.text().len(),
            slash_column == col_at(self.text(), self.offset() - 1),
        ensures
            e == escape_error(self.text(), self.offset() - 1),
    {
        LexError {
            kind: LexErrorKind::InvalidEscape(self.peek()),
            position: Position::new(self.line, slash_column, self.column),
        }
    }

    /// Scans the string literal whose opening quote is under the cursor.
    fn scan_string(&mut self) -> (outcome: Result<Token, LexError>)
        requires
            old(self).wf(),
            char_at(old(self).text(), old(self).offset()) == '"',
        ensures
            final(self).wf(),
            final(self).text() == old(self).text(),
            final(self).table() == old(self).table(),
            match outcome {
                Ok(token) => string_step(old(self).text(), old(self).offset()) == Ok::<
                    Step,
                    LexError,
                >(Step { token: Some(token@), next: final(self).offset() }),
                Err(e) => string_step(old(self).text(), old(self).offset()) == Err::<
                    Step,
                    LexError,
                >(e),
            },
    {
        let ghost at = self.position as int;
        let line = self.line;
        let start = self.column;
        let mut value = String::new();
        self.advance();
        while self.position < self.source.len()
            invariant
                self.wf(),
                self.text() == old(self).text(),
                self.table() == old(self).table(),
                at == old(self).offset(),
                0 <= at < self.offset() <= self.text().len(),
                line == line_at(self.text(), at),
                start == col_at(self.text(), at),
                string_body(self.text(), at + 1) == prefixed(
                    value@,
                    string_body(self.text(), self.offset()),
                ),
            decreases self.text().len() - self.offset(),
        {
            let c = self.peek();
            if c == '"' {
                let end = self.column;
                self.advance();
                proof {
                    assert(value@ + Seq::<char>::empty() =~= value@);
                }
                return Ok(Token::new(TokenType::String, Some(value), Position::new(line, start, end)));
            } else if c == '\\' {
                let slash_column = self.column;
                self.advance();
                let (decoded, known) = Self::parse_escape_sequence(self.peek());
                if !known {
                    return Err(self.bad_escape(slash_column));
                }
                proof {
                    let rest = string_body(self.text(), self.offset() + 1);
                    if let Quoted::Closed { text, close } = rest {
                        assert(value@ + (seq![decoded] + text) =~= value@.push(decoded) + text);
                    }
                }
                value.push(decoded);
            } else {
                proof {
                    let rest = string_body(self.text(), self.offset() + 1);
                    if let Quoted::Closed { text, close } = rest {
                        assert(value@ + (seq![c] + text) =~= value@.push(c) + text);
                    }
                }
                value.push(c);
            }
            self.advance();
        }
        Err(
            LexError {
                kind: LexErrorKind::UnclosedString,
                position: Position::new_single(line, start),
            },
        )
    }

    /// Scans the character literal whose opening quote is under the cursor.
    fn scan_char(&mut self) -> (outcome: Result<Token, LexError>)
        requires
            old(self).wf(),
            char_at(old(self).text(), old(self).offset()) == '\'',
        ensures
            final(self).wf(),
            final(self).text() == old(self).text(),
            final(self).table() == old(self).table(),
            match outcome {
                Ok(token) => char_step(old(self).text(), old(self).offset()) == Ok::<
                    Step,
                    LexError,
                >(Step { token: Some(token@), next: final(self).offset() }),
                Err(e) => char_step(old(self).text(), old(self).offset()) == Err::<Step, LexError>(
                    e,
                ),
            },
    {
        let line = self.line;
        let start = self.column;
        self.advance();
        let value = if self.peek() == '\\' {
            let slash_column = self.column;
            self.advance();
            let (decoded, known) = Self::parse_escape_sequence(self.peek());
            if !known {
                return Err(self.bad_escape(slash_column));
            }
            decoded
        } else {
            self.peek()
        };
        self.advance();
        if self.peek() == '\'' {
            let end = self.column;
            self.advance();
            let mut text = String::new();
            text.push(value);
            Ok(Token::new(TokenType::Char, Some(text), Position::new(line, start, end)))
        } else {
            Err(
                LexError {
                    kind: LexErrorKind::UnexpectedCharacter(self.peek()),
                    position: Position::new_single(line, self.column),
                },
            )
        }
    }

    /// Scans the operator or punctuation mark under the cursor, or the
    /// character that is neither.
    fn scan_symbol(&mut self) -> (token: Token)
        requires
            old(self).wf(),
            old(self).offset() < old(self).text().len(),
        ensures
            final(self).wf(),
            final(self).text() == old(self).text(),
            final(self).table() == old(self).table(),
            symbol_step(old(self).text(), old(self).offset()) == (Step {
                token: Some(token@),
                next: final(self).offset(),
            }),
    {
        let c = self.peek();
        let line = self.line;
        let start = self.column;
        match two_character_kind(c, self.peek_ahead(1)) {
            Some(kind) => {
                proof {
                    lemma_cursor_bounds(self.text(), self.offset());
                }
                self.consume(2);
                Token::new_empty(kind, Position::new(line, start, start + 1))
            },
            None => {
                self.advance();
                match one_character_kind(c) {
                    Some(kind) => Token::new_empty(kind, Position::new_single(line, start)),
                    None => {
                        let mut text = String::new();
                        text.push(c);
                        Token::new(TokenType::Character, Some(text), Position::new_single(line, start))
                    },
                }
            },
        }
    }

    /// Scans the lexeme under the cursor: a token, or nothing for white
    /// space.
    fn next_token(&mut self) -> (outcome: Result<Option<Token>, LexError>)
        requires
            old(self).wf(),
            old(self).offset() < old(self).text().len(),
        ensures
            final(self).wf(),
            final(self).text() == old(self).text(),
            final(self).table() == old(self).table(),
            match outcome {
                Ok(found) => step_at(old(self).text(), old(self).table(), old(self).offset())
                    == Ok::<Step, LexError>(
                    Step { token: token_view(found), next: final(self).offset() },
                ),
                Err(e) => step_at(old(self).text(), old(self).table(), old(self).offset()) == Err::<
                    Step,
                    LexError,
                >(e),
            },
    {
        let c = self.peek();
        if starts_identifier(c) {
            Ok(Some(self.scan_word()))
        } else if is_decimal_digit(c) {
            match self.scan_number() {
                Ok(token) => Ok(Some(token)),
                Err(e) => Err(e),
            }
        } else if c == '"' {
            match self.scan_string() {
                Ok(token) => Ok(Some(token)),
                Err(e) => Err(e),
            }
        } else if c == '\'' {
            match self.scan_char() {
                Ok(token) => Ok(Some(token)),
                Err(e) => Err(e),
            }
        } else if is_skipped(c) {
            self.advance();
            Ok(None)
        } else {
            Ok(Some(self.scan_symbol()))
        }
    }

    /// Turns the text from the cursor to its end into tokens and closes
    /// them with the end marker. The scan stops at the first lexical error
    /// and hands that back instead; the cursor then stays where it was
    /// before the call.
    pub fn lex(&mut self) -> (outcome: Result<Vec<Token>, LexError>)
        requires
            old(self).wf(),
        ensures
            final(self).wf(),
            final(self).text() == old(self).text(),
            final(self).table() == old(self).table(),
            old(self).lexes_to(outcome),
            outcome matches Ok(tokens) ==> tokens.len() >= 1 && tokens_view(tokens@).last()
                == end_marker(old(self).text()),
            outcome is Ok ==> final(self).offset() == old(self).text().len(),
            outcome is Err ==> final(self).offset() == old(self).offset(),
    {
        let position = self.position;
        let line = self.line;
        let column = self.column;
        let mut tokens: Vec<Token> = Vec::new();
        while self.position < self.source.len()
            invariant
                self.wf(),
                self.text() == old(self).text(),
                self.table() == old(self).table(),
                position == old(self).offset(),
                line == cursor_line(self.text(), position as int),
                column == cursor_col(self.text(), position as int),
                position <= self.offset() <= self.text().len(),
                tokens_from(self.text(), self.table(), position as int) == continued(
                    tokens_view(tokens@),
                    tokens_from(self.text(), self.table(), self.offset()),
                ),
            decreases self.text().len() - self.offset(),
        {
            let ghost here = self.offset();
            let ghost before = tokens_view(tokens@);
            proof {
                lemma_step_advances(self.text(), self.table(), here);
            }
            match self.next_token() {
                Err(e) => {
                    self.position = position;
                    self.line = line;
                    self.column = column;
                    return Err(e);
                },
                Ok(Some(token)) => {
                    tokens.push(token);
                    proof {
                        let rest = tokens_from(self.text(), self.table(), self.offset());
                        assert(tokens_view(tokens@) =~= before.push(token@));
                        if let Ok(after) = rest {
                            assert(before + (seq![token@] + after) =~= before.push(token@) + after);
                        }
                    }
                },
                Ok(None) => {},
            }
        }
        let ghost done = tokens_view(tokens@);
        tokens.push(Token::new_empty(TokenType::EOF, Position::new_single(self.line, self.column)));
        proof {
            assert(tokens_view(tokens@) =~= done + seq![end_marker(self.text())]);
        }
        Ok(tokens)
    }
}

} // verus!

//! Tokens: what the scan hands to the parser.

use vstd::prelude::*;
use vstd::string::StringExecFns;
use crate::position::Position;
use crate::token_type::TokenType;

verus! {

/// One classified lexeme: its kind, the decoded text of kinds that carry
/// one, and where it lies.
#[derive(Debug)]
pub struct Token {
    token_type: TokenType,
    token_value: Option<String>,
    token_position: Position,
}

/// What a token is to the grammar.
pub struct TokenView {
    pub kind: TokenType,
    pub payload: Option<Seq<char>>,
    pub span: Position,
}

impl TokenView {
    /// The token as text: its kind, its payload if it has one, and its
    /// position.
    pub open spec fn text(self) -> Seq<char> {
        match self.payload {
            None => self.kind.name() + ", "@ + self.span.text(),
            Some(value) => self.kind.name() + ": "@ + value + ", "@ + self.span.text(),
        }
    }
}

/// The text inside an optional string.
pub open spec fn payload_view(value: Option<String>) -> Option<Seq<char>> {
    match value {
        Some(text) => Some(text@),
        None => None,
    }
}

impl View for Token {
    type V = TokenView;

    closed spec fn view(&self) -> TokenView {
        TokenView {
            kind: self.token_type,
            payload: payload_view(self.token_value),
            span: self.token_position,
        }
    }
}

impl Token {
    pub fn new(token_type: TokenType, token_value: Option<String>, token_position: Position) -> (t:
        Self)
        ensures
            t@ == (TokenView {
                kind: token_type,
                payload: payload_view(token_value),
                span: token_position,
            }),
    {
        Self { token_type, token_value, token_position }
    }

    /// A token without a payload.
    pub fn new_empty(token_type: TokenType, token_position: Position) -> (t: Self)
        ensures
            t@ == (TokenView { kind: token_type, payload: None, span: token_position }),
    {
        Self { token_type, token_value: None, token_position }
    }

    pub fn to_string(&self) -> (s: String)
        ensures
            s@ == self@.text(),
    {
        let mut s = self.token_type.to_string();
        match &self.token_value {
            None => {},
            Some(value) => {
                s.append(": ");
                s.append(value.as_str());
            },
        }
        s.append(", ");
        s.append(self.token_position.to_string().as_str());
        s
    }

    pub fn token_type(&self) -> (t: TokenType)
        ensures
            t == self@.kind,
    {
        self.token_type
    }

    pub fn token_value(&self) -> (v: &Option<String>)
        ensures
            payload_view(*v) == self@.payload,
    {
        &self.token_value
    }

    pub fn token_position(&self) -> (p: Position)
        ensures
            p == self@.span,
    {
        self.token_position
    }
}

impl Clone for Token {
    fn clone(&self) -> (t: Self)
        ensures
            t@ == self@,
    {
        let token_value = match &self.token_value {
            Some(text) => Some(text.clone()),
            None => None,
        };
        Token { token_type: self.token_type, token_value, token_position: self.token_position }
    }
}

/// The tokens of a sequence, as the grammar sees them.
pub open spec fn tokens_view(tokens: Seq<Token>) -> Seq<TokenView> {
    tokens.map_values(|t: Token| t@)
}

/// A copy of a token sequence.
pub fn clone_tokens(tokens: &Vec<Token>) -> (copy: Vec<Token>)
    ensures
        tokens_view(copy@) == tokens_view(tokens@),
{
    let mut copy: Vec<Token> = Vec::new();
    let mut i: usize = 0;
    while i < tokens.len()
        invariant
            i <= tokens.len(),
            copy.len() == i,
            forall|j: int| 0 <= j < i ==> (#[trigger] copy@[j])@ == tokens@[j]@,
        decreases tokens.len() - i,
    {
        copy.push(tokens[i].clone());
        i += 1;
    }
    assert(tokens_view(copy@) =~= tokens_view(tokens@));
    copy
}

} // verus!

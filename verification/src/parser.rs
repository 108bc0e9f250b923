//! The parser's starting state. Grammar and tree building lie beyond
//! the lexical front end.

use vstd::prelude::*;
use crate::token::{tokens_view, Token, TokenView};

verus! {

/// A parser over a token sequence, not yet started.
#[derive(Debug)]
pub struct Parser {
    input: Vec<Token>,
    position: i32,
    current_token: Option<Token>,
}

impl Parser {
    /// The tokens that the parser was given.
    pub closed spec fn input_view(&self) -> Seq<TokenView> {
        tokens_view(self.input@)
    }

    /// The parser has read nothing yet: it stands before the first token
    /// and holds none.
    pub closed spec fn is_fresh(&self) -> bool {
        self.position == -1 && self.current_token is None
    }

    pub fn new(input: Vec<Token>) -> (parser: Self)
        ensures
            parser.input_view() == tokens_view(input@),
            parser.is_fresh(),
    {
        Self { input, position: -1, current_token: None }
    }

    /// The tokens that the parser was given.
    pub fn input(&self) -> (tokens: &Vec<Token>)
        ensures
            tokens_view(tokens@) == self.input_view(),
    {
        &self.input
    }
}

} // verus!

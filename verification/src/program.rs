//! A compilation run: the reserved words, the source text, and the
//! tokens once they are known.

use vstd::prelude::*;
use crate::grammar::tokens_of;
use crate::keyword::{clone_table, standard_keywords, standard_table, table_view, Keyword, KeywordView};
use crate::lexer::Lexer;
use crate::parser::Parser;
use crate::position::Position;
use crate::report::{render_report, report_text};
use crate::text::scalars_of;
use crate::token::{clone_tokens, tokens_view, Token, TokenView};

verus! {

/// One run of the front end.
#[derive(Debug)]
pub struct Program {
    keywords: Vec<Keyword>,
    tokens: Vec<Token>,
    source: String,
}

impl Program {
    /// The reserved words of this run.
    pub closed spec fn table(&self) -> Seq<KeywordView> {
        table_view(self.keywords@)
    }

    /// The tokens that the run holds.
    pub closed spec fn token_views(&self) -> Seq<TokenView> {
        tokens_view(self.tokens@)
    }

    /// The source text of this run.
    pub closed spec fn source_text(&self) -> Seq<char> {
        self.source@
    }

    /// A run over `source` that holds no tokens yet.
    pub fn new(keywords: Vec<Keyword>, source: String) -> (program: Self)
        ensures
            program.table() == table_view(keywords@),
            program.source_text() == source@,
            program.token_views() == Seq::<TokenView>::empty(),
    {
        let tokens: Vec<Token> = Vec::new();
        assert(tokens_view(tokens@) =~= Seq::<TokenView>::empty());
        Self { keywords, tokens, source }
    }

    /// The diagnostic that a fatal error at `position` shows: the message,
    /// the offending line of this run's source, and carets under the span.
    pub fn error_report(&self, message: String, position: Position) -> (report: String)
        ensures
            report@ == report_text(self.source_text(), message@, position),
    {
        let source = scalars_of(self.source.as_str());
        render_report(&source, message.as_str(), position)
    }

    /// A lexer at the start of this run's source, with its reserved words.
    pub fn create_lexer(&self) -> (lexer: Lexer)
        ensures
            lexer.wf(),
            lexer.text() == self.source_text(),
            lexer.table() == self.table(),
            lexer.offset() == 0,
    {
        Lexer::new(self.source.clone(), clone_table(&self.keywords))
    }

    /// Stores the tokens of this run.
    pub fn set_tokens(&mut self, tokens: Vec<Token>)
        ensures
            final(self).token_views() == tokens_view(tokens@),
            final(self).table() == old(self).table(),
            final(self).source_text() == old(self).source_text(),
    {
        self.tokens = tokens;
    }

    /// A parser over a copy of this run's tokens.
    pub fn create_parser(&self) -> (parser: Parser)
        ensures
            parser.input_view() == self.token_views(),
            parser.is_fresh(),
    {
        Parser::new(clone_tokens(&self.tokens))
    }
}

/// Runs the front end on `source` with the language's reserved words:
/// the parser over its tokens, or, after a lexical error, the diagnostic
/// to show.
pub fn run(source: String) -> (outcome: Result<Parser, String>)
    ensures
        match tokens_of(source@, standard_table()) {
            Ok(tokens) => outcome matches Ok(parser) && parser.input_view() == tokens
                && parser.is_fresh(),
            Err(e) => outcome matches Err(report) && report@ == report_text(
                source@,
                e.kind.message_text(),
                e.position,
            ),
        },
{
    let mut program = Program::new(standard_keywords(), source);
    let mut lexer = program.create_lexer();
    match lexer.lex() {
        Ok(tokens) => {
            program.set_tokens(tokens);
            Ok(program.create_parser())
        },
        Err(e) => Err(program.error_report(e.message(), e.position)),
    }
}

} // verus!

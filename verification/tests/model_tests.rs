use ribbit::error::{LexError, LexErrorKind};
use ribbit::keyword::{clone_table, standard_keywords, Keyword};
use ribbit::parser::Parser;
use ribbit::position::Position;
use ribbit::program::{run, Program};
use ribbit::report::render_report;
use ribbit::text::scalars_of;
use ribbit::token::{clone_tokens, Token};
use ribbit::token_type::TokenType;

#[test]
fn position_new_keeps_its_arguments() {
    let p = Position::new(3, 5, 9);
    assert_eq!((p.line, p.start, p.end), (3, 5, 9));
}

#[test]
fn position_new_single_spans_one_column() {
    let p = Position::new_single(2, 7);
    assert_eq!((p.line, p.start, p.end), (2, 7, 7));
    assert_eq!(p, Position::new(2, 7, 7));
}

#[test]
fn position_to_string_names_one_column() {
    assert_eq!(Position::new_single(3, 5).to_string(), "Line: 3, Column: 5");
}

#[test]
fn position_to_string_names_both_columns() {
    assert_eq!(Position::new(12, 0, 107).to_string(), "Line: 12, Columns: 0-107");
}

#[test]
fn token_new_keeps_its_arguments() {
    let t = Token::new(TokenType::Identifier, Some("foo".to_string()), Position::new(0, 0, 2));
    assert_eq!(t.token_type(), TokenType::Identifier);
    assert_eq!(t.token_value(), &Some("foo".to_string()));
    assert_eq!(t.token_position(), Position::new(0, 0, 2));
}

#[test]
fn token_new_empty_has_no_payload() {
    let t = Token::new_empty(TokenType::Comma, Position::new_single(1, 4));
    assert_eq!(t.token_type(), TokenType::Comma);
    assert_eq!(t.token_value(), &None);
    assert_eq!(t.token_position(), Position::new_single(1, 4));
}

#[test]
fn token_to_string_with_payload() {
    let t = Token::new(TokenType::Identifier, Some("foo".to_string()), Position::new(0, 0, 2));
    assert_eq!(t.to_string(), "Identifier: foo, Line: 0, Columns: 0-2");
}

#[test]
fn token_to_string_without_payload() {
    let t = Token::new_empty(TokenType::EOF, Position::new_single(4, 10));
    assert_eq!(t.to_string(), "EOF, Line: 4, Column: 10");
}

#[test]
fn token_clone_is_equal() {
    let t = Token::new(TokenType::String, Some("a b".to_string()), Position::new(1, 2, 6));
    let c = t.clone();
    assert_eq!(c.token_type(), TokenType::String);
    assert_eq!(c.token_value(), t.token_value());
    assert_eq!(c.token_position(), t.token_position());
    let all = clone_tokens(&vec![t, c]);
    assert_eq!(all.len(), 2);
    assert_eq!(all[1].token_value(), &Some("a b".to_string()));
}

#[test]
fn token_type_names() {
    assert_eq!(TokenType::Identifier.to_string(), "Identifier");
    assert_eq!(TokenType::LeftParenthesis.to_string(), "LeftParenthesis");
    assert_eq!(TokenType::PositionalRemainder.to_string(), "PositionalRemainder");
    assert_eq!(TokenType::GreaterThanOrEqual.to_string(), "GreaterThanOrEqual");
    assert_eq!(TokenType::Float.to_string(), "Float");
    assert_eq!(TokenType::Extends.to_string(), "Extends");
    assert_eq!(TokenType::EOF.to_string(), "EOF");
}

#[test]
fn keyword_matches_the_whole_word_only() {
    let k = Keyword::new("class".to_string(), TokenType::Class);
    assert!(k.matches("class".to_string()));
    assert!(!k.matches("clas".to_string()));
    assert!(!k.matches("classes".to_string()));
    assert!(!k.matches("Class".to_string()));
    assert!(!k.matches(String::new()));
    assert_eq!(k.token_type(), TokenType::Class);
}

#[test]
fn standard_table_has_thirteen_words() {
    let table = standard_keywords();
    assert_eq!(table.len(), 13);
    assert!(table[0].matches("class".to_string()));
    assert_eq!(table[0].token_type(), TokenType::Class);
    assert!(table[12].matches("extends".to_string()));
    assert_eq!(table[12].token_type(), TokenType::Extends);
    let copy = clone_table(&table);
    assert_eq!(copy.len(), 13);
    assert!(copy[7].matches("continue".to_string()));
    assert_eq!(copy[7].token_type(), TokenType::Continue);
}

#[test]
fn error_messages() {
    assert_eq!(
        LexErrorKind::MultipleDecimalPoints.message(),
        "Floating point numbers can only have a single decimal point."
    );
    assert_eq!(LexErrorKind::UnclosedString.message(), "Unclosed string literal.");
    assert_eq!(LexErrorKind::InvalidEscape('q').message(), "Invalid escape sequence: `\\q`.");
    assert_eq!(
        LexErrorKind::UnexpectedCharacter('b').message(),
        "Unexpected character `b`. Expected (closing) single quote."
    );
    let e = LexError { kind: LexErrorKind::UnclosedString, position: Position::new_single(0, 0) };
    assert_eq!(e.message(), "Unclosed string literal.");
}

#[test]
fn scalars_of_a_string() {
    assert_eq!(scalars_of("a\u{e9}\n"), vec!['a', '\u{e9}', '\n']);
    assert_eq!(scalars_of(""), Vec::<char>::new());
}

#[test]
fn report_underlines_the_span() {
    let source = scalars_of("let x = 1;\nlet y = 1.2.3;\n");
    let report = render_report(&source, "Too many points.", Position::new(1, 9, 14));
    assert_eq!(
        report,
        "Error on line 1: Too many points.\n 1 | let y = 1.2.3;\n             ^^^^^ <- Here"
    );
}

#[test]
fn report_underlines_at_least_two_columns() {
    let source = scalars_of("ab\ncdef");
    assert_eq!(
        render_report(&source, "m", Position::new_single(1, 3)),
        "Error on line 1: m\n 1 | cdef\n       ^^ <- Here"
    );
    assert_eq!(
        render_report(&source, "m", Position::new(1, 3, 4)),
        "Error on line 1: m\n 1 | cdef\n       ^^ <- Here"
    );
    assert_eq!(
        render_report(&source, "m", Position::new(1, 4, 1)),
        "Error on line 1: m\n 1 | cdef\n        ^^ <- Here"
    );
}

#[test]
fn report_on_the_first_column() {
    let source = scalars_of("\"abc");
    assert_eq!(
        render_report(&source, "Unclosed string literal.", Position::new_single(0, 0)),
        "Error on line 0: Unclosed string literal.\n 0 | \"abc\n     ^^ <- Here"
    );
}

#[test]
fn report_pads_by_the_width_of_the_line_number() {
    let mut text = String::new();
    for _ in 0..12 {
        text.push_str("x\r\n");
    }
    text.push_str("yz\r");
    let source = scalars_of(&text);
    assert_eq!(
        render_report(&source, "m", Position::new(11, 1, 4)),
        "Error on line 11: m\n 11 | x\n      ^^^ <- Here"
    );
    assert_eq!(
        render_report(&source, "m", Position::new(12, 2, 2)),
        "Error on line 12: m\n 12 | yz\r\n       ^^ <- Here"
    );
}

#[test]
fn report_on_a_line_that_is_not_there() {
    let source = scalars_of("ab\n");
    assert_eq!(
        render_report(&source, "m", Position::new_single(1, 1)),
        "Error on line 1: m\n 1 | \n     ^^ <- Here"
    );
    assert_eq!(
        render_report(&source, "m", Position::new_single(7, 1)),
        "Error on line 7: m\n 7 | \n     ^^ <- Here"
    );
}

#[test]
fn program_hands_its_source_to_the_lexer() {
    let program = Program::new(standard_keywords(), "while x".to_string());
    let mut lexer = program.create_lexer();
    let tokens = lexer.lex().expect("the source lexes");
    assert_eq!(tokens.len(), 3);
    assert_eq!(tokens[0].token_type(), TokenType::While);
    assert_eq!(tokens[1].token_value(), &Some("x".to_string()));
}

#[test]
fn program_hands_its_tokens_to_the_parser() {
    let mut program = Program::new(standard_keywords(), "a".to_string());
    assert_eq!(program.create_parser().input().len(), 0);
    let tokens = program.create_lexer().lex().expect("the source lexes");
    program.set_tokens(tokens);
    let parser = program.create_parser();
    assert_eq!(parser.input().len(), 2);
    assert_eq!(parser.input()[0].token_type(), TokenType::Identifier);
    assert_eq!(parser.input()[1].token_type(), TokenType::EOF);
}

#[test]
fn program_renders_errors_against_its_source() {
    let program = Program::new(standard_keywords(), "x\n y = 'ab'".to_string());
    assert_eq!(
        program.error_report("bad".to_string(), Position::new_single(1, 8)),
        "Error on line 1: bad\n 1 |  y = 'ab'\n            ^^ <- Here"
    );
}

#[test]
fn parser_keeps_its_input() {
    let parser = Parser::new(vec![Token::new_empty(TokenType::EOF, Position::new_single(0, 0))]);
    assert_eq!(parser.input().len(), 1);
    assert_eq!(parser.input()[0].token_type(), TokenType::EOF);
}

#[test]
fn run_lexes_with_the_standard_keywords() {
    let parser = run("class A extends B {}".to_string()).expect("the source lexes");
    let kinds: Vec<TokenType> = parser.input().iter().map(|t| t.token_type()).collect();
    assert_eq!(
        kinds,
        vec![
            TokenType::Class,
            TokenType::Identifier,
            TokenType::Extends,
            TokenType::Identifier,
            TokenType::LeftBrace,
            TokenType::RightBrace,
            TokenType::EOF,
        ]
    );
}

#[test]
fn run_reports_the_first_error() {
    let report = run("a = 1;\nb = 1.2.3;\nc = 'xy'".to_string()).expect_err("the source is rejected");
    assert_eq!(
        report,
        "Error on line 1: Floating point numbers can only have a single decimal point.\n 1 | b = 1.2.3;\n            ^^ <- Here"
    );
}

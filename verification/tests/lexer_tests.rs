use ribbit::error::{LexError, LexErrorKind};
use ribbit::keyword::{standard_keywords, Keyword};
use ribbit::lexer::Lexer;
use ribbit::position::Position;
use ribbit::token::Token;
use ribbit::token_type::TokenType;

fn lex(source: &str) -> Result<Vec<Token>, LexError> {
    let mut lexer = Lexer::new(source.to_string(), standard_keywords());
    lexer.lex()
}

fn shape(token: &Token) -> (TokenType, Option<String>, (usize, usize, usize)) {
    let p = token.token_position();
    (token.token_type(), token.token_value().clone(), (p.line, p.start, p.end))
}

fn shapes(source: &str) -> Vec<(TokenType, Option<String>, (usize, usize, usize))> {
    lex(source).expect("the source lexes").iter().map(shape).collect()
}

fn kinds(source: &str) -> Vec<TokenType> {
    lex(source).expect("the source lexes").iter().map(|t| t.token_type()).collect()
}

fn some(text: &str) -> Option<String> {
    Some(text.to_string())
}

fn failure(source: &str) -> (LexErrorKind, (usize, usize, usize)) {
    let e = lex(source).expect_err("the source is rejected");
    (e.kind, (e.position.line, e.position.start, e.position.end))
}

#[test]
fn empty_source_yields_only_the_end_marker() {
    assert_eq!(shapes(""), vec![(TokenType::EOF, None, (0, 0, 0))]);
}

#[test]
fn blank_source_yields_only_the_end_marker() {
    assert_eq!(shapes(" \t\r "), vec![(TokenType::EOF, None, (0, 3, 3))]);
}

#[test]
fn identifier_keeps_its_text() {
    assert_eq!(
        shapes("foo_1"),
        vec![(TokenType::Identifier, some("foo_1"), (0, 0, 4)), (TokenType::EOF, None, (0, 4, 4))]
    );
}

#[test]
fn identifier_may_start_with_an_underscore() {
    assert_eq!(
        shapes("_x"),
        vec![(TokenType::Identifier, some("_x"), (0, 0, 1)), (TokenType::EOF, None, (0, 1, 1))]
    );
}

#[test]
fn identifier_ends_where_its_characters_end() {
    assert_eq!(
        shapes("ab cd"),
        vec![
            (TokenType::Identifier, some("ab"), (0, 0, 1)),
            (TokenType::Identifier, some("cd"), (0, 3, 4)),
            (TokenType::EOF, None, (0, 4, 4)),
        ]
    );
}

#[test]
fn every_keyword_lexes_to_its_kind_without_payload() {
    let table = [
        ("class", TokenType::Class),
        ("super", TokenType::Super),
        ("this", TokenType::This),
        ("for", TokenType::For),
        ("while", TokenType::While),
        ("loop", TokenType::Loop),
        ("break", TokenType::Break),
        ("continue", TokenType::Continue),
        ("if", TokenType::If),
        ("else", TokenType::Else),
        ("return", TokenType::Return),
        ("is", TokenType::Is),
        ("extends", TokenType::Extends),
    ];
    for (word, kind) in table {
        let last = word.len() - 1;
        assert_eq!(
            shapes(word),
            vec![(kind, None, (0, 0, last)), (TokenType::EOF, None, (0, last, last))]
        );
    }
}

#[test]
fn keyword_prefix_is_an_identifier() {
    assert_eq!(kinds("classes"), vec![TokenType::Identifier, TokenType::EOF]);
    assert_eq!(kinds("i"), vec![TokenType::Identifier, TokenType::EOF]);
}

#[test]
fn keyword_lookup_takes_the_first_entry() {
    let table = vec![
        Keyword::new("go".to_string(), TokenType::Loop),
        Keyword::new("go".to_string(), TokenType::Break),
    ];
    let mut lexer = Lexer::new("go".to_string(), table);
    let tokens = lexer.lex().expect("the source lexes");
    assert_eq!(tokens.len(), 2);
    assert_eq!(tokens[0].token_type(), TokenType::Loop);
}

#[test]
fn booleans_carry_their_text() {
    assert_eq!(
        shapes("true"),
        vec![(TokenType::Boolean, some("true"), (0, 0, 3)), (TokenType::EOF, None, (0, 3, 3))]
    );
    assert_eq!(
        shapes("false"),
        vec![(TokenType::Boolean, some("false"), (0, 0, 4)), (TokenType::EOF, None, (0, 4, 4))]
    );
}

#[test]
fn booleans_come_before_keywords() {
    let table = vec![Keyword::new("true".to_string(), TokenType::Class)];
    let mut lexer = Lexer::new("true".to_string(), table);
    let tokens = lexer.lex().expect("the source lexes");
    assert_eq!(tokens[0].token_type(), TokenType::Boolean);
    assert_eq!(tokens[0].token_value(), &some("true"));
}

#[test]
fn integer_literal() {
    assert_eq!(
        shapes("123"),
        vec![(TokenType::Integer, some("123"), (0, 0, 2)), (TokenType::EOF, None, (0, 2, 2))]
    );
}

#[test]
fn float_literal() {
    assert_eq!(
        shapes("1.5"),
        vec![(TokenType::Float, some("1.5"), (0, 0, 2)), (TokenType::EOF, None, (0, 2, 2))]
    );
}

#[test]
fn underscores_are_dropped_from_numbers() {
    assert_eq!(
        shapes("1_000"),
        vec![(TokenType::Integer, some("1000"), (0, 0, 4)), (TokenType::EOF, None, (0, 4, 4))]
    );
}

#[test]
fn trailing_point_makes_a_float() {
    assert_eq!(
        shapes("7. x"),
        vec![
            (TokenType::Float, some("7."), (0, 0, 1)),
            (TokenType::Identifier, some("x"), (0, 3, 3)),
            (TokenType::EOF, None, (0, 3, 3)),
        ]
    );
}

#[test]
fn second_decimal_point_is_fatal() {
    assert_eq!(failure("1.2.3"), (LexErrorKind::MultipleDecimalPoints, (0, 3, 3)));
    assert_eq!(failure("x 1..2"), (LexErrorKind::MultipleDecimalPoints, (0, 4, 4)));
}

#[test]
fn string_literal_is_decoded() {
    assert_eq!(
        shapes("\"ab\\nc\""),
        vec![(TokenType::String, some("ab\nc"), (0, 0, 6)), (TokenType::EOF, None, (0, 6, 6))]
    );
}

#[test]
fn empty_string_literal() {
    assert_eq!(
        shapes("\"\""),
        vec![(TokenType::String, some(""), (0, 0, 1)), (TokenType::EOF, None, (0, 1, 1))]
    );
}

#[test]
fn every_escape_letter_decodes() {
    assert_eq!(
        shapes("\"\\n\\r\\t\\'\\\"\\\\\\0\""),
        vec![
            (TokenType::String, some("\n\r\r'\"\\\0"), (0, 0, 15)),
            (TokenType::EOF, None, (0, 15, 15)),
        ]
    );
}

#[test]
fn nothing_is_skipped_behind_a_string() {
    assert_eq!(
        shapes("\"ab\"+x"),
        vec![
            (TokenType::String, some("ab"), (0, 0, 3)),
            (TokenType::Plus, None, (0, 4, 4)),
            (TokenType::Identifier, some("x"), (0, 5, 5)),
            (TokenType::EOF, None, (0, 5, 5)),
        ]
    );
}

#[test]
fn string_may_hold_a_newline() {
    assert_eq!(
        shapes("  \"a\nb\" c"),
        vec![
            (TokenType::String, some("a\nb"), (0, 2, 2)),
            (TokenType::Identifier, some("c"), (1, 4, 4)),
            (TokenType::EOF, None, (1, 4, 4)),
        ]
    );
}

#[test]
fn unclosed_string_is_fatal() {
    assert_eq!(failure("\"abc"), (LexErrorKind::UnclosedString, (0, 0, 0)));
    assert_eq!(failure("x = \"abc\n"), (LexErrorKind::UnclosedString, (0, 4, 4)));
}

#[test]
fn unknown_escape_is_fatal() {
    assert_eq!(failure("\"a\\qb\""), (LexErrorKind::InvalidEscape('q'), (0, 2, 3)));
}

#[test]
fn backslash_at_the_end_is_fatal() {
    assert_eq!(failure("\"a\\"), (LexErrorKind::InvalidEscape('\0'), (0, 2, 2)));
}

#[test]
fn char_literal() {
    assert_eq!(
        shapes("'a'"),
        vec![(TokenType::Char, some("a"), (0, 0, 2)), (TokenType::EOF, None, (0, 2, 2))]
    );
}

#[test]
fn char_literal_with_escape() {
    assert_eq!(
        shapes("'\\n'"),
        vec![(TokenType::Char, some("\n"), (0, 0, 3)), (TokenType::EOF, None, (0, 3, 3))]
    );
}

#[test]
fn char_literal_of_a_quote() {
    assert_eq!(
        shapes("'''"),
        vec![(TokenType::Char, some("'"), (0, 0, 2)), (TokenType::EOF, None, (0, 2, 2))]
    );
}

#[test]
fn char_literal_with_two_characters_is_fatal() {
    assert_eq!(failure("'ab'"), (LexErrorKind::UnexpectedCharacter('b'), (0, 2, 2)));
}

#[test]
fn char_literal_cut_short_is_fatal() {
    assert_eq!(failure("'a"), (LexErrorKind::UnexpectedCharacter('\0'), (0, 1, 1)));
    assert_eq!(failure("'"), (LexErrorKind::UnexpectedCharacter('\0'), (0, 0, 0)));
}

#[test]
fn char_literal_with_unknown_escape_is_fatal() {
    assert_eq!(failure("'\\x'"), (LexErrorKind::InvalidEscape('x'), (0, 1, 2)));
}

#[test]
fn compound_assignment_is_one_token() {
    assert_eq!(
        shapes("+="),
        vec![(TokenType::PositionalAdd, None, (0, 0, 1)), (TokenType::EOF, None, (0, 1, 1))]
    );
}

#[test]
fn increment_is_one_token() {
    assert_eq!(
        shapes("++"),
        vec![(TokenType::Increment, None, (0, 0, 1)), (TokenType::EOF, None, (0, 1, 1))]
    );
}

#[test]
fn less_than_alone_and_with_equal() {
    assert_eq!(
        shapes("<"),
        vec![(TokenType::LessThan, None, (0, 0, 0)), (TokenType::EOF, None, (0, 0, 0))]
    );
    assert_eq!(
        shapes("<="),
        vec![(TokenType::LessThanOrEqual, None, (0, 0, 1)), (TokenType::EOF, None, (0, 1, 1))]
    );
}

#[test]
fn every_two_character_operator() {
    assert_eq!(
        kinds("++ -- += -= *= /= %= ^= == != <= >= && ||"),
        vec![
            TokenType::Increment,
            TokenType::Decrement,
            TokenType::PositionalAdd,
            TokenType::PositionalSubtract,
            TokenType::PositionalMultiply,
            TokenType::PositionalDivide,
            TokenType::PositionalRemainder,
            TokenType::PositionalPower,
            TokenType::Equal,
            TokenType::NotEqual,
            TokenType::LessThanOrEqual,
            TokenType::GreaterThanOrEqual,
            TokenType::And,
            TokenType::Or,
            TokenType::EOF,
        ]
    );
}

#[test]
fn every_one_character_operator() {
    assert_eq!(
        kinds("+ - * / % ^ . , ; : = ! < > ( ) [ ] { }"),
        vec![
            TokenType::Plus,
            TokenType::Minus,
            TokenType::Star,
            TokenType::ForwardSlash,
            TokenType::Remainder,
            TokenType::Power,
            TokenType::Period,
            TokenType::Comma,
            TokenType::Semicolon,
            TokenType::Colon,
            TokenType::Assign,
            TokenType::ExclamationMark,
            TokenType::LessThan,
            TokenType::GreaterThan,
            TokenType::LeftParenthesis,
            TokenType::RightParenthesis,
            TokenType::LeftBracket,
            TokenType::RightBracket,
            TokenType::LeftBrace,
            TokenType::RightBrace,
            TokenType::EOF,
        ]
    );
}

#[test]
fn longest_match_wins() {
    assert_eq!(
        kinds("+++"),
        vec![TokenType::Increment, TokenType::Plus, TokenType::EOF]
    );
    assert_eq!(
        kinds("==="),
        vec![TokenType::Equal, TokenType::Assign, TokenType::EOF]
    );
}

#[test]
fn nothing_is_skipped_behind_a_two_character_operator() {
    assert_eq!(
        shapes("a += b"),
        vec![
            (TokenType::Identifier, some("a"), (0, 0, 0)),
            (TokenType::PositionalAdd, None, (0, 2, 3)),
            (TokenType::Identifier, some("b"), (0, 5, 5)),
            (TokenType::EOF, None, (0, 5, 5)),
        ]
    );
}

#[test]
fn logical_operators_span_two_columns() {
    assert_eq!(
        shapes("a&&b"),
        vec![
            (TokenType::Identifier, some("a"), (0, 0, 0)),
            (TokenType::And, None, (0, 1, 2)),
            (TokenType::Identifier, some("b"), (0, 3, 3)),
            (TokenType::EOF, None, (0, 3, 3)),
        ]
    );
}

#[test]
fn unknown_character_is_a_token_not_an_error() {
    assert_eq!(
        shapes("@"),
        vec![(TokenType::Character, some("@"), (0, 0, 0)), (TokenType::EOF, None, (0, 0, 0))]
    );
    assert_eq!(
        shapes("a & b"),
        vec![
            (TokenType::Identifier, some("a"), (0, 0, 0)),
            (TokenType::Character, some("&"), (0, 2, 2)),
            (TokenType::Identifier, some("b"), (0, 4, 4)),
            (TokenType::EOF, None, (0, 4, 4)),
        ]
    );
}

#[test]
fn scalar_values_count_as_one_column_each() {
    assert_eq!(
        shapes("\u{e9}\u{1f600} x"),
        vec![
            (TokenType::Character, some("\u{e9}"), (0, 0, 0)),
            (TokenType::Character, some("\u{1f600}"), (0, 1, 1)),
            (TokenType::Identifier, some("x"), (0, 3, 3)),
            (TokenType::EOF, None, (0, 3, 3)),
        ]
    );
}

#[test]
fn newline_opens_a_line_in_column_zero() {
    assert_eq!(
        shapes("a\nbc\n\nd"),
        vec![
            (TokenType::Identifier, some("a"), (0, 0, 0)),
            (TokenType::Identifier, some("bc"), (1, 1, 2)),
            (TokenType::Identifier, some("d"), (3, 1, 1)),
            (TokenType::EOF, None, (3, 1, 1)),
        ]
    );
}

#[test]
fn end_marker_stands_where_the_cursor_came_to_rest() {
    assert_eq!(
        shapes("ab\n"),
        vec![(TokenType::Identifier, some("ab"), (0, 0, 1)), (TokenType::EOF, None, (1, 0, 0))]
    );
}

#[test]
fn last_token_is_the_only_end_marker() {
    for source in ["", "a", "a b c", "1 + 2 * (3 - 4)", "\"s\" 'c' true class", "\n\n"] {
        let tokens = lex(source).expect("the source lexes");
        let last = tokens.len() - 1;
        assert_eq!(tokens[last].token_type(), TokenType::EOF);
        assert_eq!(tokens[last].token_value(), &None);
        for token in &tokens[..last] {
            assert_ne!(token.token_type(), TokenType::EOF);
        }
    }
}

#[test]
fn lexing_is_deterministic() {
    let source = "class A extends B { x += 1.5; s = \"a\\tb\"; c = 'q'; }";
    assert_eq!(shapes(source), shapes(source));
    assert_eq!(failure("a 'bc'"), failure("a 'bc'"));
}

#[test]
fn small_program() {
    assert_eq!(
        shapes("if x >= 10 {\n  return y;\n}"),
        vec![
            (TokenType::If, None, (0, 0, 1)),
            (TokenType::Identifier, some("x"), (0, 3, 3)),
            (TokenType::GreaterThanOrEqual, None, (0, 5, 6)),
            (TokenType::Integer, some("10"), (0, 8, 9)),
            (TokenType::LeftBrace, None, (0, 11, 11)),
            (TokenType::Return, None, (1, 3, 8)),
            (TokenType::Identifier, some("y"), (1, 10, 10)),
            (TokenType::Semicolon, None, (1, 11, 11)),
            (TokenType::RightBrace, None, (2, 1, 1)),
            (TokenType::EOF, None, (2, 1, 1)),
        ]
    );
}

#[test]
fn finished_lexer_yields_only_the_end_marker() {
    let mut lexer = Lexer::new("a b".to_string(), standard_keywords());
    assert_eq!(lexer.lex().expect("the source lexes").len(), 3);
    let again: Vec<_> = lexer.lex().expect("the rest lexes").iter().map(shape).collect();
    assert_eq!(again, vec![(TokenType::EOF, None, (0, 2, 2))]);
}

#[test]
fn failed_scan_leaves_the_lexer_where_it_was() {
    let mut lexer = Lexer::new("a \"b".to_string(), standard_keywords());
    let first = lexer.lex().expect_err("the source is rejected");
    let second = lexer.lex().expect_err("the source is rejected again");
    assert_eq!(first, second);
    assert_eq!(first, LexError { kind: LexErrorKind::UnclosedString, position: Position::new_single(0, 2) });
}

#[test]
fn no_tokens_come_with_an_error() {
    assert!(lex("a b c 1.2.3").is_err());
}

//! What holds of every scan.

use vstd::prelude::*;
use crate::error::LexError;
use crate::grammar::{
    bare, col_at, end_marker, is_boolean_word, is_identifier_part, is_identifier_start, is_letter,
    keyword_from, laden, lemma_cursor_bounds, lemma_number_end_bounds, lemma_step_advances,
    lemma_string_body_bounds, lemma_word_end_bounds, line_at, preceded_by, span_of,
    step_at, tokens_from, tokens_of, word_end, word_step, word_token,
};
use crate::keyword::{standard_table, KeywordView};
use crate::lexer::{outcome_view, Lexer};
use crate::position::Position;
use crate::token::{Token, TokenView};
use crate::token_type::TokenType;

verus! {

/// A text that is one identifier: it starts with a letter or an
/// underscore and goes on with letters, digits and underscores.
pub open spec fn is_identifier_text(text: Seq<char>) -> bool {
    &&& text.len() > 0
    &&& is_identifier_start(text[0])
    &&& forall|i: int| 0 <= i < text.len() ==> is_identifier_part(#[trigger] text[i])
}

/// No entry of the table spells `text`.
pub open spec fn is_unreserved(table: Seq<KeywordView>, text: Seq<char>) -> bool {
    forall|i: int| 0 <= i < table.len() ==> (#[trigger] table[i]).pattern != text
}

/// No entry of the table lexes to the end marker's kind.
pub open spec fn reserves_no_end_marker(table: Seq<KeywordView>) -> bool {
    forall|i: int| 0 <= i < table.len() ==> (#[trigger] table[i]).kind != TokenType::EOF
}

/// The span of a text that lies on the first line and fills it from the
/// first column on.
pub open spec fn whole_span(text: Seq<char>) -> Position {
    Position { line: 0, start: 0, end: (text.len() - 1) as usize }
}

/// Along a stretch without a newline the line stays and the column
/// counts the characters.
pub proof fn lemma_columns_on_one_line(s: Seq<char>, first: int, last: int)
    requires
        0 <= first <= last < s.len(),
        forall|i: int| first < i <= last ==> s[i] != '\n',
    ensures
        line_at(s, last) == line_at(s, first),
        col_at(s, last) == col_at(s, first) + (last - first),
    decreases last - first,
{
    if first < last {
        lemma_columns_on_one_line(s, first, last - 1);
    }
}

/// The span of a lexeme that holds no newline behind its first character
/// does not end before it starts.
pub proof fn lemma_span_on_one_line_is_ordered(s: Seq<char>, first: int, last: int)
    requires
        0 <= first <= last < s.len(),
        s.len() <= usize::MAX,
        forall|i: int| first < i <= last ==> s[i] != '\n',
    ensures
        span_of(s, first, last).is_ordered(),
        span_of(s, first, last).end - span_of(s, first, last).start == last - first,
{
    lemma_columns_on_one_line(s, first, last);
    lemma_cursor_bounds(s, first);
    lemma_cursor_bounds(s, last);
}

/// A run of identifier characters that reaches the end of the text ends
/// there.
proof fn lemma_word_runs_to_end(s: Seq<char>, from: int)
    requires
        0 <= from <= s.len(),
        forall|i: int| from <= i < s.len() ==> is_identifier_part(#[trigger] s[i]),
    ensures
        word_end(s, from) == s.len(),
    decreases s.len() - from,
{
    if from < s.len() {
        lemma_word_runs_to_end(s, from + 1);
    }
}

/// A table without an entry for `word` reserves no kind for it.
proof fn lemma_unreserved_has_no_kind(table: Seq<KeywordView>, word: Seq<char>, from: int)
    requires
        0 <= from,
        is_unreserved(table, word),
    ensures
        keyword_from(table, word, from) is None,
    decreases table.len() - from,
{
    if from < table.len() {
        lemma_unreserved_has_no_kind(table, word, from + 1);
    }
}

/// A text that is one word lexes to the token of that word and the end
/// marker, whatever the table holds.
pub proof fn lemma_word_lexes_to_one_token(text: Seq<char>, table: Seq<KeywordView>)
    requires
        is_identifier_text(text),
    ensures
        tokens_of(text, table) == Ok::<Seq<TokenView>, LexError>(
            seq![word_token(table, text, whole_span(text)), end_marker(text)],
        ),
{
    let last = text.len() - 1;
    lemma_word_runs_to_end(text, 0);
    assert forall|i: int| 0 < i <= last implies text[i] != '\n' by {
        assert(is_identifier_part(text[i]));
    }
    lemma_columns_on_one_line(text, 0, last);
    assert(text.subrange(0, text.len() as int) =~= text);
    let step = word_step(text, table, 0);
    assert(step.next == text.len());
    assert(step.token == Some(word_token(table, text, whole_span(text))));
    assert(step_at(text, table, 0) == Ok::<_, LexError>(step));
    let rest = tokens_from(text, table, step.next);
    assert(rest == Ok::<Seq<TokenView>, LexError>(seq![end_marker(text)]));
    assert(preceded_by(step, seq![end_marker(text)]) =~= seq![
        word_token(table, text, whole_span(text)),
        end_marker(text),
    ]);
}

/// A text with the syntax of an identifier that is neither a boolean
/// literal nor spelled by a keyword lexes to exactly one identifier token,
/// whose payload is the text itself, followed by the end marker.
pub proof fn lemma_identifier_lexes_to_itself(text: Seq<char>, table: Seq<KeywordView>)
    requires
        is_identifier_text(text),
        !is_boolean_word(text),
        is_unreserved(table, text),
    ensures
        tokens_of(text, table) == Ok::<Seq<TokenView>, LexError>(
            seq![laden(TokenType::Identifier, text, whole_span(text)), end_marker(text)],
        ),
{
    lemma_word_lexes_to_one_token(text, table);
    lemma_unreserved_has_no_kind(table, text, 0);
}

/// The words `true` and `false` lex to exactly one boolean token, whose
/// payload is the word, followed by the end marker: also where the table
/// reserves the word.
pub proof fn lemma_boolean_lexes_to_boolean(text: Seq<char>, table: Seq<KeywordView>)
    requires
        is_boolean_word(text),
    ensures
        tokens_of(text, table) == Ok::<Seq<TokenView>, LexError>(
            seq![laden(TokenType::Boolean, text, whole_span(text)), end_marker(text)],
        ),
{
    reveal_strlit("true");
    reveal_strlit("false");
    lemma_word_lexes_to_one_token(text, table);
}

/// Every token sequence ends with the end marker.
pub proof fn lemma_end_marker_is_last(s: Seq<char>, table: Seq<KeywordView>, from: int)
    ensures
        tokens_from(s, table, from) matches Ok(tokens) ==> tokens.len() >= 1 && tokens.last()
            == end_marker(s),
    decreases s.len() - from,
{
    if 0 <= from < s.len() {
        if let Ok(step) = step_at(s, table, from) {
            lemma_step_advances(s, table, from);
            lemma_end_marker_is_last(s, table, step.next);
        }
    }
}

/// A kind that the table reserves for a word is the kind of one of its
/// entries.
proof fn lemma_reserved_kind_is_in_table(table: Seq<KeywordView>, word: Seq<char>, from: int)
    requires
        0 <= from,
    ensures
        keyword_from(table, word, from) matches Some(kind) ==> exists|i: int|
            from <= i < table.len() && (#[trigger] table[i]).pattern == word && table[i].kind
                == kind,
    decreases table.len() - from,
{
    if from < table.len() && table[from].pattern != word {
        lemma_reserved_kind_is_in_table(table, word, from + 1);
    }
}

/// No lexeme inside the text is an end marker, unless the table reserves
/// that kind for a word.
proof fn lemma_step_is_no_end_marker(s: Seq<char>, table: Seq<KeywordView>, at: int)
    requires
        0 <= at < s.len(),
        reserves_no_end_marker(table),
    ensures
        step_at(s, table, at) matches Ok(step) ==> (step.token matches Some(token) ==> token.kind
            != TokenType::EOF),
{
    let word = s.subrange(at, word_end(s, at));
    lemma_reserved_kind_is_in_table(table, word, 0);
}

/// Where the table reserves the end marker's kind for no word, every
/// token sequence holds exactly one end marker: its last token.
pub proof fn lemma_end_marker_is_alone(s: Seq<char>, table: Seq<KeywordView>, from: int)
    requires
        reserves_no_end_marker(table),
    ensures
        tokens_from(s, table, from) matches Ok(tokens) ==> {
            &&& tokens.len() >= 1
            &&& tokens.last() == end_marker(s)
            &&& forall|i: int| 0 <= i < tokens.len() - 1 ==> (#[trigger] tokens[i]).kind != TokenType::EOF
        },
    decreases s.len() - from,
{
    if 0 <= from < s.len() {
        if let Ok(step) = step_at(s, table, from) {
            lemma_step_advances(s, table, from);
            lemma_step_is_no_end_marker(s, table, from);
            lemma_end_marker_is_alone(s, table, step.next);
        }
    }
}

/// What tells the reserved words of the language apart: the length of a
/// word and its first two characters.
spec fn word_mark(word: Seq<char>) -> (nat, char, char) {
    (word.len(), word[0], word[1])
}

/// A word all of whose characters are letters has the syntax of an
/// identifier.
proof fn lemma_letters_make_a_word(word: Seq<char>)
    requires
        word.len() > 0,
        forall|k: int| 0 <= k < word.len() ==> is_letter(#[trigger] word[k]),
    ensures
        is_identifier_text(word),
{
}

/// Entry `i` of the language's table is a word of letters with the mark
/// that this lemma lists for it.
proof fn lemma_standard_word(i: int)
    requires
        0 <= i < 13,
    ensures
        standard_table().len() == 13,
        standard_table()[i].kind != TokenType::EOF,
        is_identifier_text(standard_table()[i].pattern),
        !is_boolean_word(standard_table()[i].pattern),
        word_mark(standard_table()[i].pattern) == standard_mark(i),
{
    reveal_strlit("true");
    reveal_strlit("false");
    reveal_strlit("class");
    reveal_strlit("super");
    reveal_strlit("this");
    reveal_strlit("for");
    reveal_strlit("while");
    reveal_strlit("loop");
    reveal_strlit("break");
    reveal_strlit("continue");
    reveal_strlit("if");
    reveal_strlit("else");
    reveal_strlit("return");
    reveal_strlit("is");
    reveal_strlit("extends");
    if i == 0 {
        let word = "class"@;
        assert(standard_table()[i].pattern == word);
        assert forall|k: int| 0 <= k < word.len() implies is_letter(#[trigger] word[k]) by {
            assert(word[0] == 'c');
            assert(word[1] == 'l');
            assert(word[2] == 'a');
            assert(word[3] == 's');
            assert(word[4] == 's');
        }
        lemma_letters_make_a_word(word);
        assert(word_mark(word) != word_mark("true"@));
        assert(word_mark(word) != word_mark("false"@));
    } else if i == 1 {
        let word = "super"@;
        assert(standard_table()[i].pattern == word);
        assert forall|k: int| 0 <= k < word.len() implies is_letter(#[trigger] word[k]) by {
            assert(word[0] == 's');
            assert(word[1] == 'u');
            assert(word[2] == 'p');
            assert(word[3] == 'e');
            assert(word[4] == 'r');
        }
        lemma_letters_make_a_word(word);
        assert(word_mark(word) != word_mark("true"@));
        assert(word_mark(word) != word_mark("false"@));
    } else if i == 2 {
        let word = "this"@;
        assert(standard_table()[i].pattern == word);
        assert forall|k: int| 0 <= k < word.len() implies is_letter(#[trigger] word[k]) by {
            assert(word[0] == 't');
            assert(word[1] == 'h');
            assert(word[2] == 'i');
            assert(word[3] == 's');
        }
        lemma_letters_make_a_word(word);
        assert(word_mark(word) != word_mark("true"@));
        assert(word_mark(word) != word_mark("false"@));
    } else if i == 3 {
        let word = "for"@;
        assert(standard_table()[i].pattern == word);
        assert forall|k: int| 0 <= k < word.len() implies is_letter(#[trigger] word[k]) by {
            assert(word[0] == 'f');
            assert(word[1] == 'o');
            assert(word[2] == 'r');
        }
        lemma_letters_make_a_word(word);
        assert(word_mark(word) != word_mark("true"@));
        assert(word_mark(word) != word_mark("false"@));
    } else if i == 4 {
        let word = "while"@;
        assert(standard_table()[i].pattern == word);
        assert forall|k: int| 0 <= k < word.len() implies is_letter(#[trigger] word[k]) by {
            assert(word[0] == 'w');
            assert(word[1] == 'h');
            assert(word[2] == 'i');
            assert(word[3] == 'l');
            assert(word[4] == 'e');
        }
        lemma_letters_make_a_word(word);
        assert(word_mark(word) != word_mark("true"@));
        assert(word_mark(word) != word_mark("false"@));
    } else if i == 5 {
        let word = "loop"@;
        assert(standard_table()[i].pattern == word);
        assert forall|k: int| 0 <= k < word.len() implies is_letter(#[trigger] word[k]) by {
            assert(word[0] == 'l');
            assert(word[1] == 'o');
            assert(word[2] == 'o');
            assert(word[3] == 'p');
        }
        lemma_letters_make_a_word(word);
        assert(word_mark(word) != word_mark("true"@));
        assert(word_mark(word) != word_mark("false"@));
    } else if i == 6 {
        let word = "break"@;
        assert(standard_table()[i].pattern == word);
        assert forall|k: int| 0 <= k < word.len() implies is_letter(#[trigger] word[k]) by {
            assert(word[0] == 'b');
            assert(word[1] == 'r');
            assert(word[2] == 'e');
            assert(word[3] == 'a');
            assert(word[4] == 'k');
        }
        lemma_letters_make_a_word(word);
        assert(word_mark(word) != word_mark("true"@));
        assert(word_mark(word) != word_mark("false"@));
    } else if i == 7 {
        let word = "continue"@;
        assert(standard_table()[i].pattern == word);
        assert forall|k: int| 0 <= k < word.len() implies is_letter(#[trigger] word[k]) by {
            assert(word[0] == 'c');
            assert(word[1] == 'o');
            assert(word[2] == 'n');
            assert(word[3] == 't');
            assert(word[4] == 'i');
            assert(word[5] == 'n');
            assert(word[6] == 'u');
            assert(word[7] == 'e');
        }
        lemma_letters_make_a_word(word);
        assert(word_mark(word) != word_mark("true"@));
        assert(word_mark(word) != word_mark("false"@));
    } else if i == 8 {
        let word = "if"@;
        assert(standard_table()[i].pattern == word);
        assert forall|k: int| 0 <= k < word.len() implies is_letter(#[trigger] word[k]) by {
            assert(word[0] == 'i');
            assert(word[1] == 'f');
        }
        lemma_letters_make_a_word(word);
        assert(word_mark(word) != word_mark("true"@));
        assert(word_mark(word) != word_mark("false"@));
    } else if i == 9 {
        let word = "else"@;
        assert(standard_table()[i].pattern == word);
        assert forall|k: int| 0 <= k < word.len() implies is_letter(#[trigger] word[k]) by {
            assert(word[0] == 'e');
            assert(word[1] == 'l');
            assert(word[2] == 's');
            assert(word[3] == 'e');
        }
        lemma_letters_make_a_word(word);
        assert(word_mark(word) != word_mark("true"@));
        assert(word_mark(word) != word_mark("false"@));
    } else if i == 10 {
        let word = "return"@;
        assert(standard_table()[i].pattern == word);
        assert forall|k: int| 0 <= k < word.len() implies is_letter(#[trigger] word[k]) by {
            assert(word[0] == 'r');
            assert(word[1] == 'e');
            assert(word[2] == 't');
            assert(word[3] == 'u');
            assert(word[4] == 'r');
            assert(word[5] == 'n');
        }
        lemma_letters_make_a_word(word);
        assert(word_mark(word) != word_mark("true"@));
        assert(word_mark(word) != word_mark("false"@));
    } else if i == 11 {
        let word = "is"@;
        assert(standard_table()[i].pattern == word);
        assert forall|k: int| 0 <= k < word.len() implies is_letter(#[trigger] word[k]) by {
            assert(word[0] == 'i');
            assert(word[1] == 's');
        }
        lemma_letters_make_a_word(word);
        assert(word_mark(word) != word_mark("true"@));
        assert(word_mark(word) != word_mark("false"@));
    } else if i == 12 {
        let word = "extends"@;
        assert(standard_table()[i].pattern == word);
        assert forall|k: int| 0 <= k < word.len() implies is_letter(#[trigger] word[k]) by {
            assert(word[0] == 'e');
            assert(word[1] == 'x');
            assert(word[2] == 't');
            assert(word[3] == 'e');
            assert(word[4] == 'n');
            assert(word[5] == 'd');
            assert(word[6] == 's');
        }
        lemma_letters_make_a_word(word);
        assert(word_mark(word) != word_mark("true"@));
        assert(word_mark(word) != word_mark("false"@));
    }
}

/// The mark of entry `i` of the language's table.
spec fn standard_mark(i: int) -> (nat, char, char) {
    if i == 0 {
        (5, 'c', 'l')
    } else if i == 1 {
        (5, 's', 'u')
    } else if i == 2 {
        (4, 't', 'h')
    } else if i == 3 {
        (3, 'f', 'o')
    } else if i == 4 {
        (5, 'w', 'h')
    } else if i == 5 {
        (4, 'l', 'o')
    } else if i == 6 {
        (5, 'b', 'r')
    } else if i == 7 {
        (8, 'c', 'o')
    } else if i == 8 {
        (2, 'i', 'f')
    } else if i == 9 {
        (4, 'e', 'l')
    } else if i == 10 {
        (6, 'r', 'e')
    } else if i == 11 {
        (2, 'i', 's')
    } else {
        (7, 'e', 'x')
    }
}

/// The reserved words of the language are thirteen different words, none
/// of them a boolean literal, each with the syntax of an identifier, and
/// none of them reserved for the end marker.
pub proof fn lemma_standard_table_is_sound()
    ensures
        standard_table().len() == 13,
        reserves_no_end_marker(standard_table()),
        forall|i: int|
            0 <= i < 13 ==> is_identifier_text(#[trigger] standard_table()[i].pattern)
                && !is_boolean_word(standard_table()[i].pattern),
        forall|i: int, j: int|
            0 <= i < j < 13 ==> (#[trigger] standard_table()[i]).pattern != (
            #[trigger] standard_table()[j]).pattern,
{
    assert forall|i: int| 0 <= i < 13 implies is_identifier_text(
        #[trigger] standard_table()[i].pattern,
    ) && !is_boolean_word(standard_table()[i].pattern) && standard_table()[i].kind
        != TokenType::EOF by {
        lemma_standard_word(i);
    }
    assert forall|i: int, j: int| 0 <= i < j < 13 implies (#[trigger] standard_table()[i]).pattern
        != (#[trigger] standard_table()[j]).pattern by {
        lemma_standard_word(i);
        lemma_standard_word(j);
    }
    lemma_standard_word(0);
}

/// The table reserves for the pattern of entry `i` the kind of the first
/// entry with that pattern.
proof fn lemma_first_entry_wins(table: Seq<KeywordView>, i: int, from: int)
    requires
        0 <= from <= i < table.len(),
        forall|j: int| from <= j < i ==> (#[trigger] table[j]).pattern != table[i].pattern,
    ensures
        keyword_from(table, table[i].pattern, from) == Some(table[i].kind),
    decreases i - from,
{
    if from < i {
        lemma_first_entry_wins(table, i, from + 1);
    }
}

/// Each reserved word of the language, lexed with the language's table,
/// yields exactly one token of the kind reserved for it, without a
/// payload, followed by the end marker.
pub proof fn lemma_keyword_lexes_to_its_kind(i: int)
    requires
        0 <= i < standard_table().len(),
    ensures
        tokens_of(standard_table()[i].pattern, standard_table()) == Ok::<Seq<TokenView>, LexError>(
            seq![
                bare(standard_table()[i].kind, whole_span(standard_table()[i].pattern)),
                end_marker(standard_table()[i].pattern),
            ],
        ),
{
    let table = standard_table();
    lemma_standard_table_is_sound();
    lemma_word_lexes_to_one_token(table[i].pattern, table);
    lemma_first_entry_wins(table, i, 0);
}

/// Two scans of the same text from the same offset with the same table
/// end alike: with the same tokens, kind by kind, payload by payload and
/// span by span, or with the same error.
pub proof fn lemma_lexing_is_deterministic(
    first: Lexer,
    second: Lexer,
    first_outcome: Result<Vec<Token>, LexError>,
    second_outcome: Result<Vec<Token>, LexError>,
)
    requires
        first.text() == second.text(),
        first.table() == second.table(),
        first.offset() == second.offset(),
        first.lexes_to(first_outcome),
        second.lexes_to(second_outcome),
    ensures
        outcome_view(first_outcome) == outcome_view(second_outcome),
{
}

/// A text that holds no newline.
pub open spec fn is_one_line(s: Seq<char>) -> bool {
    forall|i: int| 0 <= i < s.len() ==> #[trigger] s[i] != '\n'
}

/// In a text of one line every character stands on line 0, in the column
/// of its index.
pub proof fn lemma_cursor_on_one_line(s: Seq<char>, p: int)
    requires
        is_one_line(s),
        0 <= p < s.len(),
    ensures
        line_at(s, p) == 0,
        col_at(s, p) == p,
{
    assert forall|i: int| 0 < i <= p implies s[i] != '\n' by {}
    assert(s[0] != '\n');
    lemma_columns_on_one_line(s, 0, p);
}

/// In a text of one line the token of every lexeme lies on line 0, and
/// its span does not end before it starts.
proof fn lemma_step_on_one_line(s: Seq<char>, table: Seq<KeywordView>, at: int)
    requires
        is_one_line(s),
        s.len() <= usize::MAX,
        0 <= at < s.len(),
    ensures
        step_at(s, table, at) matches Ok(step) ==> (step.token matches Some(token)
            ==> token.span.line == 0 && token.span.is_ordered()),
{
    lemma_cursor_on_one_line(s, at);
    if let Ok(step) = step_at(s, table, at) {
        lemma_step_advances(s, table, at);
        lemma_word_end_bounds(s, at);
        lemma_number_end_bounds(s, at);
        lemma_string_body_bounds(s, at + 1);
        if step.token is Some {
            lemma_cursor_on_one_line(s, step.next - 1);
        }
    }
}

/// In a text of one line every token lies on line 0, and no span ends
/// before it starts.
pub proof fn lemma_spans_on_one_line(s: Seq<char>, table: Seq<KeywordView>, from: int)
    requires
        is_one_line(s),
        s.len() <= usize::MAX,
    ensures
        tokens_from(s, table, from) matches Ok(tokens) ==> forall|k: int|
            0 <= k < tokens.len() ==> (#[trigger] tokens[k]).span.line == 0
                && tokens[k].span.is_ordered(),
    decreases s.len() - from,
{
    if 0 <= from < s.len() {
        if let Ok(step) = step_at(s, table, from) {
            lemma_step_advances(s, table, from);
            lemma_step_on_one_line(s, table, from);
            lemma_spans_on_one_line(s, table, step.next);
        }
    } else if s.len() > 0 {
        lemma_cursor_on_one_line(s, s.len() - 1);
    }
}

} // verus!

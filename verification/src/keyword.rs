//! Reserved words.

use vstd::prelude::*;
use vstd::string::StringExecFns;
use crate::token_type::TokenType;

verus! {

/// A reserved word: its exact spelling and the kind it lexes to.
#[derive(Debug)]
pub struct Keyword {
    pattern: String,
    token_type: TokenType,
}

/// What a keyword is to the grammar.
pub struct KeywordView {
    pub pattern: Seq<char>,
    pub kind: TokenType,
}

impl View for Keyword {
    type V = KeywordView;

    closed spec fn view(&self) -> KeywordView {
        KeywordView { pattern: self.pattern@, kind: self.token_type }
    }
}

impl Keyword {
    pub fn new(pattern: String, token_type: TokenType) -> (k: Self)
        ensures
            k@ == (KeywordView { pattern: pattern@, kind: token_type }),
    {
        Self { pattern, token_type }
    }

    /// Whether `pattern` is this keyword: equal to it as a whole, not a
    /// prefix of it.
    pub fn matches(&self, pattern: String) -> (b: bool)
        ensures
            b == (pattern@ == self@.pattern),
    {
        pattern == self.pattern
    }

    pub fn token_type(&self) -> (t: TokenType)
        ensures
            t == self@.kind,
    {
        self.token_type
    }
}

impl Clone for Keyword {
    fn clone(&self) -> (k: Self)
        ensures
            k@ == self@,
    {
        Keyword { pattern: self.pattern.clone(), token_type: self.token_type }
    }
}

/// The words of a table, as the grammar sees them.
pub open spec fn table_view(keywords: Seq<Keyword>) -> Seq<KeywordView> {
    keywords.map_values(|k: Keyword| k@)
}

/// A copy of a keyword table.
pub fn clone_table(keywords: &Vec<Keyword>) -> (copy: Vec<Keyword>)
    ensures
        table_view(copy@) == table_view(keywords@),
{
    let mut copy: Vec<Keyword> = Vec::new();
    let mut i: usize = 0;
    while i < keywords.len()
        invariant
            i <= keywords.len(),
            copy.len() == i,
            forall|j: int| 0 <= j < i ==> (#[trigger] copy@[j])@ == keywords@[j]@,
        decreases keywords.len() - i,
    {
        copy.push(keywords[i].clone());
        i += 1;
    }
    assert(table_view(copy@) =~= table_view(keywords@));
    copy
}

/// The reserved words of the language, in the order in which they are tried.
pub open spec fn standard_table() -> Seq<KeywordView> {
    seq![
        KeywordView { pattern: "class"@, kind: TokenType::Class },
        KeywordView { pattern: "super"@, kind: TokenType::Super },
        KeywordView { pattern: "this"@, kind: TokenType::This },
        KeywordView { pattern: "for"@, kind: TokenType::For },
        KeywordView { pattern: "while"@, kind: TokenType::While },
        KeywordView { pattern: "loop"@, kind: TokenType::Loop },
        KeywordView { pattern: "break"@, kind: TokenType::Break },
        KeywordView { pattern: "continue"@, kind: TokenType::Continue },
        KeywordView { pattern: "if"@, kind: TokenType::If },
        KeywordView { pattern: "else"@, kind: TokenType::Else },
        KeywordView { pattern: "return"@, kind: TokenType::Return },
        KeywordView { pattern: "is"@, kind: TokenType::Is },
        KeywordView { pattern: "extends"@, kind: TokenType::Extends },
    ]
}

/// Builds the table of the language's reserved words.
pub fn standard_keywords() -> (keywords: Vec<Keyword>)
    ensures
        table_view(keywords@) == standard_table(),
{
    let mut keywords: Vec<Keyword> = Vec::new();
    keywords.push(Keyword::new(String::from_str("class"), TokenType::Class));
    keywords.push(Keyword::new(String::from_str("super"), TokenType::Super));
    keywords.push(Keyword::new(String::from_str("this"), TokenType::This));
    keywords.push(Keyword::new(String::from_str("for"), TokenType::For));
    keywords.push(Keyword::new(String::from_str("while"), TokenType::While));
    keywords.push(Keyword::new(String::from_str("loop"), TokenType::Loop));
    keywords.push(Keyword::new(String::from_str("break"), TokenType::Break));
    keywords.push(Keyword::new(String::from_str("continue"), TokenType::Continue));
    keywords.push(Keyword::new(String::from_str("if"), TokenType::If));
    keywords.push(Keyword::new(String::from_str("else"), TokenType::Else));
    keywords.push(Keyword::new(String::from_str("return"), TokenType::Return));
    keywords.push(Keyword::new(String::from_str("is"), TokenType::Is));
    keywords.push(Keyword::new(String::from_str("extends"), TokenType::Extends));
    assert(table_view(keywords@) =~= standard_table());
    keywords
}

} // verus!

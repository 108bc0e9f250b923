use vstd::prelude::*;
use vstd::string::StringExecFns;

verus! {

/// The closed set of token kinds.
#[derive(Clone, Copy, Debug, PartialEq, Eq, Structural)]
pub enum TokenType {
    // Base kinds.
    /// A name that is neither a keyword nor a boolean literal.
    Identifier,
    /// A symbol that no rule recognises; left for the parser to diagnose.
    Character,
    // Structure.
    LeftParenthesis,
    RightParenthesis,
    LeftBracket,
    RightBracket,
    LeftBrace,
    RightBrace,
    Period,
    Comma,
    Semicolon,
    Colon,
    // Relations and logic.
    LessThan,
    LessThanOrEqual,
    GreaterThan,
    GreaterThanOrEqual,
    ExclamationMark,
    NotEqual,
    /// A single `=`.
    Assign,
    /// A double `==`.
    Equal,
    And,
    Or,
    // Arithmetic.
    /// `++`
    Increment,
    /// `--`
    Decrement,
    Plus,
    Minus,
    Star,
    ForwardSlash,
    /// `%`
    Remainder,
    /// `^`
    Power,
    // Compound assignment: `+=`, `-=`, and so on.
    PositionalAdd,
    PositionalSubtract,
    PositionalMultiply,
    PositionalDivide,
    PositionalRemainder,
    PositionalPower,
    // Literals.
    String,
    /// One scalar value, possibly written as an escape sequence.
    Char,
    Boolean,
    Integer,
    Float,
    // Keywords.
    Class,
    Super,
    This,
    Extends,
    For,
    While,
    Loop,
    Break,
    Continue,
    If,
    Else,
    Return,
    Is,
    // The end marker that closes every token sequence.
    EOF,
}

impl TokenType {
    /// The kind's name as text: the spelling of the variant.
    pub open spec fn name(self) -> Seq<char> {
        match self {
            TokenType::Identifier => "Identifier"@,
            TokenType::Character => "Character"@,
            TokenType::LeftParenthesis => "LeftParenthesis"@,
            TokenType::RightParenthesis => "RightParenthesis"@,
            TokenType::LeftBracket => "LeftBracket"@,
            TokenType::RightBracket => "RightBracket"@,
            TokenType::LeftBrace => "LeftBrace"@,
            TokenType::RightBrace => "RightBrace"@,
            TokenType::Period => "Period"@,
            TokenType::Comma => "Comma"@,
            TokenType::Semicolon => "Semicolon"@,
            TokenType::Colon => "Colon"@,
            TokenType::LessThan => "LessThan"@,
            TokenType::LessThanOrEqual => "LessThanOrEqual"@,
            TokenType::GreaterThan => "GreaterThan"@,
            TokenType::GreaterThanOrEqual => "GreaterThanOrEqual"@,
            TokenType::ExclamationMark => "ExclamationMark"@,
            TokenType::NotEqual => "NotEqual"@,
            TokenType::Assign => "Assign"@,
            TokenType::Equal => "Equal"@,
            TokenType::And => "And"@,
            TokenType::Or => "Or"@,
            TokenType::Increment => "Increment"@,
            TokenType::Decrement => "Decrement"@,
            TokenType::Plus => "Plus"@,
            TokenType::Minus => "Minus"@,
            TokenType::Star => "Star"@,
            TokenType::ForwardSlash => "ForwardSlash"@,
            TokenType::Remainder => "Remainder"@,
            TokenType::Power => "Power"@,
            TokenType::PositionalAdd => "PositionalAdd"@,
            TokenType::PositionalSubtract => "PositionalSubtract"@,
            TokenType::PositionalMultiply => "PositionalMultiply"@,
            TokenType::PositionalDivide => "PositionalDivide"@,
            TokenType::PositionalRemainder => "PositionalRemainder"@,
            TokenType::PositionalPower => "PositionalPower"@,
            TokenType::String => "String"@,
            TokenType::Char => "Char"@,
            TokenType::Boolean => "Boolean"@,
            TokenType::Integer => "Integer"@,
            TokenType::Float => "Float"@,
            TokenType::Class => "Class"@,
            TokenType::Super => "Super"@,
            TokenType::This => "This"@,
            TokenType::Extends => "Extends"@,
            TokenType::For => "For"@,
            TokenType::While => "While"@,
            TokenType::Loop => "Loop"@,
            TokenType::Break => "Break"@,
            TokenType::Continue => "Continue"@,
            TokenType::If => "If"@,
            TokenType::Else => "Else"@,
            TokenType::Return => "Return"@,
            TokenType::Is => "Is"@,
            TokenType::EOF => "EOF"@,
        }
    }

    pub fn to_string(&self) -> (s: String)
        ensures
            s@ == self.name(),
    {
        match self {
            TokenType::Identifier => String::from_str("Identifier"),
            TokenType::Character => String::from_str("Character"),
            TokenType::LeftParenthesis => String::from_str("LeftParenthesis"),
            TokenType::RightParenthesis => String::from_str("RightParenthesis"),
            TokenType::LeftBracket => String::from_str("LeftBracket"),
            TokenType::RightBracket => String::from_str("RightBracket"),
            TokenType::LeftBrace => String::from_str("LeftBrace"),
            TokenType::RightBrace => String::from_str("RightBrace"),
            TokenType::Period => String::from_str("Period"),
            TokenType::Comma => String::from_str("Comma"),
            TokenType::Semicolon => String::from_str("Semicolon"),
            TokenType::Colon => String::from_str("Colon"),
            TokenType::LessThan => String::from_str("LessThan"),
            TokenType::LessThanOrEqual => String::from_str("LessThanOrEqual"),
            TokenType::GreaterThan => String::from_str("GreaterThan"),
            TokenType::GreaterThanOrEqual => String::from_str("GreaterThanOrEqual"),
            TokenType::ExclamationMark => String::from_str("ExclamationMark"),
            TokenType::NotEqual => String::from_str("NotEqual"),
            TokenType::Assign => String::from_str("Assign"),
            TokenType::Equal => String::from_str("Equal"),
            TokenType::And => String::from_str("And"),
            TokenType::Or => String::from_str("Or"),
            TokenType::Increment => String::from_str("Increment"),
            TokenType::Decrement => String::from_str("Decrement"),
            TokenType::Plus => String::from_str("Plus"),
            TokenType::Minus => String::from_str("Minus"),
            TokenType::Star => String::from_str("Star"),
            TokenType::ForwardSlash => String::from_str("ForwardSlash"),
            TokenType::Remainder => String::from_str("Remainder"),
            TokenType::Power => String::from_str("Power"),
            TokenType::PositionalAdd => String::from_str("PositionalAdd"),
            TokenType::PositionalSubtract => String::from_str("PositionalSubtract"),
            TokenType::PositionalMultiply => String::from_str("PositionalMultiply"),
            TokenType::PositionalDivide => String::from_str("PositionalDivide"),
            TokenType::PositionalRemainder => String::from_str("PositionalRemainder"),
            TokenType::PositionalPower => String::from_str("PositionalPower"),
            TokenType::String => String::from_str("String"),
            TokenType::Char => String::from_str("Char"),
            TokenType::Boolean => String::from_str("Boolean"),
            TokenType::Integer => String::from_str("Integer"),
            TokenType::Float => String::from_str("Float"),
            TokenType::Class => String::from_str("Class"),
            TokenType::Super => String::from_str("Super"),
            TokenType::This => String::from_str("This"),
            TokenType::Extends => String::from_str("Extends"),
            TokenType::For => String::from_str("For"),
            TokenType::While => String::from_str("While"),
            TokenType::Loop => String::from_str("Loop"),
            TokenType::Break => String::from_str("Break"),
            TokenType::Continue => String::from_str("Continue"),
            TokenType::If => String::from_str("If"),
            TokenType::Else => String::from_str("Else"),
            TokenType::Return => String::from_str("Return"),
            TokenType::Is => String::from_str("Is"),
            TokenType::EOF => String::from_str("EOF"),
        }
    }
}

} // verus!

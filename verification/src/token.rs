//! The token model: the closed set of lexical categories the scanner
//! produces, together with its specification-level mirror.

use vstd::prelude::*;

verus! {

/// Specification-level value of a [`Token`]: identical tags, with every
/// text payload given as a sequence of characters.
#[verifier::ext_equal]
pub enum TokenV {
    /// The current input region could not be classified.
    Unknown,
    /// Synthetic terminal marker: exactly one per run, always last.
    Eof,
    /// Body of a quoted literal, bounding quotes excluded.
    String(Seq<char>),
    /// A non-keyword word: a letter followed by letters or digits.
    Identifier(Seq<char>),
    /// Spelling of a numeric literal: digits with at most one `.`.
    Number(Seq<char>),
    True,
    Maybe,
    False,
    If,
    Else,
    ElseIf,
    For,
    While,
    Loop,
    Not,
    And,
    Or,
    Of,
    End,
    Break,
    Class,
    Function,
    Public,
    Import,
    LParen,
    RParen,
    LBrace,
    RBrace,
    LSqBrace,
    RSqBrace,
    Dot,
    Comma,
    Colon,
    Add,
    Sub,
    Mul,
    Div,
    Pow,
    Assign,
    AssignAdd,
    AssignSub,
    AssignDiv,
    AssignMul,
    AssignPow,
    Equals,
    NotEquals,
    LessThan,
    GreaterThan,
    Returns,
}

/// A single classified lexical unit produced from a contiguous span of
/// input characters.
///
/// Tokens are immutable values. Two tokens are equal iff they carry the
/// same tag and, for the payload-bearing tags, equal payload text.
///
/// A numeric literal is carried as its spelling (a run of decimal digits
/// containing at most one `.`); decoding the spelling to a machine
/// floating-point value is left to the embedding program.
#[derive(Debug, Clone)]
pub enum Token {
    Unknown,
    Eof,
    String(String),
    Identifier(String),
    Number(String),
    True,
    Maybe,
    False,
    If,
    Else,
    ElseIf,
    For,
    While,
    Loop,
    Not,
    And,
    Or,
    Of,
    End,
    Break,
    Class,
    Function,
    Public,
    Import,
    LParen,
    RParen,
    LBrace,
    RBrace,
    LSqBrace,
    RSqBrace,
    Dot,
    Comma,
    Colon,
    Add,
    Sub,
    Mul,
    Div,
    Pow,
    Assign,
    AssignAdd,
    AssignSub,
    AssignDiv,
    AssignMul,
    AssignPow,
    Equals,
    NotEquals,
    LessThan,
    GreaterThan,
    Returns,
}

impl View for Token {
    type V = TokenV;

    open spec fn view(&self) -> TokenV {
        match self {
            Token::Unknown => TokenV::Unknown,
            Token::Eof => TokenV::Eof,
            Token::String(s) => TokenV::String(s@),
            Token::Identifier(s) => TokenV::Identifier(s@),
            Token::Number(s) => TokenV::Number(s@),
            Token::True => TokenV::True,
            Token::Maybe => TokenV::Maybe,
            Token::False => TokenV::False,
            Token::If => TokenV::If,
            Token::Else => TokenV::Else,
            Token::ElseIf => TokenV::ElseIf,
            Token::For => TokenV::For,
            Token::While => TokenV::While,
            Token::Loop => TokenV::Loop,
            Token::Not => TokenV::Not,
            Token::And => TokenV::And,
            Token::Or => TokenV::Or,
            Token::Of => TokenV::Of,
            Token::End => TokenV::End,
            Token::Break => TokenV::Break,
            Token::Class => TokenV::Class,
            Token::Function => TokenV::Function,
            Token::Public => TokenV::Public,
            Token::Import => TokenV::Import,
            Token::LParen => TokenV::LParen,
            Token::RParen => TokenV::RParen,
            Token::LBrace => TokenV::LBrace,
            Token::RBrace => TokenV::RBrace,
            Token::LSqBrace => TokenV::LSqBrace,
            Token::RSqBrace => TokenV::RSqBrace,
            Token::Dot => TokenV::Dot,
            Token::Comma => TokenV::Comma,
            Token::Colon => TokenV::Colon,
            Token::Add => TokenV::Add,
            Token::Sub => TokenV::Sub,
            Token::Mul => TokenV::Mul,
            Token::Div => TokenV::Div,
            Token::Pow => TokenV::Pow,
            Token::Assign => TokenV::Assign,
            Token::AssignAdd => TokenV::AssignAdd,
            Token::AssignSub => TokenV::AssignSub,
            Token::AssignDiv => TokenV::AssignDiv,
            Token::AssignMul => TokenV::AssignMul,
            Token::AssignPow => TokenV::AssignPow,
            Token::Equals => TokenV::Equals,
            Token::NotEquals => TokenV::NotEquals,
            Token::LessThan => TokenV::LessThan,
            Token::GreaterThan => TokenV::GreaterThan,
            Token::Returns => TokenV::Returns,
        }
    }
}

impl PartialEq for Token {
    /// Two tokens are equal iff their specification values are equal.
    #[verifier::rlimit(60)]
    fn eq(&self, other: &Token) -> (r: bool)
        ensures
            r == (self@ == other@),
    {
        match (self, other) {
            (Token::Unknown, Token::Unknown) => true,
            (Token::Eof, Token::Eof) => true,
            (Token::String(a), Token::String(b)) => *a == *b,
            (Token::Identifier(a), Token::Identifier(b)) => *a == *b,
            (Token::Number(a), Token::Number(b)) => *a == *b,
            (Token::True, Token::True) => true,
            (Token::Maybe, Token::Maybe) => true,
            (Token::False, Token::False) => true,
            (Token::If, Token::If) => true,
            (Token::Else, Token::Else) => true,
            (Token::ElseIf, Token::ElseIf) => true,
            (Token::For, Token::For) => true,
            (Token::While, Token::While) => true,
            (Token::Loop, Token::Loop) => true,
            (Token::Not, Token::Not) => true,
            (Token::And, Token::And) => true,
            (Token::Or, Token::Or) => true,
            (Token::Of, Token::Of) => true,
            (Token::End, Token::End) => true,
            (Token::Break, Token::Break) => true,
            (Token::Class, Token::Class) => true,
            (Token::Function, Token::Function) => true,
            (Token::Public, Token::Public) => true,
            (Token::Import, Token::Import) => true,
            (Token::LParen, Token::LParen) => true,
            (Token::RParen, Token::RParen) => true,
            (Token::LBrace, Token::LBrace) => true,
            (Token::RBrace, Token::RBrace) => true,
            (Token::LSqBrace, Token::LSqBrace) => true,
            (Token::RSqBrace, Token::RSqBrace) => true,
            (Token::Dot, Token::Dot) => true,
            (Token::Comma, Token::Comma) => true,
            (Token::Colon, Token::Colon) => true,
            (Token::Add, Token::Add) => true,
            (Token::Sub, Token::Sub) => true,
            (Token::Mul, Token::Mul) => true,
            (Token::Div, Token::Div) => true,
            (Token::Pow, Token::Pow) => true,
            (Token::Assign, Token::Assign) => true,
            (Token::AssignAdd, Token::AssignAdd) => true,
            (Token::AssignSub, Token::AssignSub) => true,
            (Token::AssignDiv, Token::AssignDiv) => true,
            (Token::AssignMul, Token::AssignMul) => true,
            (Token::AssignPow, Token::AssignPow) => true,
            (Token::Equals, Token::Equals) => true,
            (Token::NotEquals, Token::NotEquals) => true,
            (Token::LessThan, Token::LessThan) => true,
            (Token::GreaterThan, Token::GreaterThan) => true,
            (Token::Returns, Token::Returns) => true,
            _ => false,
        }
    }
}

impl vstd::std_specs::cmp::PartialEqSpecImpl for Token {
    open spec fn obeys_eq_spec() -> bool {
        true
    }

    open spec fn eq_spec(&self, other: &Token) -> bool {
        self@ == other@
    }
}

} // verus!

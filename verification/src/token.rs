//! The token vocabulary of the source language.

use vstd::prelude::*;

verus! {

/// One lexical unit of the source language. Tokens are immutable,
/// independent values; no token owns another.
#[derive(Debug, Clone, PartialEq)]
pub enum Token {
    /// The `+` arithmetic operator (also unary identity).
    Add,
    /// The `-` arithmetic operator (also unary negation).
    Sub,
    /// The `*` arithmetic operator.
    Mul,
    /// The `/` arithmetic operator.
    Div,
    /// The `?` sign-test operator.
    Is,
    /// The `!` logical-negation operator.
    Not,
    /// The `&` logical operator.
    And,
    /// The `|` logical operator.
    Or,
    /// The `=` comparison operator.
    Equals,
    /// The `<` comparison operator.
    Less,
    /// The `>` comparison operator.
    Greater,
    /// The `let` keyword.
    Let,
    /// The `be` keyword.
    Be,
    /// The `set` keyword.
    SetKw,
    /// The `to` keyword.
    To,
    /// The `rep` keyword.
    Rep,
    /// The `print` keyword.
    Print,
    /// The `(` punctuation.
    LParen,
    /// The `)` punctuation.
    RParen,
    /// The `{` punctuation.
    LBrace,
    /// The `}` punctuation.
    RBrace,
    /// The `;` punctuation.
    Semicolon,
    /// An integer literal carrying its 32-bit signed value.
    Constant(i32),
    /// An identifier carrying its name.
    Variable(String),
}

impl From<i32> for Token {
    fn from(value: i32) -> (r: Token) {
        Token::Constant(value)
    }
}

impl vstd::std_specs::convert::FromSpecImpl<i32> for Token {
    open spec fn obeys_from_spec() -> bool {
        true
    }

    open spec fn from_spec(value: i32) -> Token {
        Token::Constant(value)
    }
}

impl From<String> for Token {
    fn from(value: String) -> (r: Token) {
        Token::Variable(value)
    }
}

impl vstd::std_specs::convert::FromSpecImpl<String> for Token {
    open spec fn obeys_from_spec() -> bool {
        true
    }

    open spec fn from_spec(value: String) -> Token {
        Token::Variable(value)
    }
}

/// The mathematical model of a token: names are character sequences and
/// constant values are unbounded integers.
pub enum TokenV {
    Add,
    Sub,
    Mul,
    Div,
    Is,
    Not,
    And,
    Or,
    Equals,
    Less,
    Greater,
    Let,
    Be,
    SetKw,
    To,
    Rep,
    Print,
    LParen,
    RParen,
    LBrace,
    RBrace,
    Semicolon,
    Constant(int),
    Variable(Seq<char>),
}

impl DeepView for Token {
    type V = TokenV;

    open spec fn deep_view(&self) -> TokenV {
        match self {
            Token::Add => TokenV::Add,
            Token::Sub => TokenV::Sub,
            Token::Mul => TokenV::Mul,
            Token::Div => TokenV::Div,
            Token::Is => TokenV::Is,
            Token::Not => TokenV::Not,
            Token::And => TokenV::And,
            Token::Or => TokenV::Or,
            Token::Equals => TokenV::Equals,
            Token::Less => TokenV::Less,
            Token::Greater => TokenV::Greater,
            Token::Let => TokenV::Let,
            Token::Be => TokenV::Be,
            Token::SetKw => TokenV::SetKw,
            Token::To => TokenV::To,
            Token::Rep => TokenV::Rep,
            Token::Print => TokenV::Print,
            Token::LParen => TokenV::LParen,
            Token::RParen => TokenV::RParen,
            Token::LBrace => TokenV::LBrace,
            Token::RBrace => TokenV::RBrace,
            Token::Semicolon => TokenV::Semicolon,
            Token::Constant(v) => TokenV::Constant(*v as int),
            Token::Variable(s) => TokenV::Variable(s@),
        }
    }
}

} // verus!

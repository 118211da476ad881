//! The tokens that the scanner produces.

use vstd::prelude::*;

verus! {

/// One lexical unit of source text.
///
/// A token owns its text: it holds no reference into the input it came from.
#[derive(Debug, PartialEq, Eq)]
pub enum Token {
    // Special purpose tokens
    /// The end of the input.
    Eof,
    /// A character that starts no token.
    Illegal(char),
    // Identifiers and literals
    /// An identifier, with its spelling.
    Ident(String),
    /// An integer literal, with its digits as written.
    Int(String),
    // Operators
    Assign,
    Asterisk,
    Bang,
    Minus,
    Plus,
    Slash,
    // Comparison
    Gt,
    Lt,
    Eq,
    NotEq,
    // Delimiters
    Comma,
    Semicolon,
    // Grouping
    LBrace,
    LParen,
    RBrace,
    RParen,
    // Keywords
    Else,
    False,
    Function,
    If,
    Let,
    Return,
    True,
}

/// The mathematical value of a [`Token`]: the same variants, with the text of
/// an identifier or a literal as a sequence of characters.
pub enum TokenView {
    Eof,
    Illegal(char),
    Ident(Seq<char>),
    Int(Seq<char>),
    Assign,
    Asterisk,
    Bang,
    Minus,
    Plus,
    Slash,
    Gt,
    Lt,
    Eq,
    NotEq,
    Comma,
    Semicolon,
    LBrace,
    LParen,
    RBrace,
    RParen,
    Else,
    False,
    Function,
    If,
    Let,
    Return,
    True,
}

impl View for Token {
    type V = TokenView;

    open spec fn view(&self) -> TokenView {
        match self {
            Token::Eof => TokenView::Eof,
            Token::Illegal(c) => TokenView::Illegal(*c),
            Token::Ident(s) => TokenView::Ident(s@),
            Token::Int(s) => TokenView::Int(s@),
            Token::Assign => TokenView::Assign,
            Token::Asterisk => TokenView::Asterisk,
            Token::Bang => TokenView::Bang,
            Token::Minus => TokenView::Minus,
            Token::Plus => TokenView::Plus,
            Token::Slash => TokenView::Slash,
            Token::Gt => TokenView::Gt,
            Token::Lt => TokenView::Lt,
            Token::Eq => TokenView::Eq,
            Token::NotEq => TokenView::NotEq,
            Token::Comma => TokenView::Comma,
            Token::Semicolon => TokenView::Semicolon,
            Token::LBrace => TokenView::LBrace,
            Token::LParen => TokenView::LParen,
            Token::RBrace => TokenView::RBrace,
            Token::RParen => TokenView::RParen,
            Token::Else => TokenView::Else,
            Token::False => TokenView::False,
            Token::Function => TokenView::Function,
            Token::If => TokenView::If,
            Token::Let => TokenView::Let,
            Token::Return => TokenView::Return,
            Token::True => TokenView::True,
        }
    }
}

impl DeepView for Token {
    type V = TokenView;

    open spec fn deep_view(&self) -> TokenView {
        self@
    }
}

} // verus!

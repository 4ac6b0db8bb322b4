use vstd::prelude::*;

use crate::characters::{SimpleControl, SimpleStructural};

verus! {

/// The kind of a token.
#[derive(Debug, PartialEq, Eq, Hash, Clone, Copy, Structural)]
pub enum TokenType {
    Error,
    LBrace,
    RBrace,
    LBracket,
    RBracket,
    LParen,
    RParen,
    Metadata,
    Dispatch,
    Quote,
    Deref,
    Comment,
    Character,
    SynQuote,
    Unquote,
    UnquoteSplicing,
    Keyword,
    Symbol,
    Whitespace,
    String,
}

/// What a token is, as mathematics: its text and its kind.
pub struct Lexeme {
    pub text: Seq<char>,
    pub kind: TokenType,
}

/// A span of the input together with its kind. The span borrows from the
/// input and is never copied.
#[derive(Debug, PartialEq, Eq, Hash, Clone, Copy)]
pub struct Token<'a> {
    data: &'a str,
    kind: TokenType,
}

impl<'a> View for Token<'a> {
    type V = Lexeme;

    closed spec fn view(&self) -> Lexeme {
        Lexeme { text: self.data@, kind: self.kind }
    }
}

pub open spec fn opening_kind(k: TokenType) -> bool {
    k == TokenType::LBrace || k == TokenType::LParen || k == TokenType::LBracket
}

pub open spec fn closing_kind(k: TokenType) -> bool {
    k == TokenType::RBrace || k == TokenType::RParen || k == TokenType::RBracket
}

impl<'a> Token<'a> {
    pub fn new(data: &'a str, kind: TokenType) -> (r: Token<'a>)
        ensures
            r@ == (Lexeme { text: data@, kind }),
    {
        Token { data, kind }
    }

    pub fn kind(&self) -> (r: TokenType)
        ensures
            r == self@.kind,
    {
        self.kind
    }

    pub fn value(&self) -> (r: &'a str)
        ensures
            r@ == self@.text,
    {
        self.data
    }

    /// Whether the token opens a list, a vector or a map.
    pub fn is_left(&self) -> (r: bool)
        ensures
            r == opening_kind(self@.kind),
    {
        matches!(self.kind(), TokenType::LBrace | TokenType::LParen | TokenType::LBracket)
    }

    /// Whether the token closes a list, a vector or a map.
    pub fn is_right(&self) -> (r: bool)
        ensures
            r == closing_kind(self@.kind),
    {
        matches!(self.kind(), TokenType::RBrace | TokenType::RParen | TokenType::RBracket)
    }
}

pub open spec fn control_kind(c: SimpleControl) -> TokenType {
    match c {
        SimpleControl::Hash => TokenType::Dispatch,
        SimpleControl::Quote => TokenType::Quote,
    }
}

pub open spec fn structural_kind(c: SimpleStructural) -> TokenType {
    match c {
        SimpleStructural::LPar => TokenType::LParen,
        SimpleStructural::RPar => TokenType::RParen,
        SimpleStructural::LBrace => TokenType::LBrace,
        SimpleStructural::RBrace => TokenType::RBrace,
        SimpleStructural::LBracket => TokenType::LBracket,
        SimpleStructural::RBracket => TokenType::RBracket,
        SimpleStructural::Backtick => TokenType::SynQuote,
        SimpleStructural::Caret => TokenType::Metadata,
        SimpleStructural::At => TokenType::Deref,
    }
}

impl From<SimpleControl> for TokenType {
    fn from(value: SimpleControl) -> (r: TokenType) {
        match value {
            SimpleControl::Hash => TokenType::Dispatch,
            SimpleControl::Quote => TokenType::Quote,
        }
    }
}

impl vstd::std_specs::convert::FromSpecImpl<SimpleControl> for TokenType {
    open spec fn obeys_from_spec() -> bool {
        true
    }

    open spec fn from_spec(v: SimpleControl) -> TokenType {
        control_kind(v)
    }
}

impl From<SimpleStructural> for TokenType {
    fn from(value: SimpleStructural) -> (r: TokenType) {
        match value {
            SimpleStructural::LPar => TokenType::LParen,
            SimpleStructural::RPar => TokenType::RParen,
            SimpleStructural::LBrace => TokenType::LBrace,
            SimpleStructural::RBrace => TokenType::RBrace,
            SimpleStructural::LBracket => TokenType::LBracket,
            SimpleStructural::RBracket => TokenType::RBracket,
            SimpleStructural::Backtick => TokenType::SynQuote,
            SimpleStructural::Caret => TokenType::Metadata,
            SimpleStructural::At => TokenType::Deref,
        }
    }
}

impl vstd::std_specs::convert::FromSpecImpl<SimpleStructural> for TokenType {
    open spec fn obeys_from_spec() -> bool {
        true
    }

    open spec fn from_spec(v: SimpleStructural) -> TokenType {
        structural_kind(v)
    }
}

} // verus!

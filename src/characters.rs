use vstd::prelude::*;

use crate::whitespace::{clojure_whitespace, is_clojure_whitespace};

verus! {

/// Characters with a special meaning that may still stand inside a symbol or
/// a keyword.
#[derive(Debug, Clone, Copy, PartialEq, Eq, Structural)]
pub enum SimpleControl {
    /// The `#` character (dispatch).
    Hash,
    /// The `'` character (quote).
    Quote,
}

/// Control characters that open a token of several characters.
#[derive(Debug, Clone, Copy, PartialEq, Eq, Structural)]
pub enum ComplexControl {
    /// The `:` character (keyword).
    Colon,
}

/// Characters with a special meaning that always end a symbol or a keyword
/// and stand alone as a token.
#[derive(Debug, Clone, Copy, PartialEq, Eq, Structural)]
pub enum SimpleStructural {
    /// The `(` character.
    LPar,
    /// The `)` character.
    RPar,
    /// The `{` character.
    LBrace,
    /// The `}` character.
    RBrace,
    /// The `[` character.
    LBracket,
    /// The `]` character.
    RBracket,
    /// The `` ` `` character (syntax quote).
    Backtick,
    /// The `^` character (metadata).
    Caret,
    /// The `@` character (deref).
    At,
}

/// Characters that end a symbol or a keyword and open a token of their own
/// kind, which may be longer than one character.
#[derive(Debug, Clone, Copy, PartialEq, Eq, Structural)]
pub enum ComplexStructural {
    /// The `;` character (comment).
    Semicolon,
    /// The `\` character (character literal).
    Backslash,
    /// The `"` character (string).
    DoubleQuote,
    /// The `~` character (unquote).
    Tilde,
}

/// The category of a character.
#[derive(Debug, Clone, Copy, PartialEq, Eq, Structural)]
pub enum Char {
    Whitespace,
    SimpleControl(SimpleControl),
    ComplexControl(ComplexControl),
    SimpleStructural(SimpleStructural),
    ComplexStructural(ComplexStructural),
    Regular,
}

pub open spec fn simple_control_of(c: char) -> Option<SimpleControl> {
    if c == '#' {
        Some(SimpleControl::Hash)
    } else if c == '\'' {
        Some(SimpleControl::Quote)
    } else {
        None
    }
}

pub open spec fn complex_control_of(c: char) -> Option<ComplexControl> {
    if c == ':' {
        Some(ComplexControl::Colon)
    } else {
        None
    }
}

pub open spec fn simple_structural_of(c: char) -> Option<SimpleStructural> {
    if c == '(' {
        Some(SimpleStructural::LPar)
    } else if c == ')' {
        Some(SimpleStructural::RPar)
    } else if c == '{' {
        Some(SimpleStructural::LBrace)
    } else if c == '}' {
        Some(SimpleStructural::RBrace)
    } else if c == '[' {
        Some(SimpleStructural::LBracket)
    } else if c == ']' {
        Some(SimpleStructural::RBracket)
    } else if c == '`' {
        Some(SimpleStructural::Backtick)
    } else if c == '^' {
        Some(SimpleStructural::Caret)
    } else if c == '@' {
        Some(SimpleStructural::At)
    } else {
        None
    }
}

pub open spec fn complex_structural_of(c: char) -> Option<ComplexStructural> {
    if c == ';' {
        Some(ComplexStructural::Semicolon)
    } else if c == '\\' {
        Some(ComplexStructural::Backslash)
    } else if c == '"' {
        Some(ComplexStructural::DoubleQuote)
    } else if c == '~' {
        Some(ComplexStructural::Tilde)
    } else {
        None
    }
}

/// The category of `c`: whitespace first, then the control and structural
/// characters, and every other character is regular.
pub open spec fn class_of(c: char) -> Char {
    if clojure_whitespace(c) {
        Char::Whitespace
    } else if simple_control_of(c) is Some {
        Char::SimpleControl(simple_control_of(c)->0)
    } else if complex_control_of(c) is Some {
        Char::ComplexControl(complex_control_of(c)->0)
    } else if simple_structural_of(c) is Some {
        Char::SimpleStructural(simple_structural_of(c)->0)
    } else if complex_structural_of(c) is Some {
        Char::ComplexStructural(complex_structural_of(c)->0)
    } else {
        Char::Regular
    }
}

pub open spec fn structural(c: char) -> bool {
    class_of(c) is SimpleStructural || class_of(c) is ComplexStructural
}

pub open spec fn control(c: char) -> bool {
    class_of(c) is SimpleControl || class_of(c) is ComplexControl
}

/// A character that may continue a symbol, a keyword or a character literal.
pub open spec fn word(c: char) -> bool {
    control(c) || class_of(c) is Regular
}

/// A character that ends a symbol, a keyword or a character literal.
pub open spec fn word_stop(c: char) -> bool {
    structural(c) || clojure_whitespace(c)
}

pub fn parse_simple_control(c: char) -> (r: Option<SimpleControl>)
    ensures
        r == simple_control_of(c),
{
    match c {
        '#' => Some(SimpleControl::Hash),
        '\'' => Some(SimpleControl::Quote),
        _ => None,
    }
}

pub fn parse_complex_control(c: char) -> (r: Option<ComplexControl>)
    ensures
        r == complex_control_of(c),
{
    match c {
        ':' => Some(ComplexControl::Colon),
        _ => None,
    }
}

pub fn parse_simple_structural(c: char) -> (r: Option<SimpleStructural>)
    ensures
        r == simple_structural_of(c),
{
    match c {
        '(' => Some(SimpleStructural::LPar),
        ')' => Some(SimpleStructural::RPar),
        '{' => Some(SimpleStructural::LBrace),
        '}' => Some(SimpleStructural::RBrace),
        '[' => Some(SimpleStructural::LBracket),
        ']' => Some(SimpleStructural::RBracket),
        '`' => Some(SimpleStructural::Backtick),
        '^' => Some(SimpleStructural::Caret),
        '@' => Some(SimpleStructural::At),
        _ => None,
    }
}

pub fn parse_complex_structural(c: char) -> (r: Option<ComplexStructural>)
    ensures
        r == complex_structural_of(c),
{
    match c {
        ';' => Some(ComplexStructural::Semicolon),
        '\\' => Some(ComplexStructural::Backslash),
        '"' => Some(ComplexStructural::DoubleQuote),
        '~' => Some(ComplexStructural::Tilde),
        _ => None,
    }
}

pub fn parse(c: char) -> (r: Char)
    ensures
        r == class_of(c),
{
    if is_clojure_whitespace(c) {
        return Char::Whitespace;
    }
    if let Some(c) = parse_simple_control(c) {
        return Char::SimpleControl(c);
    }
    if let Some(c) = parse_complex_control(c) {
        return Char::ComplexControl(c);
    }
    if let Some(c) = parse_simple_structural(c) {
        return Char::SimpleStructural(c);
    }
    if let Some(c) = parse_complex_structural(c) {
        return Char::ComplexStructural(c);
    }
    Char::Regular
}

pub fn is_simple_structural(c: char) -> (r: bool)
    ensures
        r == class_of(c) is SimpleStructural,
{
    matches!(parse(c), Char::SimpleStructural(_))
}

pub fn is_complex_structural(c: char) -> (r: bool)
    ensures
        r == class_of(c) is ComplexStructural,
{
    matches!(parse(c), Char::ComplexStructural(_))
}

pub fn is_structural(c: char) -> (r: bool)
    ensures
        r == structural(c),
{
    is_simple_structural(c) || is_complex_structural(c)
}

pub fn is_simple_control(c: char) -> (r: bool)
    ensures
        r == class_of(c) is SimpleControl,
{
    matches!(parse(c), Char::SimpleControl(_))
}

pub fn is_complex_control(c: char) -> (r: bool)
    ensures
        r == class_of(c) is ComplexControl,
{
    matches!(parse(c), Char::ComplexControl(_))
}

pub fn is_control(c: char) -> (r: bool)
    ensures
        r == control(c),
{
    is_simple_control(c) || is_complex_control(c)
}

pub fn is_whitespace(c: char) -> (r: bool)
    ensures
        r == clojure_whitespace(c),
{
    matches!(parse(c), Char::Whitespace)
}

pub fn is_regular(c: char) -> (r: bool)
    ensures
        r == class_of(c) is Regular,
{
    matches!(parse(c), Char::Regular)
}

pub fn is_word(c: char) -> (r: bool)
    ensures
        r == word(c),
{
    is_control(c) || is_regular(c)
}

} // verus!

use vstd::prelude::*;

verus! {

/// The line separator, U+2028.
pub open spec fn line_separator(c: char) -> bool {
    c == '\u{2028}'
}

/// The characters of Unicode's space-separator category.
pub open spec fn space_separator(c: char) -> bool {
    ||| c == '\u{0020}'
    ||| c == '\u{00A0}'
    ||| c == '\u{1680}'
    ||| ('\u{2000}' <= c && c <= '\u{200A}')
    ||| c == '\u{202F}'
    ||| c == '\u{205F}'
    ||| c == '\u{3000}'
}

/// The paragraph separator, U+2029.
pub open spec fn paragraph_separator(c: char) -> bool {
    c == '\u{2029}'
}

/// Java's notion of whitespace: the Unicode separators but the three
/// non-breaking spaces, the ASCII layout controls and the four information
/// separators U+001C to U+001F.
pub open spec fn java_whitespace(c: char) -> bool {
    &&& c != '\u{00A0}'
    &&& c != '\u{2007}'
    &&& c != '\u{202F}'
    &&& {
        ||| space_separator(c)
        ||| line_separator(c)
        ||| paragraph_separator(c)
        ||| ('\u{0009}' <= c && c <= '\u{000D}')
        ||| ('\u{001C}' <= c && c <= '\u{001F}')
    }
}

/// Whitespace of the language: Java's whitespace and the comma.
pub open spec fn clojure_whitespace(c: char) -> bool {
    java_whitespace(c) || c == ','
}

fn is_line_separator(c: char) -> (r: bool)
    ensures
        r == line_separator(c),
{
    c == '\u{2028}'
}

fn is_space_separator(c: char) -> (r: bool)
    ensures
        r == space_separator(c),
{
    match c {
        '\u{0020}' => true,  // space
        '\u{00A0}' => true,  // no-break space
        '\u{1680}' => true,  // ogham space mark
        '\u{2000}' => true,  // en quad
        '\u{2001}' => true,  // em quad
        '\u{2002}' => true,  // en space
        '\u{2003}' => true,  // em space
        '\u{2004}' => true,  // three-per-em space
        '\u{2005}' => true,  // four-per-em space
        '\u{2006}' => true,  // six-per-em space
        '\u{2007}' => true,  // figure space
        '\u{2008}' => true,  // punctuation space
        '\u{2009}' => true,  // thin space
        '\u{200A}' => true,  // hair space
        '\u{202F}' => true,  // narrow no-break space
        '\u{205F}' => true,  // medium mathematical space
        '\u{3000}' => true,  // ideographic space
        _ => false,
    }
}

fn is_paragraph_separator(c: char) -> (r: bool)
    ensures
        r == paragraph_separator(c),
{
    c == '\u{2029}'
}

fn is_java_whitespace(c: char) -> (r: bool)
    ensures
        r == java_whitespace(c),
{
    if c == '\u{00a0}' || c == '\u{2007}' || c == '\u{202f}' {
        return false;
    }
    is_space_separator(c) || is_line_separator(c) || is_paragraph_separator(c) || c == '\t'
        || c == '\n' || c == '\u{000b}' || c == '\u{000c}' || c == '\r' || c == '\u{001c}'
        || c == '\u{001d}' || c == '\u{001e}' || c == '\u{001f}'
}

/// Whether `c` separates tokens: Java's whitespace, or a comma.
pub fn is_clojure_whitespace(c: char) -> (r: bool)
    ensures
        r == clojure_whitespace(c),
{
    is_java_whitespace(c) || c == ','
}

} // verus!

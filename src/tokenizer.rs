use vstd::prelude::*;

use crate::characters::{self, class_of, word, word_stop, Char, ComplexStructural};
use crate::cursor::Cursor;
use crate::token::{control_kind, structural_kind, Lexeme, Token, TokenType};
use crate::whitespace::clojure_whitespace;

verus! {

/// The first position at or after `j` that holds a character ending a word,
/// or the length of `s` when there is none.
pub open spec fn word_end(s: Seq<char>, j: int) -> int
    decreases s.len() - j,
{
    if j >= s.len() {
        s.len() as int
    } else if word_stop(s[j]) {
        j
    } else {
        word_end(s, j + 1)
    }
}

/// The first position at or after `j` that holds a character other than
/// whitespace, or the length of `s` when there is none.
pub open spec fn whitespace_end(s: Seq<char>, j: int) -> int
    decreases s.len() - j,
{
    if j >= s.len() {
        s.len() as int
    } else if !clojure_whitespace(s[j]) {
        j
    } else {
        whitespace_end(s, j + 1)
    }
}

/// The first position at or after `j` that holds a newline, or the length of
/// `s` when there is none.
pub open spec fn line_end(s: Seq<char>, j: int) -> int
    decreases s.len() - j,
{
    if j >= s.len() {
        s.len() as int
    } else if s[j] == '\n' {
        j
    } else {
        line_end(s, j + 1)
    }
}

/// The position of the double quote that closes a string whose body is
/// scanned from `j` on, `escaped` telling whether the character at `j`
/// follows a backslash; `None` when the string is not closed.
pub open spec fn string_close(s: Seq<char>, j: int, escaped: bool) -> Option<int>
    decreases s.len() - j,
{
    if j >= s.len() {
        None
    } else if escaped {
        string_close(s, j + 1, false)
    } else if s[j] == '\\' {
        string_close(s, j + 1, true)
    } else if s[j] == '"' {
        Some(j)
    } else {
        string_close(s, j + 1, false)
    }
}

/// The length and kind of the token at the start of a nonempty `s`.
pub open spec fn scan(s: Seq<char>) -> (int, TokenType) {
    match class_of(s[0]) {
        Char::Whitespace => if whitespace_end(s, 1) < s.len() {
            (whitespace_end(s, 1), TokenType::Whitespace)
        } else {
            (s.len() as int, TokenType::Character)
        },
        Char::SimpleControl(c) => (1, control_kind(c)),
        Char::SimpleStructural(c) => (1, structural_kind(c)),
        Char::ComplexControl(_) => if s.len() < 2 {
            (1, TokenType::Error)
        } else if !word(s[1]) {
            (2, TokenType::Error)
        } else {
            (word_end(s, 2), TokenType::Keyword)
        },
        Char::ComplexStructural(ComplexStructural::Backslash) => if s.len() < 2 {
            (1, TokenType::Error)
        } else {
            (word_end(s, 2), TokenType::Character)
        },
        Char::ComplexStructural(ComplexStructural::DoubleQuote) => match string_close(s, 1, false) {
            Some(j) => (j + 1, TokenType::String),
            None => (s.len() as int, TokenType::Error),
        },
        Char::ComplexStructural(ComplexStructural::Semicolon) => if line_end(s, 1) < s.len() {
            (line_end(s, 1) + 1, TokenType::Comment)
        } else {
            (s.len() as int, TokenType::Character)
        },
        Char::ComplexStructural(ComplexStructural::Tilde) => if s.len() >= 2 && s[1] == '@' {
            (2, TokenType::UnquoteSplicing)
        } else {
            (1, TokenType::Unquote)
        },
        Char::Regular => (word_end(s, 1), TokenType::Symbol),
    }
}

/// The token at the start of a nonempty `s`.
pub open spec fn first_token(s: Seq<char>) -> Lexeme {
    Lexeme { text: s.subrange(0, scan(s).0), kind: scan(s).1 }
}

/// What is left of a nonempty `s` after its first token.
pub open spec fn after_first(s: Seq<char>) -> Seq<char> {
    s.subrange(scan(s).0, s.len() as int)
}

/// The token at the start of `s` when `s` begins with a colon: a keyword when
/// a word character follows the colon, and an error otherwise.
pub open spec fn first_token_of_colon(s: Seq<char>) -> Lexeme {
    if s.len() < 2 {
        Lexeme { text: s, kind: TokenType::Error }
    } else if !word(s[1]) {
        Lexeme { text: s.subrange(0, 2), kind: TokenType::Error }
    } else {
        Lexeme { text: s.subrange(0, word_end(s, 2)), kind: TokenType::Keyword }
    }
}

/// The tokens of `s`, in order.
pub open spec fn tokens(s: Seq<char>) -> Seq<Lexeme>
    decreases s.len(),
    via tokens_decreases
{
    if s.len() == 0 {
        Seq::empty()
    } else {
        seq![first_token(s)] + tokens(after_first(s))
    }
}

#[via_fn]
proof fn tokens_decreases(s: Seq<char>) {
    if s.len() > 0 {
        lemma_scan_bounds(s);
    }
}

/// The texts of `ts` one after the other.
pub open spec fn joined(ts: Seq<Lexeme>) -> Seq<char>
    decreases ts.len(),
{
    if ts.len() == 0 {
        Seq::empty()
    } else {
        ts[0].text + joined(ts.drop_first())
    }
}

proof fn lemma_word_end_bounds(s: Seq<char>, j: int)
    requires
        0 <= j <= s.len(),
    ensures
        j <= word_end(s, j) <= s.len(),
    decreases s.len() - j,
{
    if j < s.len() && !word_stop(s[j]) {
        lemma_word_end_bounds(s, j + 1);
    }
}

proof fn lemma_whitespace_end_bounds(s: Seq<char>, j: int)
    requires
        0 <= j <= s.len(),
    ensures
        j <= whitespace_end(s, j) <= s.len(),
    decreases s.len() - j,
{
    if j < s.len() && clojure_whitespace(s[j]) {
        lemma_whitespace_end_bounds(s, j + 1);
    }
}

proof fn lemma_line_end_bounds(s: Seq<char>, j: int)
    requires
        0 <= j <= s.len(),
    ensures
        j <= line_end(s, j) <= s.len(),
    decreases s.len() - j,
{
    if j < s.len() && s[j] != '\n' {
        lemma_line_end_bounds(s, j + 1);
    }
}

proof fn lemma_string_close_bounds(s: Seq<char>, j: int, escaped: bool)
    requires
        0 <= j <= s.len(),
    ensures
        string_close(s, j, escaped) matches Some(k) ==> j <= k < s.len(),
    decreases s.len() - j,
{
    if j < s.len() {
        if escaped || s[j] != '"' {
            lemma_string_close_bounds(s, j + 1, s[j] == '\\' && !escaped);
        }
    }
}

/// Every token of a nonempty string is nonempty and fits in it.
pub proof fn lemma_scan_bounds(s: Seq<char>)
    requires
        s.len() > 0,
    ensures
        1 <= scan(s).0 <= s.len(),
{
    lemma_word_end_bounds(s, 1);
    if s.len() >= 2 {
        lemma_word_end_bounds(s, 2);
    }
    lemma_whitespace_end_bounds(s, 1);
    lemma_line_end_bounds(s, 1);
    lemma_string_close_bounds(s, 1, false);
}

/// Tokenizing loses nothing: the tokens of `s`, one after the other, are `s`,
/// and none of them is empty.
pub proof fn lemma_tokens_lossless(s: Seq<char>)
    ensures
        joined(tokens(s)) == s,
        forall|i: int| 0 <= i < tokens(s).len() ==> #[trigger] tokens(s)[i].text.len() > 0,
    decreases s.len(),
{
    if s.len() > 0 {
        lemma_scan_bounds(s);
        let rest = after_first(s);
        lemma_tokens_lossless(rest);
        let ts = tokens(s);
        assert(ts.drop_first() == tokens(rest));
        assert(s == first_token(s).text + rest);
        assert forall|i: int| 0 <= i < ts.len() implies #[trigger] ts[i].text.len() > 0 by {
            if i > 0 {
                assert(ts[i] == tokens(rest)[i - 1]);
            }
        }
    }
}

/// A scanner that hands out the tokens of a string one at a time.
pub struct Tokenizer<'a> {
    stream: &'a str,
}

impl<'a> From<&'a str> for Tokenizer<'a> {
    fn from(value: &'a str) -> (r: Tokenizer<'a>) {
        Tokenizer { stream: value }
    }
}

impl<'a> vstd::std_specs::convert::FromSpecImpl<&'a str> for Tokenizer<'a> {
    open spec fn obeys_from_spec() -> bool {
        true
    }

    closed spec fn from_spec(v: &'a str) -> Tokenizer<'a> {
        Tokenizer { stream: v }
    }
}

#[derive(Clone, Copy)]
enum StringState {
    Normal,
    Escape,
}

impl<'a> Tokenizer<'a> {
    /// The input that no token has taken yet.
    pub closed spec fn rest(&self) -> Seq<char> {
        self.stream@
    }

    pub fn new(stream: &'a str) -> (r: Tokenizer<'a>)
        ensures
            r.rest() == stream@,
    {
        Tokenizer { stream }
    }

    /// Cuts the first `pos` characters off as a token.
    fn make_token(&mut self, pos: usize, kind: TokenType) -> (r: Token<'a>)
        requires
            pos <= old(self).rest().len(),
        ensures
            r@ == (Lexeme { text: old(self).rest().subrange(0, pos as int), kind }),
            final(self).rest() == old(self).rest().subrange(pos as int, old(self).rest().len() as int),
    {
        let len = self.stream.unicode_len();
        let slice = self.stream.substring_char(0, pos);
        self.stream = self.stream.substring_char(pos, len);
        Token::new(slice, kind)
    }

    /// Cuts a token off up to the character the cursor returned last, with it.
    fn make_token_after(&mut self, kind: TokenType, cursor: Cursor<'a>) -> (r: Token<'a>)
        requires
            cursor.wf(),
            cursor.text() == old(self).rest(),
        ensures
            r@ == (Lexeme { text: old(self).rest().subrange(0, cursor.index() as int), kind }),
            final(self).rest() == old(self).rest().subrange(
                cursor.index() as int,
                old(self).rest().len() as int,
            ),
    {
        let (slice, rest) = cursor.split_after();
        self.stream = rest;
        Token::new(slice, kind)
    }

    /// Cuts a token off up to the character the cursor returned last, without it.
    fn make_token_before(&mut self, kind: TokenType, cursor: Cursor<'a>) -> (r: Token<'a>)
        requires
            cursor.wf(),
            cursor.text() == old(self).rest(),
        ensures
            r@ == (Lexeme { text: old(self).rest().subrange(0, cursor.offset() as int), kind }),
            final(self).rest() == old(self).rest().subrange(
                cursor.offset() as int,
                old(self).rest().len() as int,
            ),
    {
        let (slice, rest) = cursor.split_before();
        self.stream = rest;
        Token::new(slice, kind)
    }

    /// Takes all of the rest as one token.
    fn make_token_all(&mut self, kind: TokenType) -> (r: Token<'a>)
        ensures
            r@ == (Lexeme { text: old(self).rest(), kind }),
            final(self).rest() == Seq::<char>::empty(),
            final(self).rest() == old(self).rest().subrange(
                old(self).rest().len() as int,
                old(self).rest().len() as int,
            ),
    {
        let stream = self.stream;
        self.stream = "";
        proof {
            reveal_strlit("");
            assert(""@ =~= Seq::<char>::empty());
            assert(stream@.subrange(stream@.len() as int, stream@.len() as int) =~= Seq::<char>::empty());
        }
        Token::new(stream, kind)
    }

    fn make_token_ascii(&mut self, kind: TokenType) -> (r: Token<'a>)
        requires
            old(self).rest().len() >= 1,
        ensures
            r@ == (Lexeme { text: old(self).rest().subrange(0, 1), kind }),
            final(self).rest() == old(self).rest().subrange(1, old(self).rest().len() as int),
    {
        self.make_token(1, kind)
    }

    /// Reads the rest of a word whose first `cursor.index()` characters are
    /// taken already: up to the first character that ends a word.
    fn read_word(&mut self, cursor: Cursor<'a>, kind: TokenType) -> (r: Token<'a>)
        requires
            cursor.wf(),
            cursor.text() == old(self).rest(),
            1 <= cursor.index() <= old(self).rest().len(),
        ensures
            ({
                let s = old(self).rest();
                let e = word_end(s, cursor.index() as int);
                &&& r@ == (Lexeme { text: s.subrange(0, e), kind })
                &&& final(self).rest() == s.subrange(e, s.len() as int)
            }),
    {
        let ghost s = self.rest();
        let ghost j0 = cursor.index() as int;
        let mut cur = cursor;
        loop
            invariant
                cur.wf(),
                cur.text() == s,
                self.rest() == s,
                s == old(self).rest(),
                1 <= cur.index() <= s.len(),
                j0 == cursor.index(),
                word_end(s, j0) == word_end(s, cur.index() as int),
            decreases s.len() - cur.index(),
        {
            match cur.next() {
                Some(c) => {
                    if characters::is_structural(c) || characters::is_whitespace(c) {
                        return self.make_token_before(kind, cur);
                    }
                },
                None => {
                    proof {
                        assert(s.subrange(0, s.len() as int) == s);
                    }
                    return self.make_token_all(kind);
                },
            }
        }
    }

    /// Reads a word that must begin with a word character: otherwise the
    /// character, or the end of the input, makes an error token.
    fn read_word_strict(&mut self, cursor: Cursor<'a>, kind: TokenType) -> (r: Token<'a>)
        requires
            cursor.wf(),
            cursor.text() == old(self).rest(),
            cursor.index() == 1,
            old(self).rest().len() >= 1,
        ensures
            ({
                let s = old(self).rest();
                let n = if s.len() < 2 {
                    s.len() as int
                } else if !word(s[1]) {
                    2
                } else {
                    word_end(s, 2)
                };
                let k = if s.len() >= 2 && word(s[1]) {
                    kind
                } else {
                    TokenType::Error
                };
                &&& r@ == (Lexeme { text: s.subrange(0, n), kind: k })
                &&& final(self).rest() == s.subrange(n, s.len() as int)
            }),
    {
        let ghost s = self.rest();
        let mut cursor = cursor;
        let c = match cursor.next() {
            Some(c) => c,
            None => {
                proof {
                    assert(s.subrange(0, s.len() as int) == s);
                }
                return self.make_token_all(TokenType::Error);
            },
        };
        if !characters::is_word(c) {
            return self.make_token_after(TokenType::Error, cursor);
        }
        self.read_word(cursor, kind)
    }

    fn read_symbol(&mut self, cursor: Cursor<'a>) -> (r: Token<'a>)
        requires
            cursor.wf(),
            cursor.text() == old(self).rest(),
            cursor.index() == 1,
            old(self).rest().len() >= 1,
        ensures
            ({
                let s = old(self).rest();
                let e = word_end(s, 1);
                &&& r@ == (Lexeme { text: s.subrange(0, e), kind: TokenType::Symbol })
                &&& final(self).rest() == s.subrange(e, s.len() as int)
            }),
    {
        self.read_word(cursor, TokenType::Symbol)
    }

    fn read_keyword(&mut self, cursor: Cursor<'a>) -> (r: Token<'a>)
        requires
            cursor.wf(),
            cursor.text() == old(self).rest(),
            cursor.index() == 1,
            old(self).rest().len() >= 1,
        ensures
            r@ == first_token_of_colon(old(self).rest()),
            final(self).rest() == old(self).rest().subrange(
                r@.text.len() as int,
                old(self).rest().len() as int,
            ),
    {
        let ghost s = self.rest();
        let r = self.read_word_strict(cursor, TokenType::Keyword);
        proof {
            if s.len() >= 2 && word(s[1]) {
                lemma_word_end_bounds(s, 2);
            }
            assert(s.subrange(0, s.len() as int) == s);
        }
        r
    }

    /// Reads a character literal: the backslash, one character whatever it
    /// is, then the rest of a word.
    fn read_character(&mut self, cursor: Cursor<'a>) -> (r: Token<'a>)
        requires
            cursor.wf(),
            cursor.text() == old(self).rest(),
            cursor.index() == 1,
            old(self).rest().len() >= 1,
        ensures
            ({
                let s = old(self).rest();
                let n = if s.len() < 2 {
                    s.len() as int
                } else {
                    word_end(s, 2)
                };
                let k = if s.len() < 2 {
                    TokenType::Error
                } else {
                    TokenType::Character
                };
                &&& r@ == (Lexeme { text: s.subrange(0, n), kind: k })
                &&& final(self).rest() == s.subrange(n, s.len() as int)
            }),
    {
        let ghost s = self.rest();
        let mut cursor = cursor;
        match cursor.next() {
            Some(_) => {},
            None => {
                proof {
                    assert(s.subrange(0, s.len() as int) == s);
                }
                return self.make_token_all(TokenType::Error);
            },
        }
        self.read_word(cursor, TokenType::Character)
    }

    /// Reads a comment through the end of its line, the newline included. A
    /// comment that the input ends in, with no newline, is a character token.
    fn read_comment(&mut self, cursor: Cursor<'a>) -> (r: Token<'a>)
        requires
            cursor.wf(),
            cursor.text() == old(self).rest(),
            cursor.index() == 1,
            old(self).rest().len() >= 1,
        ensures
            ({
                let s = old(self).rest();
                let e = line_end(s, 1);
                &&& e < s.len() ==> r@ == (Lexeme {
                    text: s.subrange(0, e + 1),
                    kind: TokenType::Comment,
                }) && final(self).rest() == s.subrange(e + 1, s.len() as int)
                &&& e >= s.len() ==> r@ == (Lexeme { text: s, kind: TokenType::Character })
                    && final(self).rest().len() == 0
            }),
    {
        let ghost s = self.rest();
        let mut cursor = cursor;
        loop
            invariant
                cursor.wf(),
                cursor.text() == s,
                self.rest() == s,
                s == old(self).rest(),
                cursor.index() >= 1,
                line_end(s, 1) == line_end(s, cursor.index() as int),
            decreases s.len() - cursor.index(),
        {
            match cursor.next() {
                Some(c) => {
                    if c == '\n' {
                        return self.make_token_after(TokenType::Comment, cursor);
                    }
                },
                None => {
                    return self.make_token_all(TokenType::Character);
                },
            }
        }
    }

    /// Reads `~@` as one token, and `~` otherwise.
    fn read_unquote(&mut self, cursor: Cursor<'a>) -> (r: Token<'a>)
        requires
            cursor.wf(),
            cursor.text() == old(self).rest(),
            cursor.index() == 1,
            old(self).rest().len() >= 1,
        ensures
            ({
                let s = old(self).rest();
                let n: int = if s.len() >= 2 && s[1] == '@' {
                    2
                } else if s.len() >= 2 {
                    1
                } else {
                    s.len() as int
                };
                let k = if s.len() >= 2 && s[1] == '@' {
                    TokenType::UnquoteSplicing
                } else {
                    TokenType::Unquote
                };
                &&& r@ == (Lexeme { text: s.subrange(0, n), kind: k })
                &&& final(self).rest() == s.subrange(n, s.len() as int)
            }),
    {
        let ghost s = self.rest();
        let mut cursor = cursor;
        match cursor.next() {
            Some('@') => self.make_token_after(TokenType::UnquoteSplicing, cursor),
            Some(_) => self.make_token_before(TokenType::Unquote, cursor),
            None => {
                proof {
                    assert(s.subrange(0, s.len() as int) == s);
                }
                self.make_token_all(TokenType::Unquote)
            },
        }
    }

    /// Reads a run of whitespace. A run that the input ends in is a character
    /// token.
    fn read_whitespace(&mut self, cursor: Cursor<'a>) -> (r: Token<'a>)
        requires
            cursor.wf(),
            cursor.text() == old(self).rest(),
            cursor.index() == 1,
            old(self).rest().len() >= 1,
        ensures
            ({
                let s = old(self).rest();
                let e = whitespace_end(s, 1);
                &&& e < s.len() ==> r@ == (Lexeme {
                    text: s.subrange(0, e),
                    kind: TokenType::Whitespace,
                }) && final(self).rest() == s.subrange(e, s.len() as int)
                &&& e >= s.len() ==> r@ == (Lexeme { text: s, kind: TokenType::Character })
                    && final(self).rest().len() == 0
            }),
    {
        let ghost s = self.rest();
        let mut cursor = cursor;
        loop
            invariant
                cursor.wf(),
                cursor.text() == s,
                self.rest() == s,
                s == old(self).rest(),
                cursor.index() >= 1,
                whitespace_end(s, 1) == whitespace_end(s, cursor.index() as int),
            decreases s.len() - cursor.index(),
        {
            match cursor.next() {
                Some(c) => {
                    if !characters::is_whitespace(c) {
                        return self.make_token_before(TokenType::Whitespace, cursor);
                    }
                },
                None => {
                    return self.make_token_all(TokenType::Character);
                },
            }
        }
    }

    /// Reads a string through its closing double quote; a backslash escapes
    /// the character after it. A string that is not closed is an error token
    /// that takes the rest of the input.
    fn read_string(&mut self, cursor: Cursor<'a>) -> (r: Token<'a>)
        requires
            cursor.wf(),
            cursor.text() == old(self).rest(),
            cursor.index() == 1,
            old(self).rest().len() >= 1,
        ensures
            ({
                let s = old(self).rest();
                &&& (string_close(s, 1, false) matches Some(j) ==> r@ == (Lexeme {
                    text: s.subrange(0, j + 1),
                    kind: TokenType::String,
                }) && final(self).rest() == s.subrange(j + 1, s.len() as int))
                &&& string_close(s, 1, false) is None ==> r@ == (Lexeme {
                    text: s,
                    kind: TokenType::Error,
                }) && final(self).rest().len() == 0
            }),
    {
        let ghost s = self.rest();
        let mut cursor = cursor;
        let mut state = StringState::Normal;
        loop
            invariant
                cursor.wf(),
                cursor.text() == s,
                self.rest() == s,
                s == old(self).rest(),
                cursor.index() >= 1,
                string_close(s, 1, false) == string_close(
                    s,
                    cursor.index() as int,
                    state is Escape,
                ),
            decreases s.len() - cursor.index(),
        {
            match cursor.next() {
                Some(c) => {
                    match state {
                        StringState::Normal => {
                            if c == '\\' {
                                state = StringState::Escape;
                            } else if c == '"' {
                                return self.make_token_after(TokenType::String, cursor);
                            }
                        },
                        StringState::Escape => {
                            state = StringState::Normal;
                        },
                    }
                },
                None => {
                    return self.make_token_all(TokenType::Error);
                },
            }
        }
    }

    fn make_simple_control_token(&mut self, c: characters::SimpleControl) -> (r: Token<'a>)
        requires
            old(self).rest().len() >= 1,
        ensures
            r@ == (Lexeme { text: old(self).rest().subrange(0, 1), kind: control_kind(c) }),
            final(self).rest() == old(self).rest().subrange(1, old(self).rest().len() as int),
    {
        self.make_token_ascii(TokenType::from(c))
    }

    fn make_simple_structural_token(&mut self, c: characters::SimpleStructural) -> (r: Token<
        'a,
    >)
        requires
            old(self).rest().len() >= 1,
        ensures
            r@ == (Lexeme { text: old(self).rest().subrange(0, 1), kind: structural_kind(c) }),
            final(self).rest() == old(self).rest().subrange(1, old(self).rest().len() as int),
    {
        self.make_token_ascii(TokenType::from(c))
    }

    /// The next token of the input, or `None` once all of it is taken.
    pub fn next(&mut self) -> (r: Option<Token<'a>>)
        ensures
            old(self).rest().len() == 0 ==> r is None && final(self).rest() == old(self).rest(),
            old(self).rest().len() > 0 ==> (r matches Some(t) && t@ == first_token(old(self).rest())
                && final(self).rest() == after_first(old(self).rest())),
    {
        let ghost s = self.rest();
        let mut cursor = Cursor::new(self.stream);
        let c = match cursor.next() {
            Some(c) => c,
            None => return None,
        };
        proof {
            lemma_scan_bounds(s);
            assert(s.subrange(0, s.len() as int) == s);
            assert(s.subrange(s.len() as int, s.len() as int).len() == 0);
        }
        let r = match characters::parse(c) {
            Char::Whitespace => self.read_whitespace(cursor),
            Char::SimpleControl(c) => self.make_simple_control_token(c),
            Char::SimpleStructural(c) => self.make_simple_structural_token(c),
            Char::ComplexControl(_) => self.read_keyword(cursor),
            Char::ComplexStructural(c) => match c {
                ComplexStructural::Backslash => self.read_character(cursor),
                ComplexStructural::DoubleQuote => self.read_string(cursor),
                ComplexStructural::Semicolon => self.read_comment(cursor),
                ComplexStructural::Tilde => self.read_unquote(cursor),
            },
            Char::Regular => self.read_symbol(cursor),
        };
        Some(r)
    }
}

} // verus!

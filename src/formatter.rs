use vstd::prelude::*;

use crate::alignment::{sat_add, Alignment};
use crate::lookahead::{token_at, view_of, LookaheadCursor};
use crate::policy::{policy, policy_of, Policy};
use crate::token::{Lexeme, Token, TokenType};
use crate::tokenizer::tokens;

verus! {

/// How far a call has come: its operator, what follows the operator, its
/// first argument.
#[derive(Debug, Clone, Copy, PartialEq, Eq, Structural)]
pub enum CallStage {
    Name,
    AfterName,
    First,
}

/// How far a special form has come: its operator, or its leading
/// arguments (before the optional whitespace of one, or after it).
#[derive(Debug, Clone, Copy, PartialEq, Eq, Structural)]
pub enum SpecialStage {
    Name,
    Args,
    ArgStart,
}

/// How far an argument with reader-macro prefixes has come: at a prefix or
/// the form, before the whitespace after `#` or `^`, at the tag that follows
/// them, before the whitespace after the tag or a quote.
#[derive(Debug, Clone, Copy, PartialEq, Eq, Structural)]
pub enum ArgStage {
    Start,
    TagWs,
    Tag,
    Ws,
}

/// The bracket that closes a form of items.
#[derive(Debug, Clone, Copy, PartialEq, Eq, Structural)]
pub enum Closer {
    Paren,
    Bracket,
    Brace,
}

pub open spec fn closer_kind(c: Closer) -> TokenType {
    match c {
        Closer::Paren => TokenType::RParen,
        Closer::Bracket => TokenType::RBracket,
        Closer::Brace => TokenType::RBrace,
    }
}

impl Closer {
    /// The kind of the closing token.
    pub fn kind(self) -> (r: TokenType)
        ensures
            r == closer_kind(self),
    {
        match self {
            Closer::Paren => TokenType::RParen,
            Closer::Bracket => TokenType::RBracket,
            Closer::Brace => TokenType::RBrace,
        }
    }
}

/// A form that is open while its tokens are read. `outer` is the alignment
/// that the form hands back once it is closed.
#[derive(Debug, Clone, Copy, PartialEq, Eq, Structural)]
pub enum Frame {
    /// A vector, a map, a plain list, or the rest of a list's body: items
    /// up to the `close` token.
    Items { close: Closer, outer: Alignment },
    /// A list laid out as a call.
    Call { outer: Alignment, stage: CallStage },
    /// A list headed by a special form: `left` leading arguments are still to
    /// come, `first` tells whether none came yet, and `head_indent` is the
    /// operator's indentation.
    Special {
        outer: Alignment,
        left: usize,
        first: bool,
        head_indent: usize,
        phase: SpecialStage,
    },
    /// A leading argument of a special form that may carry reader-macro
    /// prefixes.
    Arg { part: ArgStage },
}

/// What the formatter has written so far, the forms open, and the
/// alignment in hand.
pub struct Page {
    pub out: Seq<char>,
    pub stack: Seq<Frame>,
    pub al: Alignment,
}

pub open spec fn spaces(n: nat) -> Seq<char> {
    Seq::new(n, |_i: int| ' ')
}

pub open spec fn line_breaks(n: nat) -> Seq<char> {
    Seq::new(n, |_i: int| '\n')
}

/// The number of newlines in `s`.
pub open spec fn newline_count(s: Seq<char>) -> nat
    decreases s.len(),
{
    if s.len() == 0 {
        0
    } else {
        newline_count(s.drop_last()) + if s.last() == '\n' {
            1nat
        } else {
            0nat
        }
    }
}

/// The column that a comment which starts a line is pushed to.
pub const COMMENT_COLUMN: usize = 40;

/// A comment that is pushed to the comment column: one that does not start
/// with `;;`.
pub open spec fn padded_comment(t: Lexeme) -> bool {
    t.kind == TokenType::Comment && !(t.text.len() >= 2 && t.text[0] == ';' && t.text[1] == ';')
}

/// What whitespace `s` becomes: unchanged when it holds no newline; else as
/// many newlines as it holds, then the indentation, then, before a comment
/// that is padded, spaces up to the comment column.
pub open spec fn whitespace_text(s: Seq<char>, next: Option<Lexeme>, al: Alignment) -> Seq<char> {
    match next {
        None => seq!['\n'],
        Some(n) => if newline_count(s) == 0 {
            s
        } else {
            line_breaks(newline_count(s)) + spaces(al.indent as nat) + if padded_comment(n) && al.indent
                < COMMENT_COLUMN {
                spaces((COMMENT_COLUMN - al.indent) as nat)
            } else {
                Seq::empty()
            }
        },
    }
}

pub open spec fn whitespace_alignment(s: Seq<char>, next: Option<Lexeme>, al: Alignment) -> Alignment {
    match next {
        None => al,
        Some(_) => if newline_count(s) == 0 {
            al.spec_shift(s.len() as usize)
        } else {
            al.spec_set_pos(al.indent).spec_align()
        },
    }
}

/// A comment ends its line; unless whitespace follows, the next line is
/// indented here.
pub open spec fn comment_text(s: Seq<char>, next: Option<Lexeme>, al: Alignment) -> Seq<char> {
    (if s.len() > 0 && s.last() == '\n' {
        s
    } else {
        s.push('\n')
    }) + if next is None || next->0.kind == TokenType::Whitespace {
        Seq::empty()
    } else {
        spaces(al.indent as nat)
    }
}

pub open spec fn comment_alignment(next: Option<Lexeme>, al: Alignment) -> Alignment {
    if next is None || next->0.kind == TokenType::Whitespace {
        al.spec_set_pos(0)
    } else {
        al.spec_set_pos(al.indent).spec_align()
    }
}

/// Where the body of a definition goes: two columns past its parenthesis.
pub open spec fn definition_alignment(al: Alignment) -> Alignment {
    Alignment { indent: sat_add(al.pos, 2), pos: sat_add(al.pos, 1), align: al.align }
}

/// The current column becomes the alignment and the indentation.
pub open spec fn realigned(al: Alignment) -> Alignment {
    al.spec_align().spec_set_indent(al.pos)
}

pub open spec fn with_top(p: Page, f: Frame) -> Page {
    Page { stack: p.stack.drop_last().push(f), ..p }
}

pub open spec fn with_al(p: Page, al: Alignment) -> Page {
    Page { al, ..p }
}

/// A token written as it is.
pub open spec fn worded(p: Page, t: Lexeme) -> Page {
    Page { out: p.out + t.text, al: p.al.spec_shift(t.text.len() as usize), ..p }
}

pub open spec fn spaced(p: Page, t: Lexeme, next: Option<Lexeme>) -> Page {
    Page {
        out: p.out + whitespace_text(t.text, next, p.al),
        al: whitespace_alignment(t.text, next, p.al),
        ..p
    }
}

pub open spec fn commented(p: Page, t: Lexeme, next: Option<Lexeme>) -> Page {
    Page {
        out: p.out + comment_text(t.text, next, p.al),
        al: comment_alignment(next, p.al),
        ..p
    }
}

/// The open form takes the alignment that one of its parts handed back.
pub open spec fn resumed(p: Page) -> Page {
    if p.stack.len() == 0 {
        p
    } else {
        match p.stack.last() {
            Frame::Call { outer, stage: CallStage::Name } => with_top(
                p,
                Frame::Call { outer, stage: CallStage::AfterName },
            ),
            Frame::Special { outer, left, first, head_indent: _, phase: SpecialStage::Name } => {
                let f = Frame::Special {
                    outer,
                    left,
                    first,
                    head_indent: p.al.indent,
                    phase: SpecialStage::Args,
                };
                with_al(with_top(p, f), p.al.spec_indent(3))
            },
            Frame::Arg { part: ArgStage::Tag } => with_top(p, Frame::Arg { part: ArgStage::Ws }),
            _ => p,
        }
    }
}

/// An opening token written, with the form it opens.
pub open spec fn opened(p: Page, t: Lexeme, f: Frame, al: Alignment) -> Page {
    Page { out: p.out + t.text, stack: p.stack.push(f), al }
}

/// A closing token written: the form hands back `outer`.
pub open spec fn closed(p: Page, t: Lexeme, outer: Alignment) -> Page {
    resumed(Page { out: p.out + t.text, stack: p.stack.drop_last(), al: outer })
}

pub open spec fn items_frame(close: Closer, al: Alignment) -> Frame {
    Frame::Items { close, outer: al }
}

/// A list opened by `t`, laid out after the token `next` that follows it.
pub open spec fn list_opened(p: Page, t: Lexeme, next: Option<Lexeme>) -> Page {
    let inner = p.al.spec_increase(1);
    let call = Frame::Call { outer: p.al, stage: CallStage::Name };
    match next {
        Some(n) => if n.kind == TokenType::Keyword {
            opened(p, t, call, inner)
        } else if n.kind == TokenType::Symbol {
            match policy_of(n.text) {
                Policy::Special(k) => opened(
                    p,
                    t,
                    Frame::Special {
                        outer: p.al,
                        left: k,
                        first: true,
                        head_indent: 0,
                        phase: SpecialStage::Name,
                    },
                    inner,
                ),
                Policy::Definition => opened(
                    p,
                    t,
                    items_frame(Closer::Paren, p.al),
                    definition_alignment(p.al),
                ),
                Policy::Call => opened(p, t, call, inner),
            }
        } else {
            opened(p, t, items_frame(Closer::Paren, p.al), inner)
        },
        None => opened(p, t, items_frame(Closer::Paren, p.al), inner),
    }
}

/// One form, or the first token of one, handed to the open form on top.
pub open spec fn formatted_token(p: Page, t: Lexeme, next: Option<Lexeme>) -> Page {
    match t.kind {
        TokenType::LBracket => opened(
            p,
            t,
            items_frame(Closer::Bracket, p.al),
            p.al.spec_increase(1),
        ),
        TokenType::LBrace => opened(p, t, items_frame(Closer::Brace, p.al), p.al.spec_increase(1)),
        TokenType::LParen => list_opened(p, t, next),
        TokenType::Whitespace => resumed(spaced(p, t, next)),
        TokenType::Comment => resumed(commented(p, t, next)),
        _ => resumed(worded(p, t)),
    }
}

/// The first token of a body: `)` closes the list, anything else starts
/// the items.
pub open spec fn body_started(p: Page, outer: Alignment, t: Lexeme, next: Option<Lexeme>) -> Page {
    if t.kind == TokenType::RParen {
        closed(p, t, outer)
    } else {
        formatted_token(with_top(p, items_frame(Closer::Paren, outer)), t, next)
    }
}

/// The token after a call's operator: the first argument, after optional
/// whitespace, sets the column that the other arguments line up under.
pub open spec fn after_name(p: Page, outer: Alignment, t: Lexeme, next: Option<Lexeme>) -> Page {
    if t.kind == TokenType::Whitespace {
        let q = spaced(p, t, next);
        with_al(with_top(q, Frame::Call { outer, stage: CallStage::First }), realigned(q.al))
    } else {
        body_started(with_al(p, realigned(p.al)), outer, t, next)
    }
}

/// The body of a special form, once its leading arguments are done: one
/// column past the operator's indentation, whether the body starts on the
/// operator's line or on a line of its own.
pub open spec fn body_begun(
    p: Page,
    outer: Alignment,
    head_indent: usize,
    t: Lexeme,
    next: Option<Lexeme>,
) -> Page {
    let al = p.al.spec_set_indent(head_indent).spec_indent(1);
    if t.kind == TokenType::Whitespace {
        with_top(spaced(with_al(p, al), t, next), Frame::Call { outer, stage: CallStage::First })
    } else {
        body_started(with_al(p, al), outer, t, next)
    }
}

/// A token where a leading argument of a special form may start, after the
/// optional whitespace: `)` ends the list early, anything else starts the
/// argument.
pub open spec fn sparg_started(
    p: Page,
    outer: Alignment,
    left: usize,
    head_indent: usize,
    t: Lexeme,
    next: Option<Lexeme>,
) -> Page {
    if t.kind == TokenType::RParen {
        body_begun(p, outer, head_indent, t, next)
    } else {
        let f = Frame::Special {
            outer,
            left: (left - 1) as usize,
            first: false,
            head_indent,
            phase: SpecialStage::Args,
        };
        let q = with_top(p, f);
        arg_started(Page { stack: q.stack.push(Frame::Arg { part: ArgStage::Start }), ..q }, t, next)
    }
}

/// A token before a leading argument of a special form, or before its body
/// once none is left. Whitespace is kept; the first argument's column
/// becomes the alignment.
pub open spec fn spargs_met(
    p: Page,
    outer: Alignment,
    left: usize,
    first: bool,
    head_indent: usize,
    t: Lexeme,
    next: Option<Lexeme>,
) -> Page {
    if left == 0 {
        body_begun(p, outer, head_indent, t, next)
    } else if t.kind == TokenType::Whitespace {
        let q = spaced(p, t, next);
        let f = Frame::Special { outer, left, first, head_indent, phase: SpecialStage::ArgStart };
        with_al(
            with_top(q, f),
            if first {
                q.al.spec_align()
            } else {
                q.al
            },
        )
    } else {
        let al = if first {
            p.al.spec_align()
        } else {
            p.al
        };
        sparg_started(with_al(p, al), outer, left, head_indent, t, next)
    }
}

/// A token at the start of an argument: a prefix (`#` and `^` with the tag
/// after them, a quote or a syntax quote) is written and the argument goes
/// on; anything else is the argument's form.
pub open spec fn arg_started(p: Page, t: Lexeme, next: Option<Lexeme>) -> Page {
    if t.kind == TokenType::Dispatch || t.kind == TokenType::Metadata {
        with_top(worded(p, t), Frame::Arg { part: ArgStage::TagWs })
    } else if t.kind == TokenType::Quote || t.kind == TokenType::SynQuote {
        with_top(worded(p, t), Frame::Arg { part: ArgStage::Ws })
    } else {
        formatted_token(Page { stack: p.stack.drop_last(), ..p }, t, next)
    }
}

pub open spec fn arg_tag_met(p: Page, t: Lexeme, next: Option<Lexeme>) -> Page {
    if t.kind == TokenType::Whitespace {
        with_top(spaced(p, t, next), Frame::Arg { part: ArgStage::Tag })
    } else {
        formatted_token(with_top(p, Frame::Arg { part: ArgStage::Tag }), t, next)
    }
}

pub open spec fn arg_form_met(p: Page, t: Lexeme, next: Option<Lexeme>) -> Page {
    if t.kind == TokenType::Whitespace {
        with_top(spaced(p, t, next), Frame::Arg { part: ArgStage::Start })
    } else {
        arg_started(with_top(p, Frame::Arg { part: ArgStage::Start }), t, next)
    }
}

/// The formatter on one token `t`, `next` being the token after it.
pub open spec fn step(p: Page, t: Lexeme, next: Option<Lexeme>) -> Page {
    if p.stack.len() == 0 {
        formatted_token(p, t, next)
    } else {
        match p.stack.last() {
            Frame::Items { close, outer } => if t.kind == closer_kind(close) {
                closed(p, t, outer)
            } else {
                formatted_token(p, t, next)
            },
            Frame::Call { outer, stage } => match stage {
                CallStage::Name => formatted_token(p, t, next),
                CallStage::AfterName => after_name(p, outer, t, next),
                CallStage::First => body_started(p, outer, t, next),
            },
            Frame::Special { outer, left, first, head_indent, phase: stage } => match stage {
                SpecialStage::Name => formatted_token(p, t, next),
                SpecialStage::Args => spargs_met(p, outer, left, first, head_indent, t, next),
                SpecialStage::ArgStart => if left == 0 {
                    body_begun(p, outer, head_indent, t, next)
                } else {
                    sparg_started(p, outer, left, head_indent, t, next)
                },
            },
            Frame::Arg { part: stage } => match stage {
                ArgStage::Start => arg_started(p, t, next),
                ArgStage::TagWs => arg_tag_met(p, t, next),
                ArgStage::Tag => formatted_token(p, t, next),
                ArgStage::Ws => arg_form_met(p, t, next),
            },
        }
    }
}

/// The formatter on the tokens of `ts` from position `i` on.
pub open spec fn run(ts: Seq<Lexeme>, i: int, p: Page) -> Page
    decreases ts.len() - i,
{
    if i < 0 || i >= ts.len() {
        p
    } else {
        run(ts, i + 1, step(p, ts[i], token_at(ts, i + 1)))
    }
}

pub open spec fn blank_page() -> Page {
    Page { out: Seq::empty(), stack: Seq::empty(), al: Alignment { indent: 0, pos: 0, align: 0 } }
}

/// The text `s` formatted.
pub open spec fn formatted(s: Seq<char>) -> Seq<char> {
    run(tokens(s), 0, blank_page()).out
}

/// The formatter at work: the text written so far, the forms open, and the
/// alignment in hand.
pub struct Printer {
    buf: String,
    stack: Vec<Frame>,
    al: Alignment,
}

impl View for Printer {
    type V = Page;

    closed spec fn view(&self) -> Page {
        Page { out: self.buf@, stack: self.stack@, al: self.al }
    }
}

/// The number of newlines in `s`.
fn count_newlines(s: &str) -> (r: usize)
    ensures
        r == newline_count(s@),
{
    let n = s.unicode_len();
    let mut count: usize = 0;
    let mut i: usize = 0;
    while i < n
        invariant
            n == s@.len(),
            i <= n,
            count == newline_count(s@.subrange(0, i as int)),
            count <= i,
        decreases n - i,
    {
        assert(s@.subrange(0, i + 1).drop_last() == s@.subrange(0, i as int));
        if s.get_char(i) == '\n' {
            count = count + 1;
        }
        i = i + 1;
    }
    assert(s@.subrange(0, n as int) == s@);
    count
}

/// Whether `s` starts with `;;`.
fn starts_with_two_semicolons(s: &str) -> (r: bool)
    ensures
        r == (s@.len() >= 2 && s@[0] == ';' && s@[1] == ';'),
{
    let n = s.unicode_len();
    n >= 2 && s.get_char(0) == ';' && s.get_char(1) == ';'
}

/// Whether `s` ends with a newline.
fn ends_with_newline(s: &str) -> (r: bool)
    ensures
        r == (s@.len() > 0 && s@.last() == '\n'),
{
    let n = s.unicode_len();
    n > 0 && s.get_char(n - 1) == '\n'
}

impl Printer {
    pub fn new() -> (r: Printer)
        ensures
            r@ == blank_page(),
    {
        Printer { buf: String::new(), stack: Vec::new(), al: Alignment::new() }
    }

    /// The text written.
    pub fn text(self) -> (r: String)
        ensures
            r@ == self@.out,
    {
        self.buf
    }

    fn push_str(&mut self, s: &str)
        ensures
            final(self)@ == (Page { out: old(self)@.out + s@, ..old(self)@ }),
    {
        self.buf.append(s);
    }

    fn push_spaces(&mut self, n: usize)
        ensures
            final(self)@ == (Page { out: old(self)@.out + spaces(n as nat), ..old(self)@ }),
    {
        let ghost start = self.buf@;
        let mut i: usize = 0;
        while i < n
            invariant
                i <= n,
                self.buf@ == start + spaces(i as nat),
                self.stack == old(self).stack,
                self.al == old(self).al,
                start == old(self).buf@,
            decreases n - i,
        {
            self.buf.append(" ");
            proof {
                reveal_strlit(" ");
                assert(spaces((i + 1) as nat) == spaces(i as nat) + " "@);
            }
            i = i + 1;
        }
    }

    fn push_newlines(&mut self, n: usize)
        ensures
            final(self)@ == (Page { out: old(self)@.out + line_breaks(n as nat), ..old(self)@ }),
    {
        let ghost start = self.buf@;
        let mut i: usize = 0;
        while i < n
            invariant
                i <= n,
                self.buf@ == start + line_breaks(i as nat),
                self.stack == old(self).stack,
                self.al == old(self).al,
                start == old(self).buf@,
            decreases n - i,
        {
            self.buf.append("\n");
            proof {
                reveal_strlit("\n");
                assert(line_breaks((i + 1) as nat) == line_breaks(i as nat) + "\n"@);
            }
            i = i + 1;
        }
    }

    fn replace_top(&mut self, f: Frame)
        requires
            old(self)@.stack.len() > 0,
        ensures
            final(self)@ == with_top(old(self)@, f),
    {
        self.stack.pop();
        self.stack.push(f);
    }

    fn top(&self) -> (r: Option<Frame>)
        ensures
            self@.stack.len() == 0 ==> r is None,
            self@.stack.len() > 0 ==> r == Some(self@.stack.last()),
    {
        let n = self.stack.len();
        if n == 0 {
            None
        } else {
            Some(self.stack[n - 1])
        }
    }

    /// Writes a token as it is.
    fn format_word(&mut self, t: Token)
        ensures
            final(self)@ == worded(old(self)@, t@),
    {
        let s = t.value();
        self.push_str(s);
        self.al = self.al.shift(s.unicode_len());
    }

    /// Writes whitespace: kept as it is within a line; after a line break,
    /// the same number of line breaks and the indentation.
    fn format_whitespace(&mut self, t: Token, next: Option<Token>)
        ensures
            final(self)@ == spaced(old(self)@, t@, view_of(next)),
    {
        let n = match next {
            Some(n) => n,
            None => {
                self.push_str("\n");
                proof {
                    reveal_strlit("\n");
                    assert("\n"@ =~= seq!['\n']);
                }
                return ;
            },
        };
        let s = t.value();
        let k = count_newlines(s);
        if k == 0 {
            self.push_str(s);
            self.al = self.al.shift(s.unicode_len());
            return ;
        }
        let ghost start = self@;
        let al = self.al;
        self.push_newlines(k);
        self.push_spaces(al.indent);
        let padded = n.kind() == TokenType::Comment && !starts_with_two_semicolons(n.value());
        if padded && al.indent < COMMENT_COLUMN {
            self.push_spaces(COMMENT_COLUMN - al.indent);
        } else {
            proof {
                assert(self@.out == self@.out + Seq::<char>::empty());
            }
        }
        self.al = al.set_pos(al.indent).align();
        proof {
            let w = whitespace_text(t@.text, view_of(next), al);
            assert(self@.out == start.out + w);
        }
    }

    /// Writes a comment; it ends its line.
    fn format_comment(&mut self, t: Token, next: Option<Token>)
        ensures
            final(self)@ == commented(old(self)@, t@, view_of(next)),
    {
        let ghost start = self@;
        let s = t.value();
        self.push_str(s);
        if !ends_with_newline(s) {
            self.push_str("\n");
            proof {
                reveal_strlit("\n");
                assert(s@.push('\n') =~= s@ + "\n"@);
                assert(self@.out =~= start.out + s@.push('\n'));
            }
        }
        let ghost mid = self@;
        let plain = match next {
            Some(n) => n.kind() == TokenType::Whitespace,
            None => true,
        };
        let al = self.al;
        if plain {
            self.al = al.set_pos(0);
            proof {
                assert(mid.out =~= mid.out + Seq::<char>::empty());
                assert(self@.out =~= start.out + comment_text(t@.text, view_of(next), start.al));
            }
        } else {
            self.push_spaces(al.indent);
            self.al = al.set_pos(al.indent).align();
            proof {
                assert(self@.out =~= start.out + comment_text(t@.text, view_of(next), start.al));
            }
        }
    }

    /// Hands the alignment in hand to the open form on top.
    fn resume(&mut self)
        ensures
            final(self)@ == resumed(old(self)@),
    {
        match self.top() {
            Some(Frame::Call { outer, stage: CallStage::Name }) => {
                self.replace_top(Frame::Call { outer, stage: CallStage::AfterName });
            },
            Some(Frame::Special { outer, left, first, head_indent: _, phase: SpecialStage::Name }) => {
                let al = self.al;
                self.replace_top(
                    Frame::Special {
                        outer,
                        left,
                        first,
                        head_indent: al.indent,
                        phase: SpecialStage::Args,
                    },
                );
                self.al = al.indent(3);
            },
            Some(Frame::Arg { part: ArgStage::Tag }) => {
                self.replace_top(Frame::Arg { part: ArgStage::Ws });
            },
            _ => {},
        }
    }

    fn open(&mut self, t: Token, f: Frame, al: Alignment)
        ensures
            final(self)@ == opened(old(self)@, t@, f, al),
    {
        self.push_str(t.value());
        self.stack.push(f);
        self.al = al;
    }

    /// Opens a vector at `[`.
    fn format_vector(&mut self, t: Token)
        ensures
            final(self)@ == opened(
                old(self)@,
                t@,
                items_frame(Closer::Bracket, old(self)@.al),
                old(self)@.al.spec_increase(1),
            ),
    {
        let al = self.al;
        self.open(t, Frame::Items { close: Closer::Bracket, outer: al }, al.increase(1));
    }

    /// Opens a map at `{`.
    fn format_map(&mut self, t: Token)
        ensures
            final(self)@ == opened(
                old(self)@,
                t@,
                items_frame(Closer::Brace, old(self)@.al),
                old(self)@.al.spec_increase(1),
            ),
    {
        let al = self.al;
        self.open(t, Frame::Items { close: Closer::Brace, outer: al }, al.increase(1));
    }

    /// Opens a plain list at `(`: its items line up one column past it.
    fn format_list(&mut self, t: Token)
        ensures
            final(self)@ == opened(
                old(self)@,
                t@,
                items_frame(Closer::Paren, old(self)@.al),
                old(self)@.al.spec_increase(1),
            ),
    {
        let al = self.al;
        self.open(t, Frame::Items { close: Closer::Paren, outer: al }, al.increase(1));
    }

    /// Opens a list laid out as a call.
    fn format_fn(&mut self, t: Token)
        ensures
            final(self)@ == opened(
                old(self)@,
                t@,
                Frame::Call { outer: old(self)@.al, stage: CallStage::Name },
                old(self)@.al.spec_increase(1),
            ),
    {
        let al = self.al;
        self.open(t, Frame::Call { outer: al, stage: CallStage::Name }, al.increase(1));
    }

    /// Opens a list headed by a special form with `count` leading arguments.
    fn format_sparg(&mut self, t: Token, count: usize)
        ensures
            final(self)@ == opened(
                old(self)@,
                t@,
                Frame::Special {
                    outer: old(self)@.al,
                    left: count,
                    first: true,
                    head_indent: 0,
                    phase: SpecialStage::Name,
                },
                old(self)@.al.spec_increase(1),
            ),
    {
        let al = self.al;
        let f = Frame::Special {
            outer: al,
            left: count,
            first: true,
            head_indent: 0,
            phase: SpecialStage::Name,
        };
        self.open(t, f, al.increase(1));
    }

    /// Opens a definition: its body goes two columns past the parenthesis.
    fn format_defn(&mut self, t: Token)
        ensures
            final(self)@ == opened(
                old(self)@,
                t@,
                items_frame(Closer::Paren, old(self)@.al),
                definition_alignment(old(self)@.al),
            ),
    {
        let al = self.al;
        let body = Alignment {
            indent: al.pos.saturating_add(2),
            pos: al.pos.saturating_add(1),
            align: al.align,
        };
        self.open(t, Frame::Items { close: Closer::Paren, outer: al }, body);
    }

    /// Opens a list at `(`, laid out after the token that follows it.
    fn format_sexp(&mut self, t: Token, next: Option<Token>)
        ensures
            final(self)@ == list_opened(old(self)@, t@, view_of(next)),
    {
        let n = match next {
            Some(n) => n,
            None => {
                self.format_list(t);
                return ;
            },
        };
        match n.kind() {
            TokenType::Keyword => self.format_fn(t),
            TokenType::Symbol => match policy(n.value()) {
                Policy::Special(k) => self.format_sparg(t, k),
                Policy::Definition => self.format_defn(t),
                Policy::Call => self.format_fn(t),
            },
            _ => self.format_list(t),
        }
    }

    /// Formats one form, or the first token of one.
    fn format(&mut self, t: Token, next: Option<Token>)
        ensures
            final(self)@ == formatted_token(old(self)@, t@, view_of(next)),
    {
        match t.kind() {
            TokenType::LBracket => self.format_vector(t),
            TokenType::LBrace => self.format_map(t),
            TokenType::LParen => self.format_sexp(t, next),
            TokenType::Whitespace => {
                self.format_whitespace(t, next);
                self.resume();
            },
            TokenType::Comment => {
                self.format_comment(t, next);
                self.resume();
            },
            _ => {
                self.format_word(t);
                self.resume();
            },
        }
    }

    /// Closes the form on top, which hands back `outer`.
    fn close(&mut self, t: Token, outer: Alignment)
        requires
            old(self)@.stack.len() > 0,
        ensures
            final(self)@ == closed(old(self)@, t@, outer),
    {
        self.push_str(t.value());
        self.stack.pop();
        self.al = outer;
        self.resume();
    }

    fn format_body(&mut self, outer: Alignment, t: Token, next: Option<Token>)
        requires
            old(self)@.stack.len() > 0,
        ensures
            final(self)@ == body_started(old(self)@, outer, t@, view_of(next)),
    {
        if t.kind() == TokenType::RParen {
            self.close(t, outer);
        } else {
            self.replace_top(Frame::Items { close: Closer::Paren, outer });
            self.format(t, next);
        }
    }

    fn format_after_name(&mut self, outer: Alignment, t: Token, next: Option<Token>)
        requires
            old(self)@.stack.len() > 0,
        ensures
            final(self)@ == after_name(old(self)@, outer, t@, view_of(next)),
    {
        if t.kind() == TokenType::Whitespace {
            self.format_whitespace(t, next);
            self.replace_top(Frame::Call { outer, stage: CallStage::First });
            let al = self.al;
            self.al = al.align().set_indent(al.pos);
        } else {
            let al = self.al;
            self.al = al.align().set_indent(al.pos);
            self.format_body(outer, t, next);
        }
    }

    fn format_special_body(
        &mut self,
        outer: Alignment,
        head_indent: usize,
        t: Token,
        next: Option<Token>,
    )
        requires
            old(self)@.stack.len() > 0,
        ensures
            final(self)@ == body_begun(old(self)@, outer, head_indent, t@, view_of(next)),
    {
        let al = self.al.set_indent(head_indent).indent(1);
        if t.kind() == TokenType::Whitespace {
            self.al = al;
            self.format_whitespace(t, next);
            self.replace_top(Frame::Call { outer, stage: CallStage::First });
        } else {
            self.al = al;
            self.format_body(outer, t, next);
        }
    }

    fn format_sparg_start(
        &mut self,
        outer: Alignment,
        left: usize,
        head_indent: usize,
        t: Token,
        next: Option<Token>,
    )
        requires
            old(self)@.stack.len() > 0,
            left > 0,
        ensures
            final(self)@ == sparg_started(old(self)@, outer, left, head_indent, t@, view_of(next)),
    {
        if t.kind() == TokenType::RParen {
            self.format_special_body(outer, head_indent, t, next);
        } else {
            let f = Frame::Special {
                outer,
                left: left - 1,
                first: false,
                head_indent,
                phase: SpecialStage::Args,
            };
            self.replace_top(f);
            self.stack.push(Frame::Arg { part: ArgStage::Start });
            self.format_arg(t, next);
        }
    }

    fn format_spargs(
        &mut self,
        outer: Alignment,
        left: usize,
        first: bool,
        head_indent: usize,
        t: Token,
        next: Option<Token>,
    )
        requires
            old(self)@.stack.len() > 0,
        ensures
            final(self)@ == spargs_met(
                old(self)@,
                outer,
                left,
                first,
                head_indent,
                t@,
                view_of(next),
            ),
    {
        if left == 0 {
            self.format_special_body(outer, head_indent, t, next);
        } else if t.kind() == TokenType::Whitespace {
            self.format_whitespace(t, next);
            let f = Frame::Special {
                outer,
                left,
                first,
                head_indent,
                phase: SpecialStage::ArgStart,
            };
            self.replace_top(f);
            if first {
                self.al = self.al.align();
            }
        } else {
            if first {
                self.al = self.al.align();
            }
            self.format_sparg_start(outer, left, head_indent, t, next);
        }
    }

    /// A token at the start of a leading argument of a special form.
    fn format_arg(&mut self, t: Token, next: Option<Token>)
        requires
            old(self)@.stack.len() > 0,
        ensures
            final(self)@ == arg_started(old(self)@, t@, view_of(next)),
    {
        match t.kind() {
            TokenType::Dispatch | TokenType::Metadata => {
                self.format_word(t);
                self.replace_top(Frame::Arg { part: ArgStage::TagWs });
            },
            TokenType::Quote | TokenType::SynQuote => {
                self.format_word(t);
                self.replace_top(Frame::Arg { part: ArgStage::Ws });
            },
            _ => {
                self.stack.pop();
                self.format(t, next);
            },
        }
    }

    fn format_arg_tag(&mut self, t: Token, next: Option<Token>)
        requires
            old(self)@.stack.len() > 0,
        ensures
            final(self)@ == arg_tag_met(old(self)@, t@, view_of(next)),
    {
        if t.kind() == TokenType::Whitespace {
            self.format_whitespace(t, next);
            self.replace_top(Frame::Arg { part: ArgStage::Tag });
        } else {
            self.replace_top(Frame::Arg { part: ArgStage::Tag });
            self.format(t, next);
        }
    }

    fn format_arg_form(&mut self, t: Token, next: Option<Token>)
        requires
            old(self)@.stack.len() > 0,
        ensures
            final(self)@ == arg_form_met(old(self)@, t@, view_of(next)),
    {
        if t.kind() == TokenType::Whitespace {
            self.format_whitespace(t, next);
            self.replace_top(Frame::Arg { part: ArgStage::Start });
        } else {
            self.replace_top(Frame::Arg { part: ArgStage::Start });
            self.format_arg(t, next);
        }
    }

    /// Formats one token, `next` being the token after it.
    pub fn step(&mut self, t: Token, next: Option<Token>)
        ensures
            final(self)@ == step(old(self)@, t@, view_of(next)),
    {
        match self.top() {
            None => self.format(t, next),
            Some(Frame::Items { close, outer }) => {
                if t.kind() == close.kind() {
                    self.close(t, outer);
                } else {
                    self.format(t, next);
                }
            },
            Some(Frame::Call { outer, stage }) => match stage {
                CallStage::Name => self.format(t, next),
                CallStage::AfterName => self.format_after_name(outer, t, next),
                CallStage::First => self.format_body(outer, t, next),
            },
            Some(Frame::Special { outer, left, first, head_indent, phase: stage }) => match stage {
                SpecialStage::Name => self.format(t, next),
                SpecialStage::Args => self.format_spargs(outer, left, first, head_indent, t, next),
                SpecialStage::ArgStart => {
                    if left == 0 {
                        self.format_special_body(outer, head_indent, t, next);
                    } else {
                        self.format_sparg_start(outer, left, head_indent, t, next);
                    }
                },
            },
            Some(Frame::Arg { part: stage }) => match stage {
                ArgStage::Start => self.format_arg(t, next),
                ArgStage::TagWs => self.format_arg_tag(t, next),
                ArgStage::Tag => self.format(t, next),
                ArgStage::Ws => self.format_arg_form(t, next),
            },
        }
    }
}

/// Formats `s`: indentation, line breaks and the alignment of comments at the
/// end of a line are redone, every other character is kept.
pub fn xformat(s: &str) -> (r: String)
    ensures
        r@ == formatted(s@),
{
    let ghost ts = tokens(s@);
    let mut cur = LookaheadCursor::new(s);
    let mut printer = Printer::new();
    loop
        invariant_except_break
            cur.index() < ts.len() || cur.index() == -1,
        invariant
            cur.wf(),
            cur.tokens() == ts,
            -1 <= cur.index() <= ts.len(),
            run(ts, 0, blank_page()) == run(ts, cur.index() + 1, printer@),
        ensures
            cur.index() >= ts.len(),
        decreases ts.len() - cur.index(),
    {
        match cur.next() {
            Some(tok) => {
                let next = cur.lookahead1();
                printer.step(tok, next);
            },
            None => {
                break;
            },
        }
    }
    printer.text()
}

} // verus!

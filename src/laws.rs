use vstd::prelude::*;

use crate::alignment::Alignment;
use crate::formatter::{
    blank_page, formatted, line_breaks, newline_count, padded_comment, resumed, run, spaced,
    spaces, step, whitespace_text, with_top, worded, comment_text, commented, realigned, with_al,
    CallStage, ArgStage, Frame, Page, SpecialStage,
    COMMENT_COLUMN,
};
use crate::lookahead::token_at;
use crate::token::{Lexeme, TokenType};
use crate::whitespace::clojure_whitespace;
use crate::tokenizer::{
    whitespace_end, after_first, joined, lemma_scan_bounds, lemma_tokens_lossless, line_end, tokens,
};

verus! {

proof fn lemma_newline_count_concat(a: Seq<char>, b: Seq<char>)
    ensures
        newline_count(a + b) == newline_count(a) + newline_count(b),
    decreases b.len(),
{
    if b.len() > 0 {
        lemma_newline_count_concat(a, b.drop_last());
        assert((a + b).drop_last() == a + b.drop_last());
    } else {
        assert(a + b == a);
    }
}

proof fn lemma_newline_count_breaks(k: nat)
    ensures
        newline_count(line_breaks(k)) == k,
    decreases k,
{
    if k > 0 {
        lemma_newline_count_breaks((k - 1) as nat);
        assert(line_breaks(k).drop_last() == line_breaks((k - 1) as nat));
    }
}

proof fn lemma_newline_count_spaces(k: nat)
    ensures
        newline_count(spaces(k)) == 0,
    decreases k,
{
    if k > 0 {
        lemma_newline_count_spaces((k - 1) as nat);
        assert(spaces(k).drop_last() == spaces((k - 1) as nat));
    }
}

proof fn lemma_whitespace_text_breaks(s: Seq<char>, n: Lexeme, al: Alignment)
    ensures
        newline_count(whitespace_text(s, Some(n), al)) == newline_count(s),
{
    let k = newline_count(s);
    if k > 0 {
        let pad = whitespace_text(s, Some(n), al).subrange(
            (k + al.indent) as int,
            whitespace_text(s, Some(n), al).len() as int,
        );
        lemma_newline_count_breaks(k);
        lemma_newline_count_spaces(al.indent as nat);
        lemma_newline_count_spaces((COMMENT_COLUMN - al.indent) as nat);
        lemma_newline_count_spaces(0);
        assert(spaces(0) == Seq::<char>::empty());
        lemma_newline_count_concat(line_breaks(k), spaces(al.indent as nat));
        let head = line_breaks(k) + spaces(al.indent as nat);
        if padded_comment(n) && al.indent < COMMENT_COLUMN {
            lemma_newline_count_concat(head, spaces((COMMENT_COLUMN - al.indent) as nat));
        } else {
            lemma_newline_count_concat(head, Seq::empty());
        }
    }
}

proof fn lemma_resumed_keeps_text(p: Page)
    ensures
        resumed(p).out == p.out,
{
}

/// Blank lines are kept: the text written for whitespace that another token
/// follows holds exactly as many newlines as the whitespace, whatever forms
/// are open and wherever the line stands.
pub proof fn lemma_whitespace_keeps_line_breaks(p: Page, t: Lexeme, n: Lexeme)
    requires
        t.kind == TokenType::Whitespace,
    ensures
        newline_count(step(p, t, Some(n)).out) == newline_count(p.out) + newline_count(t.text),
{
    lemma_step_text(p, t, Some(n));
    let a = used_alignment(p, t);
    lemma_whitespace_text_breaks(t.text, n, a);
    lemma_newline_count_concat(p.out, whitespace_text(t.text, Some(n), a));
}

/// `s` holds no newline.
pub open spec fn single_line(s: Seq<char>) -> bool {
    forall|i: int| 0 <= i < s.len() ==> s[i] != '\n'
}

proof fn lemma_single_line_count(s: Seq<char>)
    requires
        single_line(s),
    ensures
        newline_count(s) == 0,
    decreases s.len(),
{
    if s.len() > 0 {
        assert(single_line(s.drop_last()));
        lemma_single_line_count(s.drop_last());
    }
}

proof fn lemma_line_end_at_newline(s: Seq<char>, j: int)
    requires
        0 <= j <= s.len(),
    ensures
        line_end(s, j) < s.len() ==> s[line_end(s, j)] == '\n',
    decreases s.len() - j,
{
    if j < s.len() && s[j] != '\n' {
        lemma_line_end_at_newline(s, j + 1);
    }
}

/// What a token of a line with no newline is like.
pub open spec fn line_token(ts: Seq<Lexeme>, k: int) -> bool {
    &&& single_line(ts[k].text)
    &&& ts[k].kind != TokenType::Comment
    &&& ts[k].kind == TokenType::Whitespace ==> k + 1 < ts.len()
}

proof fn lemma_tokens_of_line(s: Seq<char>)
    requires
        single_line(s),
    ensures
        forall|k: int| 0 <= k < tokens(s).len() ==> line_token(tokens(s), k),
    decreases s.len(),
{
    if s.len() > 0 {
        lemma_scan_bounds(s);
        let rest = after_first(s);
        assert(single_line(rest));
        lemma_tokens_of_line(rest);
        lemma_line_end_at_newline(s, 1);
        let ts = tokens(s);
        assert(ts.drop_first() == tokens(rest));
        assert forall|k: int| 0 <= k < ts.len() implies line_token(ts, k) by {
            if k == 0 {
                assert(single_line(ts[0].text));
                if ts[0].kind == TokenType::Whitespace {
                    assert(rest.len() > 0);
                    assert(tokens(rest).len() > 0);
                }
            } else {
                assert(ts[k] == tokens(rest)[k - 1]);
                assert(line_token(tokens(rest), k - 1));
            }
        }
    }
}

proof fn lemma_step_of_line(p: Page, t: Lexeme, next: Option<Lexeme>)
    requires
        single_line(t.text),
        t.kind != TokenType::Comment,
        t.kind == TokenType::Whitespace ==> next is Some,
    ensures
        step(p, t, next).out == p.out + t.text,
{
    lemma_single_line_count(t.text);
    let q = step(p, t, next);
    lemma_resumed_keeps_text(spaced(p, t, next));
    lemma_resumed_keeps_text(worded(p, t));
    lemma_resumed_keeps_text(Page { out: p.out + t.text, stack: p.stack.drop_last(), ..p });
    if p.stack.len() > 0 {
        let r = Page { stack: p.stack.drop_last(), ..p };
        lemma_resumed_keeps_text(spaced(r, t, next));
        lemma_resumed_keeps_text(worded(r, t));
        match p.stack.last() {
            Frame::Special { outer, left, first, head_indent, phase: stage } => {
                let f = Frame::Special {
                    outer,
                    left: (left - 1) as usize,
                    first: false,
                    head_indent,
                    phase: SpecialStage::Args,
                };
                let r1 = with_top(p, f);
                let r2 = Page { stack: r1.stack.push(Frame::Arg { part: ArgStage::Start }), ..r1 };
                let r3 = Page { stack: r2.stack.drop_last(), ..r2 };
                lemma_resumed_keeps_text(spaced(r3, t, next));
                lemma_resumed_keeps_text(worded(r3, t));
                lemma_resumed_keeps_text(
                    Page { out: r3.out + t.text, stack: r3.stack.drop_last(), ..r3 },
                );
                assert(q.out == p.out + t.text);
            },
            _ => {
                assert(q.out == p.out + t.text);
            },
        }
    }
}

proof fn lemma_run_of_line(ts: Seq<Lexeme>, i: int, p: Page)
    requires
        0 <= i <= ts.len(),
        forall|k: int| i <= k < ts.len() ==> line_token(ts, k),
    ensures
        run(ts, i, p).out == p.out + joined(ts.subrange(i, ts.len() as int)),
    decreases ts.len() - i,
{
    let tail = ts.subrange(i, ts.len() as int);
    if i == ts.len() {
        assert(tail.len() == 0);
        assert(p.out + joined(tail) == p.out);
    } else {
        assert(line_token(ts, i));
        lemma_step_of_line(p, ts[i], token_at(ts, i + 1));
        let q = step(p, ts[i], token_at(ts, i + 1));
        lemma_run_of_line(ts, i + 1, q);
        assert(tail.drop_first() == ts.subrange(i + 1, ts.len() as int));
        assert(tail[0] == ts[i]);
        assert(p.out + ts[i].text + joined(ts.subrange(i + 1, ts.len() as int)) == p.out + (ts[i].text
            + joined(ts.subrange(i + 1, ts.len() as int))));
    }
}

/// A text with no newline is left as it is, so formatting it twice gives what
/// formatting it once gives.
pub proof fn lemma_single_line_unchanged(s: Seq<char>)
    requires
        single_line(s),
    ensures
        formatted(s) == s,
        formatted(formatted(s)) == formatted(s),
{
    let ts = tokens(s);
    lemma_tokens_of_line(s);
    lemma_run_of_line(ts, 0, blank_page());
    lemma_tokens_lossless(s);
    assert(ts.subrange(0, ts.len() as int) == ts);
    assert(blank_page().out + s == s);
}

/// The text that formatting writes for token `t`, given the alignment `al`
/// it is written with.
pub open spec fn emitted(t: Lexeme, next: Option<Lexeme>, al: Alignment) -> Seq<char> {
    if t.kind == TokenType::Whitespace {
        whitespace_text(t.text, next, al)
    } else if t.kind == TokenType::Comment {
        comment_text(t.text, next, al)
    } else {
        t.text
    }
}

/// The alignment that a token is written with, on page `p`.
pub open spec fn used_alignment(p: Page, t: Lexeme) -> Alignment {
    if p.stack.len() == 0 {
        p.al
    } else {
        match p.stack.last() {
            Frame::Call { stage: CallStage::AfterName, .. } => if t.kind == TokenType::Whitespace {
                p.al
            } else {
                realigned(p.al)
            },
            Frame::Special { left, first, head_indent, phase, .. } => if phase
                == SpecialStage::Name {
                p.al
            } else if left == 0 {
                p.al.spec_set_indent(head_indent).spec_indent(1)
            } else if phase == SpecialStage::Args && t.kind != TokenType::Whitespace && first {
                p.al.spec_align()
            } else {
                p.al
            },
            _ => p.al,
        }
    }
}

/// Each step writes the text of its token: words and brackets as they are,
/// whitespace and comments as their rules say.
pub proof fn lemma_step_text(p: Page, t: Lexeme, next: Option<Lexeme>)
    ensures
        step(p, t, next).out == p.out + emitted(t, next, used_alignment(p, t)),
{
    let q = step(p, t, next);
    let a = used_alignment(p, t);
    lemma_resumed_keeps_text(spaced(p, t, next));
    lemma_resumed_keeps_text(worded(p, t));
    lemma_resumed_keeps_text(commented(p, t, next));
    lemma_resumed_keeps_text(Page { out: p.out + t.text, stack: p.stack.drop_last(), ..p });
    if p.stack.len() > 0 {
        let r = Page { stack: p.stack.drop_last(), ..p };
        lemma_resumed_keeps_text(spaced(r, t, next));
        lemma_resumed_keeps_text(worded(r, t));
        lemma_resumed_keeps_text(commented(r, t, next));
        match p.stack.last() {
            Frame::Special { outer, left, first, head_indent, phase } => {
                let b = with_al(p, p.al.spec_set_indent(head_indent).spec_indent(1));
                lemma_resumed_keeps_text(commented(b, t, next));
                lemma_resumed_keeps_text(worded(b, t));
                let f = Frame::Special {
                    outer,
                    left: (left - 1) as usize,
                    first: false,
                    head_indent,
                    phase: SpecialStage::Args,
                };
                let p1 = with_al(p, p.al.spec_align());
                let r1 = with_top(p, f);
                let r2 = Page { stack: r1.stack.push(Frame::Arg { part: ArgStage::Start }), ..r1 };
                let r3 = Page { stack: r2.stack.drop_last(), ..r2 };
                lemma_resumed_keeps_text(spaced(r3, t, next));
                lemma_resumed_keeps_text(worded(r3, t));
                lemma_resumed_keeps_text(commented(r3, t, next));
                let s1 = with_top(p1, f);
                let s2 = Page { stack: s1.stack.push(Frame::Arg { part: ArgStage::Start }), ..s1 };
                let s3 = Page { stack: s2.stack.drop_last(), ..s2 };
                lemma_resumed_keeps_text(spaced(s3, t, next));
                lemma_resumed_keeps_text(worded(s3, t));
                lemma_resumed_keeps_text(commented(s3, t, next));
                assert(q.out == p.out + emitted(t, next, a));
            },
            Frame::Call { outer, stage } => {
                let c = with_al(p, realigned(p.al));
                lemma_resumed_keeps_text(commented(c, t, next));
                lemma_resumed_keeps_text(worded(c, t));
                assert(q.out == p.out + emitted(t, next, a));
            },
            _ => {
                assert(q.out == p.out + emitted(t, next, a));
            },
        }
    }
}

/// Every character of `s` is whitespace.
pub open spec fn all_whitespace(s: Seq<char>) -> bool {
    forall|i: int| 0 <= i < s.len() ==> clojure_whitespace(#[trigger] s[i])
}

/// What every token is like: whitespace is made of whitespace and another
/// token follows it; a comment ends in a newline.
pub open spec fn sound_token(ts: Seq<Lexeme>, k: int) -> bool {
    &&& ts[k].kind == TokenType::Whitespace ==> k + 1 < ts.len() && all_whitespace(ts[k].text)
    &&& ts[k].kind == TokenType::Comment ==> ts[k].text.len() > 0 && ts[k].text.last() == '\n'
}

proof fn lemma_whitespace_end_all(s: Seq<char>, j: int)
    requires
        0 <= j <= s.len(),
    ensures
        forall|i: int| j <= i < whitespace_end(s, j) ==> clojure_whitespace(#[trigger] s[i]),
    decreases s.len() - j,
{
    if j < s.len() && clojure_whitespace(s[j]) {
        lemma_whitespace_end_all(s, j + 1);
    }
}

/// The tokens of any text are sound.
pub proof fn lemma_tokens_sound(s: Seq<char>)
    ensures
        forall|k: int| 0 <= k < tokens(s).len() ==> sound_token(tokens(s), k),
    decreases s.len(),
{
    if s.len() > 0 {
        lemma_scan_bounds(s);
        let rest = after_first(s);
        lemma_tokens_sound(rest);
        lemma_line_end_at_newline(s, 1);
        lemma_whitespace_end_all(s, 1);
        let ts = tokens(s);
        assert(ts.drop_first() == tokens(rest));
        assert forall|k: int| 0 <= k < ts.len() implies sound_token(ts, k) by {
            if k == 0 {
                if ts[0].kind == TokenType::Whitespace {
                    assert(rest.len() > 0);
                    assert(tokens(rest).len() > 0);
                    let w = ts[0].text;
                    assert forall|i: int| 0 <= i < w.len() implies clojure_whitespace(
                        #[trigger] w[i],
                    ) by {
                        assert(w[i] == s[i]);
                    }
                }
            } else {
                assert(ts[k] == tokens(rest)[k - 1]);
                assert(sound_token(tokens(rest), k - 1));
            }
        }
    }
}

/// `s` without its whitespace.
pub open spec fn visible(s: Seq<char>) -> Seq<char>
    decreases s.len(),
{
    if s.len() == 0 {
        Seq::empty()
    } else if clojure_whitespace(s.last()) {
        visible(s.drop_last())
    } else {
        visible(s.drop_last()).push(s.last())
    }
}

proof fn lemma_visible_concat(a: Seq<char>, b: Seq<char>)
    ensures
        visible(a + b) == visible(a) + visible(b),
    decreases b.len(),
{
    if b.len() > 0 {
        lemma_visible_concat(a, b.drop_last());
        assert((a + b).drop_last() == a + b.drop_last());
        assert((a + b).last() == b.last());
        assert(visible(a) + visible(b.drop_last()).push(b.last()) == (visible(a) + visible(
            b.drop_last(),
        )).push(b.last()));
    } else {
        assert(a + b == a);
        assert(visible(a) + visible(b) == visible(a));
    }
}

proof fn lemma_visible_of_whitespace(s: Seq<char>)
    requires
        all_whitespace(s),
    ensures
        visible(s) == Seq::<char>::empty(),
    decreases s.len(),
{
    if s.len() > 0 {
        assert(all_whitespace(s.drop_last()));
        assert(clojure_whitespace(s[s.len() - 1]));
        lemma_visible_of_whitespace(s.drop_last());
    }
}

proof fn lemma_layout_is_whitespace(n: nat)
    ensures
        all_whitespace(spaces(n)),
        all_whitespace(line_breaks(n)),
        all_whitespace(seq!['\n']),
        all_whitespace(Seq::<char>::empty()),
{
}

proof fn lemma_whitespace_concat(a: Seq<char>, b: Seq<char>)
    requires
        all_whitespace(a),
        all_whitespace(b),
    ensures
        all_whitespace(a + b),
{
    assert forall|i: int| 0 <= i < (a + b).len() implies clojure_whitespace(#[trigger] (a + b)[i]) by {
        if i < a.len() {
            assert((a + b)[i] == a[i]);
        } else {
            assert((a + b)[i] == b[i - a.len()]);
        }
    }
}

/// A sound token is written with the newlines and the characters other than
/// whitespace that it holds.
proof fn lemma_emitted_keeps(t: Lexeme, next: Option<Lexeme>, al: Alignment)
    requires
        t.kind == TokenType::Whitespace ==> next is Some && all_whitespace(t.text),
        t.kind == TokenType::Comment ==> t.text.len() > 0 && t.text.last() == '\n',
    ensures
        newline_count(emitted(t, next, al)) == newline_count(t.text),
        visible(emitted(t, next, al)) == visible(t.text),
{
    let e = emitted(t, next, al);
    if t.kind == TokenType::Whitespace {
        lemma_whitespace_text_breaks(t.text, next->0, al);
        lemma_visible_of_whitespace(t.text);
        let k = newline_count(t.text);
        if k > 0 {
            lemma_layout_is_whitespace(k);
            lemma_layout_is_whitespace(al.indent as nat);
            lemma_layout_is_whitespace((COMMENT_COLUMN - al.indent) as nat);
            lemma_whitespace_concat(line_breaks(k), spaces(al.indent as nat));
            let head = line_breaks(k) + spaces(al.indent as nat);
            if padded_comment(next->0) && al.indent < COMMENT_COLUMN {
                lemma_whitespace_concat(head, spaces((COMMENT_COLUMN - al.indent) as nat));
            } else {
                lemma_whitespace_concat(head, Seq::empty());
            }
        }
        lemma_visible_of_whitespace(e);
    } else if t.kind == TokenType::Comment {
        let tail = if next is None || next->0.kind == TokenType::Whitespace {
            Seq::<char>::empty()
        } else {
            spaces(al.indent as nat)
        };
        assert(e == t.text + tail);
        lemma_layout_is_whitespace(al.indent as nat);
        lemma_newline_count_spaces(al.indent as nat);
        lemma_newline_count_concat(t.text, tail);
        lemma_visible_of_whitespace(tail);
        lemma_visible_concat(t.text, tail);
        assert(t.text + Seq::<char>::empty() == t.text);
    }
}

proof fn lemma_run_keeps(ts: Seq<Lexeme>, i: int, p: Page)
    requires
        0 <= i <= ts.len(),
        forall|k: int| i <= k < ts.len() ==> sound_token(ts, k),
    ensures
        newline_count(run(ts, i, p).out) == newline_count(p.out) + newline_count(
            joined(ts.subrange(i, ts.len() as int)),
        ),
        visible(run(ts, i, p).out) == visible(p.out) + visible(
            joined(ts.subrange(i, ts.len() as int)),
        ),
    decreases ts.len() - i,
{
    let tail = ts.subrange(i, ts.len() as int);
    if i == ts.len() {
        assert(tail.len() == 0);
        assert(visible(p.out) + visible(joined(tail)) == visible(p.out));
    } else {
        let t = ts[i];
        let next = token_at(ts, i + 1);
        assert(sound_token(ts, i));
        let q = step(p, t, next);
        lemma_step_text(p, t, next);
        let e = emitted(t, next, used_alignment(p, t));
        lemma_emitted_keeps(t, next, used_alignment(p, t));
        lemma_run_keeps(ts, i + 1, q);
        let rest = joined(ts.subrange(i + 1, ts.len() as int));
        assert(tail.drop_first() == ts.subrange(i + 1, ts.len() as int));
        assert(tail[0] == t);
        assert(joined(tail) == t.text + rest);
        lemma_newline_count_concat(p.out, e);
        lemma_newline_count_concat(t.text, rest);
        lemma_visible_concat(p.out, e);
        lemma_visible_concat(t.text, rest);
        assert(visible(p.out) + visible(t.text) + visible(rest) == visible(p.out) + (visible(t.text)
            + visible(rest)));
    }
}

/// Formatting keeps every newline: the text formatted holds as many
/// newlines as the text given.
pub proof fn lemma_newlines_kept(s: Seq<char>)
    ensures
        newline_count(formatted(s)) == newline_count(s),
{
    let ts = tokens(s);
    lemma_tokens_sound(s);
    lemma_run_keeps(ts, 0, blank_page());
    lemma_tokens_lossless(s);
    assert(ts.subrange(0, ts.len() as int) == ts);
}

/// Formatting changes whitespace only: every other character is kept, in
/// order.
pub proof fn lemma_visible_kept(s: Seq<char>)
    ensures
        visible(formatted(s)) == visible(s),
{
    let ts = tokens(s);
    lemma_tokens_sound(s);
    lemma_run_keeps(ts, 0, blank_page());
    lemma_tokens_lossless(s);
    assert(ts.subrange(0, ts.len() as int) == ts);
    assert(visible(blank_page().out) + visible(s) == visible(s));
}

/// A kind of token written as one word: no bracket opens with it, and it
/// is neither whitespace nor a comment.
pub open spec fn word_kind(k: TokenType) -> bool {
    k != TokenType::LParen && k != TokenType::LBracket && k != TokenType::LBrace
        && k != TokenType::Whitespace && k != TokenType::Comment
}

/// A reader-macro prefix.
pub open spec fn prefix_kind(k: TokenType) -> bool {
    k == TokenType::Dispatch || k == TokenType::Metadata || k == TokenType::Quote
        || k == TokenType::SynQuote
}

/// A leading argument of a special form written `#` tag form (as in `#'x`)
/// takes one argument's place: after its three tokens one argument fewer is
/// left, the forms below are as they were, and the three are written as
/// they are.
pub proof fn lemma_dispatch_is_one_argument(
    p: Page,
    d: Lexeme,
    g: Lexeme,
    f: Lexeme,
    next: Option<Lexeme>,
)
    requires
        p.stack.len() > 0,
        p.stack.last() matches Frame::Special { left, phase, .. } && left > 0 && phase
            == SpecialStage::ArgStart,
        d.kind == TokenType::Dispatch || d.kind == TokenType::Metadata,
        word_kind(g.kind),
        word_kind(f.kind),
        !prefix_kind(f.kind),
    ensures
        ({
            let q = step(step(step(p, d, Some(g)), g, Some(f)), f, next);
            match p.stack.last() {
                Frame::Special { outer, left, first: _, head_indent, phase: _ } => {
                    &&& q.stack == p.stack.drop_last().push(
                        Frame::Special {
                            outer,
                            left: (left - 1) as usize,
                            first: false,
                            head_indent,
                            phase: SpecialStage::Args,
                        },
                    )
                    &&& q.out == p.out + d.text + g.text + f.text
                },
                _ => false,
            }
        }),
{
    let p1 = step(p, d, Some(g));
    let p2 = step(p1, g, Some(f));
    let p3 = step(p2, f, next);
    match p.stack.last() {
        Frame::Special { outer, left, first: _, head_indent, phase: _ } => {
            let sp = Frame::Special {
                outer,
                left: (left - 1) as usize,
                first: false,
                head_indent,
                phase: SpecialStage::Args,
            };
            let base = p.stack.drop_last().push(sp);
            assert(p1.stack == base.push(Frame::Arg { part: ArgStage::TagWs }));
            assert(p1.out == p.out + d.text);
            assert(p1.stack.drop_last() == base);
            assert(p2.stack == base.push(Frame::Arg { part: ArgStage::Ws }));
            assert(p2.out == p1.out + g.text);
            assert(p2.stack.drop_last() == base);
            assert(p3.stack == base);
            assert(p3.out == p2.out + f.text);
        },
        _ => {},
    }
}

} // verus!

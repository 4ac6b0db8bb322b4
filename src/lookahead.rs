use vstd::prelude::*;

use crate::token::{Lexeme, Token};
use crate::tokenizer::{after_first, first_token, tokens, Tokenizer};

verus! {

/// The token at position `j` of `ts`, if there is one.
pub open spec fn token_at(ts: Seq<Lexeme>, j: int) -> Option<Lexeme> {
    if 0 <= j < ts.len() {
        Some(ts[j])
    } else {
        None
    }
}

pub open spec fn view_of(t: Option<Token>) -> Option<Lexeme> {
    match t {
        Some(t) => Some(t@),
        None => None,
    }
}

/// A window over the tokens of a string: the current token and the two after
/// it. It only moves forward.
pub struct LookaheadCursor<'a> {
    tokenizer: Tokenizer<'a>,
    cur: Option<Token<'a>>,
    ahead1: Option<Token<'a>>,
    ahead2: Option<Token<'a>>,
    toks: Ghost<Seq<Lexeme>>,
    idx: Ghost<int>,
}

impl<'a> LookaheadCursor<'a> {
    /// All the tokens of the string.
    pub closed spec fn tokens(&self) -> Seq<Lexeme> {
        self.toks@
    }

    /// The position of the current token among them.
    pub closed spec fn index(&self) -> int {
        self.idx@
    }

    pub closed spec fn wf(&self) -> bool {
        &&& -3 <= self.idx@
        &&& view_of(self.cur) == token_at(self.toks@, self.idx@)
        &&& view_of(self.ahead1) == token_at(self.toks@, self.idx@ + 1)
        &&& view_of(self.ahead2) == token_at(self.toks@, self.idx@ + 2)
        &&& self.idx@ + 3 <= self.toks@.len() ==> tokens(self.tokenizer.rest())
            == self.toks@.subrange(self.idx@ + 3, self.toks@.len() as int)
        &&& self.idx@ + 3 > self.toks@.len() ==> self.tokenizer.rest().len() == 0
    }

    /// Moves one token on and returns the new current token.
    pub fn next(&mut self) -> (r: Option<Token<'a>>)
        requires
            old(self).wf(),
        ensures
            final(self).wf(),
            final(self).tokens() == old(self).tokens(),
            final(self).index() == old(self).index() + 1,
            view_of(r) == token_at(final(self).tokens(), final(self).index()),
    {
        proof {
            let ts = self.toks@;
            let j = self.idx@ + 3;
            if j < ts.len() {
                let rest = self.tokenizer.rest();
                assert(tokens(rest).len() > 0);
                assert(rest.len() > 0);
                assert(tokens(rest)[0] == first_token(rest));
                assert(tokens(rest).drop_first() == tokens(after_first(rest)));
                assert(tokens(after_first(rest)) =~= ts.subrange(j + 1, ts.len() as int));
            } else if j == ts.len() {
                let rest = self.tokenizer.rest();
                if rest.len() > 0 {
                    assert(tokens(rest).len() > 0);
                }
            }
        }
        self.cur = self.ahead1;
        self.ahead1 = self.ahead2;
        self.ahead2 = self.tokenizer.next();
        self.idx = Ghost(self.idx@ + 1);
        self.cur
    }

    pub fn current(&self) -> (r: Option<Token<'a>>)
        requires
            self.wf(),
        ensures
            view_of(r) == token_at(self.tokens(), self.index()),
    {
        self.cur
    }

    pub fn lookahead1(&self) -> (r: Option<Token<'a>>)
        requires
            self.wf(),
        ensures
            view_of(r) == token_at(self.tokens(), self.index() + 1),
    {
        self.ahead1
    }

    pub fn lookahead2(&self) -> (r: Option<Token<'a>>)
        requires
            self.wf(),
        ensures
            view_of(r) == token_at(self.tokens(), self.index() + 2),
    {
        self.ahead2
    }

    /// A window before the first token of `stream`: the first token is the
    /// one that `next` returns.
    pub fn new(stream: &'a str) -> (r: LookaheadCursor<'a>)
        ensures
            r.wf(),
            r.tokens() == tokens(stream@),
            r.index() == -1,
    {
        let tokenizer = Tokenizer::new(stream);
        let mut this = LookaheadCursor {
            tokenizer,
            cur: None,
            ahead1: None,
            ahead2: None,
            toks: Ghost(tokens(stream@)),
            idx: Ghost(-3),
        };
        proof {
            assert(tokens(stream@).subrange(0, tokens(stream@).len() as int) == tokens(stream@));
            if tokens(stream@).len() == 0 {
                if stream@.len() > 0 {
                    assert(tokens(stream@).len() > 0);
                }
            }
        }
        this.next();
        this.next();
        this
    }
}

} // verus!

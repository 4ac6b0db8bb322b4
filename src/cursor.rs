use vstd::prelude::*;

verus! {

/// A forward-only scanner over a string, one character at a time, that can
/// split the string before or after the character it returned last.
/// Positions count characters.
pub struct Cursor<'a> {
    stream: &'a str,
    len: usize,
    offset: usize,
    width: usize,
}

impl<'a> Cursor<'a> {
    /// The string scanned.
    pub closed spec fn text(&self) -> Seq<char> {
        self.stream@
    }

    /// The position of the character returned last (0 before the first).
    pub closed spec fn offset(&self) -> nat {
        self.offset as nat
    }

    /// The position of the character that `next` returns.
    pub closed spec fn index(&self) -> nat {
        (self.offset + self.width) as nat
    }

    pub closed spec fn wf(&self) -> bool {
        &&& self.len == self.stream@.len()
        &&& self.width <= 1
        &&& self.offset + self.width <= self.len
    }

    pub fn new(stream: &'a str) -> (r: Cursor<'a>)
        ensures
            r.wf(),
            r.text() == stream@,
            r.offset() == 0,
            r.index() == 0,
    {
        Cursor { stream, len: stream.unicode_len(), offset: 0, width: 0 }
    }

    pub fn next(&mut self) -> (r: Option<char>)
        requires
            old(self).wf(),
        ensures
            final(self).wf(),
            final(self).text() == old(self).text(),
            final(self).offset() <= final(self).index() <= final(self).text().len(),
            old(self).index() < old(self).text().len() ==> {
                &&& r == Some(old(self).text()[old(self).index() as int])
                &&& final(self).offset() == old(self).index()
                &&& final(self).index() == old(self).index() + 1
            },
            old(self).index() >= old(self).text().len() ==> {
                &&& r is None
                &&& final(self).offset() == old(self).offset()
                &&& final(self).index() == old(self).index()
            },
    {
        let i = self.offset + self.width;
        if i >= self.len {
            return None;
        }
        let c = self.stream.get_char(i);
        self.offset = i;
        self.width = 1;
        Some(c)
    }

    /// The string before and after the character returned last.
    pub fn split_after(&self) -> (r: (&'a str, &'a str))
        requires
            self.wf(),
        ensures
            r.0@ == self.text().subrange(0, self.index() as int),
            r.1@ == self.text().subrange(self.index() as int, self.text().len() as int),
    {
        let i = self.offset + self.width;
        (self.stream.substring_char(0, i), self.stream.substring_char(i, self.len))
    }

    /// The string up to the character returned last, and from it on.
    pub fn split_before(&self) -> (r: (&'a str, &'a str))
        requires
            self.wf(),
        ensures
            r.0@ == self.text().subrange(0, self.offset() as int),
            r.1@ == self.text().subrange(self.offset() as int, self.text().len() as int),
    {
        (self.stream.substring_char(0, self.offset), self.stream.substring_char(self.offset, self.len))
    }
}

} // verus!

use vstd::prelude::*;

verus! {

/// `a + b`, or `usize::MAX` where the sum does not fit.
pub open spec fn sat_add(a: usize, b: usize) -> usize {
    if a + b > usize::MAX {
        usize::MAX
    } else {
        (a + b) as usize
    }
}

/// Where text goes on the line being written: the column that a new line is
/// padded to (`indent`), the current column (`pos`), and the column that
/// later items on the line line up against (`align`). A plain value: every
/// step takes one and hands back another. Columns count characters and stop
/// growing at `usize::MAX`.
#[derive(Debug, Clone, Copy, PartialEq, Eq, Structural)]
pub struct Alignment {
    pub indent: usize,
    pub pos: usize,
    pub align: usize,
}

impl Alignment {
    pub open spec fn spec_increase(self, n: usize) -> Alignment {
        let c = sat_add(self.pos, n);
        Alignment { indent: c, pos: c, align: c }
    }

    pub open spec fn spec_indent(self, n: usize) -> Alignment {
        Alignment { indent: sat_add(self.indent, n), ..self }
    }

    pub open spec fn spec_align(self) -> Alignment {
        Alignment { align: self.pos, ..self }
    }

    pub open spec fn spec_shift(self, n: usize) -> Alignment {
        Alignment { pos: sat_add(self.pos, n), ..self }
    }

    pub open spec fn spec_set_indent(self, n: usize) -> Alignment {
        Alignment { indent: n, ..self }
    }

    pub open spec fn spec_set_pos(self, n: usize) -> Alignment {
        Alignment { pos: n, ..self }
    }

    /// The start of a text: every column 0.
    pub fn new() -> (r: Alignment)
        ensures
            r == (Alignment { indent: 0, pos: 0, align: 0 }),
    {
        Alignment { indent: 0, pos: 0, align: 0 }
    }

    /// Moves `n` columns on and makes that column the indentation and the
    /// alignment as well: the inside of a bracket.
    pub fn increase(self, n: usize) -> (r: Alignment)
        ensures
            r == self.spec_increase(n),
    {
        let c = self.pos.saturating_add(n);
        Alignment { indent: c, pos: c, align: c }
    }

    /// Indents `n` columns more.
    pub fn indent(self, n: usize) -> (r: Alignment)
        ensures
            r == self.spec_indent(n),
    {
        Alignment { indent: self.indent.saturating_add(n), ..self }
    }

    /// Makes the current column the alignment.
    pub fn align(self) -> (r: Alignment)
        ensures
            r == self.spec_align(),
    {
        Alignment { align: self.pos, ..self }
    }

    /// Moves `n` columns on.
    pub fn shift(self, n: usize) -> (r: Alignment)
        ensures
            r == self.spec_shift(n),
    {
        Alignment { pos: self.pos.saturating_add(n), ..self }
    }

    pub fn set_indent(self, n: usize) -> (r: Alignment)
        ensures
            r == self.spec_set_indent(n),
    {
        Alignment { indent: n, ..self }
    }

    pub fn set_pos(self, n: usize) -> (r: Alignment)
        ensures
            r == self.spec_set_pos(n),
    {
        Alignment { pos: n, ..self }
    }
}

} // verus!

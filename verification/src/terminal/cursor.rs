use vstd::prelude::*;

verus! {

/// Coordinate type of the terminal grid.
pub type Index = u16;

/// Cursor points to a column (x-coord) and line (y-coord) of terminal
/// ((0, 0)-based) where (0,0) is left-top cell
#[derive(Eq, PartialEq, Structural, Debug, Clone, Copy)]
pub struct Cursor {
    column: Index,
    line: Index,
}

/// Whether `c` points to column `column` and line `line`.
pub open spec fn at(c: Cursor, column: int, line: int) -> bool {
    c.column() == column && c.line() == line
}

/// Two cursors are equal exactly when their columns and lines are.
pub broadcast proof fn lemma_cursor_ext(a: Cursor, b: Cursor)
    ensures
        #[trigger] at(a, b.column() as int, b.line() as int) <==> a == b,
{
}

impl Cursor {
    /// The column of the cursor, as used in contracts.
    pub closed spec fn spec_column(&self) -> Index {
        self.column
    }

    /// The line of the cursor, as used in contracts.
    pub closed spec fn spec_line(&self) -> Index {
        self.line
    }

    pub fn new(column: Index, line: Index) -> (r: Self)
        ensures
            r.column() == column,
            r.line() == line,
    {
        Self { column, line }
    }

    #[verifier::when_used_as_spec(spec_line)]
    pub fn line(&self) -> (r: Index)
        ensures
            r == self.spec_line(),
    {
        self.line
    }

    #[verifier::when_used_as_spec(spec_column)]
    pub fn column(&self) -> (r: Index)
        ensures
            r == self.spec_column(),
    {
        self.column
    }

    /// Hands the line to `f`, which may change it; the column stays.
    pub fn map_line<F>(&mut self, f: F)
        where
            F: FnOnce(&mut Index),
        requires
            forall|v: &mut Index| call_requires(f, (v,)),
        ensures
            final(self).column() == old(self).column(),
            exists|v: &mut Index|
                {
                    &&& *v == old(self).line()
                    &&& *final(v) == final(self).line()
                    &&& call_ensures(f, (v,), ())
                },
    {
        f(&mut self.line)
    }

    /// Hands the column to `f`, which may change it; the line stays.
    pub fn map_column<F>(&mut self, f: F)
        where
            F: FnOnce(&mut Index),
        requires
            forall|v: &mut Index| call_requires(f, (v,)),
        ensures
            final(self).line() == old(self).line(),
            exists|v: &mut Index|
                {
                    &&& *v == old(self).column()
                    &&& *final(v) == final(self).column()
                    &&& call_ensures(f, (v,), ())
                },
    {
        f(&mut self.column)
    }

    /// The cursor one line below, staying on the last line at `Index::MAX`.
    #[must_use]
    pub fn next_line(self) -> (r: Cursor)
        ensures
            r.column() == self.column(),
            r.line() == (if self.line() == Index::MAX { Index::MAX as int } else { self.line() + 1 }),
    {
        Self::new(self.column, self.line.saturating_add(1))
    }

    /// The cursor one line above, staying on line 0.
    #[must_use]
    pub fn prev_line(self) -> (r: Cursor)
        ensures
            r.column() == self.column(),
            r.line() == (if self.line() == 0 { 0 } else { self.line() - 1 }),
    {
        Self::new(self.column, self.line.saturating_sub(1))
    }

    /// The cursor one column to the right, staying on the last column at `Index::MAX`.
    #[must_use]
    pub fn next_column(self) -> (r: Cursor)
        ensures
            r.line() == self.line(),
            r.column() == (if self.column() == Index::MAX { Index::MAX as int } else { self.column() + 1 }),
    {
        Self::new(self.column.saturating_add(1), self.line)
    }

    /// The cursor one column to the left, staying on column 0.
    #[must_use]
    pub fn prev_column(self) -> (r: Cursor)
        ensures
            r.line() == self.line(),
            r.column() == (if self.column() == 0 { 0 } else { self.column() - 1 }),
    {
        Self::new(self.column.saturating_sub(1), self.line)
    }

    /// The first column of the next line.
    #[must_use]
    pub fn wrap_line(self) -> (r: Cursor)
        ensures
            r.column() == 0,
            r.line() == (if self.line() == Index::MAX { Index::MAX as int } else { self.line() + 1 }),
    {
        let mut result = self.next_line();
        result.set_column(0);
        result
    }

    pub fn set_line(&mut self, line: Index)
        ensures
            final(self).line() == line,
            final(self).column() == old(self).column(),
    {
        self.line = line;
    }

    pub fn set_column(&mut self, column: Index)
        ensures
            final(self).column() == column,
            final(self).line() == old(self).line(),
    {
        self.column = column;
    }
}

impl Default for Cursor {
    fn default() -> (r: Self)
        ensures
            r.column() == 0,
            r.line() == 0,
    {
        Self { column: 0, line: 0 }
    }
}

impl From<(Index, Index)> for Cursor {
    fn from(pair: (Index, Index)) -> (r: Self)
        ensures
            r.column() == pair.0,
            r.line() == pair.1,
    {
        Self::new(pair.0, pair.1)
    }
}

impl vstd::std_specs::convert::FromSpecImpl<(Index, Index)> for Cursor {
    open spec fn obeys_from_spec() -> bool {
        true
    }

    closed spec fn from_spec(v: (Index, Index)) -> Self {
        Cursor { column: v.0, line: v.1 }
    }
}

} // verus!

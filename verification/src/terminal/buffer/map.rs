use vstd::prelude::*;

use super::{cell_index, fill_region, lemma_cell_bound, lemma_cells_apart, region_has, Buffer};
use crate::{
    error::Error,
    terminal::{
        character::{Character, Characters},
        cursor::{at, lemma_cursor_ext, Cursor, Index},
        region::Region,
    },
};

verus! {

broadcast use lemma_cursor_ext, Character::lemma_character_ext, Character::lemma_spec_new;

/// Mapped buffer is a safe abstraction over `Buffer`. It contain only specified in `mapped_region`
/// region. You can not write to other positions which not be mapped.
/// Converts local coordinates of widget to global coordinates of terminal.
#[derive(Debug)]
pub struct MappedBuffer<'a> {
    /// The buffer written to.
    pub buffer: &'a mut Buffer,
    /// The mapped part of the buffer, in the buffer's coordinates.
    pub mapped_region: Region,
}

impl<'a> MappedBuffer<'a> {
    /// The buffer is well formed and the mapped region lies inside it.
    pub open spec fn inside(&self) -> bool {
        &&& self.buffer.wf()
        &&& self.mapped_region.right_bottom().column() < self.buffer.columns()
        &&& self.mapped_region.right_bottom().line() < self.buffer.lines()
    }

    /// Whether the local cell (`column`, `line`) lies in the mapped region.
    pub open spec fn holds_local(&self, column: int, line: int) -> bool {
        0 <= column < self.mapped_region.spec_width() && 0 <= line < self.mapped_region.spec_height()
    }

    /// The buffer column of local column `column`.
    pub open spec fn global_column_of(&self, column: int) -> int {
        column + self.mapped_region.left_top().column()
    }

    /// The buffer line of local line `line`.
    pub open spec fn global_line_of(&self, line: int) -> int {
        line + self.mapped_region.left_top().line()
    }

    /// Creates a new mapped buffer
    pub(crate) fn new(buffer: &'a mut Buffer, mapped_region: Region) -> (r: Self)
        ensures
            *r.buffer == *old(buffer),
            *final(buffer) == *final(r.buffer),
            r.mapped_region == mapped_region,
    {
        Self { buffer, mapped_region }
    }

    /// A mapped buffer on `region`, given in local coordinates, of this one.
    pub fn map(&mut self, region: Region) -> (r: MappedBuffer<'_>)
        requires
            old(self).holds_local(region.right_bottom().column() as int, region.right_bottom().line() as int),
        ensures
            at(
                r.mapped_region.left_top(),
                old(self).global_column_of(region.left_top().column() as int),
                old(self).global_line_of(region.left_top().line() as int),
            ),
            at(
                r.mapped_region.right_bottom(),
                old(self).global_column_of(region.right_bottom().column() as int),
                old(self).global_line_of(region.right_bottom().line() as int),
            ),
            *r.buffer == *old(self).buffer,
            final(self).mapped_region == old(self).mapped_region,
            *final(self).buffer == *final(r.buffer),
            *final(final(self).buffer) == *final(old(self).buffer),
    {
        proof {
            use_type_invariant(&region);
        }
        let global_left = self.global_cursor(region.left_top()).unwrap();
        let global_right = self.global_cursor(region.right_bottom()).unwrap();
        MappedBuffer { buffer: &mut *self.buffer, mapped_region: Region::new(global_left, global_right) }
    }

    /// Writes `c` at the local cell `cursor`.
    pub fn write_character(&mut self, c: Character, cursor: Cursor)
        requires
            old(self).inside(),
            old(self).holds_local(cursor.column() as int, cursor.line() as int),
        ensures
            final(self).mapped_region == old(self).mapped_region,
            *final(final(self).buffer) == *final(old(self).buffer),
            final(self).buffer.wf(),
            final(self).buffer.spec_region() == old(self).buffer.spec_region(),
            final(self).buffer.cells() == old(self).buffer.cells().update(
                cell_index(
                    old(self).buffer.columns(),
                    old(self).global_column_of(cursor.column() as int),
                    old(self).global_line_of(cursor.line() as int),
                ),
                c,
            ),
    {
        let global = self.global_cursor(cursor).unwrap();
        proof {
            lemma_cell_bound(self.buffer.columns(), self.buffer.lines(), global.column() as int, global.line() as int);
        }
        self.buffer.write_character(c, global);
    }

    /// Sets every cell of the mapped region to `c`.
    pub fn fill(&mut self, c: Character)
        requires
            old(self).inside(),
        ensures
            final(self).mapped_region == old(self).mapped_region,
            *final(final(self).buffer) == *final(old(self).buffer),
            final(self).buffer.wf(),
            final(self).buffer.spec_region() == old(self).buffer.spec_region(),
            forall|col: int, line: int|
                #![trigger final(self).buffer.cell(col, line)]
                final(self).buffer.in_bounds(col, line) ==> final(self).buffer.cell(col, line) == (
                    if region_has(old(self).mapped_region, col, line) { c } else { old(self).buffer.cell(col, line) }),
    {
        fill_region(self.buffer, self.mapped_region, c);
    }

    /// Blanks every cell of the mapped region.
    pub fn clear(&mut self)
        requires
            old(self).inside(),
        ensures
            final(self).mapped_region == old(self).mapped_region,
            *final(final(self).buffer) == *final(old(self).buffer),
            final(self).buffer.wf(),
            final(self).buffer.spec_region() == old(self).buffer.spec_region(),
            forall|col: int, line: int|
                #![trigger final(self).buffer.cell(col, line)]
                final(self).buffer.in_bounds(col, line) ==> final(self).buffer.cell(col, line) == (
                    if region_has(old(self).mapped_region, col, line) {
                        Character::default_spec()
                    } else {
                        old(self).buffer.cell(col, line)
                    }),
    {
        let blank = Character::new(' ');
        assert(blank.symbol() == Character::default_spec().symbol());
        fill_region(self.buffer, self.mapped_region, blank);
    }

    /// Writes `c` on local line `line`, one character per column from the first one, and
    /// blanks the rest of the line.
    pub fn write_line(&mut self, c: Characters, line: Index)
        requires
            old(self).inside(),
            line < old(self).mapped_region.spec_height(),
            c.0@.len() <= old(self).mapped_region.spec_width(),
        ensures
            final(self).mapped_region == old(self).mapped_region,
            *final(final(self).buffer) == *final(old(self).buffer),
            final(self).buffer.wf(),
            final(self).buffer.spec_region() == old(self).buffer.spec_region(),
            forall|col: int, ln: int|
                #![trigger final(self).buffer.cell(col, ln)]
                final(self).buffer.in_bounds(col, ln) ==> final(self).buffer.cell(col, ln) == (
                    if ln == old(self).global_line_of(line as int) && region_has(old(self).mapped_region, col, ln) {
                        let k = col - old(self).mapped_region.left_top().column();
                        if k < c.0@.len() { c.0@[k] } else { Character::default_spec() }
                    } else {
                        old(self).buffer.cell(col, ln)
                    }),
    {
        let ghost old_buffer = *self.buffer;
        let ghost mapped = self.mapped_region;
        proof {
            use_type_invariant(&self.mapped_region);
        }
        let global_line = self.global_row(line).unwrap();
        let line_region = Region::new(
            Cursor::new(self.mapped_region.left_top().column(), global_line),
            Cursor::new(self.mapped_region.right_bottom().column(), global_line),
        );
        let blank = Character::new(' ');
        assert(blank.symbol() == Character::default_spec().symbol());
        fill_region(self.buffer, line_region, blank);
        let chars = c.0;
        let mut k: usize = 0;
        while k < chars.len()
            invariant
                self.inside(),
                self.mapped_region == mapped,
                *final(self.buffer) == *final(old(self).buffer),
                self.buffer.spec_region() == old_buffer.spec_region(),
                global_line == mapped.left_top().line() + line,
                line < mapped.spec_height(),
                chars@.len() <= mapped.spec_width(),
                k <= chars@.len(),
                forall|col: int, ln: int|
                    #![trigger self.buffer.cell(col, ln)]
                    self.buffer.in_bounds(col, ln) ==> self.buffer.cell(col, ln) == (
                        if ln == global_line && region_has(mapped, col, ln) {
                            let j = col - mapped.left_top().column();
                            if j < k { chars@[j] } else { Character::default_spec() }
                        } else {
                            old_buffer.cell(col, ln)
                        }),
            decreases chars@.len() - k,
        {
            let ghost before = *self.buffer;
            self.write_character(chars[k], Cursor::new(k as Index, line));
            let ghost target = (mapped.left_top().column() + k) as int;
            assert forall|col: int, ln: int| #![trigger self.buffer.cell(col, ln)]
                self.buffer.in_bounds(col, ln) implies self.buffer.cell(col, ln) == (
                    if ln == global_line && region_has(mapped, col, ln) {
                        let j = col - mapped.left_top().column();
                        if j < k + 1 { chars@[j] } else { Character::default_spec() }
                    } else {
                        old_buffer.cell(col, ln)
                    }) by {
                lemma_cell_bound(before.columns(), before.lines(), col, ln);
                lemma_cell_bound(before.columns(), before.lines(), target, global_line as int);
                if col != target || ln != global_line {
                    lemma_cells_apart(before.columns(), col, ln, target, global_line as int);
                    assert(self.buffer.cell(col, ln) == before.cell(col, ln));
                }
            }
            k += 1;
        }
    }

    /// A mapped buffer on local line `line` of this one.
    pub fn map_line(&mut self, line: Index) -> (r: MappedBuffer<'_>)
        requires
            old(self).mapped_region.fits(),
            line < old(self).mapped_region.spec_height(),
        ensures
            at(r.mapped_region.left_top(), old(self).mapped_region.left_top().column() as int, old(self).global_line_of(line as int)),
            at(r.mapped_region.right_bottom(), old(self).mapped_region.right_bottom().column() as int, old(self).global_line_of(line as int)),
            *r.buffer == *old(self).buffer,
            final(self).mapped_region == old(self).mapped_region,
            *final(self).buffer == *final(r.buffer),
            *final(final(self).buffer) == *final(old(self).buffer),
    {
        proof {
            use_type_invariant(&self.mapped_region);
        }
        let width = self.region().width();
        self.map(Region::new(Cursor::new(0, line), Cursor::new(width - 1, line)))
    }

    /// A mapped buffer on local column `column` of this one.
    pub fn map_column(&mut self, column: Index) -> (r: MappedBuffer<'_>)
        requires
            old(self).mapped_region.fits(),
            column < old(self).mapped_region.spec_width(),
        ensures
            at(r.mapped_region.left_top(), old(self).global_column_of(column as int), old(self).mapped_region.left_top().line() as int),
            at(r.mapped_region.right_bottom(), old(self).global_column_of(column as int), old(self).mapped_region.right_bottom().line() as int),
            *r.buffer == *old(self).buffer,
            final(self).mapped_region == old(self).mapped_region,
            *final(self).buffer == *final(r.buffer),
            *final(final(self).buffer) == *final(old(self).buffer),
    {
        proof {
            use_type_invariant(&self.mapped_region);
        }
        let height = self.region().height();
        self.map(Region::new(Cursor::new(column, 0), Cursor::new(column, height - 1)))
    }

    /// Writes `c` at the local cell `cursor`, or tells that `cursor` lies outside the mapped
    /// region and leaves the buffer as it is.
    pub fn try_write_character(&mut self, c: Character, cursor: Cursor) -> (r: Result<(), Error>)
        requires
            old(self).buffer.wf(),
            old(self).holds_local(cursor.column() as int, cursor.line() as int) ==> {
                &&& old(self).global_column_of(cursor.column() as int) < old(self).buffer.columns()
                &&& old(self).global_line_of(cursor.line() as int) < old(self).buffer.lines()
            },
        ensures
            r is Ok <==> old(self).holds_local(cursor.column() as int, cursor.line() as int),
            r matches Err(e) ==> e matches Error::Buffer(m) && m@ == outside_region_text(cursor, old(self).mapped_region),
            final(self).mapped_region == old(self).mapped_region,
            *final(final(self).buffer) == *final(old(self).buffer),
            final(self).buffer.wf(),
            final(self).buffer.spec_region() == old(self).buffer.spec_region(),
            final(self).buffer.cells() == (if r is Ok {
                old(self).buffer.cells().update(
                    cell_index(
                        old(self).buffer.columns(),
                        old(self).global_column_of(cursor.column() as int),
                        old(self).global_line_of(cursor.line() as int),
                    ),
                    c,
                )
            } else {
                old(self).buffer.cells()
            }),
    {
        match self.global_cursor(cursor) {
            Some(global) => {
                proof {
                    lemma_cell_bound(self.buffer.columns(), self.buffer.lines(), global.column() as int, global.line() as int);
                }
                self.buffer.write_character(c, global);
                Ok(())
            },
            None => Err(Error::Buffer(outside_region_message(cursor, self.mapped_region))),
        }
    }

    /// Writes `c` on local column `column`, one character per line from the first one, and
    /// blanks the rest of the column.
    pub fn write_column(&mut self, c: Characters, column: Index)
        requires
            old(self).inside(),
            column < old(self).mapped_region.spec_width(),
            c.0@.len() <= old(self).mapped_region.spec_height(),
        ensures
            final(self).mapped_region == old(self).mapped_region,
            *final(final(self).buffer) == *final(old(self).buffer),
            final(self).buffer.wf(),
            final(self).buffer.spec_region() == old(self).buffer.spec_region(),
            forall|col: int, ln: int|
                #![trigger final(self).buffer.cell(col, ln)]
                final(self).buffer.in_bounds(col, ln) ==> final(self).buffer.cell(col, ln) == (
                    if col == old(self).global_column_of(column as int) && region_has(old(self).mapped_region, col, ln) {
                        let k = ln - old(self).mapped_region.left_top().line();
                        if k < c.0@.len() { c.0@[k] } else { Character::default_spec() }
                    } else {
                        old(self).buffer.cell(col, ln)
                    }),
    {
        let ghost old_buffer = *self.buffer;
        let ghost mapped = self.mapped_region;
        proof {
            use_type_invariant(&self.mapped_region);
        }
        let global_column = self.global_column(column).unwrap();
        let column_region = Region::new(
            Cursor::new(global_column, self.mapped_region.left_top().line()),
            Cursor::new(global_column, self.mapped_region.right_bottom().line()),
        );
        let blank = Character::new(' ');
        assert(blank.symbol() == Character::default_spec().symbol());
        fill_region(self.buffer, column_region, blank);
        let chars = c.0;
        let mut k: usize = 0;
        while k < chars.len()
            invariant
                self.inside(),
                self.mapped_region == mapped,
                *final(self.buffer) == *final(old(self).buffer),
                self.buffer.spec_region() == old_buffer.spec_region(),
                global_column == mapped.left_top().column() + column,
                column < mapped.spec_width(),
                chars@.len() <= mapped.spec_height(),
                k <= chars@.len(),
                forall|col: int, ln: int|
                    #![trigger self.buffer.cell(col, ln)]
                    self.buffer.in_bounds(col, ln) ==> self.buffer.cell(col, ln) == (
                        if col == global_column && region_has(mapped, col, ln) {
                            let j = ln - mapped.left_top().line();
                            if j < k { chars@[j] } else { Character::default_spec() }
                        } else {
                            old_buffer.cell(col, ln)
                        }),
            decreases chars@.len() - k,
        {
            let ghost before = *self.buffer;
            self.write_character(chars[k], Cursor::new(column, k as Index));
            let ghost target = (mapped.left_top().line() + k) as int;
            assert forall|col: int, ln: int| #![trigger self.buffer.cell(col, ln)]
                self.buffer.in_bounds(col, ln) implies self.buffer.cell(col, ln) == (
                    if col == global_column && region_has(mapped, col, ln) {
                        let j = ln - mapped.left_top().line();
                        if j < k + 1 { chars@[j] } else { Character::default_spec() }
                    } else {
                        old_buffer.cell(col, ln)
                    }) by {
                lemma_cell_bound(before.columns(), before.lines(), col, ln);
                lemma_cell_bound(before.columns(), before.lines(), global_column as int, target);
                if col != global_column || ln != target {
                    lemma_cells_apart(before.columns(), col, ln, global_column as int, target);
                    assert(self.buffer.cell(col, ln) == before.cell(col, ln));
                }
            }
            k += 1;
        }
    }

    /// The cell at the local cell `cursor`.
    pub fn get(&self, cursor: Cursor) -> (r: &Character)
        requires
            self.inside(),
            self.holds_local(cursor.column() as int, cursor.line() as int),
        ensures
            *r == old(self.buffer).cell(
                self.global_column_of(cursor.column() as int),
                self.global_line_of(cursor.line() as int),
            ),
    {
        let global = self.global_cursor(cursor).unwrap();
        proof {
            lemma_cell_bound(self.buffer.columns(), self.buffer.lines(), global.column() as int, global.line() as int);
        }
        self.buffer.get(global)
    }

    /// The cell at the local cell `cursor`, to change it.
    pub fn get_mut(&mut self, cursor: Cursor) -> (r: &mut Character)
        requires
            old(self).inside(),
            old(self).holds_local(cursor.column() as int, cursor.line() as int),
        ensures
            *r == old(self).buffer.cell(
                old(self).global_column_of(cursor.column() as int),
                old(self).global_line_of(cursor.line() as int),
            ),
            final(self).mapped_region == old(self).mapped_region,
            *final(final(self).buffer) == *final(old(self).buffer),
            final(self).buffer.spec_region() == old(self).buffer.spec_region(),
            final(self).buffer.cells() == old(self).buffer.cells().update(
                cell_index(
                    old(self).buffer.columns(),
                    old(self).global_column_of(cursor.column() as int),
                    old(self).global_line_of(cursor.line() as int),
                ),
                *final(r),
            ),
    {
        let global = self.global_cursor(cursor).unwrap();
        proof {
            lemma_cell_bound(self.buffer.columns(), self.buffer.lines(), global.column() as int, global.line() as int);
        }
        self.buffer.get_mut(global)
    }

    /// The mapped region, in the buffer's coordinates.
    pub fn region(&self) -> (r: Region)
        ensures
            r == self.mapped_region,
    {
        self.mapped_region
    }

    // Converts local row to the global
    fn global_row(&self, local_row: Index) -> (r: Option<Index>)
        ensures
            r is Some <==> local_row < self.mapped_region.spec_height(),
            r matches Some(v) ==> v == self.global_line_of(local_row as int),
    {
        proof {
            use_type_invariant(&self.mapped_region);
        }
        if (local_row as u32) < (self.mapped_region.right_bottom().line() - self.mapped_region.left_top().line()) as u32 + 1 {
            Some(local_row + self.mapped_region.left_top().line())
        } else {
            None
        }
    }

    // Converts local column to the global
    fn global_column(&self, local_column: Index) -> (r: Option<Index>)
        ensures
            r is Some <==> local_column < self.mapped_region.spec_width(),
            r matches Some(v) ==> v == self.global_column_of(local_column as int),
    {
        proof {
            use_type_invariant(&self.mapped_region);
        }
        if (local_column as u32) < (self.mapped_region.right_bottom().column() - self.mapped_region.left_top().column()) as u32 + 1 {
            Some(local_column + self.mapped_region.left_top().column())
        } else {
            None
        }
    }

    /// The buffer cell of the local cell `local_cursor`, if it lies in the mapped region.
    fn global_cursor(&self, local_cursor: Cursor) -> (r: Option<Cursor>)
        ensures
            r is Some <==> self.holds_local(local_cursor.column() as int, local_cursor.line() as int),
            r matches Some(v) ==> v.column() == self.global_column_of(local_cursor.column() as int)
                && v.line() == self.global_line_of(local_cursor.line() as int),
    {
        let column = self.global_column(local_cursor.column());
        let line = self.global_row(local_cursor.line());
        match (column, line) {
            (Some(c), Some(l)) => Some(Cursor::new(c, l)),
            _ => None,
        }
    }
}

/// The decimal digit `d`, for `d` below ten.
pub open spec fn digit(d: int) -> char {
    if d == 0 {
        '0'
    } else if d == 1 {
        '1'
    } else if d == 2 {
        '2'
    } else if d == 3 {
        '3'
    } else if d == 4 {
        '4'
    } else if d == 5 {
        '5'
    } else if d == 6 {
        '6'
    } else if d == 7 {
        '7'
    } else if d == 8 {
        '8'
    } else {
        '9'
    }
}

/// `n` written in decimal, without leading zeros.
pub open spec fn decimal(n: nat) -> Seq<char>
    decreases n,
{
    if n < 10 {
        seq![digit(n as int)]
    } else {
        decimal(n / 10).push(digit((n % 10) as int))
    }
}

/// How `Debug` shows `c`: `Cursor { column: .., line: .. }`.
pub open spec fn cursor_text(c: Cursor) -> Seq<char> {
    "Cursor { column: "@ + decimal(c.column() as nat) + ", line: "@ + decimal(c.line() as nat) + " }"@
}

/// How `Debug` shows `r`: `Region { left_top: .., right_bottom: .. }`.
pub open spec fn region_text(r: Region) -> Seq<char> {
    "Region { left_top: "@ + cursor_text(r.left_top()) + ", right_bottom: "@ + cursor_text(r.right_bottom()) + " }"@
}

/// The message of [`Error::Buffer`] for a write at `cursor` outside `region`.
pub open spec fn outside_region_text(cursor: Cursor, region: Region) -> Seq<char> {
    "Cursor "@ + cursor_text(cursor) + " not included in the mapped region "@ + region_text(region)
}

/// The decimal digit `d`.
fn digit_char(d: u16) -> (r: char)
    requires
        d < 10,
    ensures
        r == digit(d as int),
{
    if d == 0 {
        '0'
    } else if d == 1 {
        '1'
    } else if d == 2 {
        '2'
    } else if d == 3 {
        '3'
    } else if d == 4 {
        '4'
    } else if d == 5 {
        '5'
    } else if d == 6 {
        '6'
    } else if d == 7 {
        '7'
    } else if d == 8 {
        '8'
    } else {
        '9'
    }
}

/// Appends `n` in decimal to `out`.
fn push_decimal(out: &mut String, n: u16)
    ensures
        final(out)@ == old(out)@ + decimal(n as nat),
    decreases n,
{
    if n >= 10 {
        push_decimal(out, n / 10);
    }
    out.push(digit_char(n % 10));
    proof {
        if n >= 10 {
            assert(decimal(n as nat) == decimal((n / 10) as nat).push(digit((n % 10) as int)));
        }
    }
}

/// Appends how `Debug` shows `c` to `out`.
fn push_cursor(out: &mut String, c: Cursor)
    ensures
        final(out)@ == old(out)@ + cursor_text(c),
{
    out.append("Cursor { column: ");
    push_decimal(out, c.column());
    out.append(", line: ");
    push_decimal(out, c.line());
    out.append(" }");
    proof {
        assert(out@ =~= old(out)@ + cursor_text(c));
    }
}

/// The message of [`Error::Buffer`] for a write at `cursor` outside `region`: both shown as
/// `Debug` shows them.
fn outside_region_message(cursor: Cursor, region: Region) -> (r: String)
    ensures
        r@ == outside_region_text(cursor, region),
{
    let mut out = String::new();
    out.append("Cursor ");
    push_cursor(&mut out, cursor);
    out.append(" not included in the mapped region ");
    out.append("Region { left_top: ");
    push_cursor(&mut out, region.left_top());
    out.append(", right_bottom: ");
    push_cursor(&mut out, region.right_bottom());
    out.append(" }");
    proof {
        assert(out@ =~= outside_region_text(cursor, region));
    }
    out
}

} // verus!

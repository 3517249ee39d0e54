//! The cell buffer of the whole terminal and mapped views on parts of it.

use vstd::prelude::*;

mod map;
pub mod state;

pub use map::MappedBuffer;

use crate::terminal::{
    character::{chars_of, Character},
    cursor::{at, lemma_cursor_ext, Cursor, Index},
    region::Region,
    size::Size,
};

verus! {

broadcast use lemma_cursor_ext, Character::lemma_character_ext, Character::lemma_spec_new;

/// Position in the cell vector of a buffer `width` cells wide of the cell at
/// (`column`, `line`).
pub open spec fn cell_index(width: int, column: int, line: int) -> int {
    width * line + column
}

/// The column of the cell at position `i` of a buffer `width` cells wide.
pub open spec fn column_of(width: int, i: int) -> int {
    i % width
}

/// The line of the cell at position `i` of a buffer `width` cells wide.
pub open spec fn line_of(width: int, i: int) -> int {
    i / width
}

/// The cell at (`column`, `line`) sits at a position whose column and line are those.
pub proof fn lemma_cell_index(width: int, column: int, line: int)
    requires
        0 < width,
        0 <= column < width,
        0 <= line,
    ensures
        column_of(width, cell_index(width, column, line)) == column,
        line_of(width, cell_index(width, column, line)) == line,
        0 <= cell_index(width, column, line),
{
    vstd::arithmetic::div_mod::lemma_div_multiples_vanish_fancy(line, column, width);
    vstd::arithmetic::div_mod::lemma_mod_multiples_vanish(line, column, width);
    vstd::arithmetic::div_mod::lemma_small_mod(column as nat, width as nat);
    assert(0 <= width * line) by (nonlinear_arith)
        requires
            0 < width,
            0 <= line,
    ;
}

/// Cells of a buffer `width` cells wide at different in-bounds positions have different
/// places in the cell vector.
pub proof fn lemma_cells_apart(width: int, c1: int, l1: int, c2: int, l2: int)
    requires
        0 < width,
        0 <= c1 < width,
        0 <= c2 < width,
        0 <= l1,
        0 <= l2,
        c1 != c2 || l1 != l2,
    ensures
        cell_index(width, c1, l1) != cell_index(width, c2, l2),
{
    lemma_cell_index(width, c1, l1);
    lemma_cell_index(width, c2, l2);
}

/// An in-bounds cell of a `width` by `height` buffer has a place in its cell vector.
pub proof fn lemma_cell_bound(width: int, height: int, column: int, line: int)
    requires
        0 <= column < width,
        0 <= line < height,
    ensures
        0 <= cell_index(width, column, line) < width * height,
{
    assert(width * line + column < width * height) by (nonlinear_arith)
        requires
            0 <= column < width,
            0 <= line < height,
    ;
    assert(0 <= width * line) by (nonlinear_arith)
        requires
            0 <= column < width,
            0 <= line,
    ;
}

/// Whether the cell (`column`, `line`) lies in `region`.
pub open spec fn region_has(region: Region, column: int, line: int) -> bool {
    &&& region.left_top().column() <= column <= region.right_bottom().column()
    &&& region.left_top().line() <= line <= region.right_bottom().line()
}

/// Sets every cell of `region` in `buffer` to `c`.
fn fill_region(buffer: &mut Buffer, region: Region, c: Character)
    requires
        old(buffer).wf(),
        region.right_bottom().column() < old(buffer).columns(),
        region.right_bottom().line() < old(buffer).lines(),
    ensures
        final(buffer).wf(),
        final(buffer).spec_region() == old(buffer).spec_region(),
        forall|col: int, line: int|
            #![trigger final(buffer).cell(col, line)]
            final(buffer).in_bounds(col, line) ==> final(buffer).cell(col, line) == (
                if region_has(region, col, line) { c } else { old(buffer).cell(col, line) }),
{
    let ghost old_buffer = *buffer;
    proof {
        use_type_invariant(&region);
    }
    let first_column = region.left_top().column() as u32;
    let last_column = region.right_bottom().column() as u32;
    let last_line = region.right_bottom().line() as u32;
    let mut line = region.left_top().line() as u32;
    while line <= last_line
        invariant
            buffer.wf(),
            buffer.spec_region() == old_buffer.spec_region(),
            last_column == region.right_bottom().column(),
            last_line == region.right_bottom().line(),
            first_column == region.left_top().column(),
            first_column <= last_column,
            last_column < buffer.columns(),
            last_line < buffer.lines(),
            region.left_top().line() <= line <= last_line + 1,
            forall|col: int, ln: int|
                #![trigger buffer.cell(col, ln)]
                buffer.in_bounds(col, ln) ==> buffer.cell(col, ln) == (
                    if region_has(region, col, ln) && ln < line { c } else { old_buffer.cell(col, ln) }),
        decreases last_line + 1 - line,
    {
        let mut column = first_column;
        while column <= last_column
            invariant
                buffer.wf(),
                buffer.spec_region() == old_buffer.spec_region(),
                last_column == region.right_bottom().column(),
                last_line == region.right_bottom().line(),
                first_column == region.left_top().column(),
                last_column < buffer.columns(),
                last_line < buffer.lines(),
                region.left_top().line() <= line <= last_line,
                first_column <= column <= last_column + 1,
                forall|col: int, ln: int|
                    #![trigger buffer.cell(col, ln)]
                    buffer.in_bounds(col, ln) ==> buffer.cell(col, ln) == (
                        if region_has(region, col, ln) && (ln < line || (ln == line && col < column)) {
                            c
                        } else {
                            old_buffer.cell(col, ln)
                        }),
            decreases last_column + 1 - column,
        {
            let ghost before = *buffer;
            let position = Cursor::new(column as Index, line as Index);
            proof {
                lemma_cell_bound(buffer.columns(), buffer.lines(), column as int, line as int);
            }
            buffer.write_character(c, position);
            assert forall|col: int, ln: int| #![trigger buffer.cell(col, ln)]
                buffer.in_bounds(col, ln) implies buffer.cell(col, ln) == (
                    if region_has(region, col, ln) && (ln < line || (ln == line && col < column + 1)) {
                        c
                    } else {
                        old_buffer.cell(col, ln)
                    }) by {
                lemma_cell_bound(buffer.columns(), buffer.lines(), col, ln);
                if col != column || ln != line {
                    lemma_cells_apart(buffer.columns(), col, ln, column as int, line as int);
                    assert(before.in_bounds(col, ln));
                    assert(buffer.cell(col, ln) == before.cell(col, ln));
                }
            }
            column += 1;
        }
        line += 1;
    }
}

/// A cell written by [`Buffer::write_character`] reads back as written, through
/// [`Buffer::cell`] and so through [`Buffer::get`], and every other cell keeps what it held.
pub proof fn law_write_then_get(before: Buffer, after: Buffer, c: Character, column: int, line: int)
    requires
        before.wf(),
        before.in_bounds(column, line),
        after.spec_region() == before.spec_region(),
        after.cells() == before.cells().update(cell_index(before.columns(), column, line), c),
    ensures
        after.wf(),
        after.cell(column, line) == c,
        forall|col: int, ln: int|
            #![trigger after.cell(col, ln)]
            after.in_bounds(col, ln) && (col != column || ln != line) ==> after.cell(col, ln) == before.cell(col, ln),
{
    lemma_cell_bound(before.columns(), before.lines(), column, line);
    assert forall|col: int, ln: int|
        #![trigger after.cell(col, ln)]
        after.in_bounds(col, ln) && (col != column || ln != line) implies after.cell(col, ln) == before.cell(col, ln) by {
        lemma_cell_bound(before.columns(), before.lines(), col, ln);
        lemma_cells_apart(before.columns(), col, ln, column, line);
    }
}

/// The symbols of the first `k` cells, with a line break after the cell at index `mark`.
pub open spec fn shown(cells: Seq<Character>, k: int, mark: int) -> Seq<char>
    decreases k,
{
    if k <= 0 {
        Seq::empty()
    } else {
        shown(cells, k - 1, mark) + seq![cells[k - 1].spec_symbol()] + (if k - 1 == mark {
            seq!['\n']
        } else {
            Seq::empty()
        })
    }
}

/// Global buffer for terminal
#[derive(Debug)]
pub struct Buffer {
    /// Chars for every column and row, size should be = `region`.width() * `region`.height()
    data: Vec<Character>,
    /// Current terminal region, left_top is always 0
    region: Region,
}

impl Buffer {
    /// The cells, line after line.
    pub closed spec fn cells(&self) -> Seq<Character> {
        self.data@
    }

    /// The area the buffer covers.
    pub closed spec fn spec_region(&self) -> Region {
        self.region
    }

    /// Count of columns.
    pub open spec fn columns(&self) -> int {
        self.spec_region().spec_width()
    }

    /// Count of lines.
    pub open spec fn lines(&self) -> int {
        self.spec_region().spec_height()
    }

    /// The region starts at (0, 0), fits the coordinate type, and there is one cell for each
    /// of its positions.
    pub open spec fn wf(&self) -> bool {
        &&& at(self.spec_region().left_top(), 0, 0)
        &&& self.spec_region().fits()
        &&& self.cells().len() == self.columns() * self.lines()
    }

    /// Whether the cell (`column`, `line`) lies in the buffer.
    pub open spec fn in_bounds(&self, column: int, line: int) -> bool {
        0 <= column < self.columns() && 0 <= line < self.lines()
    }

    /// The cell at (`column`, `line`).
    pub open spec fn cell(&self, column: int, line: int) -> Character {
        self.cells()[cell_index(self.columns(), column, line)]
    }

    /// The symbols of every cell, line after line, with a line break after the cell whose index
    /// is the last column of the region.
    pub fn to_string(&self) -> (r: String)
        ensures
            r@ == shown(self.cells(), self.cells().len() as int, self.spec_region().spec_right_bottom().spec_column() as int),
    {
        let mark = self.region.right_bottom().column() as usize;
        let mut out = String::new();
        let mut i: usize = 0;
        while i < self.data.len()
            invariant
                i <= self.data@.len(),
                mark == self.spec_region().spec_right_bottom().spec_column(),
                out@ == shown(self.data@, i as int, mark as int),
            decreases self.data@.len() - i,
        {
            out.push(self.data[i].symbol());
            if i == mark {
                out.push('\n');
            }
            i += 1;
        }
        out
    }

    /// A blank buffer covering `size`.
    pub fn new(size: Size) -> (r: Self)
        requires
            size.width() > 0,
            size.height() > 0,
        ensures
            r.wf(),
            r.columns() == size.width(),
            r.lines() == size.height(),
            forall|i: int| 0 <= i < r.cells().len() ==> (#[trigger] r.cells()[i]).symbol() == ' ',
    {
        let mut v = Buffer { data: Vec::new(), region: Region::default() };
        v.resize(size);
        v
    }

    /// A mapped buffer on `region` of this buffer.
    pub fn map(&mut self, region: Region) -> (r: MappedBuffer<'_>)
        ensures
            *r.buffer == *old(self),
            r.mapped_region == region,
            *final(self) == *final(r.buffer),
    {
        MappedBuffer::new(self, region)
    }

    /// A mapped buffer on the whole buffer.
    pub fn full_map(&mut self) -> (r: MappedBuffer<'_>)
        ensures
            *r.buffer == *old(self),
            r.mapped_region == old(self).spec_region(),
            *final(self) == *final(r.buffer),
    {
        let region = self.region;
        self.map(region)
    }

    /// Updates the region for `size`. The cells kept are the first ones, line by line;
    /// new cells are blank.
    pub fn resize(&mut self, size: Size)
        requires
            size.width() > 0,
            size.height() > 0,
        ensures
            final(self).wf(),
            final(self).columns() == size.width(),
            final(self).lines() == size.height(),
            forall|i: int| 0 <= i < final(self).cells().len() ==> #[trigger] final(self).cells()[i] == (
                if i < old(self).cells().len() { old(self).cells()[i] } else { Character::default_spec() }),
    {
        let region = Region::from_size(size);
        let area = region.area();
        let ghost old_cells = self.data@;
        let blank = Character::new(' ');
        self.data.resize(area, blank);
        self.region = region;
        proof {
            if area > old_cells.len() {
                assert forall|i: int| 0 <= i < self.data@.len() implies #[trigger] self.data@[i] == (
                    if i < old_cells.len() { old_cells[i] } else { Character::default_spec() }) by {
                    if i < old_cells.len() {
                        assert(self.data@.subrange(0, old_cells.len() as int)[i] == self.data@[i]);
                    } else {
                        assert(cloned(blank, self.data@[i]));
                        assert(vstd::pervasive::strictly_cloned(blank, self.data@[i]) ==> self.data@[i] == blank);
                        assert(blank.symbol() == Character::default_spec().symbol());
                    }
                }
            }
        }
        assert(at(region.left_top(), 0, 0));
    }

    /// Write `c` in specified `position`
    pub fn write_character(&mut self, c: Character, position: Cursor)
        requires
            old(self).spec_region().spec_width() <= Index::MAX,
            cell_index(old(self).columns(), position.column() as int, position.line() as int) < old(self).cells().len(),
        ensures
            final(self).spec_region() == old(self).spec_region(),
            final(self).cells() == old(self).cells().update(
                cell_index(old(self).columns(), position.column() as int, position.line() as int),
                c,
            ),
    {
        let index = self.get_index(&position);
        self.data.set(index, c);
    }

    /// The cell at `cursor`.
    pub fn get(&self, cursor: Cursor) -> (r: &Character)
        requires
            self.spec_region().spec_width() <= Index::MAX,
            cell_index(self.columns(), cursor.column() as int, cursor.line() as int) < self.cells().len(),
        ensures
            *r == self.cells()[cell_index(self.columns(), cursor.column() as int, cursor.line() as int)],
    {
        let index = self.get_index(&cursor);
        &self.data[index]
    }

    /// The cell at `cursor`, to change it.
    pub fn get_mut(&mut self, cursor: Cursor) -> (r: &mut Character)
        requires
            old(self).spec_region().spec_width() <= Index::MAX,
            cell_index(old(self).columns(), cursor.column() as int, cursor.line() as int) < old(self).cells().len(),
        ensures
            *r == old(self).cells()[cell_index(old(self).columns(), cursor.column() as int, cursor.line() as int)],
            final(self).spec_region() == old(self).spec_region(),
            final(self).cells() == old(self).cells().update(
                cell_index(old(self).columns(), cursor.column() as int, cursor.line() as int),
                *final(r),
            ),
    {
        let index = self.get_index(&cursor);
        &mut self.data[index]
    }

    /// The cells, line after line.
    pub fn absorb(self) -> (r: Vec<Character>)
        ensures
            r@ == self.cells(),
    {
        self.data
    }

    /// Returns current size of buffer
    pub fn size(&self) -> (r: Size)
        requires
            self.spec_region().fits(),
        ensures
            r.width() == self.columns(),
            r.height() == self.lines(),
    {
        self.region.size()
    }

    /// Position in the cell vector of the cell at `cursor`.
    pub fn get_index(&self, cursor: &Cursor) -> (r: usize)
        requires
            self.spec_region().spec_width() <= Index::MAX,
        ensures
            r == cell_index(self.columns(), cursor.column() as int, cursor.line() as int),
    {
        proof {
            use_type_invariant(&self.region);
        }
        let w = self.region.width() as usize;
        let line = cursor.line() as usize;
        let column = cursor.column() as usize;
        assert(w * line <= 65535 * 65535) by (nonlinear_arith)
            requires
                w <= 65535,
                line <= 65535,
        ;
        w * line + column
    }

    /// A buffer holding `lines`, one per line, each padded with blanks to the longest one.
    pub fn from_lines(lines: Vec<String>) -> (r: Self)
        requires
            0 < lines@.len() <= Index::MAX,
            forall|i: int| 0 <= i < lines@.len() ==> (#[trigger] lines@[i])@.len() <= Index::MAX,
            exists|i: int| 0 <= i < lines@.len() && (#[trigger] lines@[i])@.len() > 0,
        ensures
            r.wf(),
            r.lines() == lines@.len(),
            forall|i: int| 0 <= i < lines@.len() ==> (#[trigger] lines@[i])@.len() <= r.columns(),
            exists|i: int| 0 <= i < lines@.len() && (#[trigger] lines@[i])@.len() == r.columns(),
            forall|l: int, c: int|
                0 <= l < r.lines() && 0 <= c < r.columns() ==> (#[trigger] r.cell(c, l)).symbol() == (
                    if c < lines@[l]@.len() { lines@[l]@[c] } else { ' ' }),
    {
        let h = lines.len() as Index;
        let mut w: usize = 0;
        let mut i: usize = 0;
        while i < lines.len()
            invariant
                i <= lines@.len(),
                forall|k: int| 0 <= k < i ==> (#[trigger] lines@[k])@.len() <= w,
                i > 0 ==> exists|k: int| 0 <= k < i && (#[trigger] lines@[k])@.len() == w,
                i == 0 ==> w == 0,
                forall|k: int| 0 <= k < lines@.len() ==> (#[trigger] lines@[k])@.len() <= Index::MAX,
                w <= Index::MAX,
            decreases lines@.len() - i,
        {
            let n = lines[i].as_str().unicode_len();
            if n > w || i == 0 {
                w = n;
            }
            i += 1;
        }
        assert(w > 0) by {
            let k = choose|k: int| 0 <= k < lines@.len() && (#[trigger] lines@[k])@.len() > 0;
            assert(lines@[k]@.len() <= w);
        }
        let mut res = Self::new(Size::new(w as Index, h));
        assert forall|ln: int, c: int| 0 <= ln < res.lines() && 0 <= c < res.columns() implies
            (#[trigger] res.cell(c, ln)).symbol() == ' ' by {
            lemma_cell_bound(res.columns(), res.lines(), c, ln);
        }
        let mut l: usize = 0;
        while l < lines.len()
            invariant
                res.wf(),
                res.columns() == w,
                res.lines() == h,
                h == lines@.len(),
                l <= lines@.len(),
                forall|k: int| 0 <= k < lines@.len() ==> (#[trigger] lines@[k])@.len() <= w,
                forall|ln: int, c: int|
                    0 <= ln < res.lines() && 0 <= c < res.columns() ==> (#[trigger] res.cell(c, ln)).symbol() == (
                        if ln < l && c < lines@[ln]@.len() { lines@[ln]@[c] } else { ' ' }),
            decreases lines@.len() - l,
        {
            let chars = crate::terminal::character::Characters::from_str(lines[l].as_str());
            let mut mapped = res.full_map();
            mapped.write_line(chars, l as Index);
            l += 1;
        }
        res
    }
}

impl Character {
    /// The blank character, as used in contracts.
    pub open spec fn default_spec() -> Character {
        Character::spec_new(' ')
    }
}

} // verus!

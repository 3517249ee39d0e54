use vstd::prelude::*;

use crate::{
    backend::raw::cell::{Cell, CellView, Flag},
    text::{
        grapheme::{cluster_texts, create_graphemes, display_width, extended_grapheme_indices, str_width},
        part::{is_new_line, is_newline},
        style::Style,
        utils::{bound_ends, end_index, start_index, valid_bounds, Bound},
    },
};

verus! {

/// Terminal emulator just for tests.
pub struct Terminal {
    grid: Vec<Cell>,
    width: usize,
    height: usize,
    cursor: Cursor,
}

/// Position of the cursor of the emulator.
#[derive(Clone, Copy)]
struct Cursor {
    column: usize,
    line: usize,
}

/// What the emulator shows: its cells line after line, its size and its cursor.
pub struct Screen {
    pub cells: Seq<CellView>,
    pub width: int,
    pub height: int,
    pub column: int,
    pub line: int,
}

/// Place of the cell under the cursor.
pub open spec fn at_cursor(t: Screen) -> int {
    t.width * t.line + t.column
}

/// `t` with the cell under the cursor set to `c`.
pub open spec fn put(t: Screen, c: CellView) -> Screen {
    Screen { cells: t.cells.update(at_cursor(t), c), width: t.width, height: t.height, column: t.column, line: t.line }
}

/// `t` with the cursor at the start of the next line, where there is one.
pub open spec fn to_next_line(t: Screen) -> Screen {
    if t.line + 1 < t.height {
        Screen { cells: t.cells, width: t.width, height: t.height, column: 0, line: t.line + 1 }
    } else {
        t
    }
}

/// `t` with the cursor one column on, or on the next line after the last column.
pub open spec fn to_next_column(t: Screen) -> Screen {
    if t.column + 1 >= t.width {
        to_next_line(t)
    } else {
        Screen { cells: t.cells, width: t.width, height: t.height, column: t.column + 1, line: t.line }
    }
}

/// `t` after writing the grapheme `g` with `style`.
pub open spec fn write_grapheme(t: Screen, g: Seq<char>, style: Style) -> Screen {
    let w = str_width(g);
    if w == 0 {
        let t1 = if is_newline(g) {
            to_next_line(put(t, CellView { grapheme: Seq::empty(), style: Style::spec_empty(), flags: 0 }))
        } else {
            t
        };
        to_next_column(t1)
    } else if w == 1 {
        to_next_column(put(t, CellView { grapheme: g, style, flags: 0 }))
    } else {
        let t1 = if t.column + 1 >= t.width {
            to_next_line(put(t, CellView { grapheme: seq![' '], style, flags: 4 }))
        } else {
            t
        };
        let t2 = to_next_column(put(t1, CellView { grapheme: g, style, flags: 1 }));
        to_next_column(put(t2, CellView { grapheme: seq![' '], style, flags: 2 }))
    }
}

/// A line break, "\n" or "\r\n" alike (a grapheme that fills no column), blanks the cell under
/// the cursor and takes the cursor to the next line, where there is one; as after every
/// grapheme the cursor then moves one column on, so it stands on the second column.
pub proof fn law_line_break_goes_to_next_line(t: Screen, g: Seq<char>, style: Style)
    requires
        g == seq!['\n'] || g == seq!['\r', '\n'],
        str_width(g) == 0,
        t.width > 1,
        0 <= t.column < t.width,
        0 <= t.line,
        t.line + 1 < t.height,
    ensures
        write_grapheme(t, g, style).line == t.line + 1,
        write_grapheme(t, g, style).column == 1,
        write_grapheme(t, g, style).cells == t.cells.update(
            t.width * t.line + t.column,
            CellView { grapheme: Seq::empty(), style: Style::spec_empty(), flags: 0 },
        ),
        write_grapheme(t, g, style).width == t.width,
        write_grapheme(t, g, style).height == t.height,
{
}

/// A grapheme one column wide fills the cell under the cursor with itself and `style`, and the
/// cursor moves one column on; no other cell changes.
pub proof fn law_narrow_grapheme_fills_one_cell(t: Screen, g: Seq<char>, style: Style)
    requires
        str_width(g) == 1,
        0 <= t.column,
        t.column + 1 < t.width,
        0 <= t.line < t.height,
    ensures
        write_grapheme(t, g, style).cells == t.cells.update(t.width * t.line + t.column, CellView { grapheme: g, style, flags: 0 }),
        write_grapheme(t, g, style).column == t.column + 1,
        write_grapheme(t, g, style).line == t.line,
{
}

/// A grapheme two columns wide, with room for it on the line, fills the cell under the cursor
/// with itself and `style`, marked as the start of a wide grapheme, and the next cell with a
/// blank of `style` marked as its end; the cursor moves two columns on. Where the cursor stands
/// on the last column and a next line exists, that cell is marked as leading a wide grapheme
/// and the grapheme goes to the first two cells of the next line.
pub proof fn law_wide_grapheme_fills_two_cells(t: Screen, g: Seq<char>, style: Style)
    requires
        str_width(g) == 2,
        t.width > 2,
        0 <= t.column < t.width,
        0 <= t.line < t.height,
    ensures
        t.column + 2 < t.width ==> {
            &&& write_grapheme(t, g, style).cells == t.cells.update(
                t.width * t.line + t.column,
                CellView { grapheme: g, style, flags: 1 },
            ).update(t.width * t.line + t.column + 1, CellView { grapheme: seq![' '], style, flags: 2 })
            &&& write_grapheme(t, g, style).column == t.column + 2
            &&& write_grapheme(t, g, style).line == t.line
        },
        t.column + 1 == t.width && t.line + 1 < t.height ==> {
            &&& write_grapheme(t, g, style).cells == t.cells.update(
                t.width * t.line + t.column,
                CellView { grapheme: seq![' '], style, flags: 4 },
            ).update(t.width * (t.line + 1), CellView { grapheme: g, style, flags: 1 }).update(
                t.width * (t.line + 1) + 1,
                CellView { grapheme: seq![' '], style, flags: 2 },
            )
            &&& write_grapheme(t, g, style).column == 2
            &&& write_grapheme(t, g, style).line == t.line + 1
        },
{
}

/// `t` after writing the graphemes `gs` with `style`, one after the other.
pub open spec fn write_graphemes(t: Screen, gs: Seq<Seq<char>>, style: Style) -> Screen
    decreases gs.len(),
{
    if gs.len() == 0 {
        t
    } else {
        write_grapheme(write_graphemes(t, gs.drop_last(), style), gs.last(), style)
    }
}

/// `t` after filling the line from the cursor with `c`, up to the last column but one.
pub open spec fn fill_line(t: Screen, c: CellView) -> Screen
    decreases t.width - t.column,
{
    if t.column >= t.width - 1 || t.line == t.height - 1 {
        t
    } else {
        fill_line(to_next_column(put(t, c)), c)
    }
}

/// The text of line `line` from column `c` on: each cell's grapheme, skipping the cell after
/// the start of a wide grapheme.
pub open spec fn line_text(t: Screen, line: int, c: int) -> Seq<char>
    decreases t.width + 1 - c,
{
    if c < 0 || c >= t.width {
        Seq::empty()
    } else {
        let cell = t.cells[t.width * line + c];
        if cell.flags & 1 == 1 {
            cell.grapheme + line_text(t, line, c + 2)
        } else {
            cell.grapheme + line_text(t, line, c + 1)
        }
    }
}

/// From column `c` on, line `line` is well marked: the start of a wide grapheme is followed by
/// its end, and a blank left for a wide grapheme is the last cell of the line.
pub open spec fn line_ok(t: Screen, line: int, c: int) -> bool
    decreases t.width + 1 - c,
{
    if c < 0 || c >= t.width {
        true
    } else {
        let cell = t.cells[t.width * line + c];
        if cell.flags & 1 == 1 {
            let next = t.width * line + c + 1;
            &&& next < t.cells.len()
            &&& t.cells[next].flags & 2 == 2
            &&& line_ok(t, line, c + 2)
        } else if cell.flags & 4 == 4 {
            c == t.width - 1 && line_ok(t, line, c + 1)
        } else {
            line_ok(t, line, c + 1)
        }
    }
}

/// Every cell in columns `c0..=c1` of lines `l0..=l1` has the style `style`.
pub open spec fn styles_in(t: Screen, c0: int, c1: int, l0: int, l1: int, style: Style) -> bool {
    forall|c: int, l: int| c0 <= c <= c1 && l0 <= l <= l1 ==> (#[trigger] t.cells[t.width * l + c]).style == style
}

/// An in-bounds cell of a `width` by `height` grid has a place in it.
proof fn lemma_place(width: int, height: int, column: int, line: int)
    requires
        0 <= column < width,
        0 <= line < height,
    ensures
        0 <= width * line + column < width * height,
{
    assert(width * line + column < width * height) by (nonlinear_arith)
        requires
            0 <= column < width,
            0 <= line < height,
    ;
    assert(0 <= width * line) by (nonlinear_arith)
        requires
            0 <= width,
            0 <= line,
    ;
}

impl Terminal {
    /// What the emulator shows.
    pub closed spec fn screen(&self) -> Screen {
        Screen {
            cells: self.grid@.map_values(|c: Cell| c.view_of()),
            width: self.width as int,
            height: self.height as int,
            column: self.cursor.column as int,
            line: self.cursor.line as int,
        }
    }

    /// There is one cell per place, the grid is at least two by two and the cursor is inside.
    pub open spec fn wf(&self) -> bool {
        let t = self.screen();
        &&& t.width > 1
        &&& t.height > 1
        &&& t.cells.len() == t.width * t.height
        &&& 0 <= t.column < t.width
        &&& 0 <= t.line < t.height
    }

    /// An empty emulator of `width` columns and `height` lines, the cursor at the top left.
    pub fn new(width: usize, height: usize) -> (r: Self)
        requires
            width > 1 && height > 1,
            width * height <= usize::MAX,
        ensures
            r.wf(),
            r.screen().width == width,
            r.screen().height == height,
            r.screen().column == 0,
            r.screen().line == 0,
            forall|i: int| 0 <= i < r.screen().cells.len() ==> #[trigger] r.screen().cells[i] == (CellView {
                grapheme: Seq::empty(),
                style: Style::spec_empty(),
                flags: 0,
            }),
    {
        let n = width * height;
        let mut grid: Vec<Cell> = Vec::new();
        let mut i: usize = 0;
        while i < n
            invariant
                i <= n,
                grid@.len() == i,
                forall|k: int| 0 <= k < i ==> #[trigger] grid@[k].view_of() == (CellView {
                    grapheme: Seq::empty(),
                    style: Style::spec_empty(),
                    flags: 0,
                }),
            decreases n - i,
        {
            grid.push(Cell::default());
            i += 1;
        }
        let r = Self { grid, width, height, cursor: Cursor { column: 0, line: 0 } };
        assert(r.screen().cells.len() == n);
        r
    }

    /// Moves the cursor to (`column`, `line`).
    pub fn move_cursor(&mut self, column: usize, line: usize)
        requires
            old(self).wf(),
            column < old(self).screen().width,
            line < old(self).screen().height,
        ensures
            final(self).wf(),
            final(self).screen() == (Screen { column: column as int, line: line as int, ..old(self).screen() }),
    {
        self.cursor.column = column;
        self.cursor.line = line;
    }

    /// The text of line `line`: each cell's grapheme, skipping the cell after the start of a
    /// wide grapheme.
    pub fn line_to_string(&self, line: usize) -> (r: String)
        requires
            self.wf(),
            line < self.screen().height,
            line_ok(self.screen(), line as int, 0),
        ensures
            r@ == line_text(self.screen(), line as int, 0),
    {
        let ghost t = self.screen();
        let n = self.grid.len();
        proof {
            assert(t.cells.len() == n);
            assert(t.width * 2 <= t.width * t.height) by (nonlinear_arith)
                requires
                    t.height >= 2,
                    t.width >= 0,
            ;
        }
        let mut result = String::new();
        let mut column: usize = 0;
        while column < self.width
            invariant
                self.wf(),
                t == self.screen(),
                line < t.height,
                column <= t.width + 1,
                2 * t.width <= usize::MAX,
                line_ok(t, line as int, column as int),
                result@ + line_text(t, line as int, column as int) == line_text(t, line as int, 0),
            decreases self.width + 1 - column,
        {
            proof {
                lemma_place(t.width, t.height, column as int, line as int);
            }
            let cell = self.get(column, line);
            result.append(cell.grapheme.as_str());
            if cell.flags.contains(Flag::wide_start()) {
                column += 1;
            }
            column += 1;
        }
        assert(line_text(t, line as int, column as int) == Seq::<char>::empty());
        assert(result@ + Seq::<char>::empty() =~= result@);
        result
    }

    /// Writes `s` from the cursor with `styles`, grapheme by grapheme: a grapheme of one
    /// column fills one cell, a wide one two cells (moving to the next line first where it does
    /// not fit), a line break blanks the cell and moves to the next line; the cursor moves one
    /// column after every grapheme.
    pub fn write_str(&mut self, s: &str, styles: Style)
        requires
            old(self).wf(),
        ensures
            final(self).wf(),
            final(self).screen() == write_graphemes(old(self).screen(), cluster_texts(extended_grapheme_indices(s@)), styles),
    {
        let graphemes = create_graphemes(s);
        let ghost gs = cluster_texts(extended_grapheme_indices(s@));
        let ghost t0 = self.screen();
        let mut k: usize = 0;
        while k < graphemes.len()
            invariant
                self.wf(),
                graphemes@.len() == gs.len(),
                forall|i: int| 0 <= i < graphemes@.len() ==> (#[trigger] graphemes@[i]).spec_data()@ == gs[i],
                k <= gs.len(),
                self.screen() == write_graphemes(t0, gs.take(k as int), styles),
            decreases graphemes@.len() - k,
        {
            let ghost before = self.screen();
            let g = graphemes[k].data();
            let width = graphemes[k].columns();
            if width == 0 {
                if is_new_line(g) {
                    self.set_current(Cell::default());
                    self.next_line();
                }
            } else if width == 1 {
                self.set_current(Cell::of(g, styles));
            } else {
                if self.cursor.column + 1 >= self.width {
                    let mut leading = Cell::wide_leading();
                    leading.style = styles;
                    self.set_current(leading);
                    self.next_line();
                }
                let mut start = Cell::of(g, styles);
                start.flags = Flag::wide_start();
                self.set_current(start);
                self.next_column();
                let mut end = Cell::wide_end();
                end.style = styles;
                self.set_current(end);
            }
            self.next_column();
            proof {
                assert(gs.take(k + 1).drop_last() =~= gs.take(k as int));
                assert(gs.take(k + 1).last() == gs[k as int]);
            }
            k += 1;
        }
        proof {
            assert(gs.take(gs.len() as int) =~= gs);
        }
    }

    /// Fills the line from the cursor with the grapheme `s`, up to the last column but one, and
    /// leaves the cursor after it; nothing happens on the last line.
    pub fn fill(&mut self, s: &str)
        requires
            old(self).wf(),
            extended_grapheme_indices(s@).len() == 1,
            str_width(s@) == 1,
        ensures
            final(self).wf(),
            final(self).screen() == fill_line(old(self).screen(), CellView { grapheme: s@, style: Style::spec_empty(), flags: 0 }),
    {
        let ghost c = CellView { grapheme: s@, style: Style::spec_empty(), flags: 0 };
        while self.cursor.column != self.width - 1 && self.cursor.line != self.height - 1
            invariant
                self.wf(),
                extended_grapheme_indices(s@).len() == 1,
                c == (CellView { grapheme: s@, style: Style::spec_empty(), flags: 0 }),
                fill_line(self.screen(), c) == fill_line(old(self).screen(), c),
            decreases self.width - self.cursor.column,
        {
            let ghost before = self.screen();
            let cell = Cell::new_str(s);
            assert(cell.view_of() == c);
            self.set_current(cell);
            self.next_column();
            assert(fill_line(before, c) == fill_line(self.screen(), c));
        }
    }

    /// Fills the line from the cursor with `s` as [`fill`](Self::fill) does, where `s` is one
    /// grapheme one column wide; tells whether it did.
    pub fn try_fill(&mut self, s: &str) -> (r: bool)
        requires
            old(self).wf(),
        ensures
            final(self).wf(),
            r <==> (extended_grapheme_indices(s@).len() == 1 && str_width(s@) == 1),
            final(self).screen() == (if r {
                fill_line(old(self).screen(), CellView { grapheme: s@, style: Style::spec_empty(), flags: 0 })
            } else {
                old(self).screen()
            }),
    {
        let graphemes = create_graphemes(s);
        if graphemes.len() == 1 && display_width(s) == 1 {
            self.fill(s);
            true
        } else {
            false
        }
    }

    /// Whether line `line` is well marked from its first column on (see [`line_ok`]).
    pub fn line_is_marked(&self, line: usize) -> (r: bool)
        requires
            self.wf(),
            line < self.screen().height,
        ensures
            r == line_ok(self.screen(), line as int, 0),
    {
        let ghost t = self.screen();
        let n = self.grid.len();
        proof {
            assert(t.cells.len() == n);
            assert(t.width * 2 <= t.width * t.height) by (nonlinear_arith)
                requires
                    t.height >= 2,
                    t.width >= 0,
            ;
        }
        let mut column: usize = 0;
        while column < self.width
            invariant
                self.wf(),
                t == self.screen(),
                n == t.cells.len(),
                line < t.height,
                column <= t.width + 1,
                2 * t.width <= usize::MAX,
                line_ok(t, line as int, column as int) == line_ok(t, line as int, 0),
            decreases self.width + 1 - column,
        {
            proof {
                lemma_place(t.width, t.height, column as int, line as int);
            }
            let cell = self.get(column, line);
            if cell.flags.contains(Flag::wide_start()) {
                let next = self.width * line + column + 1;
                if next >= n || !self.grid[next].flags.contains(Flag::wide_end()) {
                    return false;
                }
                column += 1;
            } else if cell.flags.contains(Flag::wide_leading()) {
                if column != self.width - 1 {
                    return false;
                }
            }
            column += 1;
        }
        true
    }

    /// Whether every cell of the columns `columns` in the lines `lines` has the style `style`.
    pub fn styles_are(&self, columns: (Bound, Bound), lines: (Bound, Bound), style: Style) -> (r: bool)
        requires
            self.wf(),
            valid_bounds(columns.0, columns.1),
            valid_bounds(lines.0, lines.1),
            end_index(columns.1) < self.screen().width,
            end_index(lines.1) < self.screen().height,
        ensures
            r == styles_in(
                self.screen(),
                start_index(columns.0),
                end_index(columns.1),
                start_index(lines.0),
                end_index(lines.1),
                style,
            ),
    {
        let ghost t = self.screen();
        let (c0, c1) = bound_ends(columns.0, columns.1);
        let (l0, l1) = bound_ends(lines.0, lines.1);
        let mut l = l0;
        while l <= l1
            invariant
                self.wf(),
                t == self.screen(),
                c0 <= c1 < t.width,
                l0 <= l <= l1 + 1,
                c0 == start_index(columns.0),
                c1 == end_index(columns.1),
                l0 == start_index(lines.0),
                l1 == end_index(lines.1),
                l1 < t.height,
                styles_in(t, c0 as int, c1 as int, l0 as int, l as int - 1, style),
            decreases l1 + 1 - l,
        {
            let mut c = c0;
            while c <= c1
                invariant
                    self.wf(),
                    t == self.screen(),
                    c0 <= c <= c1 + 1,
                    c1 < t.width,
                    c0 == start_index(columns.0),
                    c1 == end_index(columns.1),
                    l0 == start_index(lines.0),
                    l1 == end_index(lines.1),
                    l0 <= l <= l1,
                    l1 < t.height,
                    styles_in(t, c0 as int, c1 as int, l0 as int, l as int - 1, style),
                    forall|k: int| c0 <= k < c ==> (#[trigger] t.cells[t.width * l + k]).style == style,
                decreases c1 + 1 - c,
            {
                proof {
                    lemma_place(t.width, t.height, c as int, l as int);
                }
                if self.get(c, l).style != style {
                    assert(t.cells[t.width * l + c].style != style);
                    return false;
                }
                c += 1;
            }
            assert(styles_in(t, c0 as int, c1 as int, l0 as int, l as int, style)) by {
                assert forall|cc: int, ll: int| c0 <= cc <= c1 && l0 <= ll <= l implies (#[trigger] t.cells[t.width * ll + cc]).style == style by {
                    if ll < l {
                    } else {
                        assert(t.cells[t.width * l + cc].style == style);
                    }
                }
            }
            l += 1;
        }
        true
    }

    /// The text of every line.
    pub fn lines_to_vec(&self) -> (r: Vec<String>)
        requires
            self.wf(),
            forall|l: int| 0 <= l < self.screen().height ==> line_ok(self.screen(), l, 0),
        ensures
            r@.len() == self.screen().height,
            forall|l: int| 0 <= l < r@.len() ==> (#[trigger] r@[l])@ == line_text(self.screen(), l, 0),
    {
        let mut r: Vec<String> = Vec::new();
        let mut line: usize = 0;
        while line < self.height
            invariant
                self.wf(),
                forall|l: int| 0 <= l < self.screen().height ==> line_ok(self.screen(), l, 0),
                line <= self.height,
                r@.len() == line,
                forall|l: int| 0 <= l < line ==> (#[trigger] r@[l])@ == line_text(self.screen(), l, 0),
            decreases self.height - line,
        {
            r.push(self.line_to_string(line));
            line += 1;
        }
        r
    }

    /// The cell at (`column`, `line`).
    pub fn get(&self, column: usize, line: usize) -> (r: &Cell)
        requires
            self.screen().width * line + column < self.screen().cells.len(),
        ensures
            r.view_of() == self.screen().cells[self.screen().width * line + column],
    {
        let index = self.coord(column, line);
        &self.grid[index]
    }

    /// Sets the cell at (`column`, `line`) to `cell`.
    pub fn set_cell(&mut self, column: usize, line: usize, cell: Cell)
        requires
            old(self).wf(),
            column < old(self).screen().width,
            line < old(self).screen().height,
        ensures
            final(self).wf(),
            final(self).screen() == (Screen {
                cells: old(self).screen().cells.update(old(self).screen().width * line + column, cell.view_of()),
                ..old(self).screen()
            }),
    {
        proof {
            lemma_place(self.width as int, self.height as int, column as int, line as int);
        }
        let index = self.coord(column, line);
        self.grid.set(index, cell);
        assert(self.screen().cells =~= old(self).screen().cells.update(old(self).screen().width * line + column, cell.view_of()));
    }

    /// Count of columns.
    pub fn width(&self) -> (r: usize)
        ensures
            r == self.screen().width,
    {
        self.width
    }

    /// Count of lines.
    pub fn height(&self) -> (r: usize)
        ensures
            r == self.screen().height,
    {
        self.height
    }

    /// Sets the cell under the cursor to `c`.
    fn set_current(&mut self, c: Cell)
        requires
            old(self).wf(),
        ensures
            final(self).wf(),
            final(self).screen() == put(old(self).screen(), c.view_of()),
    {
        proof {
            lemma_place(self.width as int, self.height as int, self.cursor.column as int, self.cursor.line as int);
        }
        let index = self.coord(self.cursor.column, self.cursor.line);
        self.grid.set(index, c);
        assert(self.screen().cells =~= put(old(self).screen(), c.view_of()).cells);
    }

    fn next_column(&mut self)
        requires
            old(self).wf(),
        ensures
            final(self).wf(),
            final(self).screen() == to_next_column(old(self).screen()),
    {
        if self.cursor.column + 1 >= self.width {
            self.next_line();
        } else {
            self.cursor.column += 1;
        }
    }

    fn next_line(&mut self)
        requires
            old(self).wf(),
        ensures
            final(self).wf(),
            final(self).screen() == to_next_line(old(self).screen()),
    {
        if self.cursor.line + 1 < self.height {
            self.cursor.line += 1;
            self.cursor.column = 0;
        }
    }

    fn coord(&self, column: usize, line: usize) -> (r: usize)
        requires
            self.screen().width * line + column < self.screen().cells.len(),
        ensures
            r == self.screen().width * line + column,
    {
        let n = self.grid.len();
        proof {
            assert(self.screen().cells.len() == self.grid@.len());
            assert(0 <= self.width * line <= self.width * line + column) by (nonlinear_arith)
                requires
                    0 <= self.width,
                    0 <= line,
                    0 <= column,
            ;
        }
        self.width * line + column
    }
}

} // verus!

use vstd::prelude::*;

use super::cursor::{at, lemma_cursor_ext, Cursor, Index};
use crate::terminal::size::Size;

verus! {

broadcast use lemma_cursor_ext;

/// Region represents an area in the terminal
///
/// The left-top corner never lies right of or below the right-bottom corner.
#[derive(Eq, PartialEq, Structural, Debug, Clone, Copy)]
pub struct Region {
    left_top: Cursor,
    right_bottom: Cursor,
}

/// Whether `right_bottom` lies neither left of nor above `left_top`.
pub open spec fn ordered(left_top: Cursor, right_bottom: Cursor) -> bool {
    left_top.column() <= right_bottom.column() && left_top.line() <= right_bottom.line()
}

impl Region {
    /// The corners of every region are ordered; `use_type_invariant` brings this fact in.
    #[verifier::type_invariant]
    pub open spec fn corners_ordered(self) -> bool {
        ordered(self.spec_left_top(), self.spec_right_bottom())
    }

    /// The left-top corner, as used in contracts.
    pub closed spec fn spec_left_top(&self) -> Cursor {
        self.left_top
    }

    /// The right-bottom corner, as used in contracts.
    pub closed spec fn spec_right_bottom(&self) -> Cursor {
        self.right_bottom
    }

    /// Count of columns, as an integer.
    pub open spec fn spec_width(&self) -> int {
        self.right_bottom().column() - self.left_top().column() + 1
    }

    /// Count of lines, as an integer.
    pub open spec fn spec_height(&self) -> int {
        self.right_bottom().line() - self.left_top().line() + 1
    }

    /// Width and height both fit in an `Index`.
    pub open spec fn fits(&self) -> bool {
        self.spec_width() <= Index::MAX && self.spec_height() <= Index::MAX
    }

    /// Whether the cell `c` lies inside the region.
    pub open spec fn contains(&self, c: Cursor) -> bool {
        self.left_top().column() <= c.column() <= self.right_bottom().column()
            && self.left_top().line() <= c.line() <= self.right_bottom().line()
    }

    /// Creates a new region
    pub fn new(left_top: Cursor, right_bottom: Cursor) -> (r: Self)
        requires
            ordered(left_top, right_bottom),
        ensures
            r.left_top() == left_top,
            r.right_bottom() == right_bottom,
    {
        Self { left_top, right_bottom }
    }

    /// Creates a region when the corners are ordered.
    pub fn try_new(left_top: Cursor, right_bottom: Cursor) -> (r: Option<Self>)
        ensures
            r is Some <==> ordered(left_top, right_bottom),
            r matches Some(v) ==> v.left_top() == left_top && v.right_bottom() == right_bottom,
    {
        if left_top.column() <= right_bottom.column() && left_top.line() <= right_bottom.line() {
            Some(Self { left_top, right_bottom })
        } else {
            None
        }
    }

    /// The first line of the region.
    pub fn first_line(&self) -> (r: Region)
        requires
            self.fits(),
        ensures
            r.left_top() == self.left_top(),
            r.right_bottom().column() == self.right_bottom().column() && r.right_bottom().line() == self.left_top().line(),
    {
        proof {
            use_type_invariant(self);
        }
        Region::new(self.left_top, Cursor::new(self.right_bottom.column(), self.left_top.line()))
    }

    /// The last line of the region.
    pub fn last_line(&self) -> (r: Region)
        requires
            self.fits(),
        ensures
            r.left_top().column() == self.left_top().column() && r.left_top().line() == self.right_bottom().line(),
            r.right_bottom() == self.right_bottom(),
    {
        proof {
            use_type_invariant(self);
        }
        let h = self.height();
        let v = self.n_line(h - 1);
        v.unwrap()
    }

    /// The first column of the region.
    pub fn first_column(&self) -> (r: Region)
        requires
            self.fits(),
        ensures
            r.left_top() == self.left_top(),
            r.right_bottom().column() == self.left_top().column() && r.right_bottom().line() == self.right_bottom().line(),
    {
        proof {
            use_type_invariant(self);
        }
        let v = self.n_column(0);
        v.unwrap()
    }

    /// The last column of the region.
    pub fn last_column(&self) -> (r: Region)
        requires
            self.fits(),
        ensures
            r.left_top().column() == self.right_bottom().column() && r.left_top().line() == self.left_top().line(),
            r.right_bottom() == self.right_bottom(),
    {
        proof {
            use_type_invariant(self);
        }
        let w = self.width();
        let v = self.n_column(w - 1);
        v.unwrap()
    }

    /// The `line`-th line of the region (0-based), if there is one.
    pub fn n_line(&self, line: Index) -> (r: Option<Region>)
        requires
            self.fits(),
        ensures
            r is Some <==> line < self.spec_height(),
            r matches Some(v) ==> {
                &&& at(v.left_top(), self.left_top().column() as int, self.left_top().line() + line)
                &&& at(v.right_bottom(), self.right_bottom().column() as int, self.left_top().line() + line)
            },
    {
        proof {
            use_type_invariant(self);
        }
        if line < self.height() {
            let line = self.left_top.line() + line;
            Some(Region::new(
                Cursor::new(self.left_top.column(), line),
                Cursor::new(self.right_bottom.column(), line),
            ))
        } else {
            None
        }
    }

    /// The `column`-th column of the region (0-based), if there is one.
    pub fn n_column(&self, column: Index) -> (r: Option<Region>)
        requires
            self.fits(),
        ensures
            r is Some <==> column < self.spec_width(),
            r matches Some(v) ==> {
                &&& at(v.left_top(), self.left_top().column() + column, self.left_top().line() as int)
                &&& at(v.right_bottom(), self.left_top().column() + column, self.right_bottom().line() as int)
            },
    {
        proof {
            use_type_invariant(self);
        }
        if column < self.width() {
            let column = self.left_top.column() + column;
            Some(Region::new(
                Cursor::new(column, self.left_top.line()),
                Cursor::new(column, self.right_bottom.line()),
            ))
        } else {
            None
        }
    }

    /// The region of `size` cells whose left-top corner is `left_top`.
    pub fn with_size(left_top: Cursor, size: Size) -> (r: Self)
        requires
            size.width() > 0,
            size.height() > 0,
            left_top.column() + size.width() - 1 <= Index::MAX,
            left_top.line() + size.height() - 1 <= Index::MAX,
        ensures
            r.left_top() == left_top,
            at(r.right_bottom(), left_top.column() + size.width() - 1, left_top.line() + size.height() - 1),
            r.spec_width() == size.width(),
            r.spec_height() == size.height(),
    {
        let right_bottom = Cursor::new(
            left_top.column() + (size.width() - 1),
            left_top.line() + (size.height() - 1),
        );

        Self { left_top, right_bottom }
    }

    /// The region `(0, 0)..=(w - 1, h - 1)` covering `size`.
    pub fn from_size(size: Size) -> (r: Self)
        requires
            size.width() > 0,
            size.height() > 0,
        ensures
            r.left_top().column() == 0 && r.left_top().line() == 0,
            r.right_bottom().column() == (size.width() - 1) as Index && r.right_bottom().line() == (size.height() - 1) as Index,
            r.spec_width() == size.width(),
            r.spec_height() == size.height(),
    {
        Region::new(Cursor::new(0, 0), Cursor::new(size.width() - 1, size.height() - 1))
    }

    #[verifier::when_used_as_spec(spec_left_top)]
    pub fn left_top(&self) -> (r: Cursor)
        ensures
            r == self.spec_left_top(),
    {
        self.left_top
    }

    #[verifier::when_used_as_spec(spec_right_bottom)]
    pub fn right_bottom(&self) -> (r: Cursor)
        ensures
            r == self.spec_right_bottom(),
    {
        self.right_bottom
    }

    /// Width and height of the region.
    pub fn size(&self) -> (r: Size)
        requires
            self.fits(),
        ensures
            r.width() == self.spec_width(),
            r.height() == self.spec_height(),
    {
        Size::new(self.width(), self.height())
    }

    /// Count of columns in the region
    pub fn width(&self) -> (r: Index)
        requires
            self.spec_width() <= Index::MAX,
        ensures
            r == self.spec_width(),
    {
        proof {
            use_type_invariant(self);
        }
        self.right_bottom.column() - self.left_top.column() + 1
    }

    /// Count of rows in the region
    pub fn height(&self) -> (r: Index)
        requires
            self.spec_height() <= Index::MAX,
        ensures
            r == self.spec_height(),
    {
        proof {
            use_type_invariant(self);
        }
        self.right_bottom.line() - self.left_top.line() + 1
    }

    /// Count of rows multiplied to count of columns in the region
    pub fn area(&self) -> (r: usize)
        requires
            self.fits(),
        ensures
            r == self.spec_width() * self.spec_height(),
    {
        let w = self.width();
        let h = self.height();
        proof {
            vstd::arithmetic::mul::lemma_mul_upper_bound(w as int, Index::MAX as int, h as int, Index::MAX as int);
        }
        w as usize * h as usize
    }

    /// An iterator over every cell of the region, line by line.
    pub fn into_iter(self) -> (r: RegionIter)
        ensures
            r.region() == self,
            r.yielded() == 0,
    {
        RegionIter { region: self, cursor: None }
    }
}

impl Default for Region {
    fn default() -> (r: Self)
        ensures
            r.left_top().column() == 0 && r.left_top().line() == 0,
            r.right_bottom().column() == 0 && r.right_bottom().line() == 0,
    {
        Region::new(Cursor::new(0, 0), Cursor::new(0, 0))
    }
}

/// Iterator over every cell in Region in horizontal order
#[derive(Eq, PartialEq, Structural, Debug)]
pub struct RegionIter {
    region: Region,
    cursor: Option<Cursor>,
}

/// The count of cells of `region`.
pub open spec fn cell_count(region: Region) -> int {
    region.spec_width() * region.spec_height()
}

/// The `k`-th cell of `region` in line-by-line order, as (column, line).
pub open spec fn nth_cell(region: Region, k: int) -> (int, int) {
    (region.left_top().column() + k % region.spec_width(), region.left_top().line() + k / region.spec_width())
}

/// The cells of `region` in the order its iterator yields them: (column, line) pairs.
pub open spec fn region_cells(region: Region) -> Seq<(int, int)> {
    Seq::new(cell_count(region) as nat, |k: int| nth_cell(region, k))
}

/// A fresh iterator over `region` (see [`Region::into_iter`]) yields, call after call, the cells
/// of [`region_cells`] and then `None` on every later call (see [`RegionIter::next`]). Those
/// cells are the region's cells, each once, line by line from the top and, within a line, from
/// the left: there are width × height of them, each lies in the region, every cell of the
/// region is among them, and each comes after every cell of an earlier line and every cell to
/// its left on its own line.
pub proof fn law_region_iteration(region: Region)
    requires
        ordered(region.left_top(), region.right_bottom()),
    ensures
        region_cells(region).len() == region.spec_width() * region.spec_height(),
        forall|k: int|
            0 <= k < region_cells(region).len() ==> {
                &&& region.left_top().column() <= (#[trigger] region_cells(region)[k]).0 <= region.right_bottom().column()
                &&& region.left_top().line() <= region_cells(region)[k].1 <= region.right_bottom().line()
            },
        forall|i: int, j: int|
            0 <= i < j < region_cells(region).len() ==> {
                let a = #[trigger] region_cells(region)[i];
                let b = #[trigger] region_cells(region)[j];
                a.1 < b.1 || (a.1 == b.1 && a.0 < b.0)
            },
        forall|column: int, line: int|
            region.left_top().column() <= column <= region.right_bottom().column()
                && region.left_top().line() <= line <= region.right_bottom().line() ==> region_cells(region).contains(
                (column, line),
            ),
{
    let cells = region_cells(region);
    let w = region.spec_width();
    let h = region.spec_height();
    assert(w * h >= 1) by (nonlinear_arith)
        requires
            w >= 1,
            h >= 1,
    ;
    assert forall|k: int| 0 <= k < cells.len() implies {
        &&& region.left_top().column() <= (#[trigger] cells[k]).0 <= region.right_bottom().column()
        &&& region.left_top().line() <= cells[k].1 <= region.right_bottom().line()
    } by {
        if k + 1 < cells.len() {
            law_region_cells_distinct(region, k, k + 1);
        } else if k > 0 {
            law_region_cells_distinct(region, k, 0);
        } else {
            lemma_nth_cell(region, region.left_top().column() as int, region.left_top().line() as int, 0);
        }
    }
    assert forall|i: int, j: int| 0 <= i < j < cells.len() implies {
        let a = #[trigger] cells[i];
        let b = #[trigger] cells[j];
        a.1 < b.1 || (a.1 == b.1 && a.0 < b.0)
    } by {
        vstd::arithmetic::div_mod::lemma_div_is_ordered(i, j, w);
        vstd::arithmetic::div_mod::lemma_fundamental_div_mod(i, w);
        vstd::arithmetic::div_mod::lemma_fundamental_div_mod(j, w);
        if i / w == j / w {
            assert(i % w < j % w);
        }
    }
    assert forall|column: int, line: int|
        region.left_top().column() <= column <= region.right_bottom().column()
            && region.left_top().line() <= line <= region.right_bottom().line() implies cells.contains((column, line)) by {
        law_region_cell_reached(region, column, line);
        let k = (line - region.left_top().line()) * w + (column - region.left_top().column());
        assert(cells[k] == (column, line));
    }
}

/// The cell at (`column`, `line`) is the `k`-th of `region` where `k` is its offset from the
/// left-top corner, line by line.
proof fn lemma_nth_cell(region: Region, column: int, line: int, k: int)
    requires
        ordered(region.left_top(), region.right_bottom()),
        region.left_top().column() <= column <= region.right_bottom().column(),
        region.left_top().line() <= line <= region.right_bottom().line(),
        k == (line - region.left_top().line()) * region.spec_width() + (column - region.left_top().column()),
    ensures
        nth_cell(region, k) == (column, line),
        0 <= k < cell_count(region),
{
    let w = region.spec_width();
    let h = region.spec_height();
    let q = line - region.left_top().line();
    let rem = column - region.left_top().column();
    vstd::arithmetic::div_mod::lemma_fundamental_div_mod_converse(k, w, q, rem);
    assert(0 <= k < w * h) by (nonlinear_arith)
        requires
            0 <= q < h,
            0 <= rem < w,
            k == q * w + rem,
    ;
}

/// The cells a region's iterator yields, one for each count below the count of cells, are each
/// a cell of the region, and no two of them are the same cell.
pub proof fn law_region_cells_distinct(region: Region, k1: int, k2: int)
    requires
        ordered(region.left_top(), region.right_bottom()),
        0 <= k1 < cell_count(region),
        0 <= k2 < cell_count(region),
        k1 != k2,
    ensures
        region.left_top().column() <= nth_cell(region, k1).0 <= region.right_bottom().column(),
        region.left_top().line() <= nth_cell(region, k1).1 <= region.right_bottom().line(),
        nth_cell(region, k1) != nth_cell(region, k2),
{
    let w = region.spec_width();
    let h = region.spec_height();
    vstd::arithmetic::div_mod::lemma_fundamental_div_mod(k1, w);
    vstd::arithmetic::div_mod::lemma_fundamental_div_mod(k2, w);
    vstd::arithmetic::div_mod::lemma_mod_bound(k1, w);
    vstd::arithmetic::div_mod::lemma_div_pos_is_pos(k1, w);
    assert(k1 / w < h) by {
        vstd::arithmetic::div_mod::lemma_div_by_multiple_is_strongly_ordered(k1, h * w, h, w);
        vstd::arithmetic::div_mod::lemma_div_by_multiple(h, w);
        assert(w * h == h * w) by (nonlinear_arith);
    }
}

/// Every cell of a region is yielded by its iterator: the cell at (`column`, `line`) is the one
/// yielded after its offset from the left-top corner, line by line.
pub proof fn law_region_cell_reached(region: Region, column: int, line: int)
    requires
        ordered(region.left_top(), region.right_bottom()),
        region.left_top().column() <= column <= region.right_bottom().column(),
        region.left_top().line() <= line <= region.right_bottom().line(),
    ensures
        ({
            let k = (line - region.left_top().line()) * region.spec_width() + (column - region.left_top().column());
            0 <= k < cell_count(region) && nth_cell(region, k) == (column, line)
        }),
{
    let k = (line - region.left_top().line()) * region.spec_width() + (column - region.left_top().column());
    lemma_nth_cell(region, column, line, k);
}

impl RegionIter {
    /// The cell last yielded lies in the region.
    #[verifier::type_invariant]
    spec fn cursor_inside(self) -> bool {
        match self.cursor {
            None => true,
            Some(c) => self.region.contains(c),
        }
    }

    /// The region walked over.
    pub closed spec fn region(&self) -> Region {
        self.region
    }

    /// How many cells were yielded so far.
    pub closed spec fn yielded(&self) -> int {
        match self.cursor {
            None => 0,
            Some(c) => (c.line() - self.region.left_top().line()) * self.region.spec_width() + (c.column()
                - self.region.left_top().column()) + 1,
        }
    }

    /// Yields the next cell of the region: the `k`-th call yields the `k`-th cell, line by line,
    /// while `k` is below the count of cells; every later call returns `None`.
    pub fn next(&mut self) -> (r: Option<Cursor>)
        ensures
            final(self).region() == old(self).region(),
            old(self).yielded() < cell_count(old(self).region()) ==> {
                &&& r matches Some(c) && (c.column() as int, c.line() as int) == region_cells(
                    old(self).region(),
                )[old(self).yielded()]
                &&& final(self).yielded() == old(self).yielded() + 1
            },
            old(self).yielded() >= cell_count(old(self).region()) ==> {
                &&& r is None
                &&& final(self).yielded() == old(self).yielded()
            },
    {
        proof {
            use_type_invariant(&*self);
            use_type_invariant(&self.region);
        }
        let region = self.region;
        let left_top = region.left_top();
        let right_bottom = region.right_bottom();
        let ghost w = region.spec_width();
        let ghost h = region.spec_height();
        match self.cursor {
            None => {
                proof {
                    lemma_nth_cell(region, left_top.column() as int, left_top.line() as int, 0);
                }
                self.cursor = Some(left_top);
                Some(left_top)
            },
            Some(c) => {
                let ghost k = self.yielded();
                if c.column() < right_bottom.column() {
                    let next = Cursor::new(c.column() + 1, c.line());
                    proof {
                        lemma_nth_cell(region, next.column() as int, next.line() as int, k);
                    }
                    self.cursor = Some(next);
                    Some(next)
                } else if c.line() < right_bottom.line() {
                    let next = Cursor::new(left_top.column(), c.line() + 1);
                    proof {
                        assert(k == (next.line() - left_top.line()) * w) by (nonlinear_arith)
                            requires
                                k == (c.line() - left_top.line()) * w + (c.column() - left_top.column()) + 1,
                                c.column() == left_top.column() + w - 1,
                                next.line() == c.line() + 1,
                        ;
                        lemma_nth_cell(region, next.column() as int, next.line() as int, k);
                    }
                    self.cursor = Some(next);
                    Some(next)
                } else {
                    proof {
                        assert(k == w * h) by (nonlinear_arith)
                            requires
                                k == (c.line() - left_top.line()) * w + (c.column() - left_top.column()) + 1,
                                c.column() == left_top.column() + w - 1,
                                c.line() == left_top.line() + h - 1,
                        ;
                    }
                    None
                }
            },
        }
    }
}

} // verus!

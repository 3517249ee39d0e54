use vstd::prelude::*;

use crate::{
    backend::Backend,
    terminal::{
        cursor::{at, Cursor, Index},
        region::Region,
    },
    terminal_new::RawPrinter,
};

verus! {

/// A view of the terminal limited to a region, which it writes through a raw printer.
pub struct Printer<'a, B: Backend + ?Sized> {
    raw: &'a mut RawPrinter<'a, B>,
    region: Region,
}

impl<'a, B: Backend + ?Sized> Printer<'a, B> {
    /// The mapped region, in terminal coordinates.
    pub closed spec fn spec_region(&self) -> Region {
        self.region
    }

    /// The mapped region has a width and a height that fit an `Index`.
    pub open spec fn wf(&self) -> bool {
        self.spec_region().fits()
    }

    /// Whether the local cell (`column`, `line`) lies in the mapped region.
    pub open spec fn holds_local(&self, column: int, line: int) -> bool {
        0 <= column < self.spec_region().spec_width() && 0 <= line < self.spec_region().spec_height()
    }

    /// The terminal column of local column `column`.
    pub open spec fn global_column_of(&self, column: int) -> int {
        column + self.spec_region().left_top().column()
    }

    /// The terminal line of local line `line`.
    pub open spec fn global_line_of(&self, line: int) -> int {
        line + self.spec_region().left_top().line()
    }

    pub(crate) fn new(raw: &'a mut RawPrinter<'a, B>, region: Region) -> (r: Self)
        ensures
            r.spec_region() == region,
    {
        Self { raw, region }
    }

    /// Return mapped region of this `Printer`.
    ///
    /// This is a real `region` in the current terminal window. All components
    /// working with local coordinates starting with `(0, 0)`. Result of this function is global
    /// region. Possibly you don't want to use this function in your `components`. Check
    /// [width](Self::width), [height](Self::height).
    pub fn region(&self) -> (r: Region)
        ensures
            r == self.spec_region(),
    {
        self.region
    }

    /// Return width of mapped region.
    pub fn width(&self) -> (r: Index)
        requires
            self.wf(),
        ensures
            r == self.spec_region().spec_width(),
    {
        self.region.width()
    }

    /// Return height of mapped region.
    pub fn height(&self) -> (r: Index)
        requires
            self.wf(),
        ensures
            r == self.spec_region().spec_height(),
    {
        self.region.height()
    }

    /// Try to remap current `Printer`; `None` where `region` does not lie in the mapped region.
    pub fn try_map(&'a mut self, region: Region) -> (r: Option<Printer<'a, B>>)
        requires
            old(self).wf(),
        ensures
            r is Some <==> old(self).holds_local(region.right_bottom().column() as int, region.right_bottom().line() as int),
            r matches Some(p) ==> {
                &&& p.wf()
                &&& at(
                    p.spec_region().left_top(),
                    old(self).global_column_of(region.left_top().column() as int),
                    old(self).global_line_of(region.left_top().line() as int),
                )
                &&& at(
                    p.spec_region().right_bottom(),
                    old(self).global_column_of(region.right_bottom().column() as int),
                    old(self).global_line_of(region.right_bottom().line() as int),
                )
            },
    {
        proof {
            use_type_invariant(&region);
            use_type_invariant(&self.region);
        }
        let global_left = match self.global_cursor(region.left_top()) {
            Some(v) => v,
            None => return None,
        };
        let global_right = match self.global_cursor(region.right_bottom()) {
            Some(v) => v,
            None => return None,
        };
        Some(Printer::new(&mut *self.raw, Region::new(global_left, global_right)))
    }

    /// Remap current `Printer`.
    ///
    /// Check [try_map](Self::try_map).
    pub fn map(&'a mut self, region: Region) -> (r: Printer<'a, B>)
        requires
            old(self).wf(),
            old(self).holds_local(region.right_bottom().column() as int, region.right_bottom().line() as int),
        ensures
            r.wf(),
            at(
                r.spec_region().left_top(),
                old(self).global_column_of(region.left_top().column() as int),
                old(self).global_line_of(region.left_top().line() as int),
            ),
            at(
                r.spec_region().right_bottom(),
                old(self).global_column_of(region.right_bottom().column() as int),
                old(self).global_line_of(region.right_bottom().line() as int),
            ),
    {
        self.try_map(region).unwrap()
    }

    /// Map specified `line` to new `printer`.
    pub fn map_line(&'a mut self, line: Index) -> (r: Printer<'a, B>)
        requires
            old(self).wf(),
            line < old(self).spec_region().spec_height(),
        ensures
            r.wf(),
            at(r.spec_region().left_top(), old(self).spec_region().left_top().column() as int, old(self).global_line_of(line as int)),
            at(r.spec_region().right_bottom(), old(self).spec_region().right_bottom().column() as int, old(self).global_line_of(line as int)),
    {
        proof {
            use_type_invariant(&self.region);
        }
        let width = self.region().width();
        self.map(Region::new(Cursor::new(0, line), Cursor::new(width - 1, line)))
    }

    /// Map specified `column` to new `printer`.
    pub fn map_column(&'a mut self, column: Index) -> (r: Printer<'a, B>)
        requires
            old(self).wf(),
            column < old(self).spec_region().spec_width(),
        ensures
            r.wf(),
            at(r.spec_region().left_top(), old(self).global_column_of(column as int), old(self).spec_region().left_top().line() as int),
            at(r.spec_region().right_bottom(), old(self).global_column_of(column as int), old(self).spec_region().right_bottom().line() as int),
    {
        proof {
            use_type_invariant(&self.region);
        }
        let height = self.region().height();
        self.map(Region::new(Cursor::new(column, 0), Cursor::new(column, height - 1)))
    }

    // Converts local row to the global
    fn global_row(&self, local_row: Index) -> (r: Option<Index>)
        requires
            self.wf(),
        ensures
            r is Some <==> local_row < self.spec_region().spec_height(),
            r matches Some(v) ==> v == self.global_line_of(local_row as int),
    {
        proof {
            use_type_invariant(&self.region);
        }
        if local_row < self.region.height() {
            Some(local_row + self.region.left_top().line())
        } else {
            None
        }
    }

    // Converts local column to the global
    fn global_column(&self, local_column: Index) -> (r: Option<Index>)
        requires
            self.wf(),
        ensures
            r is Some <==> local_column < self.spec_region().spec_width(),
            r matches Some(v) ==> v == self.global_column_of(local_column as int),
    {
        proof {
            use_type_invariant(&self.region);
        }
        if local_column < self.region.width() {
            Some(local_column + self.region.left_top().column())
        } else {
            None
        }
    }

    fn global_cursor(&self, local_cursor: Cursor) -> (r: Option<Cursor>)
        requires
            self.wf(),
        ensures
            r is Some <==> self.holds_local(local_cursor.column() as int, local_cursor.line() as int),
            r matches Some(v) ==> at(
                v,
                self.global_column_of(local_cursor.column() as int),
                self.global_line_of(local_cursor.line() as int),
            ),
    {
        let column = match self.global_column(local_cursor.column()) {
            Some(v) => v,
            None => return None,
        };
        let line = match self.global_row(local_cursor.line()) {
            Some(v) => v,
            None => return None,
        };
        Some(Cursor::new(column, line))
    }
}

} // verus!

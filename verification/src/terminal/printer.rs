use vstd::prelude::*;

use crate::{
    backend::Backend,
    terminal::{
        cursor::{at, Cursor, Index},
        region::Region,
        size::Size,
    },
};

verus! {

/// Printer is allow you to write some data to the terminal window.
///
/// Printer can write data only to the `mapped region`. This prevents components from writing
/// to a region occupied by another component. Component gets the `printer` object with
/// specified `region` that it can not increase (but can shrink).
///
/// When using `printer`, you do not need to think about the coordinates of the terminal. All
/// components works with local coordinates (starting by **(0, 0)**). `Printer` will take care of
/// translating local coordinates into global coordinates.
///
/// You can `remap` printer to another `region`. The new `region` must be inside the current
/// mapped region. Note, that `remap` works with local coordinates too, like **all** functions of
/// printer.
pub struct Printer<'a, B: Backend + ?Sized> {
    backend: &'a mut B,
    region: Region,
    mapped_region: Region,
}

impl<'a, B: Backend + ?Sized> Printer<'a, B> {
    /// The whole terminal region the printer was made for.
    pub closed spec fn spec_region(&self) -> Region {
        self.region
    }

    /// The region the printer writes to, in terminal coordinates.
    pub closed spec fn spec_mapped_region(&self) -> Region {
        self.mapped_region
    }

    /// The mapped region has a width and a height that fit an `Index`.
    pub open spec fn wf(&self) -> bool {
        self.spec_mapped_region().fits()
    }

    /// Whether the local cell (`column`, `line`) lies in the mapped region.
    pub open spec fn holds_local(&self, column: int, line: int) -> bool {
        0 <= column < self.spec_mapped_region().spec_width()
            && 0 <= line < self.spec_mapped_region().spec_height()
    }

    /// The terminal column of local column `column`.
    pub open spec fn global_column_of(&self, column: int) -> int {
        column + self.spec_mapped_region().left_top().column()
    }

    /// The terminal line of local line `line`.
    pub open spec fn global_line_of(&self, line: int) -> int {
        line + self.spec_mapped_region().left_top().line()
    }

    /// Creates `Printer` over specified `Backend` with current terminal size.
    ///
    /// Printer do not listen `backend` events (e.g. resize), so the size of created `printer`
    /// does not change. It is user responsobility to update `printer` for correct terminal size.
    ///
    /// Gives `None` where the size of the terminal is undefined or empty.
    pub fn new(backend: &'a mut B) -> (r: Option<Self>)
        ensures
            r matches Some(p) ==> p.wf() && p.spec_region() == p.spec_mapped_region()
                && at(p.spec_region().left_top(), 0, 0),
    {
        match backend.get_size() {
            Ok(size) => Self::with_size(backend, size),
            Err(_) => None,
        }
    }

    /// A printer over `backend` for a terminal of `size`, or `None` where `size` is empty.
    pub fn with_size(backend: &'a mut B, size: Size) -> (r: Option<Self>)
        ensures
            r is Some <==> size.width() > 0 && size.height() > 0,
            r matches Some(p) ==> p.wf() && p.spec_region() == p.spec_mapped_region()
                && at(p.spec_region().left_top(), 0, 0)
                && p.spec_region().spec_width() == size.width()
                && p.spec_region().spec_height() == size.height(),
    {
        if size.width() > 0 && size.height() > 0 {
            let region = Region::with_size(Cursor::new(0, 0), size);
            Some(Self { backend, region, mapped_region: region })
        } else {
            None
        }
    }

    /// A printer on `padding` cells less on each side, where there is room for it.
    pub fn padding(&mut self, padding: Index) -> (r: Printer<'_, B>)
        requires
            old(self).wf(),
            2 * padding < old(self).spec_mapped_region().spec_width(),
            2 * padding < old(self).spec_mapped_region().spec_height(),
        ensures
            r.wf(),
            r.spec_region() == old(self).spec_region(),
            at(r.spec_mapped_region().left_top(), old(self).global_column_of(padding as int), old(self).global_line_of(padding as int)),
            at(
                r.spec_mapped_region().right_bottom(),
                old(self).spec_mapped_region().right_bottom().column() - padding,
                old(self).spec_mapped_region().right_bottom().line() - padding,
            ),
            final(self).spec_region() == old(self).spec_region(),
            final(self).spec_mapped_region() == old(self).spec_mapped_region(),
    {
        self.try_padding(padding).unwrap()
    }

    /// A printer on `padding` cells less on each side; `None` where `padding` is not below the
    /// width and the height.
    pub fn try_padding(&mut self, padding: Index) -> (r: Option<Printer<'_, B>>)
        requires
            old(self).wf(),
            padding < old(self).spec_mapped_region().spec_width() && padding < old(self).spec_mapped_region().spec_height()
                ==> 2 * padding < old(self).spec_mapped_region().spec_width() && 2 * padding < old(self).spec_mapped_region().spec_height(),
        ensures
            r is Some <==> padding < old(self).spec_mapped_region().spec_width() && padding < old(self).spec_mapped_region().spec_height(),
            r matches Some(p) ==> {
                &&& p.wf()
                &&& p.spec_region() == old(self).spec_region()
                &&& at(p.spec_mapped_region().left_top(), old(self).global_column_of(padding as int), old(self).global_line_of(padding as int))
                &&& at(
                    p.spec_mapped_region().right_bottom(),
                    old(self).spec_mapped_region().right_bottom().column() - padding,
                    old(self).spec_mapped_region().right_bottom().line() - padding,
                )
            },
            final(self).spec_region() == old(self).spec_region(),
            final(self).spec_mapped_region() == old(self).spec_mapped_region(),
    {
        let local = self.local_region();
        let new_x = match local.right_bottom().column().checked_sub(padding) {
            Some(v) => v,
            None => return None,
        };
        let new_y = match local.right_bottom().line().checked_sub(padding) {
            Some(v) => v,
            None => return None,
        };
        Some(self.map(Region::new(Cursor::new(padding, padding), Cursor::new(new_x, new_y))))
    }

    /// Try to remap current `printer` region to the inner `region`.
    ///
    /// If `region` included in the current printer's mapped region then `Some` will be returned.
    pub fn try_map(&mut self, region: Region) -> (r: Option<Printer<'_, B>>)
        requires
            old(self).wf(),
        ensures
            r is Some <==> old(self).holds_local(region.right_bottom().column() as int, region.right_bottom().line() as int),
            r matches Some(p) ==> {
                &&& p.wf()
                &&& p.spec_region() == old(self).spec_region()
                &&& at(
                    p.spec_mapped_region().left_top(),
                    old(self).global_column_of(region.left_top().column() as int),
                    old(self).global_line_of(region.left_top().line() as int),
                )
                &&& at(
                    p.spec_mapped_region().right_bottom(),
                    old(self).global_column_of(region.right_bottom().column() as int),
                    old(self).global_line_of(region.right_bottom().line() as int),
                )
            },
            final(self).spec_region() == old(self).spec_region(),
            final(self).spec_mapped_region() == old(self).spec_mapped_region(),
    {
        proof {
            use_type_invariant(&region);
            use_type_invariant(&self.mapped_region);
        }
        let global_left = match self.local_to_global(region.left_top()) {
            Some(v) => v,
            None => return None,
        };
        let global_right = match self.local_to_global(region.right_bottom()) {
            Some(v) => v,
            None => return None,
        };
        Some(Printer {
            backend: &mut *self.backend,
            region: self.region,
            mapped_region: Region::new(global_left, global_right),
        })
    }

    /// Map specified `line` to the new printer.
    pub fn map_line(&mut self, line: Index) -> (r: Printer<'_, B>)
        requires
            old(self).wf(),
            line < old(self).spec_mapped_region().spec_height(),
        ensures
            r.wf(),
            r.spec_region() == old(self).spec_region(),
            at(r.spec_mapped_region().left_top(), old(self).spec_mapped_region().left_top().column() as int, old(self).global_line_of(line as int)),
            at(r.spec_mapped_region().right_bottom(), old(self).spec_mapped_region().right_bottom().column() as int, old(self).global_line_of(line as int)),
            final(self).spec_region() == old(self).spec_region(),
            final(self).spec_mapped_region() == old(self).spec_mapped_region(),
    {
        proof {
            use_type_invariant(&self.mapped_region);
        }
        let width = self.width();
        self.map(Region::new(Cursor::new(0, line), Cursor::new(width - 1, line)))
    }

    /// Map first line to the new printer. Never panics because first line always exists.
    pub fn map_first_line(&mut self) -> (r: Printer<'_, B>)
        requires
            old(self).wf(),
        ensures
            r.wf(),
            r.spec_region() == old(self).spec_region(),
            at(r.spec_mapped_region().left_top(), old(self).spec_mapped_region().left_top().column() as int, old(self).spec_mapped_region().left_top().line() as int),
            at(r.spec_mapped_region().right_bottom(), old(self).spec_mapped_region().right_bottom().column() as int, old(self).spec_mapped_region().left_top().line() as int),
            final(self).spec_region() == old(self).spec_region(),
            final(self).spec_mapped_region() == old(self).spec_mapped_region(),
    {
        proof {
            use_type_invariant(&self.mapped_region);
        }
        self.map_line(0)
    }

    /// Map last line to the new printer. Never panics because last line always exists.
    pub fn map_last_line(&mut self) -> (r: Printer<'_, B>)
        requires
            old(self).wf(),
        ensures
            r.wf(),
            r.spec_region() == old(self).spec_region(),
            at(r.spec_mapped_region().left_top(), old(self).spec_mapped_region().left_top().column() as int, old(self).spec_mapped_region().right_bottom().line() as int),
            at(r.spec_mapped_region().right_bottom(), old(self).spec_mapped_region().right_bottom().column() as int, old(self).spec_mapped_region().right_bottom().line() as int),
            final(self).spec_region() == old(self).spec_region(),
            final(self).spec_mapped_region() == old(self).spec_mapped_region(),
    {
        proof {
            use_type_invariant(&self.mapped_region);
        }
        let height = self.height();
        self.map_line(height - 1)
    }

    /// Map specified `column` to the new printer.
    pub fn map_column(&mut self, column: Index) -> (r: Printer<'_, B>)
        requires
            old(self).wf(),
            column < old(self).spec_mapped_region().spec_width(),
        ensures
            r.wf(),
            r.spec_region() == old(self).spec_region(),
            at(r.spec_mapped_region().left_top(), old(self).global_column_of(column as int), old(self).spec_mapped_region().left_top().line() as int),
            at(r.spec_mapped_region().right_bottom(), old(self).global_column_of(column as int), old(self).spec_mapped_region().right_bottom().line() as int),
            final(self).spec_region() == old(self).spec_region(),
            final(self).spec_mapped_region() == old(self).spec_mapped_region(),
    {
        proof {
            use_type_invariant(&self.mapped_region);
        }
        let height = self.height();
        self.map(Region::new(Cursor::new(column, 0), Cursor::new(column, height - 1)))
    }

    /// Map first column to the new printer. Never panics because first column always exists.
    pub fn map_first_column(&mut self) -> (r: Printer<'_, B>)
        requires
            old(self).wf(),
        ensures
            r.wf(),
            r.spec_region() == old(self).spec_region(),
            at(r.spec_mapped_region().left_top(), old(self).spec_mapped_region().left_top().column() as int, old(self).spec_mapped_region().left_top().line() as int),
            at(r.spec_mapped_region().right_bottom(), old(self).spec_mapped_region().left_top().column() as int, old(self).spec_mapped_region().right_bottom().line() as int),
            final(self).spec_region() == old(self).spec_region(),
            final(self).spec_mapped_region() == old(self).spec_mapped_region(),
    {
        proof {
            use_type_invariant(&self.mapped_region);
        }
        self.map_column(0)
    }

    /// Map last column to the new printer. Never panics because last column always exists.
    pub fn map_last_column(&mut self) -> (r: Printer<'_, B>)
        requires
            old(self).wf(),
        ensures
            r.wf(),
            r.spec_region() == old(self).spec_region(),
            at(r.spec_mapped_region().left_top(), old(self).spec_mapped_region().right_bottom().column() as int, old(self).spec_mapped_region().left_top().line() as int),
            at(r.spec_mapped_region().right_bottom(), old(self).spec_mapped_region().right_bottom().column() as int, old(self).spec_mapped_region().right_bottom().line() as int),
            final(self).spec_region() == old(self).spec_region(),
            final(self).spec_mapped_region() == old(self).spec_mapped_region(),
    {
        proof {
            use_type_invariant(&self.mapped_region);
        }
        let width = self.width();
        self.map_column(width - 1)
    }

    /// Map current `printer` region to the inner `region`.
    ///
    /// Check not panic version [`try_map`](Self::try_map)
    pub fn map(&mut self, region: Region) -> (r: Printer<'_, B>)
        requires
            old(self).wf(),
            old(self).holds_local(region.right_bottom().column() as int, region.right_bottom().line() as int),
        ensures
            r.wf(),
            r.spec_region() == old(self).spec_region(),
            at(
                r.spec_mapped_region().left_top(),
                old(self).global_column_of(region.left_top().column() as int),
                old(self).global_line_of(region.left_top().line() as int),
            ),
            at(
                r.spec_mapped_region().right_bottom(),
                old(self).global_column_of(region.right_bottom().column() as int),
                old(self).global_line_of(region.right_bottom().line() as int),
            ),
            final(self).spec_region() == old(self).spec_region(),
            final(self).spec_mapped_region() == old(self).spec_mapped_region(),
    {
        self.try_map(region).unwrap()
    }

    /// Height of current `mapped region`.
    pub fn height(&self) -> (r: Index)
        requires
            self.wf(),
        ensures
            r == self.spec_mapped_region().spec_height(),
    {
        self.mapped_region.height()
    }

    /// Width of current `mapped region`.
    pub fn width(&self) -> (r: Index)
        requires
            self.wf(),
        ensures
            r == self.spec_mapped_region().spec_width(),
    {
        self.mapped_region.width()
    }

    /// Local region of this printer. Always starts from **(0, 0)**.
    pub fn local_region(&self) -> (r: Region)
        requires
            self.wf(),
        ensures
            at(r.left_top(), 0, 0),
            at(r.right_bottom(), self.spec_mapped_region().spec_width() - 1, self.spec_mapped_region().spec_height() - 1),
    {
        proof {
            use_type_invariant(&self.mapped_region);
        }
        Region::with_size(Cursor::new(0, 0), Size::new(self.width(), self.height()))
    }

    /// Return current mapped region to the region. This region contains
    /// global coordinates of terminal. Possibly you look for [`local_region`](Self::local_region)
    pub fn mapped_region(&self) -> (r: Region)
        ensures
            r == self.spec_mapped_region(),
    {
        self.mapped_region
    }

    // Converts local row to the global.
    fn local_to_global_row(&self, local_row: Index) -> (r: Option<Index>)
        requires
            self.wf(),
        ensures
            r is Some <==> local_row < self.spec_mapped_region().spec_height(),
            r matches Some(v) ==> v == self.global_line_of(local_row as int),
    {
        proof {
            use_type_invariant(&self.mapped_region);
        }
        if local_row < self.mapped_region.height() {
            Some(local_row + self.mapped_region.left_top().line())
        } else {
            None
        }
    }

    // Converts local column to the global.
    fn local_to_global_column(&self, local_column: Index) -> (r: Option<Index>)
        requires
            self.wf(),
        ensures
            r is Some <==> local_column < self.spec_mapped_region().spec_width(),
            r matches Some(v) ==> v == self.global_column_of(local_column as int),
    {
        proof {
            use_type_invariant(&self.mapped_region);
        }
        if local_column < self.mapped_region.width() {
            Some(local_column + self.mapped_region.left_top().column())
        } else {
            None
        }
    }

    fn local_to_global(&self, local_cursor: Cursor) -> (r: Option<Cursor>)
        requires
            self.wf(),
        ensures
            r is Some <==> self.holds_local(local_cursor.column() as int, local_cursor.line() as int),
            r matches Some(v) ==> at(
                v,
                self.global_column_of(local_cursor.column() as int),
                self.global_line_of(local_cursor.line() as int),
            ),
    {
        let column = match self.local_to_global_column(local_cursor.column()) {
            Some(v) => v,
            None => return None,
        };
        let line = match self.local_to_global_row(local_cursor.line()) {
            Some(v) => v,
            None => return None,
        };
        Some(Cursor::new(column, line))
    }
}

/// Mapping a printer on `region` and then writing at a local cell of the new printer reaches
/// the terminal cell that the old printer reaches at that cell shifted by the region's
/// left-top corner: printers translate local coordinates by composing their offsets.
pub proof fn law_map_translates<B: Backend + ?Sized>(
    outer: Printer<'_, B>,
    inner: Printer<'_, B>,
    region: Region,
    column: int,
    line: int,
)
    requires
        at(
            inner.spec_mapped_region().left_top(),
            outer.global_column_of(region.left_top().column() as int),
            outer.global_line_of(region.left_top().line() as int),
        ),
    ensures
        inner.global_column_of(column) == outer.global_column_of(column + region.left_top().column()),
        inner.global_line_of(line) == outer.global_line_of(line + region.left_top().line()),
{
}

} // verus!

use vstd::prelude::*;

use super::{region_has, MappedBuffer};
use crate::terminal::{
    character::Character,
    cursor::{Cursor, Index},
};

verus! {

broadcast use Character::lemma_spec_new, Character::lemma_character_ext;

/// Mapped buffer with state
#[derive(Debug)]
pub struct MappedStateBuffer<'a> {
    /// The mapped buffer written to.
    pub buffer: MappedBuffer<'a>,
    /// The writer's state.
    pub state: usize,
}

impl<'a> MappedStateBuffer<'a> {
    pub fn new(buffer: MappedBuffer<'a>, state: usize) -> (r: Self)
        ensures
            r.buffer == buffer,
            r.state == state,
    {
        Self { buffer, state }
    }

    /// The mapped buffer, without the state.
    pub fn without_state(self) -> (r: MappedBuffer<'a>)
        ensures
            r == self.buffer,
    {
        self.buffer
    }

    /// Writes the characters of `text` on the first line of the mapped region, one per column
    /// from the first one.
    pub fn write_text(self, text: &str) -> (r: Self)
        requires
            self.buffer.inside(),
            text@.len() <= self.buffer.mapped_region.spec_width(),
        ensures
            r.state == self.state,
            r.buffer.mapped_region == self.buffer.mapped_region,
            *final(r.buffer.buffer) == *final(self.buffer.buffer),
            r.buffer.buffer.wf(),
            r.buffer.buffer.spec_region() == old(self.buffer.buffer).spec_region(),
            forall|col: int, ln: int|
                #![trigger r.buffer.buffer.cell(col, ln)]
                r.buffer.buffer.in_bounds(col, ln) ==> r.buffer.buffer.cell(col, ln) == (
                    if ln == self.buffer.mapped_region.left_top().line() && region_has(self.buffer.mapped_region, col, ln)
                        && col - self.buffer.mapped_region.left_top().column() < text@.len() {
                        Character::spec_new(text@[col - self.buffer.mapped_region.left_top().column()])
                    } else {
                        old(self.buffer.buffer).cell(col, ln)
                    }),
    {
        let mut this = self;
        let ghost start = *this.buffer.buffer;
        let ghost last = *final(this.buffer.buffer);
        let ghost mapped = this.buffer.mapped_region;
        proof {
            use_type_invariant(&this.buffer.mapped_region);
        }
        let n = text.unicode_len();
        let mut cursor = Cursor::default();
        let mut k: usize = 0;
        while k < n
            invariant
                n == text@.len(),
                k <= n,
                n <= mapped.spec_width(),
                0 < mapped.spec_height(),
                this.state == self.state,
                cursor.column() == k,
                cursor.line() == 0,
                this.buffer.inside(),
                this.buffer.mapped_region == mapped,
                *final(this.buffer.buffer) == last,
                this.buffer.buffer.spec_region() == start.spec_region(),
                forall|col: int, ln: int|
                    #![trigger this.buffer.buffer.cell(col, ln)]
                    this.buffer.buffer.in_bounds(col, ln) ==> this.buffer.buffer.cell(col, ln) == (
                        if ln == mapped.left_top().line() && region_has(mapped, col, ln)
                            && col - mapped.left_top().column() < k {
                            Character::spec_new(text@[col - mapped.left_top().column()])
                        } else {
                            start.cell(col, ln)
                        }),
            decreases n - k,
        {
            let ghost before = *this.buffer.buffer;
            let character = Character::new(text.get_char(k));
            assert(character.symbol() == Character::spec_new(text@[k as int]).symbol());
            this.buffer.write_character(character, cursor);
            let ghost target = (mapped.left_top().column() + k) as int;
            let ghost line = mapped.left_top().line() as int;
            assert forall|col: int, ln: int| #![trigger this.buffer.buffer.cell(col, ln)]
                this.buffer.buffer.in_bounds(col, ln) implies this.buffer.buffer.cell(col, ln) == (
                    if ln == mapped.left_top().line() && region_has(mapped, col, ln)
                        && col - mapped.left_top().column() < k + 1 {
                        Character::spec_new(text@[col - mapped.left_top().column()])
                    } else {
                        start.cell(col, ln)
                    }) by {
                super::lemma_cell_bound(before.columns(), before.lines(), col, ln);
                super::lemma_cell_bound(before.columns(), before.lines(), target, line);
                if col != target || ln != line {
                    super::lemma_cells_apart(before.columns(), col, ln, target, line);
                    assert(this.buffer.buffer.cell(col, ln) == before.cell(col, ln));
                }
            }
            cursor = cursor.next_column();
            k += 1;
        }
        this
    }
}

} // verus!

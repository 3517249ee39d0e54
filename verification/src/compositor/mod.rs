//! What the compositor decides before it draws a frame.

use vstd::prelude::*;

use crate::terminal::size::Size;

verus! {

/// What to do for a frame.
#[derive(Debug, Clone, Copy, PartialEq, Eq, Structural)]
pub enum DrawPlan {
    /// The terminal has a new size: resize the buffer to it and draw everything.
    ResizeAndDraw(Size),
    /// Nothing changed since the last frame: draw nothing.
    Skip,
    /// Some state changed: draw everything.
    Draw,
}

/// The plan for a frame when the buffer has `buffer_size`, the terminal has `current_size`
/// and `nothing_changed` tells whether no watched state changed since the last frame.
pub fn plan_draw(buffer_size: Size, current_size: Size, nothing_changed: bool) -> (r: DrawPlan)
    ensures
        r == (if buffer_size != current_size {
            DrawPlan::ResizeAndDraw(current_size)
        } else if nothing_changed {
            DrawPlan::Skip
        } else {
            DrawPlan::Draw
        }),
{
    if buffer_size != current_size {
        DrawPlan::ResizeAndDraw(current_size)
    } else if nothing_changed {
        DrawPlan::Skip
    } else {
        DrawPlan::Draw
    }
}

} // verus!

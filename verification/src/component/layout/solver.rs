use vstd::prelude::*;

verus! {

/// Which coordinate of a child region a solver variable stands for.
#[derive(Debug, Clone, Copy, PartialEq, Eq, Structural)]
pub enum ElementPart {
    LeftX,
    LeftY,
    RightX,
    RightY,
}

} // verus!

//! Layout of children: their regions as the solver sets them.

pub mod children;
pub mod solver;

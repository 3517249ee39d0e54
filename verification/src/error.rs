//! Errors of the library.

use vstd::prelude::*;

verus! {

/// An I/O error of the terminal, carried through as it is.
#[verifier::external_type_specification]
#[verifier::external_body]
pub struct ExIoError(std::io::Error);

/// Everything that can go wrong in the library.
#[derive(Debug)]
pub enum Error {
    /// IO error
    IoError(std::io::Error),
    /// Bad layout equation
    LayoutEquation(LayoutEquationProblem),
    /// Buffer error, with what went wrong
    Buffer(String),
    /// Application is not initialized
    AppNotInit,
}

/// What is wrong with a set of layout equations.
#[derive(Debug, Clone, Copy)]
pub enum LayoutEquationProblem {
    /// Duplicate constraint
    Duplicate,
    /// Unsatisfiable constraint
    Unsatisfiable,
    /// Internal problem, with the solver's words
    Internal(&'static str),
}

impl From<std::io::Error> for Error {
    fn from(v: std::io::Error) -> (r: Self)
        ensures
            r == Error::IoError(v),
    {
        Error::IoError(v)
    }
}

impl vstd::std_specs::convert::FromSpecImpl<std::io::Error> for Error {
    open spec fn obeys_from_spec() -> bool {
        true
    }

    open spec fn from_spec(v: std::io::Error) -> Self {
        Error::IoError(v)
    }
}

impl From<LayoutEquationProblem> for Error {
    fn from(v: LayoutEquationProblem) -> (r: Self)
        ensures
            r == Error::LayoutEquation(v),
    {
        Error::LayoutEquation(v)
    }
}

impl vstd::std_specs::convert::FromSpecImpl<LayoutEquationProblem> for Error {
    open spec fn obeys_from_spec() -> bool {
        true
    }

    open spec fn from_spec(v: LayoutEquationProblem) -> Self {
        Error::LayoutEquation(v)
    }
}

} // verus!

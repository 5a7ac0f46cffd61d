use vstd::prelude::*;

verus! {

/// Result of an operation that can fail with an [`Error`].
pub type Result<T> = std::result::Result<T, Error>;

/// The recoverable failures of the iterative solvers.
#[derive(Debug)]
pub enum Error {
    /// The iteration budget ran out after the given number of steps.
    TooManyIterations(usize),
    /// No eigenpair was found.
    NoEigenvalues,
}

} // verus!

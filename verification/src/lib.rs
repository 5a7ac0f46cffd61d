//! A dense linear-algebra kernel with dimensions fixed in the type.
//!
//! Scalars are IEEE-754 binary64 numbers carried by their encoding ([`R`]), so
//! that everything the container does with them — moving, comparing, zeroing,
//! detecting NaN, flipping a sign — is stated and proved on the bit level.
//! [`na`] holds the control of the eigenvalue iterations: which of them may
//! fail, and after how many steps.

pub mod interpolation;
pub mod matrix;
pub mod na;
pub mod prelude;
pub mod scalar;

pub use matrix::Mat;
pub use prelude::{Error, Result};
pub use scalar::R;

use vstd::prelude::*;

verus! {

/// Sets up the 5×5 identity as a sample system and tells whether it is fit for
/// backward substitution, that is, upper-triangular and free of NaN. It is.
pub fn demo() -> (fit: bool)
    ensures
        fit,
{
    let a = Mat::<5, 5>::eye();
    let mut b = Mat::<5, 1>::zero();
    b.canonical_basis(1);
    a.is_upper_triangular() && !a.contains_nan() && !b.contains_nan()
}

} // verus!

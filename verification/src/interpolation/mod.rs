//! Sample data for polynomial interpolation.

use crate::matrix::{colv, Mat};
use crate::scalar::R;
use vstd::prelude::*;

verus! {

/// Builds the nodes `x = [-2, 0, 1, 2]` and the values `y = [-5, 3, 1, 11]` of
/// the cubic `2x³ − 4x + 3`, and tells whether the nodes are fit for
/// interpolation, that is, pairwise distinct. They are.
pub fn demo() -> (fit: bool)
    ensures
        fit,
{
    let xs: Mat<4, 1> = colv(
        [
            R::from_bits(0xc000_0000_0000_0000),
            R::from_bits(0),
            R::from_bits(0x3ff0_0000_0000_0000),
            R::from_bits(0x4000_0000_0000_0000),
        ],
    );
    let ys: Mat<4, 1> = colv(
        [
            R::from_bits(0xc014_0000_0000_0000),
            R::from_bits(0x4008_0000_0000_0000),
            R::from_bits(0x3ff0_0000_0000_0000),
            R::from_bits(0x4026_0000_0000_0000),
        ],
    );
    let fit = xs.has_unique_elements() && !ys.contains_nan();
    assert(forall|r: int| 1 <= r <= 4 ==> !(#[trigger] ys.entry(r, 1)).is_nan_spec());
    fit
}

} // verus!

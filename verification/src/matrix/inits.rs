use super::Mat;
use crate::scalar::R;
use vstd::prelude::*;

verus! {

/// Column vector with the given components, first row first.
pub fn colv<const S: usize>(val: [R; S]) -> (v: Mat<S, 1>)
    ensures
        forall|r: int| 1 <= r <= S ==> #[trigger] v.entry(r, 1) == val@[r - 1],
{
    let cell = |r: usize, c: usize| -> (x: R)
        requires
            Mat::<S, 1>::in_range(r as int, c as int),
        ensures
            x == val@[r - 1],
    {
        val[r - 1]
    };
    Mat::<S, 1>::from_fn(cell)
}

} // verus!

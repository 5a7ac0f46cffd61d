use super::Mat;
use crate::scalar::R;
use vstd::prelude::*;

verus! {

impl<const M: usize, const N: usize> Mat<M, N> {
    /// The negated matrix: every cell with its sign flipped.
    pub fn neg(&self) -> (m: Self)
        ensures
            m.is_negation_of(*self),
    {
        let flip = |x: R| -> (y: R)
            ensures
                y == x.neg_spec(),
        {
            x.neg()
        };
        self.on_each(flip)
    }
}

} // verus!

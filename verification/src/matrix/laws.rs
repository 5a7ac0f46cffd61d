use super::Mat;
use crate::scalar::lemma_neg_involution;
use vstd::prelude::*;

verus! {

impl<const M: usize, const N: usize> Mat<M, N> {
    /// Transposing twice gives the matrix back.
    pub proof fn lemma_transpose_twice(self, t: Mat<N, M>, u: Self)
        requires
            t.is_transpose_of(self),
            u.is_transpose_of(t),
        ensures
            u@ == self@,
    {
        assert forall|r: int, c: int| Self::in_range(r, c) implies #[trigger] u.entry(r, c)
            == self.entry(r, c) by {
            assert(Mat::<N, M>::in_range(c, r));
            assert(t.entry(c, r) == self.entry(r, c));
        }
        u.lemma_view_ext(self);
    }

    /// A matrix has one transpose: whatever way it was computed, allocating or
    /// in place, the result is the same.
    pub proof fn lemma_transpose_is_unique(self, t: Mat<N, M>, u: Mat<N, M>)
        requires
            t.is_transpose_of(self),
            u.is_transpose_of(self),
        ensures
            t@ == u@,
    {
        t.lemma_view_ext(u);
    }

    /// The upper part of a matrix is upper-triangular, and taking the upper
    /// part of it again changes nothing.
    pub proof fn lemma_upper_part(self, u: Self, v: Self)
        requires
            u.is_upper_part_of(self),
            v.is_upper_part_of(u),
        ensures
            u.is_upper_triangular_spec(),
            v@ == u@,
    {
        v.lemma_view_ext(u);
    }

    /// Negating twice gives the matrix back, bit for bit.
    pub proof fn lemma_negate_twice(self, m: Self, p: Self)
        requires
            m.is_negation_of(self),
            p.is_negation_of(m),
        ensures
            p@ == self@,
    {
        assert forall|r: int, c: int| Self::in_range(r, c) implies #[trigger] p.entry(r, c)
            == self.entry(r, c) by {
            lemma_neg_involution(self.entry(r, c));
        }
        p.lemma_view_ext(self);
    }

    /// Negation neither creates nor removes NaN.
    pub proof fn lemma_negation_keeps_nan(self, m: Self)
        requires
            m.is_negation_of(self),
        ensures
            m.contains_nan_spec() == self.contains_nan_spec(),
    {
        if self.contains_nan_spec() {
            let (r, c) = choose|r: int, c: int|
                Self::in_range(r, c) && (#[trigger] self.entry(r, c)).is_nan_spec();
            assert(m.entry(r, c).is_nan_spec());
        }
        if m.contains_nan_spec() {
            let (r, c) = choose|r: int, c: int|
                Self::in_range(r, c) && (#[trigger] m.entry(r, c)).is_nan_spec();
            assert(self.entry(r, c).is_nan_spec());
        }
    }
}

} // verus!

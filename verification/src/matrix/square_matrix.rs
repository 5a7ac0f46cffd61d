use super::Mat;
use crate::scalar::R;
use vstd::prelude::*;

verus! {

impl<const N: usize> Mat<N, N> {
    /// The identity matrix: ones on the diagonal, zeros elsewhere.
    pub fn eye() -> (m: Self)
        requires
            N * N <= usize::MAX,
        ensures
            forall|r: int, c: int|
                Self::in_range(r, c) ==> (#[trigger] m.entry(r, c)).bits == if r == c {
                    crate::scalar::ONE
                } else {
                    0
                },
    {
        let cell = |r: usize, c: usize| -> (x: R)
            ensures
                x.bits == if r == c {
                    crate::scalar::ONE
                } else {
                    0
                },
        {
            R::from_bool(r == c)
        };
        Self::from_fn(cell)
    }

    /// Transposes in place, by swapping each pair of cells that mirror each
    /// other across the diagonal.
    pub fn transpose_inplace(&mut self)
        ensures
            final(self).is_transpose_of(*old(self)),
    {
        let mut i: usize = 0;
        while i < N
            invariant
                i <= N,
                forall|r: int, c: int|
                    Self::in_range(r, c) ==> #[trigger] self.entry(r, c) == if r <= i && c <= i {
                        old(self).entry(c, r)
                    } else {
                        old(self).entry(r, c)
                    },
            decreases N - i,
        {
            let mut j: usize = 0;
            while j < i
                invariant
                    i < N,
                    j <= i,
                    forall|r: int, c: int|
                        Self::in_range(r, c) ==> #[trigger] self.entry(r, c) == if (r <= i && c
                            <= i) || (r == i + 1 && c <= j) || (c == i + 1 && r <= j) {
                            old(self).entry(c, r)
                        } else {
                            old(self).entry(r, c)
                        },
                decreases i - j,
            {
                let a = self.index(i + 1, j + 1);
                let b = self.index(j + 1, i + 1);
                self.set(i + 1, j + 1, b);
                self.set(j + 1, i + 1, a);
                j = j + 1;
            }
            i = i + 1;
        }
    }
}

} // verus!

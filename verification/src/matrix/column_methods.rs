use super::Mat;
use crate::scalar::R;
use vstd::prelude::*;

verus! {

impl<const M: usize> Mat<M, 1> {
    /// No two rows of the column vector hold the same number.
    pub open spec fn has_unique_elements_spec(self) -> bool {
        forall|i: int, j: int|
            1 <= j < i <= M ==> !(#[trigger] self.entry(i, 1)).same_number(
                #[trigger] self.entry(j, 1),
            )
    }

    /// The `i`-th component of the column vector.
    pub fn at(&self, i: usize) -> (x: R)
        requires
            1 <= i <= M,
        ensures
            x == self.entry(i as int, 1),
    {
        self.index(i, 1)
    }

    /// Stores `x` as the `i`-th component; the others keep their scalars.
    pub fn set_at(&mut self, i: usize, x: R)
        requires
            1 <= i <= M,
        ensures
            forall|r: int|
                1 <= r <= M ==> #[trigger] final(self).entry(r, 1) == if r == i {
                    x
                } else {
                    old(self).entry(r, 1)
                },
    {
        self.set(i, 1, x);
    }

    /// Turns the column vector into the `k`-th canonical basis vector: one in
    /// row `k` and zero elsewhere (all zero when there is no row `k`).
    pub fn canonical_basis(&mut self, k: usize)
        ensures
            forall|r: int|
                1 <= r <= M ==> (#[trigger] final(self).entry(r, 1)).bits == if r == k {
                    crate::scalar::ONE
                } else {
                    0
                },
    {
        let mut i: usize = 0;
        while i < M
            invariant
                i <= M,
                forall|r: int|
                    1 <= r <= i ==> (#[trigger] self.entry(r, 1)).bits == if r == k {
                        crate::scalar::ONE
                    } else {
                        0
                    },
            decreases M - i,
        {
            self.set(i + 1, 1, R::from_bool(i + 1 == k));
            i = i + 1;
        }
    }

    /// The components as a plain vector, first row first.
    pub fn as_vec(&self) -> (v: Vec<R>)
        ensures
            v@.len() == M,
            forall|r: int| 1 <= r <= M ==> #[trigger] v@[r - 1] == self.entry(r, 1),
    {
        self.col_raw(1)
    }

    /// Whether no two components are the same number. NaN differs from
    /// everything, itself included; the two zeros count as one number.
    pub fn has_unique_elements(&self) -> (b: bool)
        ensures
            b == self.has_unique_elements_spec(),
    {
        let mut i: usize = 0;
        while i < M
            invariant
                i <= M,
                forall|p: int, q: int|
                    1 <= q < p <= i ==> !(#[trigger] self.entry(p, 1)).same_number(
                        #[trigger] self.entry(q, 1),
                    ),
            decreases M - i,
        {
            let mut j: usize = 0;
            while j < i
                invariant
                    i < M,
                    j <= i,
                    forall|p: int, q: int|
                        1 <= q < p <= i + 1 && (p <= i || q <= j) ==> !(#[trigger] self.entry(
                            p,
                            1,
                        )).same_number(#[trigger] self.entry(q, 1)),
                decreases i - j,
            {
                if self.at(i + 1) == self.at(j + 1) {
                    return false;
                }
                j = j + 1;
            }
            i = i + 1;
        }
        true
    }
}

} // verus!

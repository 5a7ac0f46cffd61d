mod algebra;
mod column_methods;
mod inits;
mod laws;
mod scalar_traits;
mod square_matrix;

pub use inits::colv;

use crate::scalar::R;
use vstd::prelude::*;

verus! {

/// Dense `M`×`N` matrix of real scalars, stored column by column and addressed
/// by 1-based `(row, column)` pairs, as in mathematical notation.
///
/// The dimensions are part of the type and never change.
pub struct Mat<const M: usize, const N: usize> {
    data: Vec<R>,
}

impl<const M: usize, const N: usize> View for Mat<M, N> {
    type V = Seq<Seq<R>>;

    /// The matrix as a sequence of `M` rows of `N` scalars each.
    open spec fn view(&self) -> Seq<Seq<R>> {
        Seq::new(M as nat, |i: int| Seq::new(N as nat, |j: int| self.entry(i + 1, j + 1)))
    }
}

impl<const M: usize, const N: usize> Mat<M, N> {
    /// Whether `(r, c)` addresses a cell of an `M`×`N` matrix.
    pub open spec fn in_range(r: int, c: int) -> bool {
        1 <= r <= M && 1 <= c <= N
    }

    /// Position of cell `(r, c)` in the column-major store.
    pub open spec fn offset(r: int, c: int) -> int {
        (c - 1) * M + (r - 1)
    }

    /// The store holds exactly one scalar per cell.
    #[verifier::type_invariant]
    pub closed spec fn wf(self) -> bool {
        self.data@.len() == M * N
    }

    /// The scalar in row `r`, column `c`.
    pub closed spec fn entry(self, r: int, c: int) -> R {
        self.data@[Self::offset(r, c)]
    }

    /// Every cell has a position inside the store.
    pub proof fn lemma_offset_in_store(r: int, c: int)
        requires
            Self::in_range(r, c),
        ensures
            0 <= Self::offset(r, c) < M * N,
    {
        assert((c - 1) * M + M <= N * M) by (nonlinear_arith)
            requires
                1 <= c <= N,
                M >= 0,
        ;
        assert((c - 1) * M >= 0) by (nonlinear_arith)
            requires
                1 <= c,
                M >= 0,
        ;
    }

    /// Distinct cells have distinct positions.
    pub proof fn lemma_offset_injective(r1: int, c1: int, r2: int, c2: int)
        requires
            Self::in_range(r1, c1),
            Self::in_range(r2, c2),
            Self::offset(r1, c1) == Self::offset(r2, c2),
        ensures
            r1 == r2,
            c1 == c2,
    {
        if c1 < c2 {
            assert((c1 - 1) * M + M <= (c2 - 1) * M) by (nonlinear_arith)
                requires
                    c1 < c2,
                    M >= 0,
            ;
        }
        if c2 < c1 {
            assert((c2 - 1) * M + M <= (c1 - 1) * M) by (nonlinear_arith)
                requires
                    c2 < c1,
                    M >= 0,
            ;
        }
    }

    /// Two matrices with the same scalar in every cell have the same view.
    pub proof fn lemma_view_ext(self, other: Self)
        requires
            forall|r: int, c: int|
                Self::in_range(r, c) ==> #[trigger] self.entry(r, c) == other.entry(r, c),
        ensures
            self@ == other@,
    {
        assert forall|i: int| 0 <= i < M implies #[trigger] self@[i] == other@[i] by {
            assert forall|j: int| 0 <= j < N implies #[trigger] self@[i][j] == other@[i][j] by {
                assert(Self::in_range(i + 1, j + 1));
            }
            assert(self@[i] =~= other@[i]);
        }
        assert(self@ =~= other@);
    }

    fn offset_of(r: usize, c: usize) -> (k: usize)
        requires
            Self::in_range(r as int, c as int),
            M * N <= usize::MAX,
        ensures
            k == Self::offset(r as int, c as int),
            k < M * N,
    {
        proof {
            Self::lemma_offset_in_store(r as int, c as int);
            assert(0 <= (c - 1) * M <= Self::offset(r as int, c as int));
        }
        (c - 1) * M + (r - 1)
    }

    /// Matrix of zeros.
    pub fn zero() -> (m: Self)
        requires
            M * N <= usize::MAX,
        ensures
            forall|r: int, c: int| Self::in_range(r, c) ==> (#[trigger] m.entry(r, c)).bits == 0,
    {
        let total: usize = M * N;
        let mut data: Vec<R> = Vec::new();
        let mut k: usize = 0;
        while k < total
            invariant
                k <= total,
                data@.len() == k,
                forall|i: int| 0 <= i < k ==> (#[trigger] data@[i]).bits == 0,
            decreases total - k,
        {
            data.push(R::zero());
            k = k + 1;
        }
        let m = Mat { data };
        assert forall|r: int, c: int| Self::in_range(r, c) implies (#[trigger] m.entry(
            r,
            c,
        )).bits == 0 by {
            Self::lemma_offset_in_store(r, c);
        }
        m
    }

    /// New matrix (of zeros).
    pub fn new() -> (m: Self)
        requires
            M * N <= usize::MAX,
        ensures
            forall|r: int, c: int| Self::in_range(r, c) ==> (#[trigger] m.entry(r, c)).bits == 0,
    {
        Self::zero()
    }

    /// Matrix whose cell `(r, c)` holds what `f` returns for `(r, c)`. The cells
    /// are filled column by column, each column from its first row down.
    pub fn from_fn<F: Fn(usize, usize) -> R>(f: F) -> (m: Self)
        requires
            M * N <= usize::MAX,
            forall|r: usize, c: usize|
                Self::in_range(r as int, c as int) ==> #[trigger] call_requires(f, (r, c)),
        ensures
            forall|r: usize, c: usize|
                Self::in_range(r as int, c as int) ==> call_ensures(
                    f,
                    (r, c),
                    #[trigger] m.entry(r as int, c as int),
                ),
    {
        let mut data: Vec<R> = Vec::new();
        let mut j: usize = 0;
        while j < N
            invariant
                j <= N,
                M * N <= usize::MAX,
                data@.len() == j * M,
                forall|r: usize, c: usize|
                    Self::in_range(r as int, c as int) ==> #[trigger] call_requires(f, (r, c)),
                forall|r: usize, c: usize|
                    Self::in_range(r as int, c as int) && c <= j ==> call_ensures(
                        f,
                        (r, c),
                        #[trigger] data@[Self::offset(r as int, c as int)],
                    ),
            decreases N - j,
        {
            let mut i: usize = 0;
            while i < M
                invariant
                    j < N,
                    i <= M,
                    M * N <= usize::MAX,
                    data@.len() == j * M + i,
                    forall|r: usize, c: usize|
                        Self::in_range(r as int, c as int) ==> #[trigger] call_requires(f, (r, c)),
                    forall|r: usize, c: usize|
                        Self::in_range(r as int, c as int) && (c <= j || (c == j + 1 && r <= i))
                            ==> call_ensures(
                            f,
                            (r, c),
                            #[trigger] data@[Self::offset(r as int, c as int)],
                        ),
                decreases M - i,
            {
                let ghost before = data@;
                let x = f(i + 1, j + 1);
                data.push(x);
                assert forall|r: usize, c: usize|
                    Self::in_range(r as int, c as int) && (c <= j || (c == j + 1 && r <= i
                        + 1)) implies call_ensures(
                    f,
                    (r, c),
                    #[trigger] data@[Self::offset(r as int, c as int)],
                ) by {
                    if c == j + 1 && r == i + 1 {
                        assert(Self::offset(r as int, c as int) == before.len());
                    } else {
                        Self::lemma_offset_in_store(r as int, c as int);
                        if c <= j {
                            assert((c - 1) * M + M <= j * M) by (nonlinear_arith)
                                requires
                                    c <= j,
                                    M >= 0,
                            ;
                        }
                        assert(Self::offset(r as int, c as int) < before.len());
                        assert(data@[Self::offset(r as int, c as int)]
                            == before[Self::offset(r as int, c as int)]);
                    }
                }
                i = i + 1;
            }
            assert((j + 1) * M == j * M + M) by (nonlinear_arith);
            j = j + 1;
        }
        assert(N * M == M * N) by (nonlinear_arith);
        Mat { data }
    }

    /// The scalar in row `r`, column `c`.
    pub fn index(&self, r: usize, c: usize) -> (x: R)
        requires
            Self::in_range(r as int, c as int),
        ensures
            x == self.entry(r as int, c as int),
    {
        proof {
            use_type_invariant(self);
            assert(self.data.len() <= usize::MAX);
        }
        let k = Self::offset_of(r, c);
        self.data[k]
    }

    /// Stores `x` in row `r`, column `c`; every other cell keeps its scalar.
    pub fn set(&mut self, r: usize, c: usize, x: R)
        requires
            Self::in_range(r as int, c as int),
        ensures
            final(self).entry(r as int, c as int) == x,
            forall|r2: int, c2: int|
                Self::in_range(r2, c2) && !(r2 == r && c2 == c) ==> #[trigger] final(self).entry(
                    r2,
                    c2,
                ) == old(self).entry(r2, c2),
    {
        proof {
            use_type_invariant(&*self);
            assert(self.data.len() <= usize::MAX);
        }
        let k = Self::offset_of(r, c);
        self.data[k] = x;
        assert forall|r2: int, c2: int|
            Self::in_range(r2, c2) && !(r2 == r && c2 == c) implies #[trigger] self.entry(r2, c2)
            == old(self).entry(r2, c2) by {
            Self::lemma_offset_in_store(r2, c2);
            if Self::offset(r2, c2) == k {
                Self::lemma_offset_injective(r2, c2, r as int, c as int);
            }
        }
    }

    /// Matrix given row by row, as it is written down.
    pub fn from(rows: [[R; N]; M]) -> (m: Self)
        requires
            M * N <= usize::MAX,
        ensures
            forall|r: int, c: int|
                Self::in_range(r, c) ==> #[trigger] m.entry(r, c) == rows@[r - 1]@[c - 1],
    {
        let cell = |r: usize, c: usize| -> (x: R)
            requires
                Self::in_range(r as int, c as int),
            ensures
                x == rows@[r - 1]@[c - 1],
        {
            rows[r - 1][c - 1]
        };
        Self::from_fn(cell)
    }

    /// The transpose: cell `(r, c)` of the result holds cell `(c, r)` of `self`.
    pub fn transpose(&self) -> (t: Mat<N, M>)
        ensures
            t.is_transpose_of(*self),
    {
        proof {
            use_type_invariant(self);
            assert(self.data.len() <= usize::MAX);
            assert(N * M == M * N) by (nonlinear_arith);
        }
        let cell = |r: usize, c: usize| -> (x: R)
            requires
                Mat::<N, M>::in_range(r as int, c as int),
            ensures
                x == self.entry(c as int, r as int),
        {
            self.index(c, r)
        };
        Mat::<N, M>::from_fn(cell)
    }

    /// The transpose (short for [`Mat::transpose`]).
    pub fn t(&self) -> (t: Mat<N, M>)
        ensures
            t.is_transpose_of(*self),
    {
        self.transpose()
    }

    /// The `i`-th row, as a 1×`N` matrix.
    pub fn row(&self, i: usize) -> (m: Mat<1, N>)
        requires
            1 <= i <= M,
        ensures
            forall|c: int| 1 <= c <= N ==> #[trigger] m.entry(1, c) == self.entry(i as int, c),
    {
        proof {
            use_type_invariant(self);
            assert(self.data.len() <= usize::MAX);
            assert(1 * N <= M * N) by (nonlinear_arith)
                requires
                    1 <= M,
            ;
        }
        let cell = |r: usize, c: usize| -> (x: R)
            requires
                Mat::<1, N>::in_range(r as int, c as int),
            ensures
                x == self.entry(i as int, c as int),
        {
            self.index(i, c)
        };
        Mat::<1, N>::from_fn(cell)
    }

    /// The `j`-th column, as an `M`×1 matrix.
    pub fn col(&self, j: usize) -> (m: Mat<M, 1>)
        requires
            1 <= j <= N,
        ensures
            forall|r: int| 1 <= r <= M ==> #[trigger] m.entry(r, 1) == self.entry(r, j as int),
    {
        proof {
            use_type_invariant(self);
            assert(self.data.len() <= usize::MAX);
            assert(M * 1 <= M * N) by (nonlinear_arith)
                requires
                    1 <= N,
            ;
        }
        let cell = |r: usize, c: usize| -> (x: R)
            requires
                Mat::<M, 1>::in_range(r as int, c as int),
            ensures
                x == self.entry(r as int, j as int),
        {
            self.index(r, j)
        };
        Mat::<M, 1>::from_fn(cell)
    }

    /// The first `U` rows.
    pub fn top_n_rows<const U: usize>(&self) -> (m: Mat<U, N>)
        requires
            U <= M,
        ensures
            forall|r: int, c: int|
                Mat::<U, N>::in_range(r, c) ==> #[trigger] m.entry(r, c) == self.entry(r, c),
    {
        proof {
            use_type_invariant(self);
            assert(self.data.len() <= usize::MAX);
            assert(U * N <= M * N) by (nonlinear_arith)
                requires
                    U <= M,
            ;
        }
        let cell = |r: usize, c: usize| -> (x: R)
            requires
                Mat::<U, N>::in_range(r as int, c as int),
            ensures
                x == self.entry(r as int, c as int),
        {
            self.index(r, c)
        };
        Mat::<U, N>::from_fn(cell)
    }

    /// The top `N`×`N` block.
    pub fn top_square(&self) -> (m: Mat<N, N>)
        requires
            N <= M,
        ensures
            forall|r: int, c: int|
                Mat::<N, N>::in_range(r, c) ==> #[trigger] m.entry(r, c) == self.entry(r, c),
    {
        self.top_n_rows::<N>()
    }

    /// The `j`-th column as a plain vector, first row first.
    pub fn col_raw(&self, j: usize) -> (v: Vec<R>)
        requires
            1 <= j <= N,
        ensures
            v@.len() == M,
            forall|r: int| 1 <= r <= M ==> #[trigger] v@[r - 1] == self.entry(r, j as int),
    {
        let mut v: Vec<R> = Vec::new();
        let mut i: usize = 0;
        while i < M
            invariant
                1 <= j <= N,
                i <= M,
                v@.len() == i,
                forall|r: int| 1 <= r <= i ==> #[trigger] v@[r - 1] == self.entry(r, j as int),
            decreases M - i,
        {
            v.push(self.index(i + 1, j));
            i = i + 1;
        }
        v
    }

    /// Replaces the `i`-th row by `row`.
    pub fn set_row(&mut self, i: usize, row: Mat<1, N>)
        requires
            1 <= i <= M,
        ensures
            forall|r: int, c: int|
                Self::in_range(r, c) ==> #[trigger] final(self).entry(r, c) == if r == i {
                    row.entry(1, c)
                } else {
                    old(self).entry(r, c)
                },
    {
        let mut j: usize = 0;
        while j < N
            invariant
                1 <= i <= M,
                j <= N,
                forall|r: int, c: int|
                    Self::in_range(r, c) ==> #[trigger] self.entry(r, c) == if r == i && c <= j {
                        row.entry(1, c)
                    } else {
                        old(self).entry(r, c)
                    },
            decreases N - j,
        {
            let x = row.index(1, j + 1);
            self.set(i, j + 1, x);
            j = j + 1;
        }
    }

    /// Replaces the `j`-th column by `col`.
    pub fn set_col(&mut self, j: usize, col: Mat<M, 1>)
        requires
            1 <= j <= N,
        ensures
            forall|r: int, c: int|
                Self::in_range(r, c) ==> #[trigger] final(self).entry(r, c) == if c == j {
                    col.entry(r, 1)
                } else {
                    old(self).entry(r, c)
                },
    {
        let mut i: usize = 0;
        while i < M
            invariant
                1 <= j <= N,
                i <= M,
                forall|r: int, c: int|
                    Self::in_range(r, c) ==> #[trigger] self.entry(r, c) == if c == j && r <= i {
                        col.entry(r, 1)
                    } else {
                        old(self).entry(r, c)
                    },
            decreases M - i,
        {
            let x = col.index(i + 1, 1);
            self.set(i + 1, j, x);
            i = i + 1;
        }
    }

    /// Swaps columns `a` and `b`.
    pub fn swap_columns(&mut self, a: usize, b: usize)
        requires
            1 <= a <= N,
            1 <= b <= N,
        ensures
            forall|r: int, c: int|
                Self::in_range(r, c) ==> #[trigger] final(self).entry(r, c) == old(self).entry(
                    r,
                    if c == a {
                        b as int
                    } else if c == b {
                        a as int
                    } else {
                        c
                    },
                ),
    {
        let mut i: usize = 0;
        while i < M
            invariant
                1 <= a <= N,
                1 <= b <= N,
                i <= M,
                forall|r: int, c: int|
                    Self::in_range(r, c) ==> #[trigger] self.entry(r, c) == old(self).entry(
                        r,
                        if r <= i && c == a {
                            b as int
                        } else if r <= i && c == b {
                            a as int
                        } else {
                            c
                        },
                    ),
            decreases M - i,
        {
            let x = self.index(i + 1, a);
            let y = self.index(i + 1, b);
            self.set(i + 1, a, y);
            self.set(i + 1, b, x);
            i = i + 1;
        }
    }

    /// Matrix filled from a generator of scalars, one draw per cell, row by row.
    pub fn rand<G: Fn() -> R>(generator: G) -> (m: Self)
        requires
            M * N <= usize::MAX,
            call_requires(generator, ()),
        ensures
            forall|r: int, c: int|
                Self::in_range(r, c) ==> call_ensures(generator, (), #[trigger] m.entry(r, c)),
    {
        let mut m = Self::zero();
        let mut i: usize = 0;
        while i < M
            invariant
                i <= M,
                call_requires(generator, ()),
                forall|r: int, c: int|
                    Self::in_range(r, c) && r <= i ==> call_ensures(
                        generator,
                        (),
                        #[trigger] m.entry(r, c),
                    ),
            decreases M - i,
        {
            let mut j: usize = 0;
            while j < N
                invariant
                    i < M,
                    j <= N,
                    call_requires(generator, ()),
                    forall|r: int, c: int|
                        Self::in_range(r, c) && (r <= i || (r == i + 1 && c <= j))
                            ==> call_ensures(generator, (), #[trigger] m.entry(r, c)),
                decreases N - j,
            {
                let x = generator();
                m.set(i + 1, j + 1, x);
                j = j + 1;
            }
            i = i + 1;
        }
        m
    }

    /// Applies `f` to every cell, row by row, and collects the results in a new
    /// matrix.
    pub fn on_each<F: Fn(R) -> R>(&self, f: F) -> (m: Self)
        requires
            forall|r: int, c: int|
                Self::in_range(r, c) ==> call_requires(f, (#[trigger] self.entry(r, c),)),
        ensures
            forall|r: int, c: int|
                Self::in_range(r, c) ==> call_ensures(
                    f,
                    (self.entry(r, c),),
                    #[trigger] m.entry(r, c),
                ),
    {
        proof {
            use_type_invariant(self);
            assert(self.data.len() <= usize::MAX);
        }
        let mut m = Self::zero();
        let mut i: usize = 0;
        while i < M
            invariant
                i <= M,
                forall|r: int, c: int|
                    Self::in_range(r, c) ==> call_requires(f, (#[trigger] self.entry(r, c),)),
                forall|r: int, c: int|
                    Self::in_range(r, c) && r <= i ==> call_ensures(
                        f,
                        (self.entry(r, c),),
                        #[trigger] m.entry(r, c),
                    ),
            decreases M - i,
        {
            let mut j: usize = 0;
            while j < N
                invariant
                    i < M,
                    j <= N,
                    forall|r: int, c: int|
                        Self::in_range(r, c) ==> call_requires(
                            f,
                            (#[trigger] self.entry(r, c),),
                        ),
                    forall|r: int, c: int|
                        Self::in_range(r, c) && (r <= i || (r == i + 1 && c <= j))
                            ==> call_ensures(f, (self.entry(r, c),), #[trigger] m.entry(r, c)),
                decreases N - j,
            {
                let x = f(self.index(i + 1, j + 1));
                m.set(i + 1, j + 1, x);
                j = j + 1;
            }
            i = i + 1;
        }
        m
    }

    /// Applies `f` to every cell, row by row, in place.
    pub fn on_each_mut<F: Fn(R) -> R>(&mut self, f: F)
        requires
            forall|r: int, c: int|
                Self::in_range(r, c) ==> call_requires(f, (#[trigger] old(self).entry(r, c),)),
        ensures
            forall|r: int, c: int|
                Self::in_range(r, c) ==> call_ensures(
                    f,
                    (old(self).entry(r, c),),
                    #[trigger] final(self).entry(r, c),
                ),
    {
        let mut i: usize = 0;
        while i < M
            invariant
                i <= M,
                forall|r: int, c: int|
                    Self::in_range(r, c) ==> call_requires(
                        f,
                        (#[trigger] old(self).entry(r, c),),
                    ),
                forall|r: int, c: int|
                    Self::in_range(r, c) && r <= i ==> call_ensures(
                        f,
                        (old(self).entry(r, c),),
                        #[trigger] self.entry(r, c),
                    ),
                forall|r: int, c: int|
                    Self::in_range(r, c) && r > i ==> #[trigger] self.entry(r, c) == old(
                        self,
                    ).entry(r, c),
            decreases M - i,
        {
            let mut j: usize = 0;
            while j < N
                invariant
                    i < M,
                    j <= N,
                    forall|r: int, c: int|
                        Self::in_range(r, c) ==> call_requires(
                            f,
                            (#[trigger] old(self).entry(r, c),),
                        ),
                    forall|r: int, c: int|
                        Self::in_range(r, c) && (r <= i || (r == i + 1 && c <= j))
                            ==> call_ensures(
                            f,
                            (old(self).entry(r, c),),
                            #[trigger] self.entry(r, c),
                        ),
                    forall|r: int, c: int|
                        Self::in_range(r, c) && !(r <= i || (r == i + 1 && c <= j))
                            ==> #[trigger] self.entry(r, c) == old(self).entry(r, c),
                decreases N - j,
            {
                let x = f(self.index(i + 1, j + 1));
                self.set(i + 1, j + 1, x);
                j = j + 1;
            }
            i = i + 1;
        }
    }

    /// Combines two matrices cell by cell with `f`, row by row.
    pub fn on_each2<F: Fn(R, R) -> R>(&self, other: &Self, f: F) -> (m: Self)
        requires
            forall|r: int, c: int|
                Self::in_range(r, c) ==> call_requires(
                    f,
                    (#[trigger] self.entry(r, c), other.entry(r, c)),
                ),
        ensures
            forall|r: int, c: int|
                Self::in_range(r, c) ==> call_ensures(
                    f,
                    (self.entry(r, c), other.entry(r, c)),
                    #[trigger] m.entry(r, c),
                ),
    {
        proof {
            use_type_invariant(self);
            assert(self.data.len() <= usize::MAX);
        }
        let mut m = Self::zero();
        let mut i: usize = 0;
        while i < M
            invariant
                i <= M,
                forall|r: int, c: int|
                    Self::in_range(r, c) ==> call_requires(
                        f,
                        (#[trigger] self.entry(r, c), other.entry(r, c)),
                    ),
                forall|r: int, c: int|
                    Self::in_range(r, c) && r <= i ==> call_ensures(
                        f,
                        (self.entry(r, c), other.entry(r, c)),
                        #[trigger] m.entry(r, c),
                    ),
            decreases M - i,
        {
            let mut j: usize = 0;
            while j < N
                invariant
                    i < M,
                    j <= N,
                    forall|r: int, c: int|
                        Self::in_range(r, c) ==> call_requires(
                            f,
                            (#[trigger] self.entry(r, c), other.entry(r, c)),
                        ),
                    forall|r: int, c: int|
                        Self::in_range(r, c) && (r <= i || (r == i + 1 && c <= j))
                            ==> call_ensures(
                            f,
                            (self.entry(r, c), other.entry(r, c)),
                            #[trigger] m.entry(r, c),
                        ),
                decreases N - j,
            {
                let x = f(self.index(i + 1, j + 1), other.index(i + 1, j + 1));
                m.set(i + 1, j + 1, x);
                j = j + 1;
            }
            i = i + 1;
        }
        m
    }

    /// `self` is the transpose of `a`.
    pub open spec fn is_transpose_of(self, a: Mat<N, M>) -> bool {
        forall|r: int, c: int|
            Self::in_range(r, c) ==> #[trigger] self.entry(r, c) == a.entry(c, r)
    }

    /// `self` is `a` with the cells below the diagonal zeroed.
    pub open spec fn is_upper_part_of(self, a: Self) -> bool {
        forall|r: int, c: int|
            Self::in_range(r, c) ==> #[trigger] self.entry(r, c) == if c < r {
                R { bits: 0 }
            } else {
                a.entry(r, c)
            }
    }

    /// `self` is `a` with the cells above the diagonal zeroed.
    pub open spec fn is_lower_part_of(self, a: Self) -> bool {
        forall|r: int, c: int|
            Self::in_range(r, c) ==> #[trigger] self.entry(r, c) == if c > r {
                R { bits: 0 }
            } else {
                a.entry(r, c)
            }
    }

    /// `self` is `a` with the sign of every cell flipped.
    pub open spec fn is_negation_of(self, a: Self) -> bool {
        forall|r: int, c: int|
            Self::in_range(r, c) ==> #[trigger] self.entry(r, c) == a.entry(r, c).neg_spec()
    }

    /// Every cell below the diagonal holds a zero.
    pub open spec fn is_upper_triangular_spec(self) -> bool {
        forall|r: int, c: int|
            Self::in_range(r, c) && c < r ==> (#[trigger] self.entry(r, c)).is_zero_spec()
    }

    /// Some cell holds NaN.
    pub open spec fn contains_nan_spec(self) -> bool {
        exists|r: int, c: int| Self::in_range(r, c) && (#[trigger] self.entry(r, c)).is_nan_spec()
    }

    /// Whether every cell below the diagonal holds a zero (of either sign).
    pub fn is_upper_triangular(&self) -> (b: bool)
        ensures
            b == self.is_upper_triangular_spec(),
    {
        let mut i: usize = 0;
        while i < M
            invariant
                i <= M,
                forall|r: int, c: int|
                    Self::in_range(r, c) && c < r && r <= i ==> (#[trigger] self.entry(
                        r,
                        c,
                    )).is_zero_spec(),
            decreases M - i,
        {
            let mut j: usize = 0;
            while j < i && j < N
                invariant
                    i < M,
                    j <= i,
                    j <= N,
                    forall|r: int, c: int|
                        Self::in_range(r, c) && c < r && (r <= i || (r == i + 1 && c <= j)) ==> (
                        #[trigger] self.entry(r, c)).is_zero_spec(),
                decreases N - j,
            {
                if !self.index(i + 1, j + 1).is_zero() {
                    return false;
                }
                j = j + 1;
            }
            i = i + 1;
        }
        true
    }

    /// Zeros the cells below the diagonal, in place.
    pub fn to_upper_triangular(&mut self)
        ensures
            final(self).is_upper_part_of(*old(self)),
    {
        let mut i: usize = 0;
        while i < M
            invariant
                i <= M,
                forall|r: int, c: int|
                    Self::in_range(r, c) ==> #[trigger] self.entry(r, c) == if c < r && r <= i {
                        R { bits: 0 }
                    } else {
                        old(self).entry(r, c)
                    },
            decreases M - i,
        {
            let mut j: usize = 0;
            while j < i && j < N
                invariant
                    i < M,
                    j <= i,
                    j <= N,
                    forall|r: int, c: int|
                        Self::in_range(r, c) ==> #[trigger] self.entry(r, c) == if c < r && (r <= i
                            || (r == i + 1 && c <= j)) {
                            R { bits: 0 }
                        } else {
                            old(self).entry(r, c)
                        },
                decreases N - j,
            {
                self.set(i + 1, j + 1, R::zero());
                j = j + 1;
            }
            i = i + 1;
        }
    }

    /// Zeros the cells above the diagonal, in place.
    pub fn to_lower_triangular(&mut self)
        ensures
            final(self).is_lower_part_of(*old(self)),
    {
        let mut i: usize = 0;
        while i < M
            invariant
                i <= M,
                forall|r: int, c: int|
                    Self::in_range(r, c) ==> #[trigger] self.entry(r, c) == if c > r && r <= i {
                        R { bits: 0 }
                    } else {
                        old(self).entry(r, c)
                    },
            decreases M - i,
        {
            let mut j: usize = i + 1;
            while j < N
                invariant
                    i < M,
                    i + 1 <= j,
                    forall|r: int, c: int|
                        Self::in_range(r, c) ==> #[trigger] self.entry(r, c) == if c > r && (r <= i
                            || (r == i + 1 && c <= j)) {
                            R { bits: 0 }
                        } else {
                            old(self).entry(r, c)
                        },
                decreases N - j,
            {
                self.set(i + 1, j + 1, R::zero());
                j = j + 1;
            }
            i = i + 1;
        }
    }

    /// A copy with the cells below the diagonal zeroed.
    pub fn upper_triangular(&self) -> (m: Self)
        ensures
            m.is_upper_part_of(*self),
    {
        let mut m = self.clone();
        m.to_upper_triangular();
        m
    }

    /// A copy with the cells above the diagonal zeroed.
    pub fn lower_triangular(&self) -> (m: Self)
        ensures
            m.is_lower_part_of(*self),
    {
        let mut m = self.clone();
        m.to_lower_triangular();
        m
    }

    /// Whether some cell holds NaN.
    pub fn contains_nan(&self) -> (b: bool)
        ensures
            b == self.contains_nan_spec(),
    {
        let mut i: usize = 0;
        while i < M
            invariant
                i <= M,
                forall|r: int, c: int|
                    Self::in_range(r, c) && r <= i ==> !(#[trigger] self.entry(r, c)).is_nan_spec(),
            decreases M - i,
        {
            let mut j: usize = 0;
            while j < N
                invariant
                    i < M,
                    j <= N,
                    forall|r: int, c: int|
                        Self::in_range(r, c) && (r <= i || (r == i + 1 && c <= j)) ==> !(
                        #[trigger] self.entry(r, c)).is_nan_spec(),
                decreases N - j,
            {
                if self.index(i + 1, j + 1).is_nan() {
                    return true;
                }
                j = j + 1;
            }
            i = i + 1;
        }
        false
    }

    /// The row numbers, `1` to `M`.
    pub fn row_iter(&self) -> (rows: std::ops::RangeInclusive<usize>)
        ensures
            rows@.start == 1,
            rows@.end == M,
            !rows@.exhausted,
    {
        1..=M
    }

    /// The column numbers, `1` to `N`.
    pub fn col_iter(&self) -> (cols: std::ops::RangeInclusive<usize>)
        ensures
            cols@.start == 1,
            cols@.end == N,
            !cols@.exhausted,
    {
        1..=N
    }

    /// The pair (number of rows, number of columns).
    pub fn dimensions(&self) -> (d: (usize, usize))
        ensures
            d == (M, N),
    {
        (M, N)
    }

    /// Number of rows.
    pub fn nrows(&self) -> (n: usize)
        ensures
            n == M,
    {
        M
    }

    /// Number of columns.
    pub fn ncols(&self) -> (n: usize)
        ensures
            n == N,
    {
        N
    }
}

impl<const M: usize, const N: usize> Clone for Mat<M, N> {
    /// A copy with the same scalar in every cell.
    fn clone(&self) -> (m: Self)
        ensures
            forall|r: int, c: int|
                Self::in_range(r, c) ==> #[trigger] m.entry(r, c) == self.entry(r, c),
    {
        proof {
            use_type_invariant(self);
            assert(self.data.len() <= usize::MAX);
        }
        let cell = |r: usize, c: usize| -> (x: R)
            requires
                Self::in_range(r as int, c as int),
            ensures
                x == self.entry(r as int, c as int),
        {
            self.index(r, c)
        };
        Self::from_fn(cell)
    }
}

} // verus!

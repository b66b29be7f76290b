//! The matrix type: construction, shape, elementwise arithmetic, transposition
//! and the matrix product.

use vstd::prelude::*;
use vstd::std_specs::ops::{AddSpec, NegSpec};
use vstd::std_specs::convert::FromSpec;
use std::ops::{Add, Neg, Index, IndexMut};
use crate::scalar::{Scalar, zero, make_zero, is_constant, is_sum, is_negation};
use crate::grid::{
    filled, rows_of, rows_of_array, transposed, resized, grid_sum, grid_sum_req, is_grid_sum,
    negated, negated_req, is_negated,
};

verus! {

/// A grid of `N` rows and `M` columns whose dimensions belong to the type.
pub struct Matrix<T, const N: usize, const M: usize> {
    tab: [[T; M]; N],
}

impl<T: Copy, const N: usize, const M: usize> Clone for Matrix<T, N, M> {
    fn clone(&self) -> (m: Self)
        ensures
            m == *self,
    {
        *self
    }
}

impl<T: Copy, const N: usize, const M: usize> Copy for Matrix<T, N, M> {

}

impl<T: Copy, const N: usize, const M: usize> Matrix<T, N, M> {
    /// The element in row `i` and column `j`.
    pub closed spec fn entry(&self, i: int, j: int) -> T {
        self.tab@[i]@[j]
    }

    /// The matrix as `N` rows of `M` elements each.
    pub open spec fn view(&self) -> Seq<Seq<T>> {
        Seq::new(N as nat, |i: int| Seq::new(M as nat, |j: int| self.entry(i, j)))
    }

    /// Two matrices that hold the same elements are the same matrix.
    pub proof fn lemma_view_determines(a: Self, b: Self)
        requires
            a@ == b@,
        ensures
            a == b,
    {
        assert forall|i: int| 0 <= i < N implies a.tab[i] == b.tab[i] by {
            assert forall|j: int| 0 <= j < M implies a.tab[i][j] == b.tab[i][j] by {
                assert(a@[i][j] == a.entry(i, j));
                assert(b@[i][j] == b.entry(i, j));
            }
            assert(a.tab[i] =~= b.tab[i]);
        }
        assert(a.tab =~= b.tab);
    }

    /// A matrix whose every element is `value`.
    pub fn value(value: T) -> (m: Self)
        ensures
            m@ == filled(value, N as nat, M as nat),
    {
        let m = Self { tab: [[value;M];N] };
        assert(m@ =~~= filled(value, N as nat, M as nat));
        m
    }

    /// The matrix that holds the given rows.
    pub fn construct(tab: [[T; M]; N]) -> (m: Self)
        ensures
            m@ == rows_of_array(tab),
    {
        let m = Self { tab };
        assert(m@ =~~= rows_of_array(tab));
        m
    }

    /// Reads the element in row `i` and column `j`.
    pub(crate) fn at(&self, i: usize, j: usize) -> (v: T)
        requires
            i < N,
            j < M,
        ensures
            v == self@[i as int][j as int],
    {
        self.tab[i][j]
    }

    /// Writes `v` to row `i` and column `j`, leaving the rest as it was.
    pub(crate) fn put(&mut self, i: usize, j: usize, v: T)
        requires
            i < N,
            j < M,
        ensures
            final(self)@ == old(self)@.update(i as int, old(self)@[i as int].update(j as int, v)),
    {
        self.tab[i][j] = v;
        assert(final(self)@ =~~= old(self)@.update(
            i as int,
            old(self)@[i as int].update(j as int, v),
        ));
    }

    /// A copy of the elements, row by row, in growable vectors.
    pub fn to_vec(&self) -> (v: Vec<Vec<T>>)
        ensures
            rows_of(&v) == self@,
    {
        let mut v = Vec::<Vec<T>>::with_capacity(N);
        for i in 0..N
            invariant
                v.len() == i,
                forall|r: int| 0 <= r < i ==> (#[trigger] v@[r])@ == self@[r],
        {
            let mut row = Vec::<T>::with_capacity(M);
            for j in 0..M
                invariant
                    i < N,
                    row.len() == j,
                    forall|c: int| 0 <= c < j ==> row@[c] == self@[i as int][c],
            {
                row.push(self.at(i, j));
            }
            assert(row@ =~= self@[i as int]);
            v.push(row);
        }
        assert(rows_of(&v) =~= self@);
        v
    }

    /// The number of rows.
    pub fn line(&self) -> (n: usize)
        ensures
            n == N,
    {
        N
    }

    /// The number of columns.
    pub fn column(&self) -> (m: usize)
        ensures
            m == M,
    {
        M
    }

    /// The number of elements. The product of the dimensions must be a `usize`.
    pub fn len(&self) -> (n: usize)
        requires
            N * M <= usize::MAX,
        ensures
            n == N * M,
    {
        M * N
    }
}

impl<T: Copy, const N: usize, const M: usize> Index<usize> for Matrix<T, N, M> {
    type Output = [T; M];

    /// Row `line`, which must exist.
    fn index(&self, line: usize) -> (row: &[T; M])
        ensures
            row@ == self@[line as int],
    {
        let row = &self.tab[line];
        assert(row@ =~= self@[line as int]);
        row
    }
}

impl<T: Copy, const N: usize, const M: usize> vstd::std_specs::core::IndexSpecImpl<usize> for Matrix<T, N, M> {
    open spec fn index_req(&self, line: &usize) -> bool {
        *line < N
    }
}

impl<T: Copy, const N: usize, const M: usize> IndexMut<usize> for Matrix<T, N, M> {
    /// Row `line`, which must exist, for writing.
    fn index_mut(&mut self, line: usize) -> (row: &mut [T; M])
        requires
            line < N,
        ensures
            row@ == old(self)@[line as int],
            final(self)@ =~~= old(self)@.update(line as int, final(row)@),
    {
        &mut self.tab[line]
    }
}

impl<T: Scalar, const N: usize, const M: usize> Matrix<T, N, M> {
    /// The matrix whose every element is 0.
    pub fn zero() -> (m: Self)
        ensures
            exists|z: T| is_constant(0i8, z) && #[trigger] filled(z, N as nat, M as nat) == m@,
            T::obeys_from_spec() ==> m@ == filled(zero::<T>(), N as nat, M as nat),
    {
        Self::value(make_zero::<T>())
    }

    /// A matrix of `U` rows and `V` columns that agrees with `other` wherever
    /// both have an element and holds 0 elsewhere.
    pub fn from<const U: usize, const V: usize>(other: &Matrix<T, N, M>) -> (m: Matrix<T, U, V>)
        ensures
            forall|i: int, j: int|
                0 <= i < U && 0 <= j < V ==> if i < N && j < M {
                    #[trigger] m@[i][j] == other@[i][j]
                } else {
                    is_constant(0i8, m@[i][j])
                },
            T::obeys_from_spec() ==> m@ == resized(other@, U as nat, V as nat),
    {
        let z = make_zero::<T>();
        let mut m = Matrix::<T, U, V>::value(z);
        let line = if U < N {
            U
        } else {
            N
        };
        let column = if V < M {
            V
        } else {
            M
        };
        for i in 0..line
            invariant
                is_constant(0i8, z),
                line <= U,
                line <= N,
                column <= V,
                column <= M,
                forall|r: int, c: int|
                    0 <= r < U && 0 <= c < V ==> #[trigger] m@[r][c] == (if r < i && c < column {
                        other@[r][c]
                    } else {
                        z
                    }),
        {
            for j in 0..column
                invariant
                    i < line,
                    line <= U,
                    line <= N,
                    column <= V,
                    column <= M,
                    forall|r: int, c: int|
                        0 <= r < U && 0 <= c < V ==> #[trigger] m@[r][c] == (if (r < i && c
                            < column) || (r == i && c < j) {
                            other@[r][c]
                        } else {
                            z
                        }),
            {
                m.put(i, j, other.at(i, j));
            }
        }
        assert(T::obeys_from_spec() ==> m@ =~~= resized(other@, U as nat, V as nat));
        m
    }

    /// The elementwise sum of two matrices of one shape.
    pub fn add(this: &Matrix<T, N, M>, other: &Matrix<T, N, M>) -> (m: Matrix<T, N, M>)
        requires
            grid_sum_req(this@, other@),
        ensures
            is_grid_sum(this@, other@, m@),
            T::obeys_add_spec() ==> m@ == grid_sum(this@, other@),
    {
        let mut m = Matrix::<T, N, M>::zero();
        for i in 0..N
            invariant
                grid_sum_req(this@, other@),
                forall|r: int, c: int|
                    0 <= r < i && 0 <= c < M ==> is_sum(this@[r][c], other@[r][c], #[trigger] m@[r][c]),
                T::obeys_add_spec() ==> forall|r: int, c: int|
                    0 <= r < i && 0 <= c < M ==> #[trigger] m@[r][c] == this@[r][c].add_spec(
                        other@[r][c],
                    ),
        {
            for j in 0..M
                invariant
                    i < N,
                    grid_sum_req(this@, other@),
                    forall|r: int, c: int|
                        (0 <= r < i && 0 <= c < M) || (r == i && 0 <= c < j) ==> is_sum(
                            this@[r][c],
                            other@[r][c],
                            #[trigger] m@[r][c],
                        ),
                    T::obeys_add_spec() ==> forall|r: int, c: int|
                        (0 <= r < i && 0 <= c < M) || (r == i && 0 <= c < j) ==> #[trigger] m@[r][c]
                            == this@[r][c].add_spec(other@[r][c]),
            {
                m.put(i, j, this.at(i, j) + other.at(i, j));
            }
        }
        assert(T::obeys_add_spec() ==> m@ =~~= grid_sum(this@, other@));
        m
    }

    /// The matrix of the negated elements.
    pub fn negative(&self) -> (m: Matrix<T, N, M>)
        requires
            negated_req(self@),
        ensures
            is_negated(self@, m@),
            T::obeys_neg_spec() ==> m@ == negated(self@),
    {
        let mut m = Matrix::<T, N, M>::zero();
        for i in 0..N
            invariant
                negated_req(self@),
                forall|r: int, c: int|
                    0 <= r < i && 0 <= c < M ==> is_negation(self@[r][c], #[trigger] m@[r][c]),
                T::obeys_neg_spec() ==> forall|r: int, c: int|
                    0 <= r < i && 0 <= c < M ==> #[trigger] m@[r][c] == self@[r][c].neg_spec(),
        {
            for j in 0..M
                invariant
                    i < N,
                    negated_req(self@),
                    forall|r: int, c: int|
                        (0 <= r < i && 0 <= c < M) || (r == i && 0 <= c < j) ==> is_negation(
                            self@[r][c],
                            #[trigger] m@[r][c],
                        ),
                    T::obeys_neg_spec() ==> forall|r: int, c: int|
                        (0 <= r < i && 0 <= c < M) || (r == i && 0 <= c < j) ==> #[trigger] m@[r][c]
                            == self@[r][c].neg_spec(),
            {
                m.put(i, j, self.at(i, j).neg());
            }
        }
        assert(T::obeys_neg_spec() ==> m@ =~~= negated(self@));
        m
    }

    /// The matrix of `M` rows and `N` columns whose element `(j, i)` is
    /// element `(i, j)` of this one.
    pub fn tranpose(&self) -> (t: Matrix<T, M, N>)
        ensures
            t@ == transposed(self@, M as nat),
    {
        let mut t = Matrix::<T, M, N>::zero();
        for i in 0..N
            invariant
                forall|r: int, c: int|
                    0 <= r < i && 0 <= c < M ==> #[trigger] t@[c][r] == self@[r][c],
        {
            for j in 0..M
                invariant
                    i < N,
                    forall|r: int, c: int|
                        (0 <= r < i && 0 <= c < M) || (r == i && 0 <= c < j) ==> #[trigger] t@[c][r]
                            == self@[r][c],
            {
                t.put(j, i, self.at(i, j));
            }
        }
        assert(t@ =~~= transposed(self@, M as nat));
        t
    }
}

} // verus!

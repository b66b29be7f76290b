//! The arithmetic operators of matrices: `+`, `-`, `*` and `/` by an element,
//! and the matrix product.

use vstd::prelude::*;
use vstd::std_specs::ops::{AddSpec, SubSpec, MulSpec, DivSpec, NegSpec};
use std::ops::{Add, Sub, Mul, Div};
use crate::scalar::{Scalar, exact, total, make_zero, is_sum, is_product, is_quotient};
use crate::grid::{
    grid_sum, grid_sum_req, is_grid_sum, negated, negated_req, is_negated, scaled, scaled_req,
    is_scaled, divided, divided_req, is_divided, column_of, dot, dot_req, is_dot,
    lemma_dot_req_prefix, matrix_product, matrix_product_req, is_matrix_product,
};
use crate::matrix::Matrix;

verus! {

impl<T: Scalar, const N: usize, const M: usize> Add for Matrix<T, N, M> {
    type Output = Matrix<T, N, M>;

    /// The elementwise sum.
    fn add(self, rhs: Self) -> (m: Matrix<T, N, M>)
        ensures
            is_grid_sum(self@, rhs@, m@),
            T::obeys_add_spec() ==> m@ == grid_sum(self@, rhs@),
    {
        let m = Matrix::add(&self, &rhs);
        proof {
            if T::obeys_add_spec() {
                let chosen = choose|v: Self| v@ == grid_sum(self@, rhs@);
                Self::lemma_view_determines(m, chosen);
            }
        }
        m
    }
}

impl<T: Scalar, const N: usize, const M: usize> vstd::std_specs::ops::AddSpecImpl for Matrix<T, N, M> {
    open spec fn obeys_add_spec() -> bool {
        T::obeys_add_spec()
    }

    open spec fn add_req(self, rhs: Self) -> bool {
        grid_sum_req(self@, rhs@)
    }

    open spec fn add_spec(self, rhs: Self) -> Self {
        choose|m: Self| m@ == grid_sum(self@, rhs@)
    }
}

impl<T: Scalar, const N: usize, const M: usize> Sub for Matrix<T, N, M> {
    type Output = Matrix<T, N, M>;

    /// The elementwise difference, as the sum of the left side and the
    /// negated right side.
    fn sub(self, rhs: Self) -> (m: Matrix<T, N, M>)
        ensures
            exists|n: Seq<Seq<T>>| is_negated(rhs@, n) && #[trigger] is_grid_sum(self@, n, m@),
            exact::<T>() ==> m@ == grid_sum(self@, negated(rhs@)),
    {
        let n = rhs.negative();
        let m = self + n;
        assert(is_grid_sum(self@, n@, m@));
        proof {
            if exact::<T>() {
                let chosen = choose|v: Self| v@ == grid_sum(self@, negated(rhs@));
                Self::lemma_view_determines(m, chosen);
            }
        }
        m
    }
}

impl<T: Scalar, const N: usize, const M: usize> vstd::std_specs::ops::SubSpecImpl for Matrix<T, N, M> {
    open spec fn obeys_sub_spec() -> bool {
        exact::<T>()
    }

    open spec fn sub_req(self, rhs: Self) -> bool {
        total::<T>() || (exact::<T>() && negated_req(rhs@) && grid_sum_req(self@, negated(rhs@)))
    }

    open spec fn sub_spec(self, rhs: Self) -> Self {
        choose|m: Self| m@ == grid_sum(self@, negated(rhs@))
    }
}

impl<T: Scalar, const N: usize, const M: usize> Mul<T> for Matrix<T, N, M> {
    type Output = Matrix<T, N, M>;

    /// Every element multiplied by `rhs`.
    fn mul(self, rhs: T) -> (m: Matrix<T, N, M>)
        ensures
            is_scaled(self@, rhs, m@),
            T::obeys_mul_spec() ==> m@ == scaled(self@, rhs),
    {
        let mut m = Matrix::<T, N, M>::zero();
        for i in 0..N
            invariant
                scaled_req(self@, rhs),
                forall|r: int, c: int|
                    0 <= r < i && 0 <= c < M ==> is_product(self@[r][c], rhs, #[trigger] m@[r][c]),
                T::obeys_mul_spec() ==> forall|r: int, c: int|
                    0 <= r < i && 0 <= c < M ==> #[trigger] m@[r][c] == self@[r][c].mul_spec(rhs),
        {
            for j in 0..M
                invariant
                    i < N,
                    scaled_req(self@, rhs),
                    forall|r: int, c: int|
                        (0 <= r < i && 0 <= c < M) || (r == i && 0 <= c < j) ==> is_product(
                            self@[r][c],
                            rhs,
                            #[trigger] m@[r][c],
                        ),
                    T::obeys_mul_spec() ==> forall|r: int, c: int|
                        (0 <= r < i && 0 <= c < M) || (r == i && 0 <= c < j) ==> #[trigger] m@[r][c]
                            == self@[r][c].mul_spec(rhs),
            {
                m.put(i, j, self.at(i, j) * rhs);
            }
        }
        proof {
            if T::obeys_mul_spec() {
                assert(m@ =~~= scaled(self@, rhs));
                let chosen = choose|v: Self| v@ == scaled(self@, rhs);
                Self::lemma_view_determines(m, chosen);
            }
        }
        m
    }
}

impl<T: Scalar, const N: usize, const M: usize> vstd::std_specs::ops::MulSpecImpl<T> for Matrix<T, N, M> {
    open spec fn obeys_mul_spec() -> bool {
        T::obeys_mul_spec()
    }

    open spec fn mul_req(self, rhs: T) -> bool {
        scaled_req(self@, rhs)
    }

    open spec fn mul_spec(self, rhs: T) -> Self {
        choose|m: Self| m@ == scaled(self@, rhs)
    }
}

impl<T: Scalar, const N: usize, const M: usize> Div<T> for Matrix<T, N, M> {
    type Output = Matrix<T, N, M>;

    /// Every element divided by `rhs`.
    fn div(self, rhs: T) -> (m: Matrix<T, N, M>)
        ensures
            is_divided(self@, rhs, m@),
            T::obeys_div_spec() ==> m@ == divided(self@, rhs),
    {
        let mut m = Matrix::<T, N, M>::zero();
        for i in 0..N
            invariant
                divided_req(self@, rhs),
                forall|r: int, c: int|
                    0 <= r < i && 0 <= c < M ==> is_quotient(self@[r][c], rhs, #[trigger] m@[r][c]),
                T::obeys_div_spec() ==> forall|r: int, c: int|
                    0 <= r < i && 0 <= c < M ==> #[trigger] m@[r][c] == self@[r][c].div_spec(rhs),
        {
            for j in 0..M
                invariant
                    i < N,
                    divided_req(self@, rhs),
                    forall|r: int, c: int|
                        (0 <= r < i && 0 <= c < M) || (r == i && 0 <= c < j) ==> is_quotient(
                            self@[r][c],
                            rhs,
                            #[trigger] m@[r][c],
                        ),
                    T::obeys_div_spec() ==> forall|r: int, c: int|
                        (0 <= r < i && 0 <= c < M) || (r == i && 0 <= c < j) ==> #[trigger] m@[r][c]
                            == self@[r][c].div_spec(rhs),
            {
                m.put(i, j, self.at(i, j) / rhs);
            }
        }
        proof {
            if T::obeys_div_spec() {
                assert(m@ =~~= divided(self@, rhs));
                let chosen = choose|v: Self| v@ == divided(self@, rhs);
                Self::lemma_view_determines(m, chosen);
            }
        }
        m
    }
}

impl<T: Scalar, const N: usize, const M: usize> vstd::std_specs::ops::DivSpecImpl<T> for Matrix<T, N, M> {
    open spec fn obeys_div_spec() -> bool {
        T::obeys_div_spec()
    }

    open spec fn div_req(self, rhs: T) -> bool {
        divided_req(self@, rhs)
    }

    open spec fn div_spec(self, rhs: T) -> Self {
        choose|m: Self| m@ == divided(self@, rhs)
    }
}

impl<T: Scalar, const N: usize, const M: usize, const V: usize> Mul<Matrix<T, M, V>> for Matrix<T, N, M> {
    type Output = Matrix<T, N, V>;

    /// The matrix product: element `(i, k)` is the sum over `j` of
    /// `self[i][j] * second[j][k]`.
    fn mul(self, second: Matrix<T, M, V>) -> (m: Matrix<T, N, V>)
        ensures
            is_matrix_product(self@, second@, V as nat, m@),
            exact::<T>() ==> m@ == matrix_product(self@, second@, V as nat),
    {
        let mut m = Matrix::<T, N, V>::zero();
        for line_self in 0..N
            invariant
                total::<T>() || (exact::<T>() && matrix_product_req(self@, second@, V as nat)),
                forall|r: int, c: int|
                    0 <= r < line_self && 0 <= c < V ==> is_dot(
                        self@[r],
                        column_of(second@, c),
                        M as nat,
                        #[trigger] m@[r][c],
                    ),
                exact::<T>() ==> forall|r: int, c: int|
                    0 <= r < line_self && 0 <= c < V ==> #[trigger] m@[r][c] == dot(
                        self@[r],
                        column_of(second@, c),
                        M as nat,
                    ),
        {
            for col_rhs in 0..V
                invariant
                    line_self < N,
                    total::<T>() || (exact::<T>() && matrix_product_req(self@, second@, V as nat)),
                    forall|r: int, c: int|
                        (0 <= r < line_self && 0 <= c < V) || (r == line_self && 0 <= c < col_rhs)
                            ==> is_dot(
                            self@[r],
                            column_of(second@, c),
                            M as nat,
                            #[trigger] m@[r][c],
                        ),
                    exact::<T>() ==> forall|r: int, c: int|
                        (0 <= r < line_self && 0 <= c < V) || (r == line_self && 0 <= c < col_rhs)
                            ==> #[trigger] m@[r][c] == dot(
                            self@[r],
                            column_of(second@, c),
                            M as nat,
                        ),
            {
                let ghost x = self@[line_self as int];
                let ghost y = column_of(second@, col_rhs as int);
                let mut value = make_zero::<T>();
                for current_index in 0..M
                    invariant
                        line_self < N,
                        col_rhs < V,
                        x == self@[line_self as int],
                        y == column_of(second@, col_rhs as int),
                        total::<T>() || (exact::<T>() && dot_req(x, y, M as nat)),
                        is_dot(x, y, current_index as nat, value),
                        exact::<T>() ==> value == dot(x, y, current_index as nat),
                {
                    proof {
                        if !total::<T>() {
                            lemma_dot_req_prefix(x, y, M as nat, (current_index + 1) as nat);
                        }
                    }
                    let term = self.at(line_self, current_index) * second.at(
                        current_index,
                        col_rhs,
                    );
                    let ghost before = value;
                    value = value + term;
                    assert(is_sum(before, term, value));
                }
                m.put(line_self, col_rhs, value);
            }
        }
        proof {
            if exact::<T>() {
                assert(m@ =~~= matrix_product(self@, second@, V as nat));
                let chosen = choose|v: Matrix<T, N, V>| v@ == matrix_product(self@, second@, V as nat);
                Matrix::<T, N, V>::lemma_view_determines(m, chosen);
            }
        }
        m
    }
}

impl<T: Scalar, const N: usize, const M: usize, const V: usize> vstd::std_specs::ops::MulSpecImpl<Matrix<T, M, V>> for Matrix<T, N, M> {
    open spec fn obeys_mul_spec() -> bool {
        exact::<T>()
    }

    open spec fn mul_req(self, second: Matrix<T, M, V>) -> bool {
        total::<T>() || (exact::<T>() && matrix_product_req(self@, second@, V as nat))
    }

    open spec fn mul_spec(self, second: Matrix<T, M, V>) -> Matrix<T, N, V> {
        choose|m: Matrix<T, N, V>| m@ == matrix_product(self@, second@, V as nat)
    }
}

} // verus!

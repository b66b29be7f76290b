//! What only a square matrix has: the identity, the determinant, the comatrix
//! and the inverse.

use vstd::prelude::*;
use vstd::std_specs::ops::MulSpec;
use vstd::std_specs::convert::FromSpec;
use vstd::std_specs::cmp::PartialEqSpec;
use crate::scalar::{
    Scalar, exact, total, sign, sign_of, make_zero, make_one, make_sign, is_constant, is_product,
    is_equality,
};
use crate::grid::{rows_of, identity_grid, extract, lemma_minor_shape, transposed, is_divided};
use crate::determinant::{
    det, is_det, det_defined, sub_det, cofactor, is_cofactor, cofactor_req, comatrix_grid,
    is_comatrix, comatrix_defined, singular, is_zero_test, inverse_grid, is_inverse_by,
    inverse_defined,
};
use crate::error::MatrixError;
use crate::matrix::Matrix;

verus! {

impl<T: Scalar, const N: usize> Matrix<T, N, N> {
    /// The identity matrix: 1 on the diagonal and 0 elsewhere.
    pub fn identity() -> (m: Self)
        ensures
            forall|i: int, j: int|
                0 <= i < N && 0 <= j < N ==> is_constant(
                    if i == j {
                        1i8
                    } else {
                        0i8
                    },
                    #[trigger] m@[i][j],
                ),
            T::obeys_from_spec() ==> m@ == identity_grid::<T>(N as nat),
    {
        let z = make_zero::<T>();
        let o = make_one::<T>();
        let mut m = Self::value(z);
        for i in 0..N
            invariant
                is_constant(0i8, z),
                is_constant(1i8, o),
                forall|r: int, c: int|
                    0 <= r < N && 0 <= c < N ==> #[trigger] m@[r][c] == (if r == c && r < i {
                        o
                    } else {
                        z
                    }),
        {
            m.put(i, i, o);
        }
        assert(T::obeys_from_spec() ==> m@ =~~= identity_grid::<T>(N as nat));
        m
    }

    /// The determinant, by cofactor expansion along the first row.
    pub fn det(&self) -> (d: T)
        requires
            det_defined(self@),
        ensures
            is_det(self@, d),
            exact::<T>() ==> d == det(self@),
    {
        let tab = self.to_vec();
        sub_det(&tab)
    }

    /// The comatrix: the matrix of the cofactors.
    pub fn comatrix(&self) -> (m: Matrix<T, N, N>)
        requires
            comatrix_defined(self@),
        ensures
            is_comatrix(self@, m@),
            exact::<T>() ==> m@ == comatrix_grid(self@),
    {
        let tab = self.to_vec();
        assert(rows_of(&tab).len() == tab.len());
        let mut m = Matrix::<T, N, N>::zero();
        for i in 0..N
            invariant
                tab.len() == N,
                rows_of(&tab) == self@,
                comatrix_defined(self@),
                forall|r: int, c: int|
                    0 <= r < i && 0 <= c < N ==> is_cofactor(self@, r, c, #[trigger] m@[r][c]),
                exact::<T>() ==> forall|r: int, c: int|
                    0 <= r < i && 0 <= c < N ==> #[trigger] m@[r][c] == cofactor(self@, r, c),
        {
            for j in 0..N
                invariant
                    i < N,
                    tab.len() == N,
                    rows_of(&tab) == self@,
                    comatrix_defined(self@),
                    forall|r: int, c: int|
                        (0 <= r < i && 0 <= c < N) || (r == i && 0 <= c < j) ==> is_cofactor(
                            self@,
                            r,
                            c,
                            #[trigger] m@[r][c],
                        ),
                    exact::<T>() ==> forall|r: int, c: int|
                        (0 <= r < i && 0 <= c < N) || (r == i && 0 <= c < j) ==> #[trigger] m@[r][c]
                            == cofactor(self@, r, c),
            {
                proof {
                    lemma_minor_shape(self@, N as nat, N as nat, i as int, j as int);
                    assert(!total::<T>() ==> cofactor_req(self@, i as int, j as int));
                    assert(self@[0].len() == N);
                }
                let sub_matrix = extract(&tab, i, j);
                let minor_det = sub_det(&sub_matrix);
                let s = make_sign::<T>((i % 2 == 0) == (j % 2 == 0));
                assert(is_constant(sign_of(i + j), s));
                assert(exact::<T>() ==> s == sign::<T>(i + j));
                let signed = minor_det * s;
                assert(is_product(minor_det, s, signed));
                m.put(i, j, signed);
            }
        }
        assert(exact::<T>() ==> m@ =~~= comatrix_grid(self@));
        m
    }

    /// The inverse by Cramer's rule, or `SingularMatrix` when the determinant
    /// compares equal to 0.
    pub fn inverse(&self) -> (r: Result<Matrix<T, N, N>, MatrixError>)
        requires
            inverse_defined(self@),
        ensures
            r is Err ==> r == Err::<Matrix<T, N, N>, MatrixError>(MatrixError::SingularMatrix),
            exists|d: T| #[trigger]
                is_det(self@, d) && is_zero_test(d, r is Err) && (r is Ok ==> is_inverse_by(
                    self@,
                    d,
                    r->Ok_0@,
                )),
            exact::<T>() ==> (r is Err <==> singular(self@)),
            exact::<T>() && r is Ok ==> r->Ok_0@ == inverse_grid(self@),
    {
        let det = self.det();
        let z = make_zero::<T>();
        let is_zero = det == z;
        assert(is_equality(det, z, is_zero));
        if is_zero {
            return Err(MatrixError::SingularMatrix);
        }
        let comatrix = self.comatrix();
        let trans_comatrix = comatrix.tranpose();
        let inverse = trans_comatrix / det;
        assert(is_inverse_by(self@, det, inverse@)) by {
            assert(is_divided(transposed(comatrix@, N as nat), det, inverse@));
        }
        Ok(inverse)
    }
}

} // verus!

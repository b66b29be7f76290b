//! Algebraic laws that the matrix operations obey.

use vstd::prelude::*;
use vstd::std_specs::ops::{AddSpec, SubSpec, MulSpec};
use std::ops::Add;
use crate::scalar::{Scalar, zero, one, is_sum, is_product, is_difference};
use crate::grid::{
    is_grid, transposed, grid_sum, is_grid_sum, identity_grid, column_of, dot, matrix_product,
};
use crate::determinant::{det, is_det};

verus! {

/// Transposing a sum gives the sum of the transposed grids.
pub proof fn lemma_transpose_of_sum<T: Add<Output = T>>(
    a: Seq<Seq<T>>,
    b: Seq<Seq<T>>,
    rows: nat,
    cols: nat,
)
    requires
        is_grid(a, rows, cols),
        is_grid(b, rows, cols),
    ensures
        transposed(grid_sum(a, b), cols) == grid_sum(transposed(a, cols), transposed(b, cols)),
{
    assert(transposed(grid_sum(a, b), cols) =~~= grid_sum(
        transposed(a, cols),
        transposed(b, cols),
    ));
}

/// Transposing any grid that is a sum of `a` and `b` gives a grid that is a
/// sum of the transposed `a` and the transposed `b`. This holds also where
/// the sum of two elements is not a function of them.
pub proof fn lemma_transpose_of_any_sum<T: Add<Output = T>>(
    a: Seq<Seq<T>>,
    b: Seq<Seq<T>>,
    r: Seq<Seq<T>>,
    rows: nat,
    cols: nat,
)
    requires
        is_grid(a, rows, cols),
        is_grid(b, rows, cols),
        is_grid_sum(a, b, r),
    ensures
        is_grid_sum(transposed(a, cols), transposed(b, cols), transposed(r, cols)),
{
    let ta = transposed(a, cols);
    let tb = transposed(b, cols);
    let tr = transposed(r, cols);
    assert forall|j: int, i: int| 0 <= j < ta.len() && 0 <= i < ta[j].len() implies is_sum(
        ta[j][i],
        tb[j][i],
        #[trigger] tr[j][i],
    ) by {
        assert(tr[j][i] == r[i][j]);
        assert(is_sum(a[i][j], b[i][j], r[i][j]));
    }
}

/// Transposing twice gives the grid back.
pub proof fn lemma_transpose_twice<T>(a: Seq<Seq<T>>, rows: nat, cols: nat)
    requires
        is_grid(a, rows, cols),
    ensures
        transposed(transposed(a, cols), rows) == a,
{
    assert(transposed(transposed(a, cols), rows) =~~= a);
}

/// 0 and 1 act on `x` as they do in a ring: 1 is neutral for the product, 0
/// is neutral for the sum and absorbs the product.
pub open spec fn has_neutral_elements<T: Scalar>(x: T) -> bool {
    &&& x.mul_spec(one::<T>()) == x
    &&& one::<T>().mul_spec(x) == x
    &&& x.mul_spec(zero::<T>()) == zero::<T>()
    &&& zero::<T>().mul_spec(x) == zero::<T>()
    &&& x.add_spec(zero::<T>()) == x
    &&& zero::<T>().add_spec(x) == x
}

/// 0 and 1 act as in a ring on 0 itself and on every element of `a`.
pub open spec fn grid_has_neutral_elements<T: Scalar>(a: Seq<Seq<T>>) -> bool {
    &&& zero::<T>().add_spec(zero::<T>()) == zero::<T>()
    &&& forall|i: int, j: int|
        0 <= i < a.len() && 0 <= j < a[i].len() ==> has_neutral_elements(#[trigger] a[i][j])
}

/// The dot product of `x` with column `k` of the identity, over the first
/// `m` positions, is 0 before position `k` is reached and `x[k]` after.
proof fn lemma_dot_with_unit_column<T: Scalar>(x: Seq<T>, n: nat, k: int, m: nat)
    requires
        x.len() == n,
        0 <= k < n,
        m <= n,
        zero::<T>().add_spec(zero::<T>()) == zero::<T>(),
        forall|j: int| 0 <= j < n ==> has_neutral_elements(#[trigger] x[j]),
    ensures
        dot(x, column_of(identity_grid::<T>(n), k), m) == (if m <= k {
            zero::<T>()
        } else {
            x[k]
        }),
    decreases m,
{
    if m > 0 {
        lemma_dot_with_unit_column(x, n, k, (m - 1) as nat);
        assert(has_neutral_elements(x[m - 1]));
        assert(has_neutral_elements(x[k]));
    }
}

/// The dot product of row `i` of the identity with `y`, over the first `m`
/// positions, is 0 before position `i` is reached and `y[i]` after.
proof fn lemma_dot_with_unit_row<T: Scalar>(y: Seq<T>, n: nat, i: int, m: nat)
    requires
        y.len() == n,
        0 <= i < n,
        m <= n,
        zero::<T>().add_spec(zero::<T>()) == zero::<T>(),
        forall|j: int| 0 <= j < n ==> has_neutral_elements(#[trigger] y[j]),
    ensures
        dot(identity_grid::<T>(n)[i], y, m) == (if m <= i {
            zero::<T>()
        } else {
            y[i]
        }),
    decreases m,
{
    if m > 0 {
        lemma_dot_with_unit_row(y, n, i, (m - 1) as nat);
        assert(has_neutral_elements(y[m - 1]));
        assert(has_neutral_elements(y[i]));
    }
}

/// The product of a square grid and the identity is the grid itself,
/// provided 0 and 1 act on its elements as they do in a ring.
pub proof fn lemma_product_with_identity<T: Scalar>(a: Seq<Seq<T>>, n: nat)
    requires
        is_grid(a, n, n),
        grid_has_neutral_elements(a),
    ensures
        matrix_product(a, identity_grid::<T>(n), n) == a,
{
    let p = matrix_product(a, identity_grid::<T>(n), n);
    assert forall|i: int, k: int| 0 <= i < n && 0 <= k < n implies p[i][k] == a[i][k] by {
        assert forall|j: int| 0 <= j < n implies has_neutral_elements(#[trigger] a[i][j]) by {}
        lemma_dot_with_unit_column(a[i], n, k, n);
    }
    assert(p =~~= a);
}

/// The product of the identity and a square grid is the grid itself,
/// provided 0 and 1 act on its elements as they do in a ring.
pub proof fn lemma_identity_with_product<T: Scalar>(a: Seq<Seq<T>>, n: nat)
    requires
        is_grid(a, n, n),
        grid_has_neutral_elements(a),
    ensures
        matrix_product(identity_grid::<T>(n), a, n) == a,
{
    let p = matrix_product(identity_grid::<T>(n), a, n);
    assert forall|i: int, k: int| 0 <= i < n && 0 <= k < n implies p[i][k] == a[i][k] by {
        let y = column_of(a, k);
        assert forall|j: int| 0 <= j < n implies has_neutral_elements(#[trigger] y[j]) by {
            assert(has_neutral_elements(a[j][k]));
        }
        lemma_dot_with_unit_row(y, n, i, n);
    }
    assert(p =~~= a);
}

/// On every `i64`, 0 and 1 act as they do in a ring.
proof fn lemma_i64_has_neutral_elements(x: i64)
    ensures
        has_neutral_elements::<i64>(x),
{
    assert(one::<i64>() == 1i64);
    assert(zero::<i64>() == 0i64);
    assert(x.mul_spec(1i64) == x);
    assert(1i64.mul_spec(x) == x);
    assert(x.mul_spec(0i64) == 0i64);
    assert(0i64.mul_spec(x) == 0i64);
    assert(x.add_spec(0i64) == x);
    assert(0i64.add_spec(x) == x);
}

/// For grids of `i64` the identity is neutral on both sides without any
/// condition on the elements.
pub proof fn lemma_identity_is_neutral_for_i64(a: Seq<Seq<i64>>, n: nat)
    requires
        is_grid(a, n, n),
    ensures
        matrix_product(a, identity_grid::<i64>(n), n) == a,
        matrix_product(identity_grid::<i64>(n), a, n) == a,
{
    lemma_i64_has_neutral_elements(0i64);
    assert forall|i: int, j: int| 0 <= i < a.len() && 0 <= j < a[i].len() implies
        has_neutral_elements(#[trigger] a[i][j]) by {
        lemma_i64_has_neutral_elements(a[i][j]);
    }
    lemma_product_with_identity(a, n);
    lemma_identity_with_product(a, n);
}

/// The determinant of the grid of rows `[a, b]` and `[c, d]` is `a * d - b * c`.
pub proof fn lemma_det_two_by_two<T: Scalar>(a: T, b: T, c: T, d: T)
    ensures
        det(seq![seq![a, b], seq![c, d]]) == a.mul_spec(d).sub_spec(b.mul_spec(c)),
        forall|r: T|
            is_det(seq![seq![a, b], seq![c, d]], r) <==> exists|p: T, q: T|
                is_product(a, d, p) && is_product(b, c, q) && #[trigger] is_difference(p, q, r),
{
    let g = seq![seq![a, b], seq![c, d]];
    assert(g.len() == 2);
    assert(g[0][0] == a && g[0][1] == b && g[1][0] == c && g[1][1] == d);
}

} // verus!

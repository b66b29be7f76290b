//! Rectangular grids as sequences of rows: the model in which the contracts
//! of the matrix operations are stated, and the minor of a grid.

use vstd::prelude::*;
use vstd::std_specs::ops::{AddSpec, MulSpec, DivSpec, NegSpec};
use std::ops::{Add, Mul, Div, Neg};
use crate::scalar::{
    Scalar, zero, one, is_constant, is_sum, is_product, is_quotient, is_negation,
};

verus! {

/// `g` has `rows` rows of `cols` elements each.
pub open spec fn is_grid<T>(g: Seq<Seq<T>>, rows: nat, cols: nat) -> bool {
    &&& g.len() == rows
    &&& forall|i: int| 0 <= i < rows ==> (#[trigger] g[i]).len() == cols
}

/// The rows held by a vector of vectors.
pub open spec fn rows_of<T>(v: &Vec<Vec<T>>) -> Seq<Seq<T>> {
    Seq::new(v@.len(), |i: int| v@[i]@)
}

/// The grid of `rows` by `cols` whose every element is `v`.
pub open spec fn filled<T>(v: T, rows: nat, cols: nat) -> Seq<Seq<T>> {
    Seq::new(rows, |i: int| Seq::new(cols, |j: int| v))
}

/// The rows held by an array of arrays.
pub open spec fn rows_of_array<T, const N: usize, const M: usize>(tab: [[T; M]; N]) -> Seq<Seq<T>> {
    Seq::new(N as nat, |i: int| tab@[i]@)
}

/// The grid of `cols` rows whose element `(j, i)` is element `(i, j)` of `g`.
pub open spec fn transposed<T>(g: Seq<Seq<T>>, cols: nat) -> Seq<Seq<T>> {
    Seq::new(cols, |j: int| Seq::new(g.len(), |i: int| g[i][j]))
}

/// The grid of `rows` by `cols` that agrees with `g` wherever both have an
/// element and holds 0 elsewhere.
pub open spec fn resized<T: From<i8>>(g: Seq<Seq<T>>, rows: nat, cols: nat) -> Seq<Seq<T>> {
    Seq::new(
        rows,
        |i: int|
            Seq::new(
                cols,
                |j: int|
                    if i < g.len() && j < g[i].len() {
                        g[i][j]
                    } else {
                        zero::<T>()
                    },
            ),
    )
}

/// The grid of `n` by `n` with 1 on the diagonal and 0 elsewhere.
pub open spec fn identity_grid<T: From<i8>>(n: nat) -> Seq<Seq<T>> {
    Seq::new(
        n,
        |i: int|
            Seq::new(
                n,
                |j: int|
                    if i == j {
                        one::<T>()
                    } else {
                        zero::<T>()
                    },
            ),
    )
}

/// The elementwise sum of two grids of one shape.
pub open spec fn grid_sum<T: Add<Output = T>>(a: Seq<Seq<T>>, b: Seq<Seq<T>>) -> Seq<Seq<T>> {
    Seq::new(a.len(), |i: int| Seq::new(a[i].len(), |j: int| a[i][j].add_spec(b[i][j])))
}

/// Every sum of `grid_sum(a, b)` is permitted.
pub open spec fn grid_sum_req<T: Add<Output = T>>(a: Seq<Seq<T>>, b: Seq<Seq<T>>) -> bool {
    forall|i: int, j: int|
        0 <= i < a.len() && 0 <= j < a[i].len() ==> (#[trigger] a[i][j]).add_req(b[i][j])
}

/// `r` has the shape of `a`, and each of its elements is a value that the sum
/// of the elements of `a` and `b` at its position gives.
pub open spec fn is_grid_sum<T: Add<Output = T>>(
    a: Seq<Seq<T>>,
    b: Seq<Seq<T>>,
    r: Seq<Seq<T>>,
) -> bool {
    &&& r.len() == a.len()
    &&& forall|i: int| 0 <= i < a.len() ==> (#[trigger] r[i]).len() == a[i].len()
    &&& forall|i: int, j: int|
        0 <= i < a.len() && 0 <= j < a[i].len() ==> is_sum(a[i][j], b[i][j], #[trigger] r[i][j])
}

/// The grid of the negated elements of `a`.
pub open spec fn negated<T: Neg<Output = T>>(a: Seq<Seq<T>>) -> Seq<Seq<T>> {
    Seq::new(a.len(), |i: int| Seq::new(a[i].len(), |j: int| a[i][j].neg_spec()))
}

/// Every element of `a` may be negated.
pub open spec fn negated_req<T: Neg<Output = T>>(a: Seq<Seq<T>>) -> bool {
    forall|i: int, j: int| 0 <= i < a.len() && 0 <= j < a[i].len() ==> (#[trigger] a[i][j]).neg_req()
}

/// `r` has the shape of `a`, and each of its elements is a value that
/// negating the element of `a` at its position gives.
pub open spec fn is_negated<T: Neg<Output = T>>(a: Seq<Seq<T>>, r: Seq<Seq<T>>) -> bool {
    &&& r.len() == a.len()
    &&& forall|i: int| 0 <= i < a.len() ==> (#[trigger] r[i]).len() == a[i].len()
    &&& forall|i: int, j: int|
        0 <= i < a.len() && 0 <= j < a[i].len() ==> is_negation(a[i][j], #[trigger] r[i][j])
}

/// The grid of the elements of `a`, each multiplied by `k` on the right.
pub open spec fn scaled<T: Mul<Output = T>>(a: Seq<Seq<T>>, k: T) -> Seq<Seq<T>> {
    Seq::new(a.len(), |i: int| Seq::new(a[i].len(), |j: int| a[i][j].mul_spec(k)))
}

/// Every element of `a` may be multiplied by `k`.
pub open spec fn scaled_req<T: Mul<Output = T>>(a: Seq<Seq<T>>, k: T) -> bool {
    forall|i: int, j: int|
        0 <= i < a.len() && 0 <= j < a[i].len() ==> (#[trigger] a[i][j]).mul_req(k)
}

/// `r` has the shape of `a`, and each of its elements is a value that the
/// element of `a` at its position times `k` gives.
pub open spec fn is_scaled<T: Mul<Output = T>>(a: Seq<Seq<T>>, k: T, r: Seq<Seq<T>>) -> bool {
    &&& r.len() == a.len()
    &&& forall|i: int| 0 <= i < a.len() ==> (#[trigger] r[i]).len() == a[i].len()
    &&& forall|i: int, j: int|
        0 <= i < a.len() && 0 <= j < a[i].len() ==> is_product(a[i][j], k, #[trigger] r[i][j])
}

/// The grid of the elements of `a`, each divided by `k`.
pub open spec fn divided<T: Div<Output = T>>(a: Seq<Seq<T>>, k: T) -> Seq<Seq<T>> {
    Seq::new(a.len(), |i: int| Seq::new(a[i].len(), |j: int| a[i][j].div_spec(k)))
}

/// Every element of `a` may be divided by `k`.
pub open spec fn divided_req<T: Div<Output = T>>(a: Seq<Seq<T>>, k: T) -> bool {
    forall|i: int, j: int|
        0 <= i < a.len() && 0 <= j < a[i].len() ==> (#[trigger] a[i][j]).div_req(k)
}

/// `r` has the shape of `a`, and each of its elements is a value that the
/// element of `a` at its position divided by `k` gives.
pub open spec fn is_divided<T: Div<Output = T>>(a: Seq<Seq<T>>, k: T, r: Seq<Seq<T>>) -> bool {
    &&& r.len() == a.len()
    &&& forall|i: int| 0 <= i < a.len() ==> (#[trigger] r[i]).len() == a[i].len()
    &&& forall|i: int, j: int|
        0 <= i < a.len() && 0 <= j < a[i].len() ==> is_quotient(a[i][j], k, #[trigger] r[i][j])
}

/// Column `k` of `g`, from the first row to the last.
pub open spec fn column_of<T>(g: Seq<Seq<T>>, k: int) -> Seq<T> {
    Seq::new(g.len(), |j: int| g[j][k])
}

/// The sum, taken from 0 in the order of the positions, of the products
/// `x[t] * y[t]` for the first `n` positions.
pub open spec fn dot<T: Scalar>(x: Seq<T>, y: Seq<T>, n: nat) -> T
    decreases n,
{
    if n == 0 {
        zero::<T>()
    } else {
        dot(x, y, (n - 1) as nat).add_spec(x[n - 1].mul_spec(y[n - 1]))
    }
}

/// `r` is a value that the dot product over the first `n` positions gives:
/// a 0 of `T` when `n` is 0, else a sum of such a value for `n - 1` positions
/// and a product of `x[n - 1]` and `y[n - 1]`.
pub open spec fn is_dot<T: Scalar>(x: Seq<T>, y: Seq<T>, n: nat, r: T) -> bool
    decreases n,
{
    if n == 0 {
        is_constant(0i8, r)
    } else {
        exists|acc: T, t: T|
            is_dot(x, y, (n - 1) as nat, acc) && is_product(x[n - 1], y[n - 1], t)
                && #[trigger] is_sum(acc, t, r)
    }
}

/// Every operation that computing `dot(x, y, n)` performs is permitted.
pub open spec fn dot_req<T: Scalar>(x: Seq<T>, y: Seq<T>, n: nat) -> bool
    decreases n,
{
    if n == 0 {
        true
    } else {
        &&& dot_req(x, y, (n - 1) as nat)
        &&& x[n - 1].mul_req(y[n - 1])
        &&& dot(x, y, (n - 1) as nat).add_req(x[n - 1].mul_spec(y[n - 1]))
    }
}

/// What permits `n` terms of a dot product permits the first `k` of them.
pub proof fn lemma_dot_req_prefix<T: Scalar>(x: Seq<T>, y: Seq<T>, n: nat, k: nat)
    requires
        dot_req(x, y, n),
        k <= n,
    ensures
        dot_req(x, y, k),
    decreases n,
{
    if k < n {
        lemma_dot_req_prefix(x, y, (n - 1) as nat, k);
    }
}

/// The matrix product of `a` and `b`, where `b` has `cols` columns: element
/// `(i, k)` is the dot product of row `i` of `a` and column `k` of `b`.
pub open spec fn matrix_product<T: Scalar>(a: Seq<Seq<T>>, b: Seq<Seq<T>>, cols: nat) -> Seq<Seq<T>> {
    Seq::new(a.len(), |i: int| Seq::new(cols, |k: int| dot(a[i], column_of(b, k), b.len())))
}

/// `r` has as many rows as `a` and `cols` columns, and its element `(i, k)`
/// is a value that the dot product of row `i` of `a` and column `k` of `b`
/// gives.
pub open spec fn is_matrix_product<T: Scalar>(
    a: Seq<Seq<T>>,
    b: Seq<Seq<T>>,
    cols: nat,
    r: Seq<Seq<T>>,
) -> bool {
    &&& is_grid(r, a.len(), cols)
    &&& forall|i: int, k: int|
        0 <= i < a.len() && 0 <= k < cols ==> is_dot(
            a[i],
            column_of(b, k),
            b.len(),
            #[trigger] r[i][k],
        )
}

/// Every operation that computing `matrix_product(a, b, cols)` performs is permitted.
pub open spec fn matrix_product_req<T: Scalar>(a: Seq<Seq<T>>, b: Seq<Seq<T>>, cols: nat) -> bool {
    forall|i: int, k: int|
        0 <= i < a.len() && 0 <= k < cols ==> dot_req(#[trigger] a[i], #[trigger] column_of(b, k), b.len())
}

/// The position, before position `removed` is deleted, of the element that
/// stands at position `k` afterwards.
pub open spec fn skip(k: int, removed: int) -> int {
    if k < removed {
        k
    } else {
        k + 1
    }
}

/// `row` without its element at position `c`, the others in their order.
pub open spec fn without<T>(row: Seq<T>, c: int) -> Seq<T> {
    Seq::new((row.len() - 1) as nat, |j: int| row[skip(j, c)])
}

/// `g` without row `r` and column `c`, the remaining elements in their order.
pub open spec fn minor<T>(g: Seq<Seq<T>>, r: int, c: int) -> Seq<Seq<T>> {
    Seq::new((g.len() - 1) as nat, |i: int| without(g[skip(i, r)], c))
}

/// The minor of a grid of `rows` by `cols` has one row and one column less.
pub proof fn lemma_minor_shape<T>(g: Seq<Seq<T>>, rows: nat, cols: nat, r: int, c: int)
    requires
        is_grid(g, rows, cols),
        0 <= r < rows,
        0 <= c < cols,
    ensures
        is_grid(minor(g, r, c), (rows - 1) as nat, (cols - 1) as nat),
{
}

/// Copies `row` without its element at position `column`.
fn extract_row<T: Copy>(row: &Vec<T>, column: usize) -> (out: Vec<T>)
    requires
        column < row.len(),
    ensures
        out@ == without(row@, column as int),
{
    let col = row.len();
    let mut out = Vec::<T>::with_capacity(col - 1);
    for j in 0..col
        invariant
            col == row.len(),
            column < col,
            out.len() == (if j <= column {
                j as int
            } else {
                j - 1
            }),
            forall|t: int| 0 <= t < out.len() ==> out@[t] == row@[skip(t, column as int)],
    {
        if j != column {
            out.push(row[j]);
        }
    }
    assert(out@ =~= without(row@, column as int));
    out
}

/// The minor of `tab`: a copy without row `line` and without column `column`.
///
/// The grid must be rectangular and hold the row and the column to delete.
pub fn extract<T: Copy>(tab: &Vec<Vec<T>>, line: usize, column: usize) -> (v: Vec<Vec<T>>)
    requires
        tab.len() >= 1,
        is_grid(rows_of(tab), tab.len() as nat, tab[0].len() as nat),
        line < tab.len(),
        column < tab[0].len(),
    ensures
        rows_of(&v) == minor(rows_of(tab), line as int, column as int),
{
    let l = tab.len();
    let mut v = Vec::<Vec<T>>::with_capacity(l - 1);
    for i in 0..l
        invariant
            l == tab.len(),
            line < l,
            column < tab[0].len(),
            is_grid(rows_of(tab), tab.len() as nat, tab[0].len() as nat),
            v.len() == (if i <= line {
                i as int
            } else {
                i - 1
            }),
            forall|k: int|
                0 <= k < v.len() ==> (#[trigger] v@[k])@ == without(
                    tab@[skip(k, line as int)]@,
                    column as int,
                ),
    {
        if i != line {
            assert(rows_of(tab)[i as int].len() == tab[0].len());
            let row = extract_row(&tab[i], column);
            v.push(row);
        }
    }
    assert(rows_of(&v) =~= minor(rows_of(tab), line as int, column as int));
    v
}

} // verus!

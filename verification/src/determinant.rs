//! The determinant by cofactor expansion along the first row.
//!
//! The determinant of the empty grid is 1 and that of a grid of one element
//! is that element, so that the expansion is defined for every size.

use vstd::prelude::*;
use vstd::std_specs::ops::{AddSpec, SubSpec, MulSpec};
use vstd::std_specs::cmp::PartialEqSpec;
use crate::scalar::{
    Scalar, exact, total, zero, one, sign, sign_of, make_zero, make_one, make_sign, is_constant,
    is_sum, is_difference, is_product, is_equality,
};
use crate::grid::{
    is_grid, rows_of, minor, extract, lemma_minor_shape, transposed, divided, divided_req,
    is_divided,
};

verus! {

/// The determinant of the square grid `g`.
///
/// A grid of two rows has the determinant `g[0][0] * g[1][1] - g[0][1] * g[1][0]`;
/// a larger one has the sum that `laplace` builds over all its columns.
pub open spec fn det<T: Scalar>(g: Seq<Seq<T>>) -> T
    decreases g.len(), g.len() + 1,
{
    if g.len() == 0 {
        one::<T>()
    } else if g.len() == 1 {
        g[0][0]
    } else if g.len() == 2 {
        g[0][0].mul_spec(g[1][1]).sub_spec(g[0][1].mul_spec(g[1][0]))
    } else {
        laplace(g, g.len())
    }
}

/// The sum, taken from 0 in the order of the columns, of the first `n` terms
/// of the expansion along the first row: term `j` is the sign of `j` times
/// `g[0][j]` times the determinant of the minor without row 0 and column `j`.
pub open spec fn laplace<T: Scalar>(g: Seq<Seq<T>>, n: nat) -> T
    decreases g.len(), n,
{
    if n == 0 || g.len() == 0 {
        zero::<T>()
    } else {
        let j = (n - 1) as int;
        laplace(g, (n - 1) as nat).add_spec(
            sign::<T>(j).mul_spec(g[0][j]).mul_spec(det(minor(g, 0, j))),
        )
    }
}

/// `r` is a value that computing the determinant of `g` gives: a 1 of `T`
/// for the empty grid, the element of a grid of one element, a difference
/// of the two products of a grid of two rows, and for a larger grid what the
/// expansion over all its columns gives.
pub open spec fn is_det<T: Scalar>(g: Seq<Seq<T>>, r: T) -> bool
    decreases g.len(), g.len() + 2,
{
    if g.len() == 0 {
        is_constant(1i8, r)
    } else if g.len() == 1 {
        r == g[0][0]
    } else if g.len() == 2 {
        exists|p: T, q: T|
            is_product(g[0][0], g[1][1], p) && is_product(g[0][1], g[1][0], q)
                && #[trigger] is_difference(p, q, r)
    } else {
        is_laplace(g, g.len(), r)
    }
}

/// `r` is a value that the first `n` terms of the expansion give: a 0 of `T`
/// when `n` is 0, else a sum of such a value for `n - 1` terms and of a
/// value of term `n - 1`.
pub open spec fn is_laplace<T: Scalar>(g: Seq<Seq<T>>, n: nat, r: T) -> bool
    decreases g.len(), n + 1,
{
    if n == 0 || g.len() == 0 {
        is_constant(0i8, r)
    } else {
        exists|acc: T, t: T|
            is_laplace(g, (n - 1) as nat, acc) && is_term(g, n - 1, t) && #[trigger] is_sum(
                acc,
                t,
                r,
            )
    }
}

/// `t` is a value that term `j` of the expansion gives: a product of the
/// sign of `j` and `g[0][j]`, times a determinant of the minor without row 0
/// and column `j`.
pub open spec fn is_term<T: Scalar>(g: Seq<Seq<T>>, j: int, t: T) -> bool
    decreases g.len(), 0nat,
{
    g.len() > 0 && exists|s: T, sv: T, d: T|
        #![trigger is_product(s, g[0][j], sv), is_product(sv, d, t)]
        is_constant(sign_of(j), s) && is_product(s, g[0][j], sv) && is_det(minor(g, 0, j), d)
            && is_product(sv, d, t)
}

/// Every operation that computing `det(g)` performs is permitted.
pub open spec fn det_req<T: Scalar>(g: Seq<Seq<T>>) -> bool
    decreases g.len(), g.len() + 1,
{
    if g.len() <= 1 {
        true
    } else if g.len() == 2 {
        &&& g[0][0].mul_req(g[1][1])
        &&& g[0][1].mul_req(g[1][0])
        &&& g[0][0].mul_spec(g[1][1]).sub_req(g[0][1].mul_spec(g[1][0]))
    } else {
        laplace_req(g, g.len())
    }
}

/// Every operation that computing `laplace(g, n)` performs is permitted.
pub open spec fn laplace_req<T: Scalar>(g: Seq<Seq<T>>, n: nat) -> bool
    decreases g.len(), n,
{
    if n == 0 || g.len() == 0 {
        true
    } else {
        let j = (n - 1) as int;
        &&& laplace_req(g, (n - 1) as nat)
        &&& det_req(minor(g, 0, j))
        &&& sign::<T>(j).mul_req(g[0][j])
        &&& sign::<T>(j).mul_spec(g[0][j]).mul_req(det(minor(g, 0, j)))
        &&& laplace(g, (n - 1) as nat).add_req(
            sign::<T>(j).mul_spec(g[0][j]).mul_spec(det(minor(g, 0, j))),
        )
    }
}

/// The determinant of `g` can be computed: either no operation of `T` can
/// fail, or `T` is exact and every operation on the way is permitted.
pub open spec fn det_defined<T: Scalar>(g: Seq<Seq<T>>) -> bool {
    total::<T>() || (exact::<T>() && det_req(g))
}

/// The cofactor of position `(i, j)`: the determinant of the minor without
/// row `i` and column `j`, times the sign of `i + j`.
pub open spec fn cofactor<T: Scalar>(g: Seq<Seq<T>>, i: int, j: int) -> T {
    det(minor(g, i, j)).mul_spec(sign::<T>(i + j))
}

/// Every operation that computing `cofactor(g, i, j)` performs is permitted.
pub open spec fn cofactor_req<T: Scalar>(g: Seq<Seq<T>>, i: int, j: int) -> bool {
    &&& det_req(minor(g, i, j))
    &&& det(minor(g, i, j)).mul_req(sign::<T>(i + j))
}

/// The grid of the cofactors of the square grid `g`.
pub open spec fn comatrix_grid<T: Scalar>(g: Seq<Seq<T>>) -> Seq<Seq<T>> {
    Seq::new(g.len(), |i: int| Seq::new(g.len(), |j: int| cofactor(g, i, j)))
}

/// Every operation that computing `comatrix_grid(g)` performs is permitted.
pub open spec fn comatrix_req<T: Scalar>(g: Seq<Seq<T>>) -> bool {
    forall|i: int, j: int| 0 <= i < g.len() && 0 <= j < g.len() ==> #[trigger] cofactor_req(g, i, j)
}

/// `r` is a value that computing the cofactor of position `(i, j)` gives: a
/// determinant of the minor times the sign of `i + j`.
pub open spec fn is_cofactor<T: Scalar>(g: Seq<Seq<T>>, i: int, j: int, r: T) -> bool {
    exists|d: T, s: T|
        is_det(minor(g, i, j), d) && is_constant(sign_of(i + j), s) && #[trigger] is_product(
            d,
            s,
            r,
        )
}

/// `r` is a square grid of the size of `g` whose every element is a value of
/// the cofactor of its position.
pub open spec fn is_comatrix<T: Scalar>(g: Seq<Seq<T>>, r: Seq<Seq<T>>) -> bool {
    &&& is_grid(r, g.len(), g.len())
    &&& forall|i: int, j: int|
        0 <= i < g.len() && 0 <= j < g.len() ==> is_cofactor(g, i, j, #[trigger] r[i][j])
}

/// `b` is an answer that comparing `d` with a 0 of `T` gives.
pub open spec fn is_zero_test<T: Scalar>(d: T, b: bool) -> bool {
    exists|z: T| is_constant(0i8, z) && #[trigger] is_equality(d, z, b)
}

/// `r` is a grid that Cramer's rule gives for `g` and the determinant `d`:
/// a transposed comatrix of `g`, each element divided by `d`.
pub open spec fn is_inverse_by<T: Scalar>(g: Seq<Seq<T>>, d: T, r: Seq<Seq<T>>) -> bool {
    exists|c: Seq<Seq<T>>| is_comatrix(g, c) && #[trigger] is_divided(transposed(c, g.len()), d, r)
}

/// The comatrix of `g` can be computed: either no operation of `T` can fail,
/// or `T` is exact and every operation on the way is permitted.
pub open spec fn comatrix_defined<T: Scalar>(g: Seq<Seq<T>>) -> bool {
    total::<T>() || (exact::<T>() && comatrix_req(g))
}

/// The determinant of `g` compares equal to 0.
pub open spec fn singular<T: Scalar>(g: Seq<Seq<T>>) -> bool {
    det(g).eq_spec(&zero::<T>())
}

/// The inverse of the square grid `g` by Cramer's rule: the transposed
/// comatrix, each element divided by the determinant.
pub open spec fn inverse_grid<T: Scalar>(g: Seq<Seq<T>>) -> Seq<Seq<T>> {
    divided(transposed(comatrix_grid(g), g.len()), det(g))
}

/// Every operation that inverting `g` performs is permitted: those of the
/// determinant and, unless `g` is singular, those of the comatrix and of the
/// division.
pub open spec fn inverse_req<T: Scalar>(g: Seq<Seq<T>>) -> bool {
    &&& det_req(g)
    &&& !singular(g) ==> {
        &&& comatrix_req(g)
        &&& divided_req(transposed(comatrix_grid(g), g.len()), det(g))
    }
}

/// The inverse of `g` can be attempted: either no operation of `T` can fail,
/// or `T` is exact and every operation on the way is permitted.
pub open spec fn inverse_defined<T: Scalar>(g: Seq<Seq<T>>) -> bool {
    total::<T>() || (exact::<T>() && inverse_req(g))
}

/// What permits `n` terms of the expansion permits the first `k` of them.
pub proof fn lemma_laplace_req_prefix<T: Scalar>(g: Seq<Seq<T>>, n: nat, k: nat)
    requires
        laplace_req(g, n),
        k <= n,
    ensures
        laplace_req(g, k),
    decreases n,
{
    if k < n {
        lemma_laplace_req_prefix(g, (n - 1) as nat, k);
    }
}

/// The determinant of the square grid `tab`, by cofactor expansion along its
/// first row.
pub fn sub_det<T: Scalar>(tab: &Vec<Vec<T>>) -> (d: T)
    requires
        is_grid(rows_of(tab), tab.len() as nat, tab.len() as nat),
        det_defined(rows_of(tab)),
    ensures
        is_det(rows_of(tab), d),
        exact::<T>() ==> d == det(rows_of(tab)),
    decreases tab.len(),
{
    let n = tab.len();
    let ghost g = rows_of(tab);
    if n == 0 {
        return make_one::<T>();
    }
    assert(g[0].len() == n);
    if n == 1 {
        return tab[0][0];
    }
    assert(g[1].len() == n);
    if n == 2 {
        let p = tab[0][0] * tab[1][1];
        let q = tab[0][1] * tab[1][0];
        let d = p - q;
        assert(is_difference(p, q, d));
        return d;
    }
    let mut d = make_zero::<T>();
    for j in 0..n
        invariant
            n == tab.len(),
            n > 2,
            g == rows_of(tab),
            is_grid(g, n as nat, n as nat),
            total::<T>() || (exact::<T>() && laplace_req(g, n as nat)),
            is_laplace(g, j as nat, d),
            exact::<T>() ==> d == laplace(g, j as nat),
    {
        proof {
            lemma_minor_shape(g, n as nat, n as nat, 0, j as int);
            if !total::<T>() {
                lemma_laplace_req_prefix(g, n as nat, (j + 1) as nat);
            }
        }
        assert(g[0].len() == n);
        let b = extract(tab, 0, j);
        let bsign = make_sign::<T>(j % 2 == 0);
        let bvalue = tab[0][j];
        let bdet = sub_det(&b);
        let signed = bsign * bvalue;
        let term = signed * bdet;
        assert(is_term(g, j as int, term)) by {
            assert(is_constant(sign_of(j as int), bsign));
            assert(is_det(minor(g, 0, j as int), bdet));
            assert(is_product(bsign, g[0][j as int], signed) && is_product(signed, bdet, term));
        }
        let ghost before = d;
        d = d + term;
        assert(is_laplace(g, (j + 1) as nat, d)) by {
            assert(is_laplace(g, j as nat, before));
            assert(is_sum(before, term, d));
        }
    }
    d
}

} // verus!

//! Fixed-dimension matrices and vectors with verified arithmetic.
//!
//! `Matrix<T, N, M>` is a grid of `N` rows and `M` columns, `Vector<T, N>` a
//! sequence of `N` elements; the dimensions belong to the type, so that
//! operands of the wrong shape do not compile. A matrix is viewed as a
//! sequence of rows (`Seq<Seq<T>>`), a vector as a sequence of elements.
//!
//! The element type is generic: every contract is stated over what `vstd`
//! attaches to the operator traits of `core::ops`, so the same verified code
//! serves machine integers and floating-point elements alike. The module
//! `scalar` explains how contracts speak of the arithmetic of the elements.
//!
//! Determinants are computed by cofactor expansion along the first row, the
//! inverse by Cramer's rule; a matrix is singular when its determinant
//! compares equal to 0, with no tolerance.

pub mod scalar;
pub mod grid;
pub mod determinant;
pub mod error;
pub mod matrix;
pub mod operators;
pub mod laws;
pub mod square;
pub mod text;
pub mod vector;

pub use error::MatrixError;
pub use matrix::Matrix;
pub use vector::Vector;

use linalg::determinant::sub_det;
use linalg::grid::extract;
use linalg::{Matrix, MatrixError};

fn close(a: f32, b: f32) -> bool {
    (a - b).abs() <= 1e-4
}

fn close_grids(a: &Vec<Vec<f32>>, b: &Vec<Vec<f32>>) -> bool {
    a.len() == b.len()
        && a.iter().zip(b.iter()).all(|(x, y)| {
            x.len() == y.len() && x.iter().zip(y.iter()).all(|(p, q)| close(*p, *q))
        })
}

#[test]
fn extract_removes_one_row_and_one_column() {
    let g = vec![vec![1, 2, 3], vec![4, 5, 6], vec![7, 8, 9]];
    assert_eq!(extract(&g, 0, 0), vec![vec![5, 6], vec![8, 9]]);
    assert_eq!(extract(&g, 1, 1), vec![vec![1, 3], vec![7, 9]]);
    assert_eq!(extract(&g, 2, 0), vec![vec![2, 3], vec![5, 6]]);
    assert_eq!(extract(&g, 0, 2), vec![vec![4, 5], vec![7, 8]]);
}

#[test]
fn extract_works_on_rectangles() {
    let g = vec![vec![1.0f32, 2.0, 3.0, 4.0], vec![5.0, 6.0, 7.0, 8.0]];
    assert_eq!(extract(&g, 1, 2), vec![vec![1.0f32, 2.0, 4.0]]);
    assert_eq!(extract(&g, 0, 3), vec![vec![5.0f32, 6.0, 7.0]]);
}

#[test]
fn extract_of_a_single_element_is_empty() {
    let g = vec![vec![5i32]];
    assert_eq!(extract(&g, 0, 0), Vec::<Vec<i32>>::new());
}

#[test]
fn determinant_of_two_by_two() {
    let m = Matrix::construct([[3.0f32, 8.0], [4.0, 6.0]]);
    assert_eq!(m.det(), 3.0 * 6.0 - 8.0 * 4.0);
    let k = Matrix::construct([[1i64, 2], [3, 4]]);
    assert_eq!(k.det(), -2);
    assert_eq!(sub_det(&vec![vec![7i64, -3], vec![2, 5]]), 41);
}

#[test]
fn determinant_of_three_by_three() {
    let m = Matrix::construct([[2.0f32, 3.0, 4.0], [2.0, 1.0, 4.0], [5.0, 1.0, 0.0]]);
    assert_eq!(m.det(), 40.0);
    let k = Matrix::construct([[6i64, 1, 1], [4, -2, 5], [2, 8, 7]]);
    assert_eq!(k.det(), -306);
}

#[test]
fn determinant_of_four_by_four() {
    let k = Matrix::construct([[1i64, 0, 2, -1], [3, 0, 0, 5], [2, 1, 4, -3], [1, 0, 5, 0]]);
    assert_eq!(k.det(), 30);
}

#[test]
fn determinant_of_five_by_five() {
    let m = Matrix::construct([
        [3.0f32, 0.0, 2.0, 1.0, 0.0],
        [8.0, 2.0, 6.0, 2.0, 0.0],
        [2.0, 6.0, 2.0, 8.0, 4.0],
        [0.0, 6.0, 8.0, 8.0, 8.0],
        [8.0, 5.0, 4.0, 9.0, 8.0],
    ]);
    let k = Matrix::construct([
        [3i64, 0, 2, 1, 0],
        [8, 2, 6, 2, 0],
        [2, 6, 2, 8, 4],
        [0, 6, 8, 8, 8],
        [8, 5, 4, 9, 8],
    ]);
    assert_eq!(m.det(), k.det() as f32);
}

#[test]
fn determinant_of_the_identity_is_one() {
    assert_eq!(Matrix::<i64, 4, 4>::identity().det(), 1);
    assert_eq!(Matrix::<f32, 3, 3>::identity().det(), 1.0);
}

#[test]
fn determinant_of_a_single_element_is_the_element() {
    assert_eq!(Matrix::construct([[7.5f32]]).det(), 7.5);
    assert_eq!(sub_det(&vec![vec![-4i32]]), -4);
}

#[test]
fn determinant_of_the_empty_matrix_is_one() {
    assert_eq!(Matrix::<i64, 0, 0>::zero().det(), 1);
    assert_eq!(sub_det(&Vec::<Vec<f32>>::new()), 1.0);
}

#[test]
fn comatrix_holds_the_cofactors() {
    let m = Matrix::construct([[2i64, 3, 4], [2, 1, 4], [5, 1, 0]]);
    assert_eq!(
        m.comatrix().to_vec(),
        vec![vec![-4, 20, -3], vec![4, -20, 13], vec![8, 0, -4]]
    );
    let k = Matrix::construct([[1i64, 2], [3, 4]]);
    assert_eq!(k.comatrix().to_vec(), vec![vec![4, -3], vec![-2, 1]]);
}

#[test]
fn inverse_of_the_reference_matrix() {
    let m = Matrix::construct([[2.0f32, 3.0, 4.0], [2.0, 1.0, 4.0], [5.0, 1.0, 0.0]]);
    assert!(close(m.det(), 40.0));
    let inv = m.inverse().unwrap();
    let expected = vec![
        vec![-0.1f32, 0.1, 0.2],
        vec![0.5, -0.5, 0.0],
        vec![-0.075, 0.325, -0.1],
    ];
    assert!(close_grids(&inv.to_vec(), &expected));
}

#[test]
fn inverse_of_two_by_two() {
    let m = Matrix::construct([[4.0f32, 7.0], [2.0, 6.0]]);
    let inv = m.inverse().unwrap();
    assert!(close_grids(&inv.to_vec(), &vec![vec![0.6f32, -0.7], vec![-0.2, 0.4]]));
    let k = Matrix::construct([[2i64, 1], [1, 1]]);
    assert_eq!(k.inverse().unwrap().to_vec(), vec![vec![1, -1], vec![-1, 2]]);
}

#[test]
fn inverse_of_a_single_element() {
    let m = Matrix::construct([[4.0f32]]);
    assert_eq!(m.inverse().unwrap().to_vec(), vec![vec![0.25f32]]);
}

#[test]
fn matrix_times_inverse_is_the_identity() {
    let a = Matrix::construct([[2.0f32, 3.0, 4.0], [2.0, 1.0, 4.0], [5.0, 1.0, 0.0]]);
    let i = Matrix::<f32, 3, 3>::identity().to_vec();
    assert!(close_grids(&(a * a.inverse().unwrap()).to_vec(), &i));
    assert!(close_grids(&(a.inverse().unwrap() * a).to_vec(), &i));
    let b = Matrix::construct([
        [3.0f32, 0.0, 2.0, 1.0, 0.0],
        [8.0, 2.0, 6.0, 2.0, 0.0],
        [2.0, 6.0, 2.0, 8.0, 4.0],
        [0.0, 6.0, 8.0, 8.0, 8.0],
        [8.0, 5.0, 4.0, 9.0, 8.0],
    ]);
    let j = Matrix::<f32, 5, 5>::identity().to_vec();
    assert!(close_grids(&(b * b.inverse().unwrap()).to_vec(), &j));
    let c = Matrix::construct([[4.0f32, 7.0], [2.0, 6.0]]);
    let k = Matrix::<f32, 2, 2>::identity().to_vec();
    assert!(close_grids(&(c * c.inverse().unwrap()).to_vec(), &k));
}

#[test]
fn inverse_of_a_singular_matrix_fails() {
    let m = Matrix::construct([[1.0f32, 2.0, 3.0], [1.0, 2.0, 3.0], [4.0, 5.0, 6.0]]);
    assert_eq!(m.det(), 0.0);
    assert_eq!(m.inverse().err(), Some(MatrixError::SingularMatrix));
    let z = Matrix::<f32, 2, 2>::zero();
    assert!(matches!(z.inverse(), Err(MatrixError::SingularMatrix)));
    let k = Matrix::construct([[2i64, 4], [1, 2]]);
    assert!(matches!(k.inverse(), Err(MatrixError::SingularMatrix)));
}

#[test]
fn a_tiny_nonzero_determinant_is_not_singular() {
    let m = Matrix::construct([[1.0e-20f32, 0.0], [0.0, 1.0e-20]]);
    assert!(m.det() != 0.0);
    assert!(m.inverse().is_ok());
}

#[test]
fn the_error_has_a_message() {
    assert_eq!(MatrixError::SingularMatrix.message(), "matrix is uninversible. det == 0");
}

use linalg::Matrix;

#[test]
fn zero_fills_with_zero() {
    let m = Matrix::<f32, 2, 3>::zero();
    assert_eq!(m.to_vec(), vec![vec![0.0f32, 0.0, 0.0], vec![0.0, 0.0, 0.0]]);
    let k = Matrix::<i64, 3, 3>::zero();
    assert_eq!(k.to_vec(), vec![vec![0i64; 3]; 3]);
}

#[test]
fn value_fills_with_the_value() {
    let m = Matrix::<f32, 3, 3>::value(3.0);
    assert_eq!(m.to_vec(), vec![vec![3.0f32; 3]; 3]);
    let k = Matrix::<i32, 1, 4>::value(-7);
    assert_eq!(k.to_vec(), vec![vec![-7, -7, -7, -7]]);
}

#[test]
fn construct_keeps_the_rows() {
    let m = Matrix::construct([[1.5f32, 2.5], [3.5, 4.5], [5.5, 6.5]]);
    assert_eq!(m.to_vec(), vec![vec![1.5f32, 2.5], vec![3.5, 4.5], vec![5.5, 6.5]]);
}

#[test]
fn construct_copies_its_argument() {
    let mut rows = [[1i32, 2], [3, 4]];
    let m = Matrix::construct(rows);
    rows[0][0] = 99;
    assert_eq!(m.to_vec(), vec![vec![1, 2], vec![3, 4]]);
}

#[test]
fn to_vec_is_a_copy() {
    let m = Matrix::construct([[1i32, 2], [3, 4]]);
    let mut v = m.to_vec();
    v[0][0] = 42;
    assert_eq!(m[0][0], 1);
    assert_eq!(m.to_vec(), vec![vec![1, 2], vec![3, 4]]);
}

#[test]
fn counts_come_from_the_type() {
    let m = Matrix::<f32, 2, 5>::zero();
    assert_eq!(m.line(), 2);
    assert_eq!(m.column(), 5);
    assert_eq!(m.len(), 10);
    let e = Matrix::<f32, 0, 5>::zero();
    assert_eq!(e.line(), 0);
    assert_eq!(e.column(), 5);
    assert_eq!(e.len(), 0);
    assert_eq!(e.to_vec(), Vec::<Vec<f32>>::new());
}

#[test]
fn resize_up_pads_with_zero() {
    let m = Matrix::construct([[1.0f32, 2.0], [3.0, 4.0]]);
    let r = Matrix::<f32, 2, 2>::from::<3, 3>(&m);
    assert_eq!(
        r.to_vec(),
        vec![vec![1.0f32, 2.0, 0.0], vec![3.0, 4.0, 0.0], vec![0.0, 0.0, 0.0]]
    );
}

#[test]
fn resize_down_truncates() {
    let m = Matrix::construct([[1.0f32, 2.0], [3.0, 4.0]]);
    let r = Matrix::<f32, 2, 2>::from::<1, 1>(&m);
    assert_eq!(r.to_vec(), vec![vec![1.0f32]]);
}

#[test]
fn resize_mixed_truncates_rows_and_pads_columns() {
    let m = Matrix::construct([[1i64, 2], [3, 4], [5, 6]]);
    let r = Matrix::<i64, 3, 2>::from::<2, 4>(&m);
    assert_eq!(r.to_vec(), vec![vec![1, 2, 0, 0], vec![3, 4, 0, 0]]);
    let s = Matrix::<i64, 3, 2>::from::<4, 1>(&m);
    assert_eq!(s.to_vec(), vec![vec![1], vec![3], vec![5], vec![0]]);
}

#[test]
fn resize_to_the_same_shape_is_a_copy() {
    let m = Matrix::construct([[1i64, 2], [3, 4]]);
    let r = Matrix::<i64, 2, 2>::from::<2, 2>(&m);
    assert_eq!(r.to_vec(), m.to_vec());
}

#[test]
fn transpose_swaps_rows_and_columns() {
    let m = Matrix::construct([[1.0f32, 2.0, 3.0], [4.0, 5.0, 6.0]]);
    let t = m.tranpose();
    assert_eq!(t.line(), 3);
    assert_eq!(t.column(), 2);
    assert_eq!(t.to_vec(), vec![vec![1.0f32, 4.0], vec![2.0, 5.0], vec![3.0, 6.0]]);
}

#[test]
fn transpose_twice_is_the_identity() {
    let m = Matrix::construct([[1.0f32, 2.0, 3.0], [4.0, 5.0, 6.0]]);
    assert_eq!(m.tranpose().tranpose().to_vec(), m.to_vec());
    let k = Matrix::construct([[7i64], [8], [9]]);
    assert_eq!(k.tranpose().tranpose().to_vec(), k.to_vec());
}

#[test]
fn transpose_of_a_sum_is_the_sum_of_the_transposes() {
    let a = Matrix::construct([[1.0f32, 2.0, 3.0], [4.0, 5.0, 6.0], [7.0, 8.0, 9.0]]);
    let b = Matrix::construct([[0.5f32, -1.0, 2.0], [3.0, 0.25, -6.0], [1.0, 1.0, 1.0]]);
    let left = (a + b).tranpose();
    let right = a.tranpose() + b.tranpose();
    assert_eq!(left.to_vec(), right.to_vec());
    assert_eq!(
        left.to_vec(),
        vec![vec![1.5f32, 7.0, 8.0], vec![1.0, 5.25, 9.0], vec![5.0, 0.0, 10.0]]
    );
}

#[test]
fn rows_are_read_by_index() {
    let m = Matrix::construct([[1i32, 2, 3], [4, 5, 6]]);
    assert_eq!(m[0], [1, 2, 3]);
    assert_eq!(m[1], [4, 5, 6]);
    assert_eq!(m[1][2], 6);
}

#[test]
fn elements_are_written_by_index() {
    let mut m = Matrix::<f32, 2, 2>::zero();
    m[0][1] = 5.0;
    m[1] = [7.0, 8.0];
    assert_eq!(m.to_vec(), vec![vec![0.0f32, 5.0], vec![7.0, 8.0]]);
}

#[test]
fn a_matrix_is_copied_on_assignment() {
    let a = Matrix::construct([[1i32, 2], [3, 4]]);
    let mut b = a;
    b[0][0] = 10;
    let c = a.clone();
    assert_eq!(a.to_vec(), vec![vec![1, 2], vec![3, 4]]);
    assert_eq!(b.to_vec(), vec![vec![10, 2], vec![3, 4]]);
    assert_eq!(c.to_vec(), a.to_vec());
}

use linalg::Matrix;

#[test]
fn add_is_elementwise() {
    let a = Matrix::construct([[1.0f32, 2.0], [3.0, 4.0]]);
    let b = Matrix::construct([[10.0f32, 20.0], [30.0, 40.0]]);
    let c = Matrix::add(&a, &b);
    assert_eq!(c.to_vec(), vec![vec![11.0f32, 22.0], vec![33.0, 44.0]]);
    assert_eq!((a + b).to_vec(), c.to_vec());
}

#[test]
fn negative_flips_every_sign() {
    let a = Matrix::construct([[1.0f32, -2.0], [0.5, 4.0]]);
    assert_eq!(a.negative().to_vec(), vec![vec![-1.0f32, 2.0], vec![-0.5, -4.0]]);
    let k = Matrix::construct([[1i64, -2, 0]]);
    assert_eq!(k.negative().to_vec(), vec![vec![-1, 2, 0]]);
}

#[test]
fn sub_is_elementwise() {
    let a = Matrix::construct([[10i64, 20], [30, 40]]);
    let b = Matrix::construct([[1i64, 2], [3, 4]]);
    assert_eq!((a - b).to_vec(), vec![vec![9, 18], vec![27, 36]]);
    let x = Matrix::construct([[1.5f32, 2.0]]);
    let y = Matrix::construct([[0.5f32, 4.0]]);
    assert_eq!((x - y).to_vec(), vec![vec![1.0f32, -2.0]]);
}

#[test]
fn scalar_product_multiplies_every_element() {
    let a = Matrix::construct([[1.0f32, -2.0], [0.5, 4.0]]);
    assert_eq!((a * 2.0).to_vec(), vec![vec![2.0f32, -4.0], vec![1.0, 8.0]]);
    let k = Matrix::construct([[1i32, 2], [3, 4]]);
    assert_eq!((k * 3).to_vec(), vec![vec![3, 6], vec![9, 12]]);
}

#[test]
fn scalar_quotient_divides_every_element() {
    let a = Matrix::construct([[1.0f32, -2.0], [0.5, 4.0]]);
    assert_eq!((a / 2.0).to_vec(), vec![vec![0.5f32, -1.0], vec![0.25, 2.0]]);
    let k = Matrix::construct([[7i32, -7], [9, 0]]);
    assert_eq!((k / 2).to_vec(), vec![vec![3, -3], vec![4, 0]]);
}

#[test]
fn dividing_by_zero_gives_infinities_and_nan() {
    let a = Matrix::construct([[1.0f32, -2.0, 0.0]]);
    let q = (a / 0.0).to_vec();
    assert_eq!(q[0][0], f32::INFINITY);
    assert_eq!(q[0][1], f32::NEG_INFINITY);
    assert!(q[0][2].is_nan());
}

#[test]
fn product_of_square_matrices() {
    let a = Matrix::construct([[1i64, 2], [3, 4]]);
    let b = Matrix::construct([[5i64, 6], [7, 8]]);
    assert_eq!((a * b).to_vec(), vec![vec![19, 22], vec![43, 50]]);
    assert_eq!((b * a).to_vec(), vec![vec![23, 34], vec![31, 46]]);
}

#[test]
fn product_of_rectangular_matrices() {
    let a = Matrix::construct([[1.0f32, 2.0, 3.0], [4.0, 5.0, 6.0]]);
    let b = Matrix::construct([[7.0f32, 8.0], [9.0, 10.0], [11.0, 12.0]]);
    let p = a * b;
    assert_eq!(p.line(), 2);
    assert_eq!(p.column(), 2);
    assert_eq!(p.to_vec(), vec![vec![58.0f32, 64.0], vec![139.0, 154.0]]);
    let q = b * a;
    assert_eq!(
        q.to_vec(),
        vec![vec![39.0f32, 54.0, 69.0], vec![49.0, 68.0, 87.0], vec![59.0, 82.0, 105.0]]
    );
}

#[test]
fn product_of_a_row_and_a_column() {
    let a = Matrix::construct([[1i32, 2, 3, 4]]);
    let b = Matrix::construct([[1i32], [10], [100], [1000]]);
    assert_eq!((a * b).to_vec(), vec![vec![4321]]);
}

#[test]
fn identity_has_ones_on_the_diagonal() {
    let i = Matrix::<f32, 3, 3>::identity();
    assert_eq!(
        i.to_vec(),
        vec![vec![1.0f32, 0.0, 0.0], vec![0.0, 1.0, 0.0], vec![0.0, 0.0, 1.0]]
    );
    let one = Matrix::<i64, 1, 1>::identity();
    assert_eq!(one.to_vec(), vec![vec![1]]);
}

#[test]
fn identity_is_neutral_for_the_product() {
    let a = Matrix::construct([[2.0f32, 3.0, 4.0], [2.0, 1.0, 4.0], [5.0, 1.0, 0.0]]);
    let i = Matrix::<f32, 3, 3>::identity();
    assert_eq!((a * i).to_vec(), a.to_vec());
    assert_eq!((i * a).to_vec(), a.to_vec());
    let k = Matrix::construct([[-1i64, 7], [9, 12]]);
    let j = Matrix::<i64, 2, 2>::identity();
    assert_eq!((k * j).to_vec(), k.to_vec());
    assert_eq!((j * k).to_vec(), k.to_vec());
}

#[test]
fn product_with_a_wider_left_side_sums_over_every_column() {
    let a = Matrix::construct([[1i64, 2, 3]]);
    let b = Matrix::construct([[1i64, 0], [0, 1], [1, 1]]);
    assert_eq!((a * b).to_vec(), vec![vec![4, 5]]);
    let c = Matrix::construct([[1i64], [2], [3]]);
    let d = Matrix::construct([[4i64, 5]]);
    assert_eq!((c * d).to_vec(), vec![vec![4, 5], vec![8, 10], vec![12, 15]]);
}

#[test]
fn constants_of_the_element_type() {
    assert_eq!(linalg::scalar::make_zero::<f32>(), 0.0);
    assert_eq!(linalg::scalar::make_one::<i64>(), 1);
    assert_eq!(linalg::scalar::make_sign::<f32>(true), 1.0);
    assert_eq!(linalg::scalar::make_sign::<i32>(false), -1);
}

use linalg::Vector;

#[test]
fn new_holds_default_values() {
    let v = Vector::<usize, 3>::new();
    assert_eq!(v.to_vec(), vec![0, 0, 0]);
    let w = Vector::<f32, 2>::new();
    assert_eq!(w.to_vec(), vec![0.0f32, 0.0]);
    let b = Vector::<bool, 2>::default();
    assert_eq!(b.to_vec(), vec![false, false]);
}

#[test]
fn value_fills_the_vector() {
    let v = Vector::<i32, 4>::value(9);
    assert_eq!(v.to_vec(), vec![9, 9, 9, 9]);
}

#[test]
fn len_is_the_dimension() {
    assert_eq!(Vector::<u8, 5>::new().len(), 5);
    assert_eq!(Vector::<u8, 0>::new().len(), 0);
}

#[test]
fn as_ref_gives_the_elements() {
    let mut v = Vector::<i32, 3>::value(1);
    v[1] = 2;
    v[2] = 3;
    assert_eq!(v.as_ref(), &[1, 2, 3]);
    assert_eq!(v.to_vec(), vec![1, 2, 3]);
}

#[test]
fn elements_are_read_and_written_by_index() {
    let mut v = Vector::<usize, 3>::new();
    v[0] = 12;
    assert_eq!(v[0], 12);
    assert_eq!(v[1], 0);
    assert_eq!(v.to_vec(), vec![12, 0, 0]);
}

#[test]
fn vector_sum_is_elementwise() {
    let mut a = Vector::<i32, 3>::value(1);
    a[2] = 5;
    let b = Vector::<i32, 3>::value(10);
    assert_eq!((a + b).to_vec(), vec![11, 11, 15]);
}

#[test]
fn vector_difference_is_elementwise() {
    let mut a = Vector::<f32, 2>::value(1.5);
    a[1] = -2.0;
    let b = Vector::<f32, 2>::value(0.5);
    assert_eq!((a - b).to_vec(), vec![1.0f32, -2.5]);
}

#[test]
fn vector_product_is_elementwise() {
    let mut a = Vector::<i64, 3>::value(2);
    a[0] = -3;
    let mut b = Vector::<i64, 3>::value(7);
    b[2] = 0;
    assert_eq!((a * b).to_vec(), vec![-21, 14, 0]);
}

#[test]
fn vector_quotient_is_elementwise() {
    let mut a = Vector::<f32, 3>::value(1.0);
    a[1] = 9.0;
    let mut b = Vector::<f32, 3>::value(2.0);
    b[2] = 4.0;
    assert_eq!((a / b).to_vec(), vec![0.5f32, 4.5, 0.25]);
    let c = Vector::<u32, 2>::value(7);
    let d = Vector::<u32, 2>::value(2);
    assert_eq!((c / d).to_vec(), vec![3, 3]);
}

#[test]
fn a_vector_is_copied_on_assignment() {
    let a = Vector::<i32, 2>::value(4);
    let mut b = a;
    b[0] = 9;
    let c = a.clone();
    assert_eq!(a.to_vec(), vec![4, 4]);
    assert_eq!(b.to_vec(), vec![9, 4]);
    assert_eq!(c.to_vec(), a.to_vec());
}

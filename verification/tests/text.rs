use linalg::text::{grid_to_text, list_to_text};
use linalg::{Matrix, Vector};

#[test]
fn matrix_text_has_one_line_for_each_row() {
    let m = Matrix::construct([[1i32, 2, 3], [4, 5, 6]]);
    assert_eq!(m.to_text(), " 1  2  3 \n 4  5  6 \n");
}

#[test]
fn matrix_text_of_floats() {
    let m = Matrix::construct([[0.5f32, -2.0], [3.25, 4.0]]);
    assert_eq!(m.to_text(), " 0.5  -2 \n 3.25  4 \n");
}

#[test]
fn matrix_text_of_an_empty_matrix_is_empty() {
    assert_eq!(Matrix::<f32, 0, 3>::zero().to_text(), "");
    assert_eq!(Matrix::<f32, 2, 0>::zero().to_text(), "\n\n");
}

#[test]
fn vector_text_is_bracketed() {
    let mut v = Vector::<usize, 3>::new();
    v[0] = 12;
    assert_eq!(v.to_text(), "[ 12 0 0  ]\n");
    assert_eq!(Vector::<i32, 0>::new().to_text(), "[  ]\n");
}

#[test]
fn grid_to_text_lays_out_given_cells() {
    let cells = vec![
        vec![String::from("a"), String::from("bc")],
        vec![String::from(""), String::from("d")],
    ];
    assert_eq!(grid_to_text(&cells), " a  bc \n   d \n");
}

#[test]
fn list_to_text_lays_out_given_cells() {
    let cells = vec![String::from("x"), String::from("yz")];
    assert_eq!(list_to_text(&cells), "[ x yz  ]\n");
}

#[test]
fn vector_text_of_floats() {
    let mut v = Vector::<f32, 2>::value(1.5);
    v[1] = -3.0;
    assert_eq!(v.to_text(), "[ 1.5 -3  ]\n");
}

use mathlib::matrices::{cofactor_sign_is_positive, submatrix_grid};

#[test]
fn matrix_submatrix_3_3() {
    let l: Vec<f64> = vec![1.0, 5.0, 0.0, -3.0, 2.0, 7.0, 0.0, 6.0, -3.0];
    assert_eq!(submatrix_grid(&l, 3, 0, 2), vec![-3.0, 2.0, 0.0, 6.0]);
    assert_eq!(submatrix_grid(&l, 3, 2, 2), vec![1.0, 5.0, -3.0, 2.0]);
    assert_eq!(submatrix_grid(&l, 3, 1, 1), vec![1.0, 0.0, 0.0, -3.0]);
}

#[test]
fn matrix_submatrix_4_4() {
    let l: Vec<f64> = vec![
        -6.0, 1.0, 1.0, 6.0, //
        -8.0, 5.0, 8.0, 6.0, //
        -1.0, 0.0, 8.0, 2.0, //
        -7.0, 1.0, -1.0, 1.0,
    ];
    let exp: Vec<f64> = vec![-6.0, 1.0, 6.0, -8.0, 8.0, 6.0, -7.0, -1.0, 1.0];
    assert_eq!(submatrix_grid(&l, 4, 2, 1), exp);
}

#[test]
fn cofactor_signs_form_a_checkerboard() {
    assert!(cofactor_sign_is_positive(0, 0));
    assert!(!cofactor_sign_is_positive(1, 0));
    assert!(!cofactor_sign_is_positive(0, 1));
    assert!(cofactor_sign_is_positive(1, 1));
    assert!(cofactor_sign_is_positive(3, 1));
    assert!(!cofactor_sign_is_positive(3, 2));
}

#[test]
fn submatrix_of_a_2x2_is_a_single_cell() {
    let l: Vec<u32> = vec![1, 2, 3, 4];
    assert_eq!(submatrix_grid(&l, 2, 0, 0), vec![4]);
    assert_eq!(submatrix_grid(&l, 2, 1, 0), vec![2]);
    assert_eq!(submatrix_grid(&l, 2, 1, 1), vec![1]);
}

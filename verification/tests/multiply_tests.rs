use parallel_matrix_multiply::matrix::ShapeError;
use parallel_matrix_multiply::multiply::{
    compute_inner_prods, multiply_multi_threaded, multiply_single_threaded,
};
use parallel_matrix_multiply::oracle::matrices_equal;
use parallel_matrix_multiply::random::{gen_random_matrix, RANDOM_MAX, RANDOM_MIN};

#[test]
fn two_by_two_product() {
    let a: Vec<Vec<i64>> = vec![vec![1, 2], vec![3, 4]];
    let b: Vec<Vec<i64>> = vec![vec![5, 6], vec![7, 8]];
    let expected: Vec<Vec<i64>> = vec![vec![19, 22], vec![43, 50]];
    assert_eq!(multiply_single_threaded(&a, &b), Ok(expected.clone()));
    assert_eq!(multiply_multi_threaded(&a, &b), Ok(expected));
}

#[test]
fn one_by_one_product() {
    let a: Vec<Vec<i64>> = vec![vec![2]];
    let b: Vec<Vec<i64>> = vec![vec![3]];
    let expected: Vec<Vec<i64>> = vec![vec![6]];
    assert_eq!(multiply_single_threaded(&a, &b), Ok(expected.clone()));
    assert_eq!(multiply_multi_threaded(&a, &b), Ok(expected));
}

#[test]
fn empty_matrices_give_empty_product() {
    let a: Vec<Vec<i64>> = vec![];
    let b: Vec<Vec<i64>> = vec![];
    assert_eq!(multiply_single_threaded(&a, &b), Ok(vec![]));
    assert_eq!(multiply_multi_threaded(&a, &b), Ok(vec![]));
}

#[test]
fn mismatched_shapes_are_rejected() {
    let a: Vec<Vec<i64>> = vec![vec![1, 2, 3], vec![4, 5, 6]];
    let b: Vec<Vec<i64>> = vec![vec![1, 2], vec![3, 4]];
    assert_eq!(multiply_single_threaded(&a, &b), Err(ShapeError));
    assert_eq!(multiply_multi_threaded(&a, &b), Err(ShapeError));
}

#[test]
fn ragged_operand_is_rejected() {
    let ragged: Vec<Vec<i64>> = vec![vec![1, 2], vec![3]];
    let square: Vec<Vec<i64>> = vec![vec![1, 2], vec![3, 4]];
    assert_eq!(multiply_single_threaded(&ragged, &square), Err(ShapeError));
    assert_eq!(multiply_multi_threaded(&square, &ragged), Err(ShapeError));
}

#[test]
fn sequential_and_parallel_agree() {
    let a: Vec<Vec<i64>> = vec![
        vec![3, -1, 4, 1],
        vec![-5, 9, 2, 6],
        vec![5, 3, -5, 8],
        vec![9, -7, 9, 3],
    ];
    let b: Vec<Vec<i64>> = vec![
        vec![2, 7, 1, -8],
        vec![2, 8, -1, 8],
        vec![2, 8, 4, -5],
        vec![9, 0, 4, 5],
    ];
    let sequential = multiply_single_threaded(&a, &b).unwrap();
    let parallel = multiply_multi_threaded(&a, &b).unwrap();
    assert!(matrices_equal(&sequential, &parallel));
    assert_eq!(sequential, parallel);
}

#[test]
fn random_inputs_agree() {
    for n in [1usize, 2, 5, 16, 33] {
        let a = gen_random_matrix(n, n);
        let b = gen_random_matrix(n, n);
        let sequential = multiply_single_threaded(&a, &b).unwrap();
        let parallel = multiply_multi_threaded(&a, &b).unwrap();
        assert!(matrices_equal(&sequential, &parallel));
    }
}

#[test]
fn parallel_output_is_deterministic() {
    let a = gen_random_matrix(17, 17);
    let b = gen_random_matrix(17, 17);
    let first = multiply_multi_threaded(&a, &b).unwrap();
    for _ in 0..10 {
        let again = multiply_multi_threaded(&a, &b).unwrap();
        assert_eq!(first, again);
    }
}

#[test]
fn identity_matrix_preserves_operand() {
    let n = 4usize;
    let mut identity: Vec<Vec<i64>> = vec![vec![0; n]; n];
    for (i, row) in identity.iter_mut().enumerate() {
        row[i] = 1;
    }
    let a: Vec<Vec<i64>> = vec![
        vec![12, -3, 7, 0],
        vec![1, 2, 3, 4],
        vec![-9, 8, -7, 6],
        vec![0, 0, 5, -5],
    ];
    assert_eq!(multiply_single_threaded(&identity, &a), Ok(a.clone()));
    assert_eq!(multiply_multi_threaded(&identity, &a), Ok(a.clone()));
}

#[test]
fn zero_matrix_annihilates_operand() {
    let zero: Vec<Vec<i64>> = vec![vec![0, 0], vec![0, 0]];
    let a: Vec<Vec<i64>> = vec![vec![4, -2], vec![11, 7]];
    assert_eq!(multiply_single_threaded(&a, &zero), Ok(zero.clone()));
    assert_eq!(multiply_multi_threaded(&a, &zero), Ok(zero.clone()));
}

#[test]
fn products_wrap_on_overflow() {
    let a: Vec<Vec<i64>> = vec![vec![i64::MAX]];
    let b: Vec<Vec<i64>> = vec![vec![2]];
    let expected: Vec<Vec<i64>> = vec![vec![-2]];
    assert_eq!(multiply_single_threaded(&a, &b), Ok(expected.clone()));
    assert_eq!(multiply_multi_threaded(&a, &b), Ok(expected));
}

#[test]
fn inner_products_of_one_row() {
    let row: Vec<i64> = vec![1, 2];
    let b: Vec<Vec<i64>> = vec![vec![5, 6], vec![7, 8]];
    assert_eq!(compute_inner_prods(&row, &b), vec![19, 22]);
}

#[test]
fn oracle_accepts_equal_matrices() {
    let a: Vec<Vec<i64>> = vec![vec![1, 2], vec![3, 4]];
    let b = a.clone();
    assert!(matrices_equal(&a, &b));
}

#[test]
fn oracle_rejects_differing_cell() {
    let a: Vec<Vec<i64>> = vec![vec![1, 2], vec![3, 4]];
    let b: Vec<Vec<i64>> = vec![vec![1, 2], vec![3, 5]];
    assert!(!matrices_equal(&a, &b));
}

#[test]
fn oracle_rejects_differing_shape() {
    let a: Vec<Vec<i64>> = vec![vec![1, 2], vec![3, 4]];
    let b: Vec<Vec<i64>> = vec![vec![1, 2]];
    let c: Vec<Vec<i64>> = vec![vec![1], vec![3]];
    assert!(!matrices_equal(&a, &b));
    assert!(!matrices_equal(&a, &c));
}

#[test]
fn random_matrix_has_requested_shape() {
    let m = gen_random_matrix(5, 3);
    assert_eq!(m.len(), 5);
    for row in &m {
        assert_eq!(row.len(), 3);
        for &v in row {
            assert!(RANDOM_MIN <= v && v <= RANDOM_MAX);
        }
    }
}

#[test]
fn random_matrix_can_be_empty() {
    let m = gen_random_matrix(0, 0);
    assert!(m.is_empty());
}

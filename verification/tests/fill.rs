use matbench::fill::{fill_ones, fill_row_pattern, fill_zero, verification_slice};
use matbench::kernels::{mult_block, mult_naive};

#[test]
fn ones_matrix() {
    let a = fill_ones(3);
    assert_eq!(a, vec![1; 9]);
}

#[test]
fn row_pattern_matrix() {
    let b = fill_row_pattern(3);
    assert_eq!(b, vec![1, 1, 1, 2, 2, 2, 3, 3, 3]);
}

#[test]
fn zero_matrix() {
    let c = fill_zero(2);
    assert_eq!(c, vec![0; 4]);
}

#[test]
fn slice_of_small_matrix_is_the_first_row() {
    let c = mult_naive(3);
    let s = verification_slice(&c, 3);
    assert_eq!(s, vec![6, 6, 6]);
}

#[test]
fn slice_of_single_cell() {
    let c = mult_naive(1);
    let s = verification_slice(&c, 1);
    assert_eq!(s, vec![1]);
}

#[test]
fn slice_is_capped_at_ten() {
    let c = mult_block(12, 4);
    let s = verification_slice(&c, 12);
    assert_eq!(s.len(), 10);
    assert_eq!(s, vec![78; 10]);
}

#[test]
fn slice_of_hundred_matrix() {
    let c = mult_block(100, 10);
    let s = verification_slice(&c, 100);
    assert_eq!(s, vec![5050; 10]);
}

#[test]
fn slice_takes_flat_prefix() {
    // a non-constant matrix: the slice must be the row-major prefix
    let b = fill_row_pattern(2);
    let s = verification_slice(&b, 2);
    assert_eq!(s, vec![1, 1]);
}

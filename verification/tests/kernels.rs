use matbench::kernels::{
    block_kernel, dimension_fits, line_kernel, mult_block, mult_line, mult_naive, naive_kernel,
    try_mult_block, try_mult_line, try_mult_naive,
};

fn gauss_u64(n: u64) -> u64 {
    n * (n + 1) / 2
}

fn assert_all_cells(c: &Vec<u64>, n: usize, expected: u64) {
    assert_eq!(c.len(), n * n);
    for r in 0..n {
        for cc in 0..n {
            assert_eq!(c[r * n + cc], expected, "cell ({}, {})", r, cc);
        }
    }
}

#[test]
fn naive_one() {
    let c = mult_naive(1);
    assert_eq!(c, vec![1]);
}

#[test]
fn naive_three() {
    let c = mult_naive(3);
    assert_all_cells(&c, 3, 6);
}

#[test]
fn line_four() {
    let c = mult_line(4);
    assert_all_cells(&c, 4, 10);
}

#[test]
fn block_four_by_two() {
    let c = mult_block(4, 2);
    assert_all_cells(&c, 4, 10);
}

#[test]
fn block_five_by_three_non_dividing() {
    let c = mult_block(5, 3);
    assert_all_cells(&c, 5, 15);
}

#[test]
fn block_hundred_by_ten() {
    let c = mult_block(100, 10);
    assert_all_cells(&c, 100, 5050);
}

#[test]
fn all_kernels_match_closed_form() {
    for n in 1..=8usize {
        let expected = gauss_u64(n as u64);
        assert_all_cells(&mult_naive(n), n, expected);
        assert_all_cells(&mult_line(n), n, expected);
        for bs in 1..=n + 2 {
            assert_all_cells(&mult_block(n, bs), n, expected);
        }
    }
}

#[test]
fn kernels_agree_bit_for_bit() {
    let n = 7usize;
    let naive = mult_naive(n);
    let line = mult_line(n);
    let block = mult_block(n, 3);
    assert_eq!(naive, line);
    assert_eq!(line, block);
}

#[test]
fn block_degenerates_to_line() {
    let n = 6usize;
    let line = mult_line(n);
    assert_eq!(mult_block(n, 1), line);
    assert_eq!(mult_block(n, n), line);
    assert_eq!(mult_block(n, n + 3), line);
}

#[test]
fn kernels_multiply_general_matrices() {
    let n = 2usize;
    let a: Vec<u64> = vec![1, 2, 3, 4];
    let b: Vec<u64> = vec![5, 6, 7, 8];
    let expected: Vec<u64> = vec![19, 22, 43, 50];

    let mut c = vec![0u64; n * n];
    naive_kernel(n, &a, &b, &mut c);
    assert_eq!(c, expected);

    let mut c = vec![0u64; n * n];
    line_kernel(n, &a, &b, &mut c);
    assert_eq!(c, expected);

    for bs in 1..=3usize {
        let mut c = vec![0u64; n * n];
        block_kernel(n, bs, &a, &b, &mut c);
        assert_eq!(c, expected);
    }
}

#[test]
fn kernels_multiply_three_by_three() {
    let n = 3usize;
    let a: Vec<u64> = vec![2, 0, 1, 1, 3, 0, 0, 1, 1];
    let b: Vec<u64> = vec![1, 2, 0, 0, 1, 1, 4, 0, 2];
    let expected: Vec<u64> = vec![6, 4, 2, 1, 5, 3, 4, 1, 3];

    let mut c = vec![0u64; n * n];
    naive_kernel(n, &a, &b, &mut c);
    assert_eq!(c, expected);

    let mut c = vec![0u64; n * n];
    line_kernel(n, &a, &b, &mut c);
    assert_eq!(c, expected);

    let mut c = vec![0u64; n * n];
    block_kernel(n, 2, &a, &b, &mut c);
    assert_eq!(c, expected);
}

#[test]
fn zero_dimension_is_rejected() {
    assert!(try_mult_naive(0).is_none());
    assert!(try_mult_line(0).is_none());
    assert!(try_mult_block(0, 2).is_none());
}

#[test]
fn zero_block_size_is_rejected() {
    assert!(try_mult_block(4, 0).is_none());
}

#[test]
fn checked_entry_points_compute_the_product() {
    let c = try_mult_naive(4).unwrap();
    assert_all_cells(&c, 4, 10);
    let c = try_mult_line(5).unwrap();
    assert_all_cells(&c, 5, 15);
    let c = try_mult_block(5, 2).unwrap();
    assert_all_cells(&c, 5, 15);
}

#[test]
fn dimension_checks() {
    assert!(!dimension_fits(0));
    assert!(dimension_fits(1));
    assert!(dimension_fits(1000));
    assert!(!dimension_fits(usize::MAX));
}

use matmul::error::MulError;
use matmul::naive_approach::{
    basic_matrix_multiplication, line_matrix_multiplication, on_mult_line, on_mult_line_flat,
};
use matmul::optimized::{
    block_matrix_multiplication, final_mul_block, final_mul_line, unsafe_mul_line,
};
use matmul::parallel::{final_mul_line_parallel, parallel_mul_block};
use matmul::shape::{common_side, exact_side, transpose, zeros};
use matmul::sweep::tile_end;

fn sample(side: usize, seed: u64) -> Vec<i64> {
    let mut state = seed;
    let mut out = Vec::with_capacity(side * side);
    for _ in 0..side * side {
        state = state
            .wrapping_mul(6364136223846793005)
            .wrapping_add(1442695040888963407);
        out.push(((state >> 33) % 201) as i64 - 100);
    }
    out
}

fn reference(a: &[i64], b: &[i64], n: usize) -> Vec<i64> {
    let mut out = vec![0i64; n * n];
    for i in 0..n {
        for j in 0..n {
            let mut acc = 0i64;
            for k in 0..n {
                acc = acc.wrapping_add(a[i * n + k].wrapping_mul(b[k * n + j]));
            }
            out[i * n + j] = acc;
        }
    }
    out
}

fn identity(n: usize) -> Vec<i64> {
    let mut out = vec![0i64; n * n];
    for i in 0..n {
        out[i * n + i] = 1;
    }
    out
}

#[test]
fn two_by_two_from_every_kernel() {
    let a: Vec<i64> = vec![1, 2, 3, 4];
    let b: Vec<i64> = vec![5, 6, 7, 8];
    let expected: Vec<i64> = vec![19, 22, 43, 50];
    assert_eq!(basic_matrix_multiplication(&a, &b, 2), Ok(expected.clone()));
    assert_eq!(line_matrix_multiplication(&a, &b), Ok(expected.clone()));
    assert_eq!(on_mult_line_flat(&a, &b), Ok(expected.clone()));
    assert_eq!(final_mul_line(&a, &b), Ok(expected.clone()));
    assert_eq!(unsafe_mul_line(&a, &b), Ok(expected.clone()));
    assert_eq!(final_mul_block(&a, &b, 1), Ok(expected.clone()));
    assert_eq!(final_mul_block(&a, &b, 2), Ok(expected.clone()));
    assert_eq!(block_matrix_multiplication(&a, &b, 1), Ok(expected.clone()));
    assert_eq!(final_mul_line_parallel(&a, &b), Ok(expected.clone()));
    assert_eq!(parallel_mul_block(&a, &b, 1), Ok(expected.clone()));
    assert_eq!(parallel_mul_block(&a, &b, 5), Ok(expected));
}

#[test]
fn two_by_two_unsigned() {
    let a: Vec<u64> = vec![1, 2, 3, 4];
    let b: Vec<u64> = vec![5, 6, 7, 8];
    assert_eq!(final_mul_line(&a, &b), Ok(vec![19u64, 22, 43, 50]));
    assert_eq!(parallel_mul_block(&a, &b, 2), Ok(vec![19u64, 22, 43, 50]));
}

#[test]
fn two_by_two_as_rows() {
    let a: Vec<Vec<i64>> = vec![vec![1, 2], vec![3, 4]];
    let b: Vec<Vec<i64>> = vec![vec![5, 6], vec![7, 8]];
    assert_eq!(on_mult_line(&a, &b), Ok(vec![vec![19i64, 22], vec![43, 50]]));
}

#[test]
fn product_is_not_commutative_here() {
    let a: Vec<i64> = vec![1, 2, 3, 4];
    let b: Vec<i64> = vec![5, 6, 7, 8];
    let expected: Vec<i64> = vec![23, 34, 31, 46];
    assert_eq!(final_mul_line(&b, &a), Ok(expected.clone()));
    assert_eq!(final_mul_line_parallel(&b, &a), Ok(expected.clone()));
    assert_eq!(parallel_mul_block(&b, &a, 1), Ok(expected));
}

#[test]
fn kernels_agree_on_every_side_and_block() {
    for &n in [1usize, 2, 3, 17, 64].iter() {
        let a = sample(n, 7 + n as u64);
        let b = sample(n, 1000 + n as u64);
        let expected = reference(&a, &b, n);
        assert_eq!(basic_matrix_multiplication(&a, &b, n), Ok(expected.clone()));
        assert_eq!(line_matrix_multiplication(&a, &b), Ok(expected.clone()));
        assert_eq!(on_mult_line_flat(&a, &b), Ok(expected.clone()));
        assert_eq!(final_mul_line(&a, &b), Ok(expected.clone()));
        assert_eq!(unsafe_mul_line(&a, &b), Ok(expected.clone()));
        assert_eq!(final_mul_line_parallel(&a, &b), Ok(expected.clone()));
        for &k in [1usize, 3, 8].iter() {
            assert_eq!(final_mul_block(&a, &b, k), Ok(expected.clone()));
            assert_eq!(block_matrix_multiplication(&a, &b, k), Ok(expected.clone()));
            assert_eq!(parallel_mul_block(&a, &b, k), Ok(expected.clone()));
        }
    }
}

#[test]
fn rows_kernel_agrees_with_flat_kernel() {
    let n = 5usize;
    let a = sample(n, 3);
    let b = sample(n, 4);
    let rows_a: Vec<Vec<i64>> = a.chunks(n).map(|r| r.to_vec()).collect();
    let rows_b: Vec<Vec<i64>> = b.chunks(n).map(|r| r.to_vec()).collect();
    let flat = line_matrix_multiplication(&a, &b).unwrap();
    let rows = on_mult_line(&rows_a, &rows_b).unwrap();
    let joined: Vec<i64> = rows.into_iter().flatten().collect();
    assert_eq!(joined, flat);
}

#[test]
fn identity_on_either_hand_returns_the_matrix() {
    for &n in [1usize, 2, 3, 17].iter() {
        let a = sample(n, 99);
        let id = identity(n);
        assert_eq!(line_matrix_multiplication(&a, &id), Ok(a.clone()));
        assert_eq!(line_matrix_multiplication(&id, &a), Ok(a.clone()));
        assert_eq!(final_mul_line(&a, &id), Ok(a.clone()));
        assert_eq!(final_mul_block(&id, &a, 3), Ok(a.clone()));
        assert_eq!(final_mul_line_parallel(&a, &id), Ok(a.clone()));
        assert_eq!(parallel_mul_block(&id, &a, 2), Ok(a.clone()));
    }
}

#[test]
fn unequal_lengths_are_a_dimension_mismatch() {
    let a: Vec<i64> = vec![1; 4];
    let b: Vec<i64> = vec![1; 9];
    let err = Err(MulError::DimensionMismatch);
    assert_eq!(basic_matrix_multiplication(&a, &b, 2), err);
    assert_eq!(basic_matrix_multiplication(&a, &b, 3), err);
    assert_eq!(line_matrix_multiplication(&a, &b), err);
    assert_eq!(on_mult_line_flat(&a, &b), err);
    assert_eq!(final_mul_line(&a, &b), err);
    assert_eq!(unsafe_mul_line(&a, &b), err);
    assert_eq!(final_mul_block(&a, &b, 2), err);
    assert_eq!(block_matrix_multiplication(&a, &b, 2), err);
    assert_eq!(final_mul_line_parallel(&a, &b), err);
    assert_eq!(parallel_mul_block(&a, &b, 2), err);
}

#[test]
fn lengths_that_are_no_square_are_a_dimension_mismatch() {
    for &len in [2usize, 3, 5, 8, 10, 15].iter() {
        let a: Vec<i64> = vec![1; len];
        let b: Vec<i64> = vec![1; len];
        let err = Err(MulError::DimensionMismatch);
        assert_eq!(line_matrix_multiplication(&a, &b), err);
        assert_eq!(on_mult_line_flat(&a, &b), err);
        assert_eq!(final_mul_line(&a, &b), err);
        assert_eq!(unsafe_mul_line(&a, &b), err);
        assert_eq!(final_mul_block(&a, &b, 2), err);
        assert_eq!(block_matrix_multiplication(&a, &b, 2), err);
        assert_eq!(final_mul_line_parallel(&a, &b), err);
        assert_eq!(parallel_mul_block(&a, &b, 2), err);
    }
}

#[test]
fn stated_side_must_match_both_lengths() {
    let a: Vec<i64> = vec![1; 4];
    let b: Vec<i64> = vec![1; 4];
    assert_eq!(basic_matrix_multiplication(&a, &b, 3), Err(MulError::DimensionMismatch));
    assert_eq!(basic_matrix_multiplication(&a, &b, usize::MAX), Err(MulError::DimensionMismatch));
    assert_eq!(basic_matrix_multiplication(&a, &b, 2), Ok(vec![2i64; 4]));
}

#[test]
fn mismatch_is_reported_before_block_size() {
    let a: Vec<i64> = vec![1; 4];
    let b: Vec<i64> = vec![1; 9];
    assert_eq!(final_mul_block(&a, &b, 0), Err(MulError::DimensionMismatch));
    assert_eq!(block_matrix_multiplication(&a, &b, 0), Err(MulError::DimensionMismatch));
    assert_eq!(parallel_mul_block(&a, &b, 0), Err(MulError::DimensionMismatch));
}

#[test]
fn block_size_zero_is_invalid() {
    let a = sample(3, 1);
    let b = sample(3, 2);
    assert_eq!(final_mul_block(&a, &b, 0), Err(MulError::InvalidBlockSize));
    assert_eq!(block_matrix_multiplication(&a, &b, 0), Err(MulError::InvalidBlockSize));
    assert_eq!(parallel_mul_block(&a, &b, 0), Err(MulError::InvalidBlockSize));
}

#[test]
fn block_at_least_side_is_one_whole_block() {
    let n = 6usize;
    let a = sample(n, 11);
    let b = sample(n, 12);
    let whole = final_mul_line(&a, &b);
    for &k in [6usize, 7, 64, usize::MAX].iter() {
        assert_eq!(final_mul_block(&a, &b, k), whole);
        assert_eq!(block_matrix_multiplication(&a, &b, k), whole);
        assert_eq!(parallel_mul_block(&a, &b, k), whole);
        assert_eq!(tile_end(0, k, n), n);
    }
}

#[test]
fn side_not_divisible_by_unit_writes_every_row_once() {
    let n = 7usize;
    let a = sample(n, 21);
    let b = sample(n, 22);
    let expected = reference(&a, &b, n);
    assert_eq!(parallel_mul_block(&a, &b, 3), Ok(expected.clone()));
    assert_eq!(parallel_mul_block(&a, &b, 2), Ok(expected.clone()));
    assert_eq!(final_mul_line_parallel(&a, &b), Ok(expected));
    let ones: Vec<i64> = vec![1; n * n];
    let sums = parallel_mul_block(&ones, &ones, 3).unwrap();
    assert_eq!(sums, vec![7i64; n * n]);
}

#[test]
fn empty_operands_give_an_empty_product() {
    let a: Vec<i64> = Vec::new();
    let b: Vec<i64> = Vec::new();
    assert_eq!(line_matrix_multiplication(&a, &b), Ok(Vec::new()));
    assert_eq!(final_mul_line(&a, &b), Ok(Vec::new()));
    assert_eq!(final_mul_block(&a, &b, 4), Ok(Vec::new()));
    assert_eq!(final_mul_line_parallel(&a, &b), Ok(Vec::new()));
    assert_eq!(parallel_mul_block(&a, &b, 4), Ok(Vec::new()));
    assert_eq!(final_mul_block(&a, &b, 0), Err(MulError::InvalidBlockSize));
}

#[test]
fn rows_kernel_refuses_what_is_not_square() {
    let empty: Vec<Vec<i64>> = Vec::new();
    assert_eq!(on_mult_line(&empty, &empty), Err(MulError::DimensionMismatch));
    let a: Vec<Vec<i64>> = vec![vec![1, 2], vec![3, 4]];
    let ragged: Vec<Vec<i64>> = vec![vec![1, 2], vec![3]];
    let wide: Vec<Vec<i64>> = vec![vec![1, 2, 3], vec![4, 5, 6]];
    let three: Vec<Vec<i64>> = vec![vec![1, 0, 0], vec![0, 1, 0], vec![0, 0, 1]];
    assert_eq!(on_mult_line(&a, &ragged), Err(MulError::DimensionMismatch));
    assert_eq!(on_mult_line(&ragged, &a), Err(MulError::DimensionMismatch));
    assert_eq!(on_mult_line(&a, &wide), Err(MulError::DimensionMismatch));
    assert_eq!(on_mult_line(&a, &three), Err(MulError::DimensionMismatch));
}

#[test]
fn sums_wrap_around() {
    let a: Vec<i64> = vec![i64::MAX];
    let b: Vec<i64> = vec![2];
    assert_eq!(line_matrix_multiplication(&a, &b), Ok(vec![-2i64]));
    let c: Vec<u64> = vec![u64::MAX, 1, 0, 0];
    let d: Vec<u64> = vec![1, 0, 1, 0];
    assert_eq!(final_mul_line(&c, &d), Ok(vec![0u64, 0, 0, 0]));
}

#[test]
fn exact_side_finds_squares_only() {
    assert_eq!(exact_side(0), Some(0));
    assert_eq!(exact_side(1), Some(1));
    assert_eq!(exact_side(2), None);
    assert_eq!(exact_side(4), Some(2));
    assert_eq!(exact_side(289), Some(17));
    assert_eq!(exact_side(4096), Some(64));
    assert_eq!(exact_side(4095), None);
    assert_eq!(exact_side(4097), None);
    assert_eq!(exact_side(usize::MAX), None);
    assert_eq!(common_side(9, 9), Ok(3));
    assert_eq!(common_side(9, 4), Err(MulError::DimensionMismatch));
    assert_eq!(common_side(8, 8), Err(MulError::DimensionMismatch));
}

#[test]
fn transpose_exchanges_rows_and_columns() {
    let b: Vec<i64> = vec![1, 2, 3, 4, 5, 6, 7, 8, 9];
    assert_eq!(transpose(&b, 3), vec![1i64, 4, 7, 2, 5, 8, 3, 6, 9]);
    let z: Vec<i64> = zeros(3);
    assert_eq!(z, vec![0i64, 0, 0]);
}

#[test]
fn tiles_are_clipped_to_the_matrix() {
    assert_eq!(tile_end(0, 3, 7), 3);
    assert_eq!(tile_end(3, 3, 7), 6);
    assert_eq!(tile_end(6, 3, 7), 7);
    assert_eq!(tile_end(7, 3, 7), 7);
    assert_eq!(tile_end(5, usize::MAX, 7), 7);
}

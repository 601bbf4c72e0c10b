use matmul::error::MulError;
use matmul::matrix::Matrix;
use matmul::mode::Mode;

fn small(side: usize, data: Vec<i64>) -> Matrix<i64> {
    Matrix::from_vec(side, data).unwrap()
}

#[test]
fn new_fills_with_cyclic_digits() {
    let m: Matrix<i64> = Matrix::new(4);
    assert_eq!(m.side(), 4);
    assert_eq!(
        m.data(),
        &vec![0i64, 1, 2, 3, 4, 5, 6, 7, 8, 9, 0, 1, 2, 3, 4, 5]
    );
    let empty: Matrix<u64> = Matrix::new(0);
    assert_eq!(empty.side(), 0);
    assert!(empty.data().is_empty());
}

#[test]
fn from_vec_wants_side_squared_elements() {
    assert!(Matrix::from_vec(2, vec![1i64, 2, 3, 4]).is_some());
    assert!(Matrix::from_vec(2, vec![1i64, 2, 3]).is_none());
    assert!(Matrix::from_vec(3, vec![1i64, 2, 3, 4]).is_none());
    assert!(Matrix::from_vec(usize::MAX, vec![1i64]).is_none());
    let m = small(2, vec![1, 2, 3, 4]);
    assert_eq!(m.side(), 2);
    assert_eq!(m.data(), &vec![1i64, 2, 3, 4]);
}

#[test]
fn matrix_methods_give_the_two_by_two_product() {
    let a = small(2, vec![1, 2, 3, 4]);
    let b = small(2, vec![5, 6, 7, 8]);
    let expected = vec![19i64, 22, 43, 50];
    let basic = a.multiply_basic(&b).unwrap();
    assert_eq!(basic.side(), 2);
    assert_eq!(basic.data(), &expected);
    assert_eq!(a.multiply_line(&b).unwrap().data(), &expected);
    assert_eq!(a.multiply_block(&b, 1).unwrap().data(), &expected);
    assert_eq!(a.multiply_block(&b, 2).unwrap().data(), &expected);
    assert_eq!(a.multiply_block(&b, 9).unwrap().data(), &expected);
}

#[test]
fn matrix_methods_refuse_unequal_sides() {
    let a = small(2, vec![1, 2, 3, 4]);
    let b: Matrix<i64> = Matrix::new(3);
    assert_eq!(a.multiply_basic(&b).err(), Some(MulError::DimensionMismatch));
    assert_eq!(a.multiply_line(&b).err(), Some(MulError::DimensionMismatch));
    assert_eq!(a.multiply_block(&b, 2).err(), Some(MulError::DimensionMismatch));
    assert_eq!(a.multiply_block(&b, 0).err(), Some(MulError::DimensionMismatch));
    assert_eq!(a.multiply_block(&a, 0).err(), Some(MulError::InvalidBlockSize));
}

#[test]
fn cyclic_matrices_of_side_ten() {
    let a: Matrix<i64> = Matrix::new(10);
    let p = a.multiply_basic(&a).unwrap();
    // every row of the operand is 0..=9, so cell (i, j) is the sum of k * j.
    assert_eq!(p.data()[0], 0);
    assert_eq!(p.data()[1], 45);
    assert_eq!(p.data()[99], 45 * 9);
    assert_eq!(a.multiply_block(&a, 3).unwrap().data(), p.data());
}

#[test]
fn clone_keeps_side_and_elements() {
    let a = small(2, vec![1, 2, 3, 4]);
    let c = a.clone();
    assert_eq!(c.side(), 2);
    assert_eq!(c.data(), a.data());
}

#[test]
fn mode_from_args_reads_one_letter() {
    assert_eq!(Mode::from_args("n", None), Ok(Mode::Normal));
    assert_eq!(Mode::from_args("l", None), Ok(Mode::Line));
    assert_eq!(Mode::from_args("b", Some(128)), Ok(Mode::Block(128)));
    assert_eq!(Mode::from_args("n", Some(4)), Ok(Mode::Normal));
}

#[test]
fn mode_from_args_ignores_case() {
    assert_eq!(Mode::from_args("N", None), Ok(Mode::Normal));
    assert_eq!(Mode::from_args("L", None), Ok(Mode::Line));
    assert_eq!(Mode::from_args("B", Some(2)), Ok(Mode::Block(2)));
    assert_eq!(Mode::from_lowercase("N", None), Err(MulError::InvalidArgument));
}

#[test]
fn mode_from_args_refuses_the_rest() {
    assert_eq!(Mode::from_args("b", None), Err(MulError::InvalidArgument));
    assert_eq!(Mode::from_args("", None), Err(MulError::InvalidArgument));
    assert_eq!(Mode::from_args("x", Some(1)), Err(MulError::InvalidArgument));
    assert_eq!(Mode::from_args("nn", None), Err(MulError::InvalidArgument));
    assert_eq!(Mode::from_args("block", Some(1)), Err(MulError::InvalidArgument));
    assert_eq!(Mode::from_args("\u{ff2e}", None), Err(MulError::InvalidArgument));
    assert_eq!(Mode::from_args(" n", None), Err(MulError::InvalidArgument));
    assert_eq!(Mode::from_lowercase("b", None), Err(MulError::InvalidArgument));
    assert_eq!(Mode::from_lowercase("l", None), Ok(Mode::Line));
}

#[test]
fn mode_runs_the_kernel_it_names() {
    let a = small(2, vec![1, 2, 3, 4]);
    let b = small(2, vec![5, 6, 7, 8]);
    let expected = vec![19i64, 22, 43, 50];
    assert_eq!(Mode::Normal.multiply(&a, &b).unwrap().data(), &expected);
    assert_eq!(Mode::Line.multiply(&a, &b).unwrap().data(), &expected);
    assert_eq!(Mode::Block(1).multiply(&a, &b).unwrap().data(), &expected);
    assert_eq!(Mode::Block(0).multiply(&a, &b).err(), Some(MulError::InvalidBlockSize));
    let c: Matrix<i64> = Matrix::new(3);
    assert_eq!(Mode::Line.multiply(&a, &c).err(), Some(MulError::DimensionMismatch));
}

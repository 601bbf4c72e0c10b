use matmul::bench::{generate_matrix, iterations_or_default, stepped_sizes};

#[test]
fn generated_operand_cycles_through_the_digits() {
    let m: Vec<i64> = generate_matrix(4);
    assert_eq!(m, vec![0i64, 1, 2, 3, 4, 5, 6, 7, 8, 9, 0, 1, 2, 3, 4, 5]);
    let u: Vec<u64> = generate_matrix(2);
    assert_eq!(u, vec![0u64, 1, 2, 3]);
    let empty: Vec<i64> = generate_matrix(0);
    assert!(empty.is_empty());
}

#[test]
fn stepped_sizes_include_both_ends() {
    assert_eq!(
        stepped_sizes(600, 3000, 400),
        vec![600usize, 1000, 1400, 1800, 2200, 2600, 3000]
    );
    assert_eq!(stepped_sizes(4096, 10240, 2048), vec![4096usize, 6144, 8192, 10240]);
}

#[test]
fn stepped_sizes_stop_before_passing_the_end() {
    assert_eq!(stepped_sizes(1, 10, 4), vec![1usize, 5, 9]);
    assert_eq!(stepped_sizes(5, 5, 3), vec![5usize]);
    assert_eq!(stepped_sizes(6, 5, 1), Vec::<usize>::new());
    assert_eq!(stepped_sizes(0, 3, usize::MAX), vec![0usize]);
    assert_eq!(
        stepped_sizes(usize::MAX - 4, usize::MAX, 2),
        vec![usize::MAX - 4, usize::MAX - 2, usize::MAX]
    );
}

#[test]
fn iterations_default_to_one() {
    assert_eq!(iterations_or_default(Some(5)), 5);
    assert_eq!(iterations_or_default(Some(1)), 1);
    assert_eq!(iterations_or_default(Some(0)), 1);
    assert_eq!(iterations_or_default(None), 1);
}

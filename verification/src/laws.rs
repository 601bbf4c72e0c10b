//! What holds of the product and of the kernels, whatever the operands.
use vstd::prelude::*;
use crate::error::MulError;
use crate::model::{
    blocked_spec, cell, dot, is_square, is_transpose, lemma_cell_index, lemma_side_of,
    lemma_transposed_dot, multiply_spec, partial_dot, product,
};
use crate::naive_approach::{grid_partial_dot, is_grid};
use crate::scalar::{Ring, Scalar};
use crate::sweep::tile_end_spec;

verus! {

/// The identity matrix of side `n`: one on the diagonal, zero elsewhere.
pub open spec fn identity<T: Ring>(n: nat) -> Seq<T> {
    Seq::new(
        n * n,
        |p: int|
            if p / (n as int) == p % (n as int) {
                T::one_spec()
            } else {
                T::zero_spec()
            },
    )
}

/// The offset of a cell determines its row and its column.
pub proof fn lemma_cell_position(n: int, r: int, c: int)
    requires
        0 <= r < n,
        0 <= c < n,
    ensures
        0 <= r * n + c < n * n,
        (r * n + c) / n == r,
        (r * n + c) % n == c,
{
    lemma_cell_index(n, n, r, c);
    vstd::arithmetic::div_mod::lemma_fundamental_div_mod_converse(r * n + c, n, r, c);
}

/// The cells of the identity matrix.
pub proof fn lemma_identity_cell<T: Ring>(n: nat, r: int, c: int)
    requires
        0 <= r < n,
        0 <= c < n,
    ensures
        cell(identity::<T>(n), n as int, r, c) == if r == c {
            T::one_spec()
        } else {
            T::zero_spec()
        },
{
    lemma_cell_position(n as int, r, c);
}

/// Against the identity on the right, the sum for cell (`i`, `j`) is
/// zero until the inner index has passed `j`, and the left operand's
/// cell (`i`, `j`) from then on.
proof fn lemma_dot_identity_right<T: Ring>(a: Seq<T>, n: nat, i: int, j: int, k: int)
    requires
        0 <= j < n,
        0 <= k <= n,
    ensures
        partial_dot(a, identity::<T>(n), false, n as int, i, j, k) == if k > j {
            cell(a, n as int, i, j)
        } else {
            T::zero_spec()
        },
    decreases k,
{
    if k > 0 {
        lemma_dot_identity_right(a, n, i, j, k - 1);
        lemma_identity_cell::<T>(n, k - 1, j);
        let x = cell(a, n as int, i, k - 1);
        T::lemma_times_zero(x);
        T::lemma_times_one(x);
        T::lemma_plus_zero(T::zero_spec());
        T::lemma_plus_zero(cell(a, n as int, i, j));
    }
}

/// Against the identity on the left, the sum for cell (`i`, `j`) is zero
/// until the inner index has passed `i`, and the right operand's cell
/// (`i`, `j`) from then on.
proof fn lemma_dot_identity_left<T: Ring>(a: Seq<T>, n: nat, i: int, j: int, k: int)
    requires
        0 <= i < n,
        0 <= k <= n,
    ensures
        partial_dot(identity::<T>(n), a, false, n as int, i, j, k) == if k > i {
            cell(a, n as int, i, j)
        } else {
            T::zero_spec()
        },
    decreases k,
{
    if k > 0 {
        lemma_dot_identity_left(a, n, i, j, k - 1);
        lemma_identity_cell::<T>(n, i, k - 1);
        let x = cell(a, n as int, k - 1, j);
        T::lemma_times_zero(x);
        T::lemma_times_one(x);
        T::lemma_plus_zero(T::zero_spec());
        T::lemma_plus_zero(cell(a, n as int, i, j));
    }
}

/// The product of a matrix and the identity matrix of its side, on
/// either hand, is the matrix itself.
pub proof fn lemma_identity<T: Ring>(a: Seq<T>, n: nat)
    requires
        a.len() == n * n,
    ensures
        product(a, identity::<T>(n), n as int) == a,
        product(identity::<T>(n), a, n as int) == a,
{
    let right = product(a, identity::<T>(n), n as int);
    let left = product(identity::<T>(n), a, n as int);
    assert forall|p: int| 0 <= p < a.len() implies right[p] == a[p] && left[p] == a[p] by {
        assert(n > 0) by (nonlinear_arith)
            requires
                0 <= p < n * n,
        ;
        let r = p / (n as int);
        let c = p % (n as int);
        vstd::arithmetic::div_mod::lemma_fundamental_div_mod(p, n as int);
        vstd::arithmetic::div_mod::lemma_mod_pos_bound(p, n as int);
        assert(0 <= r < n) by (nonlinear_arith)
            requires
                p == n * r + c,
                0 <= c < n,
                0 <= p < n * n,
        ;
        assert(r * n + c == p) by (nonlinear_arith)
            requires
                p == n * r + c,
        ;
        lemma_dot_identity_right(a, n, r, c, n as int);
        lemma_dot_identity_left(a, n, r, c, n as int);
    }
    assert(right =~= a);
    assert(left =~= a);
}

/// All kernels compute one product. For square operands of one side and
/// a block size that is not zero, the kernels without a block size and
/// the blocked kernels return the same matrix, the product; and a kernel
/// that reads a transposed copy of the right operand adds up, for every
/// cell, what the naive kernel adds up.
pub proof fn lemma_kernels_agree<T: Scalar>(a: Seq<T>, b: Seq<T>, bt: Seq<T>, n: nat, block: nat)
    requires
        a.len() == n * n,
        b.len() == n * n,
        is_transpose(bt, b, n as int),
        block > 0,
    ensures
        multiply_spec(a, b) == Ok::<Seq<T>, MulError>(product(a, b, n as int)),
        blocked_spec(a, b, block) == multiply_spec(a, b),
        forall|i: int, j: int|
            0 <= j < n ==> #[trigger] partial_dot(a, bt, true, n as int, i, j, n as int) == dot(
                a,
                b,
                n as int,
                i,
                j,
            ),
{
    lemma_side_of(n);
    assert forall|i: int, j: int| 0 <= j < n implies #[trigger] partial_dot(
        a,
        bt,
        true,
        n as int,
        i,
        j,
        n as int,
    ) == dot(a, b, n as int, i, j) by {
        lemma_transposed_dot(a, b, bt, n as int, i, j, n as int);
    }
}

/// Operands that differ in length, or whose length is no square, get a
/// dimension mismatch from every kernel, whatever the block size.
pub proof fn lemma_mismatch<T: Scalar>(a: Seq<T>, b: Seq<T>, block: nat)
    requires
        a.len() != b.len() || !is_square(a.len()),
    ensures
        multiply_spec(a, b) == Err::<Seq<T>, MulError>(MulError::DimensionMismatch),
        blocked_spec(a, b, block) == Err::<Seq<T>, MulError>(MulError::DimensionMismatch),
{
}

/// A block size of zero is refused, and a block as large as the matrix
/// or larger makes one tile of the whole matrix: the first tile in each
/// direction ends at the boundary, and the result is that of the
/// kernels without a block size.
pub proof fn lemma_block_size_edges<T: Scalar>(a: Seq<T>, b: Seq<T>, n: nat, block: nat)
    requires
        a.len() == n * n,
        b.len() == n * n,
    ensures
        blocked_spec(a, b, 0) == Err::<Seq<T>, MulError>(MulError::InvalidBlockSize),
        block >= n ==> tile_end_spec(0, block as int, n as int) == n,
        block >= n && block > 0 ==> blocked_spec(a, b, block) == multiply_spec(a, b),
{
    lemma_side_of(n);
}

/// `flat` holds, row after row, the square matrix that `grid` holds as
/// rows.
pub open spec fn is_flat_of<T>(flat: Seq<T>, grid: Seq<Vec<T>>, n: int) -> bool {
    &&& flat.len() == n * n
    &&& is_grid(grid, n)
    &&& forall|r: int, c: int|
        0 <= r < n && 0 <= c < n ==> #[trigger] cell(flat, n, r, c) == grid[r]@[c]
}

/// The kernel on rows and the kernels on flat storage add up the same
/// terms in the same order: for operands that hold the same matrices,
/// every partial sum of every cell is the same.
pub proof fn lemma_grid_agrees<T: Scalar>(
    a_flat: Seq<T>,
    b_flat: Seq<T>,
    a: Seq<Vec<T>>,
    b: Seq<Vec<T>>,
    n: int,
    i: int,
    j: int,
    k: int,
)
    requires
        is_flat_of(a_flat, a, n),
        is_flat_of(b_flat, b, n),
        0 <= i < n,
        0 <= j < n,
        k <= n,
    ensures
        grid_partial_dot(a, b, i, j, k) == partial_dot(a_flat, b_flat, false, n, i, j, k),
    decreases k,
{
    if k > 0 {
        lemma_grid_agrees(a_flat, b_flat, a, b, n, i, j, k - 1);
        assert(cell(a_flat, n, i, k - 1) == a[i]@[k - 1]);
        assert(cell(b_flat, n, k - 1, j) == b[k - 1]@[j]);
    }
}

} // verus!

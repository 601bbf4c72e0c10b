//! The mathematical meaning of a product of two square matrices.
//!
//! A matrix of side `n` is a sequence of `n * n` elements in row-major
//! order. Each cell of a product is a sum of `n` terms taken in ascending
//! order of the inner index; the order is part of the definition, because
//! the operations of a [`Scalar`] need not be associative.
use vstd::prelude::*;
use crate::error::MulError;
use crate::scalar::Scalar;

verus! {

/// The element in row `r` and column `c` of a row-major matrix whose
/// rows have length `n`.
pub open spec fn cell<T>(m: Seq<T>, n: int, r: int, c: int) -> T {
    m[r * n + c]
}

/// The element that the right operand contributes at inner index `k` to
/// column `j`. A transposed operand stores it in row `j`, column `k`.
pub open spec fn operand<T>(rgt: Seq<T>, transposed: bool, n: int, k: int, j: int) -> T {
    if transposed {
        cell(rgt, n, j, k)
    } else {
        cell(rgt, n, k, j)
    }
}

/// The first `k` terms of cell (`i`, `j`) of a product, summed in
/// ascending order of the inner index, starting from zero.
pub open spec fn partial_dot<T: Scalar>(
    a: Seq<T>,
    rgt: Seq<T>,
    transposed: bool,
    n: int,
    i: int,
    j: int,
    k: int,
) -> T
    decreases k,
{
    if k <= 0 {
        T::zero_spec()
    } else {
        partial_dot(a, rgt, transposed, n, i, j, k - 1).plus_spec(
            cell(a, n, i, k - 1).times_spec(operand(rgt, transposed, n, k - 1, j)),
        )
    }
}

/// Cell (`i`, `j`) of the product of the `n` by `n` matrices `a` and `b`.
pub open spec fn dot<T: Scalar>(a: Seq<T>, b: Seq<T>, n: int, i: int, j: int) -> T {
    partial_dot(a, b, false, n, i, j, n)
}

/// The product of the `n` by `n` matrices `a` and `b`, row-major.
pub open spec fn product<T: Scalar>(a: Seq<T>, b: Seq<T>, n: int) -> Seq<T> {
    Seq::new((n * n) as nat, |p: int| dot(a, b, n, p / n, p % n))
}

/// `bt` holds the `n` by `n` matrix `b` with rows and columns exchanged.
pub open spec fn is_transpose<T>(bt: Seq<T>, b: Seq<T>, n: int) -> bool {
    &&& bt.len() == n * n
    &&& b.len() == n * n
    &&& forall|r: int, c: int|
        0 <= r < n && 0 <= c < n ==> #[trigger] cell(bt, n, c, r) == cell(b, n, r, c)
}

/// `len` is the number of elements of some square matrix.
pub open spec fn is_square(len: nat) -> bool {
    exists|n: nat| #[trigger] (n * n) == len
}

/// The side of the square matrix that has `len` elements.
pub open spec fn side_of(len: nat) -> nat {
    choose|n: nat| #[trigger] (n * n) == len
}

/// In a block of `rows` rows, the cells of rows `i0..i1` and columns
/// `j0..j1` hold the first `k` terms of their dot products. Row `r` of
/// the block is row `row0 + r` of the product.
pub open spec fn at_stage<T: Scalar>(
    m: Seq<T>,
    a: Seq<T>,
    rgt: Seq<T>,
    transposed: bool,
    n: int,
    row0: int,
    i0: int,
    i1: int,
    j0: int,
    j1: int,
    k: int,
) -> bool {
    forall|r: int, c: int|
        i0 <= r < i1 && j0 <= c < j1 ==> #[trigger] cell(m, n, r, c) == partial_dot(
            a,
            rgt,
            transposed,
            n,
            row0 + r,
            c,
            k,
        )
}

/// Outside rows `i0..i1` and columns `j0..j1` the block `after` of `rows`
/// rows is the block `before`.
pub open spec fn same_outside<T>(
    before: Seq<T>,
    after: Seq<T>,
    n: int,
    rows: int,
    i0: int,
    i1: int,
    j0: int,
    j1: int,
) -> bool {
    &&& after.len() == before.len()
    &&& forall|r: int, c: int|
        0 <= r < rows && 0 <= c < n && !(i0 <= r < i1 && j0 <= c < j1) ==> #[trigger] cell(
            after,
            n,
            r,
            c,
        ) == cell(before, n, r, c)
}

/// Every cell of the block `m`, which starts at row `row0` of the
/// product, holds its complete dot product.
pub open spec fn rows_done<T: Scalar>(
    m: Seq<T>,
    a: Seq<T>,
    rgt: Seq<T>,
    transposed: bool,
    n: int,
    row0: int,
    rows: int,
) -> bool {
    &&& m.len() == rows * n
    &&& at_stage(m, a, rgt, transposed, n, row0, 0, rows, 0, n, n)
}

/// Every element of `m` is zero.
pub open spec fn all_zero<T: Scalar>(m: Seq<T>) -> bool {
    forall|p: int| 0 <= p < m.len() ==> #[trigger] m[p] == T::zero_spec()
}

/// A cell of a block lies inside the block.
pub proof fn lemma_cell_index(n: int, rows: int, r: int, c: int)
    requires
        0 <= r < rows,
        0 <= c < n,
    ensures
        0 <= r * n <= r * n + c < rows * n,
        r * n + n <= rows * n,
{
    assert(0 <= r * n && r * n + n <= rows * n) by (nonlinear_arith)
        requires
            0 <= r < rows,
            0 < n,
    ;
}

/// Two cells at one offset are one cell.
pub proof fn lemma_cell_distinct(n: int, r1: int, c1: int, r2: int, c2: int)
    requires
        0 <= c1 < n,
        0 <= c2 < n,
        r1 * n + c1 == r2 * n + c2,
    ensures
        r1 == r2,
        c1 == c2,
{
    if r1 < r2 {
        assert(r1 * n + n <= r2 * n) by (nonlinear_arith)
            requires
                r1 < r2,
                0 < n,
        ;
    } else if r2 < r1 {
        assert(r2 * n + n <= r1 * n) by (nonlinear_arith)
            requires
                r2 < r1,
                0 < n,
        ;
    }
}

/// A square has one side.
pub proof fn lemma_side_of(n: nat)
    ensures
        is_square(n * n),
        side_of(n * n) == n,
{
    assert(is_square(n * n));
    let m = side_of(n * n);
    assert(m * m == n * n);
    if m < n {
        assert(m * m < n * n) by (nonlinear_arith)
            requires
                0 <= m < n,
        ;
    } else if n < m {
        assert(n * n < m * m) by (nonlinear_arith)
            requires
                0 <= n < m,
        ;
    }
}

/// Against a transposed right operand a dot product reads the same
/// elements in the same order, so it is the same element.
pub proof fn lemma_transposed_dot<T: Scalar>(
    a: Seq<T>,
    b: Seq<T>,
    bt: Seq<T>,
    n: int,
    i: int,
    j: int,
    k: int,
)
    requires
        is_transpose(bt, b, n),
        0 <= j < n,
        k <= n,
    ensures
        partial_dot(a, bt, true, n, i, j, k) == partial_dot(a, b, false, n, i, j, k),
    decreases k,
{
    if k > 0 {
        lemma_transposed_dot(a, b, bt, n, i, j, k - 1);
        assert(cell(bt, n, j, k - 1) == cell(b, n, k - 1, j));
    }
}

/// A matrix whose blocks are all done is the product.
pub proof fn lemma_done_is_product<T: Scalar>(
    m: Seq<T>,
    a: Seq<T>,
    b: Seq<T>,
    rgt: Seq<T>,
    transposed: bool,
    n: int,
)
    requires
        0 <= n,
        rows_done(m, a, rgt, transposed, n, 0, n),
        if transposed {
            is_transpose(rgt, b, n)
        } else {
            rgt == b
        },
    ensures
        m == product(a, b, n),
{
    let p = product(a, b, n);
    assert(m.len() == p.len());
    assert forall|q: int| 0 <= q < m.len() implies m[q] == p[q] by {
        assert(n > 0) by (nonlinear_arith)
            requires
                0 <= q < n * n,
                0 <= n,
        ;
        let r = q / n;
        let c = q % n;
        vstd::arithmetic::div_mod::lemma_fundamental_div_mod(q, n);
        vstd::arithmetic::div_mod::lemma_mod_pos_bound(q, n);
        assert(0 <= r < n) by (nonlinear_arith)
            requires
                q == n * r + c,
                0 <= c < n,
                0 <= q < n * n,
        ;
        assert(r * n + c == q) by (nonlinear_arith)
            requires
                q == n * r + c,
        ;
        assert(cell(m, n, r, c) == m[q]);
        if transposed {
            lemma_transposed_dot(a, b, rgt, n, r, c, n);
        }
    }
    assert(m =~= p);
}

/// What every kernel without a block size returns for the flat operands
/// `a` and `b`: their product if they are square matrices of one side,
/// and a dimension mismatch if not.
pub open spec fn multiply_spec<T: Scalar>(a: Seq<T>, b: Seq<T>) -> Result<Seq<T>, MulError> {
    if a.len() == b.len() && is_square(a.len()) {
        Ok(product(a, b, side_of(a.len()) as int))
    } else {
        Err(MulError::DimensionMismatch)
    }
}

/// What every blocked kernel returns: the dimensions are looked at
/// first, then the block size, which must not be zero. The block size
/// has no other influence on the result.
pub open spec fn blocked_spec<T: Scalar>(a: Seq<T>, b: Seq<T>, block: nat) -> Result<
    Seq<T>,
    MulError,
> {
    match multiply_spec(a, b) {
        Ok(p) => if block == 0 {
            Err(MulError::InvalidBlockSize)
        } else {
            Ok(p)
        },
        Err(e) => Err(e),
    }
}

/// A kernel's result with the elements of its matrix as a sequence.
pub open spec fn outcome<T>(r: Result<Vec<T>, MulError>) -> Result<Seq<T>, MulError> {
    match r {
        Ok(v) => Ok(v@),
        Err(e) => Err(e),
    }
}

} // verus!

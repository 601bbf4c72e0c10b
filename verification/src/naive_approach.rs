//! The naive kernel: for each row, for each inner index, one sweep along
//! the row of the result.
use vstd::prelude::*;
use crate::error::MulError;
use crate::model::{lemma_done_is_product, multiply_spec, outcome, product};
use crate::scalar::Scalar;
use crate::shape::{common_side, lemma_zero_stage, zeros};
use crate::sweep::accumulate_tile;

verus! {

/// The product of two `n` by `n` matrices by the naive kernel.
pub fn naive_product<T: Scalar>(a: &[T], b: &[T], n: usize) -> (res: Vec<T>)
    requires
        a.len() == n * n,
        b.len() == n * n,
    ensures
        res@ == product(a@, b@, n as int),
{
    let mut res: Vec<T> = zeros(a.len());
    proof {
        lemma_zero_stage(res@, a@, b@, false, n as int, 0, n as int);
    }
    accumulate_tile(res.as_mut_slice(), a, b, false, n, n, 0, 0, n, 0, n, 0, n);
    proof {
        lemma_done_is_product(res@, a@, b@, b@, false, n as int);
    }
    res
}

/// Multiplies two flat matrices whose side the caller states.
///
/// Fails with a dimension mismatch unless both operands have exactly
/// `side * side` elements.
pub fn basic_matrix_multiplication<T: Scalar>(a: &[T], b: &[T], side: usize) -> (r: Result<
    Vec<T>,
    MulError,
>)
    ensures
        r is Ok <==> a.len() == side * side && b.len() == side * side,
        r matches Ok(v) ==> v@ == product(a@, b@, side as int),
        r matches Err(e) ==> e == MulError::DimensionMismatch,
{
    match side.checked_mul(side) {
        Some(len) => {
            if a.len() != len || b.len() != len {
                return Err(MulError::DimensionMismatch);
            }
            Ok(naive_product(a, b, side))
        },
        None => Err(MulError::DimensionMismatch),
    }
}

/// Multiplies two flat matrices, taking the side from their length.
pub fn line_matrix_multiplication<T: Scalar>(a: &[T], b: &[T]) -> (r: Result<Vec<T>, MulError>)
    ensures
        outcome(r) == multiply_spec(a@, b@),
{
    match common_side(a.len(), b.len()) {
        Ok(n) => Ok(naive_product(a, b, n)),
        Err(e) => Err(e),
    }
}

/// Multiplies two flat matrices held in vectors, taking the side from
/// their length.
pub fn on_mult_line_flat<T: Scalar>(a: &Vec<T>, b: &Vec<T>) -> (r: Result<Vec<T>, MulError>)
    ensures
        outcome(r) == multiply_spec(a@, b@),
{
    match common_side(a.len(), b.len()) {
        Ok(n) => Ok(naive_product(a.as_slice(), b.as_slice(), n)),
        Err(e) => Err(e),
    }
}

/// `g` is a square matrix of side `n` held as `n` rows of `n` elements.
pub open spec fn is_grid<T>(g: Seq<Vec<T>>, n: int) -> bool {
    &&& g.len() == n
    &&& forall|r: int| 0 <= r < n ==> (#[trigger] g[r]).len() == n
}

/// The first `k` terms of cell (`i`, `j`) of the product of two matrices
/// held as rows, summed in ascending order of the inner index, starting
/// from zero.
pub open spec fn grid_partial_dot<T: Scalar>(
    a: Seq<Vec<T>>,
    b: Seq<Vec<T>>,
    i: int,
    j: int,
    k: int,
) -> T
    decreases k,
{
    if k <= 0 {
        T::zero_spec()
    } else {
        grid_partial_dot(a, b, i, j, k - 1).plus_spec(a[i]@[k - 1].times_spec(b[k - 1]@[j]))
    }
}

/// `res` is the product of the matrices `a` and `b` of side `n`, all
/// three held as rows.
pub open spec fn is_grid_product<T: Scalar>(
    res: Seq<Vec<T>>,
    a: Seq<Vec<T>>,
    b: Seq<Vec<T>>,
    n: int,
) -> bool {
    &&& is_grid(res, n)
    &&& forall|i: int, j: int|
        0 <= i < n && 0 <= j < n ==> #[trigger] res[i]@[j] == grid_partial_dot(a, b, i, j, n)
}

/// Whether `g` has `n` rows of `n` elements each.
pub fn is_square_grid<T>(g: &Vec<Vec<T>>, n: usize) -> (ok: bool)
    ensures
        ok == is_grid(g@, n as int),
{
    if g.len() != n {
        return false;
    }
    let mut r: usize = 0;
    while r < n
        invariant
            g.len() == n,
            r <= n,
            forall|q: int| 0 <= q < r ==> (#[trigger] g@[q]).len() == n,
        decreases n - r,
    {
        if g[r].len() != n {
            return false;
        }
        r += 1;
    }
    true
}

/// Multiplies two matrices held as rows by the naive kernel.
///
/// Fails with a dimension mismatch unless both operands are square, of
/// one side, and have at least one row.
pub fn on_mult_line<T: Scalar>(a: &Vec<Vec<T>>, b: &Vec<Vec<T>>) -> (r: Result<
    Vec<Vec<T>>,
    MulError,
>)
    ensures
        r is Ok <==> a.len() > 0 && is_grid(a@, a.len() as int) && is_grid(b@, a.len() as int),
        r matches Ok(res) ==> is_grid_product(res@, a@, b@, a.len() as int),
        r matches Err(e) ==> e == MulError::DimensionMismatch,
{
    let n = a.len();
    if n == 0 || !is_square_grid(a, n) || !is_square_grid(b, n) {
        return Err(MulError::DimensionMismatch);
    }
    let mut res: Vec<Vec<T>> = Vec::with_capacity(n);
    let mut i: usize = 0;
    while i < n
        invariant
            i <= n,
            is_grid(a@, n as int),
            is_grid(b@, n as int),
            res.len() == i,
            forall|r: int| 0 <= r < i ==> (#[trigger] res@[r]).len() == n,
            forall|r: int, c: int|
                0 <= r < i && 0 <= c < n ==> #[trigger] res@[r]@[c] == grid_partial_dot(
                    a@,
                    b@,
                    r,
                    c,
                    n as int,
                ),
        decreases n - i,
    {
        let mut row: Vec<T> = zeros(n);
        let mut k: usize = 0;
        while k < n
            invariant
                i < n,
                k <= n,
                is_grid(a@, n as int),
                is_grid(b@, n as int),
                row.len() == n,
                forall|c: int|
                    0 <= c < n ==> #[trigger] row@[c] == grid_partial_dot(
                        a@,
                        b@,
                        i as int,
                        c,
                        k as int,
                    ),
            decreases n - k,
        {
            assert(a@[i as int].len() == n);
            assert(b@[k as int].len() == n);
            let temp = a[i][k];
            let mut j: usize = 0;
            while j < n
                invariant
                    i < n,
                    k < n,
                    j <= n,
                    is_grid(b@, n as int),
                    b@[k as int].len() == n,
                    temp == a@[i as int]@[k as int],
                    row.len() == n,
                    forall|c: int|
                        0 <= c < j ==> #[trigger] row@[c] == grid_partial_dot(
                            a@,
                            b@,
                            i as int,
                            c,
                            k + 1,
                        ),
                    forall|c: int|
                        j <= c < n ==> #[trigger] row@[c] == grid_partial_dot(
                            a@,
                            b@,
                            i as int,
                            c,
                            k as int,
                        ),
                decreases n - j,
            {
                let sum = row[j].plus(temp.times(b[k][j]));
                row[j] = sum;
                j += 1;
            }
            k += 1;
        }
        res.push(row);
        i += 1;
    }
    Ok(res)
}

} // verus!

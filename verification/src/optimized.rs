//! The kernels that transpose the right operand first, and the blocked
//! kernels that sweep the matrix tile by tile.
use vstd::prelude::*;
use crate::error::MulError;
use crate::model::{
    at_stage, blocked_spec, lemma_done_is_product, multiply_spec, outcome, product,
};
use crate::scalar::Scalar;
use crate::shape::{common_side, lemma_zero_stage, transpose, zeros};
use crate::sweep::{accumulate_tile, sweep_rows, tile_end};

verus! {

/// The product of two `n` by `n` matrices by the transposed kernel: the
/// right operand is transposed once, then rows are accumulated as in the
/// naive kernel, reading the transposed copy.
pub fn transposed_product<T: Scalar>(a: &[T], b: &[T], n: usize) -> (res: Vec<T>)
    requires
        a.len() == n * n,
        b.len() == n * n,
    ensures
        res@ == product(a@, b@, n as int),
{
    let bt = transpose(b, n);
    let mut res: Vec<T> = zeros(a.len());
    proof {
        lemma_zero_stage(res@, a@, bt@, true, n as int, 0, n as int);
    }
    accumulate_tile(res.as_mut_slice(), a, bt.as_slice(), true, n, n, 0, 0, n, 0, n, 0, n);
    proof {
        lemma_done_is_product(res@, a@, b@, bt@, true, n as int);
    }
    res
}

/// Takes a zeroed `n` by `n` matrix to the product, one band of `block`
/// rows after another; within a band the tiles are swept column panel by
/// column panel. The last band is clipped to the matrix.
pub fn sweep_bands<T: Scalar>(
    res: &mut [T],
    a: &[T],
    rgt: &[T],
    transposed: bool,
    n: usize,
    block: usize,
)
    requires
        old(res).len() == n * n,
        a.len() == n * n,
        rgt.len() == n * n,
        block > 0,
        at_stage(old(res)@, a@, rgt@, transposed, n as int, 0, 0, n as int, 0, n as int, 0),
    ensures
        final(res).len() == n * n,
        at_stage(
            final(res)@,
            a@,
            rgt@,
            transposed,
            n as int,
            0,
            0,
            n as int,
            0,
            n as int,
            n as int,
        ),
{
    let mut ii: usize = 0;
    while ii < n
        invariant
            res.len() == n * n,
            a.len() == n * n,
            rgt.len() == n * n,
            block > 0,
            ii <= n,
            at_stage(
                res@,
                a@,
                rgt@,
                transposed,
                n as int,
                0,
                0,
                ii as int,
                0,
                n as int,
                n as int,
            ),
            at_stage(res@, a@, rgt@, transposed, n as int, 0, ii as int, n as int, 0, n as int, 0),
        decreases n - ii,
    {
        let i_end = tile_end(ii, block, n);
        sweep_rows(res, a, rgt, transposed, n, n, 0, ii, i_end, block);
        ii = i_end;
    }
}

/// The product of two `n` by `n` matrices by the blocked kernel, over
/// tiles of edge `block`. With `transposed` set the right operand is
/// transposed first and the tiles read the transposed copy.
pub fn blocked_product<T: Scalar>(a: &[T], b: &[T], n: usize, block: usize, transposed: bool) -> (res:
    Vec<T>)
    requires
        a.len() == n * n,
        b.len() == n * n,
        block > 0,
    ensures
        res@ == product(a@, b@, n as int),
{
    let mut res: Vec<T> = zeros(a.len());
    if transposed {
        let bt = transpose(b, n);
        proof {
            lemma_zero_stage(res@, a@, bt@, true, n as int, 0, n as int);
        }
        sweep_bands(res.as_mut_slice(), a, bt.as_slice(), true, n, block);
        proof {
            lemma_done_is_product(res@, a@, b@, bt@, true, n as int);
        }
    } else {
        proof {
            lemma_zero_stage(res@, a@, b@, false, n as int, 0, n as int);
        }
        sweep_bands(res.as_mut_slice(), a, b, false, n, block);
        proof {
            lemma_done_is_product(res@, a@, b@, b@, false, n as int);
        }
    }
    res
}

/// Multiplies two flat matrices by the transposed kernel.
pub fn final_mul_line<T: Scalar>(a: &[T], b: &[T]) -> (r: Result<Vec<T>, MulError>)
    ensures
        outcome(r) == multiply_spec(a@, b@),
{
    match common_side(a.len(), b.len()) {
        Ok(n) => Ok(transposed_product(a, b, n)),
        Err(e) => Err(e),
    }
}

/// Multiplies two flat matrices by the transposed kernel. Every index is
/// proved to lie inside its buffer, so no access needs a run-time check
/// to be safe.
pub fn unsafe_mul_line<T: Scalar>(a: &[T], b: &[T]) -> (r: Result<Vec<T>, MulError>)
    ensures
        outcome(r) == multiply_spec(a@, b@),
{
    match common_side(a.len(), b.len()) {
        Ok(n) => Ok(transposed_product(a, b, n)),
        Err(e) => Err(e),
    }
}

/// Multiplies two flat matrices by the blocked kernel over a transposed
/// right operand, with tiles of edge `bk_size`.
pub fn final_mul_block<T: Scalar>(a: &[T], b: &[T], bk_size: usize) -> (r: Result<
    Vec<T>,
    MulError,
>)
    ensures
        outcome(r) == blocked_spec(a@, b@, bk_size as nat),
{
    match common_side(a.len(), b.len()) {
        Ok(n) => {
            if bk_size == 0 {
                return Err(MulError::InvalidBlockSize);
            }
            Ok(blocked_product(a, b, n, bk_size, true))
        },
        Err(e) => Err(e),
    }
}

/// Multiplies two flat matrices by the blocked kernel, reading the right
/// operand as it is, with tiles of edge `block_size`.
pub fn block_matrix_multiplication<T: Scalar>(a: &[T], b: &[T], block_size: usize) -> (r: Result<
    Vec<T>,
    MulError,
>)
    ensures
        outcome(r) == blocked_spec(a@, b@, block_size as nat),
{
    match common_side(a.len(), b.len()) {
        Ok(n) => {
            if block_size == 0 {
                return Err(MulError::InvalidBlockSize);
            }
            Ok(blocked_product(a, b, n, block_size, false))
        },
        Err(e) => Err(e),
    }
}

} // verus!

//! The data-parallel kernels. The result is cut into units of whole
//! rows, and each unit is computed by an independent piece of work
//! that reads both operands and writes nothing but its own rows.
use rayon::iter::{IndexedParallelIterator, ParallelIterator};
use rayon::slice::ParallelSliceMut;
use vstd::prelude::*;
use crate::error::MulError;
use crate::model::{
    all_zero, blocked_spec, cell, lemma_cell_index, lemma_done_is_product, multiply_spec, outcome,
    partial_dot, rows_done,
};
use crate::scalar::Scalar;
use crate::shape::{common_side, lemma_zero_stage, transpose, zeros};
use crate::sweep::{accumulate_span, sweep_rows, tile_end, tile_end_spec};

verus! {

/// The first row of unit `u` when every unit but the last has `per_unit`
/// rows.
pub open spec fn unit_start(u: int, per_unit: int) -> int {
    u * per_unit
}

/// The row after the last row of unit `u` of a matrix of `n` rows: the
/// last unit takes the rows that are left.
pub open spec fn unit_end(u: int, per_unit: int, n: int) -> int {
    tile_end_spec(u * per_unit, per_unit, n)
}

/// The unit that row `r` belongs to.
pub open spec fn unit_of(r: int, per_unit: int) -> int {
    r / per_unit
}

/// The elements of unit `u` when `m` is cut into pieces of `chunk_len`
/// elements, the last piece holding what is left.
pub open spec fn unit_chunk<T>(m: Seq<T>, chunk_len: int, u: int) -> Seq<T> {
    m.subrange(u * chunk_len, tile_end_spec(u * chunk_len, chunk_len, m.len() as int))
}

/// Every row belongs to exactly one unit: to unit `unit_of(r)`, and to
/// no other.
pub proof fn lemma_row_partition(n: int, per_unit: int, r: int)
    requires
        0 < per_unit,
        0 <= r < n,
    ensures
        0 <= unit_of(r, per_unit),
        unit_start(unit_of(r, per_unit), per_unit) <= r < unit_end(
            unit_of(r, per_unit),
            per_unit,
            n,
        ),
        forall|u: int|
            0 <= u && unit_start(u, per_unit) <= r < #[trigger] unit_end(u, per_unit, n) ==> u
                == unit_of(r, per_unit),
{
    let q = r / per_unit;
    vstd::arithmetic::div_mod::lemma_fundamental_div_mod(r, per_unit);
    vstd::arithmetic::div_mod::lemma_mod_pos_bound(r, per_unit);
    assert(q * per_unit == per_unit * q) by (nonlinear_arith);
    assert(0 <= q) by (nonlinear_arith)
        requires
            r == per_unit * q + r % per_unit,
            0 <= r % per_unit < per_unit,
            0 <= r,
    ;
    assert forall|u: int|
        0 <= u && unit_start(u, per_unit) <= r < #[trigger] unit_end(u, per_unit, n) implies u
        == q by {
        assert(u * per_unit <= r < u * per_unit + per_unit);
        if u < q {
            assert(u * per_unit + per_unit <= q * per_unit) by (nonlinear_arith)
                requires
                    u < q,
                    0 < per_unit,
            ;
        } else if q < u {
            assert(q * per_unit + per_unit <= u * per_unit) by (nonlinear_arith)
                requires
                    q < u,
                    0 < per_unit,
            ;
        }
    }
}

/// What a unit of work asks of the piece it is given: the piece is unit
/// `u` of a result of side `n`, it holds that unit's rows and no more,
/// and it is still zero.
pub open spec fn unit_ready<T: Scalar>(chunk: Seq<T>, u: int, n: int, per_unit: int) -> bool {
    &&& unit_start(u, per_unit) < n
    &&& chunk.len() == (unit_end(u, per_unit, n) - unit_start(u, per_unit)) * n
    &&& all_zero(chunk)
}

/// What a unit of work leaves in its piece: every cell of the rows of
/// unit `u` holds its complete dot product.
pub open spec fn unit_done<T: Scalar>(
    chunk: Seq<T>,
    u: int,
    a: Seq<T>,
    bt: Seq<T>,
    n: int,
    per_unit: int,
) -> bool {
    rows_done(
        chunk,
        a,
        bt,
        true,
        n,
        unit_start(u, per_unit),
        unit_end(u, per_unit, n) - unit_start(u, per_unit),
    )
}

/// Where piece `u` of a result of side `n` lies when the result is cut
/// into pieces of `per_unit` rows.
proof fn lemma_unit_bounds(n: int, per_unit: int, u: int)
    requires
        0 < per_unit <= n,
        0 <= u,
        u * (per_unit * n) < n * n,
    ensures
        u * (per_unit * n) == unit_start(u, per_unit) * n,
        0 <= unit_start(u, per_unit) < unit_end(u, per_unit, n) <= n,
        tile_end_spec(u * (per_unit * n), per_unit * n, n * n) == unit_end(u, per_unit, n) * n,
{
    let first = u * per_unit;
    assert(u * (per_unit * n) == first * n) by (nonlinear_arith)
        requires
            first == u * per_unit,
    ;
    assert(0 <= first) by (nonlinear_arith)
        requires
            first == u * per_unit,
            0 <= u,
            0 < per_unit,
    ;
    assert(first < n) by (nonlinear_arith)
        requires
            first * n < n * n,
            0 < n,
    ;
    assert((first + per_unit) * n == first * n + per_unit * n) by (nonlinear_arith);
    if first + per_unit < n {
        assert((first + per_unit) * n < n * n) by (nonlinear_arith)
            requires
                first + per_unit < n,
                0 < n,
        ;
    } else {
        assert(n * n <= (first + per_unit) * n) by (nonlinear_arith)
            requires
                n <= first + per_unit,
                0 < n,
        ;
    }
}

/// Every piece of a zeroed result is ready for its unit of work.
proof fn lemma_units_ready<T: Scalar>(m: Seq<T>, n: int, per_unit: int)
    requires
        0 < per_unit <= n,
        m.len() == n * n,
        all_zero(m),
    ensures
        forall|u: int|
            0 <= u && u * (per_unit * n) < m.len() ==> unit_ready(
                #[trigger] unit_chunk(m, per_unit * n, u),
                u,
                n,
                per_unit,
            ),
{
    assert forall|u: int| 0 <= u && u * (per_unit * n) < m.len() implies unit_ready(
        #[trigger] unit_chunk(m, per_unit * n, u),
        u,
        n,
        per_unit,
    ) by {
        lemma_unit_bounds(n, per_unit, u);
        let first = unit_start(u, per_unit);
        let last = unit_end(u, per_unit, n);
        assert(last * n - first * n == (last - first) * n) by (nonlinear_arith);
        assert(last * n <= n * n) by (nonlinear_arith)
            requires
                0 <= last <= n,
        ;
    }
}

/// A result whose pieces are all done is done.
proof fn lemma_units_done<T: Scalar>(m: Seq<T>, a: Seq<T>, bt: Seq<T>, n: int, per_unit: int)
    requires
        0 < per_unit <= n,
        m.len() == n * n,
        forall|u: int|
            0 <= u && u * (per_unit * n) < m.len() ==> unit_done(
                #[trigger] unit_chunk(m, per_unit * n, u),
                u,
                a,
                bt,
                n,
                per_unit,
            ),
    ensures
        rows_done(m, a, bt, true, n, 0, n),
{
    assert forall|r: int, c: int| 0 <= r < n && 0 <= c < n implies #[trigger] cell(m, n, r, c)
        == partial_dot(a, bt, true, n, 0 + r, c, n) by {
        lemma_row_partition(n, per_unit, r);
        let u = unit_of(r, per_unit);
        let first = unit_start(u, per_unit);
        let last = unit_end(u, per_unit, n);
        let lr = r - first;
        let chunk = unit_chunk(m, per_unit * n, u);
        assert(u * (per_unit * n) == first * n) by (nonlinear_arith)
            requires
                first == u * per_unit,
        ;
        lemma_cell_index(n, n, first, 0);
        lemma_unit_bounds(n, per_unit, u);
        assert(unit_done(chunk, u, a, bt, n, per_unit));
        assert(last * n - first * n == (last - first) * n) by (nonlinear_arith);
        assert(last * n <= n * n) by (nonlinear_arith)
            requires
                0 <= last <= n,
        ;
        lemma_cell_index(n, last - first, lr, c);
        assert(first * n + lr * n == r * n) by (nonlinear_arith)
            requires
                lr == r - first,
        ;
        assert(chunk[lr * n + c] == m[first * n + (lr * n + c)]);
        assert(cell(chunk, n, lr, c) == partial_dot(a, bt, true, n, first + lr, c, n));
    }
}

/// Computes one row of a product in place: a unit of one row.
pub fn accumulate_row<T: Scalar>(row: &mut [T], i: usize, a: &[T], bt: &[T], n: usize)
    requires
        a.len() == n * n,
        bt.len() == n * n,
        unit_ready(old(row)@, i as int, n as int, 1),
    ensures
        unit_done(final(row)@, i as int, a@, bt@, n as int, 1),
{
    proof {
        lemma_zero_stage(row@, a@, bt@, true, n as int, i as int, 1);
    }
    accumulate_span(row, a, bt, true, n, 1, i, 0, 0, n, 0, n);
}

/// Computes one unit of a product in place by the tile sweep over the
/// unit's rows.
pub fn sweep_unit<T: Scalar>(
    chunk: &mut [T],
    u: usize,
    a: &[T],
    bt: &[T],
    n: usize,
    per_unit: usize,
    block: usize,
)
    requires
        0 < per_unit,
        0 < block,
        a.len() == n * n,
        bt.len() == n * n,
        unit_ready(old(chunk)@, u as int, n as int, per_unit as int),
    ensures
        unit_done(final(chunk)@, u as int, a@, bt@, n as int, per_unit as int),
{
    let first = u * per_unit;
    let rows = tile_end(first, per_unit, n) - first;
    proof {
        lemma_zero_stage(chunk@, a@, bt@, true, n as int, first as int, rows as int);
    }
    sweep_rows(chunk, a, bt, true, n, rows, first, 0, rows, block);
}

/// Runs `accumulate_row` on every row of `res`, in parallel.
///
/// Calls rayon's `par_chunks_exact_mut`, `enumerate` and `for_each`. The
/// contract claims of them that `res`, whose length is a multiple of
/// `n`, is cut into consecutive pieces of `n` elements, and that the
/// closure runs once on each piece, with the piece's position as its
/// index, and on nothing else. What a piece holds afterwards is what
/// `accumulate_row` is proved to leave in it.
#[verifier::external_body]
fn par_accumulate_rows<T: Scalar + Send + Sync>(res: &mut [T], a: &[T], bt: &[T], n: usize)
    requires
        n > 0,
        old(res).len() == n * n,
        a.len() == n * n,
        bt.len() == n * n,
        forall|i: int|
            0 <= i && i * n < old(res).len() ==> unit_ready(
                #[trigger] unit_chunk(old(res)@, n as int, i),
                i,
                n as int,
                1,
            ),
    ensures
        final(res).len() == old(res).len(),
        forall|i: int|
            0 <= i && i * n < old(res).len() ==> unit_done(
                #[trigger] unit_chunk(final(res)@, n as int, i),
                i,
                a@,
                bt@,
                n as int,
                1,
            ),
{
    res.par_chunks_exact_mut(n).enumerate().for_each(|(i, row)| accumulate_row(row, i, a, bt, n));
}

/// Runs `sweep_unit` on every unit of `res`, in parallel.
///
/// Calls rayon's `par_chunks_mut`, `enumerate` and `for_each`. The
/// contract claims of them that `res` is cut into consecutive pieces of
/// `chunk_len` elements, the last piece holding what is left, and that
/// the closure runs once on each piece, with the piece's position as its
/// index, and on nothing else. What a piece holds afterwards is what
/// `sweep_unit` is proved to leave in it.
#[verifier::external_body]
fn par_sweep_units<T: Scalar + Send + Sync>(
    res: &mut [T],
    a: &[T],
    bt: &[T],
    n: usize,
    per_unit: usize,
    chunk_len: usize,
    block: usize,
)
    requires
        0 < chunk_len,
        0 < per_unit,
        0 < block,
        a.len() == n * n,
        bt.len() == n * n,
        forall|u: int|
            0 <= u && u * chunk_len < old(res).len() ==> unit_ready(
                #[trigger] unit_chunk(old(res)@, chunk_len as int, u),
                u,
                n as int,
                per_unit as int,
            ),
    ensures
        final(res).len() == old(res).len(),
        forall|u: int|
            0 <= u && u * chunk_len < old(res).len() ==> unit_done(
                #[trigger] unit_chunk(final(res)@, chunk_len as int, u),
                u,
                a@,
                bt@,
                n as int,
                per_unit as int,
            ),
{
    res.par_chunks_mut(chunk_len).enumerate().for_each(
        |(u, chunk)| sweep_unit(chunk, u, a, bt, n, per_unit, block),
    );
}

/// Multiplies two flat matrices by the transposed kernel, one unit of
/// work per row of the result. The right operand is transposed before
/// the work is handed out.
pub fn final_mul_line_parallel<T: Scalar + Send + Sync>(a: &[T], b: &[T]) -> (r: Result<
    Vec<T>,
    MulError,
>)
    ensures
        outcome(r) == multiply_spec(a@, b@),
{
    let n = match common_side(a.len(), b.len()) {
        Ok(n) => n,
        Err(e) => {
            return Err(e);
        },
    };
    let bt = transpose(b, n);
    let mut res: Vec<T> = zeros(a.len());
    if n > 0 {
        proof {
            assert(1 * n == n);
            lemma_units_ready(res@, n as int, 1);
        }
        par_accumulate_rows(res.as_mut_slice(), a, bt.as_slice(), n);
        proof {
            lemma_units_done(res@, a@, bt@, n as int, 1);
        }
    }
    proof {
        lemma_done_is_product(res@, a@, b@, bt@, true, n as int);
    }
    Ok(res)
}

/// Multiplies two flat matrices by the blocked kernel, one unit of work
/// per band of `bk_size` rows; the last band holds the rows that are
/// left. Within its band each unit sweeps tiles of edge `bk_size`.
pub fn parallel_mul_block<T: Scalar + Send + Sync>(a: &[T], b: &[T], bk_size: usize) -> (r: Result<
    Vec<T>,
    MulError,
>)
    ensures
        outcome(r) == blocked_spec(a@, b@, bk_size as nat),
{
    let n = match common_side(a.len(), b.len()) {
        Ok(n) => n,
        Err(e) => {
            return Err(e);
        },
    };
    if bk_size == 0 {
        return Err(MulError::InvalidBlockSize);
    }
    let bt = transpose(b, n);
    let mut res: Vec<T> = zeros(a.len());
    if n > 0 {
        let per_unit = tile_end(0, bk_size, n);
        proof {
            lemma_cell_index(n as int, n as int, per_unit - 1, 0);
            assert(per_unit * n == (per_unit - 1) * n + n) by (nonlinear_arith);
            lemma_units_ready(res@, n as int, per_unit as int);
        }
        let chunk_len = per_unit * n;
        par_sweep_units(res.as_mut_slice(), a, bt.as_slice(), n, per_unit, chunk_len, bk_size);
        proof {
            lemma_units_done(res@, a@, bt@, n as int, per_unit as int);
        }
    }
    proof {
        lemma_done_is_product(res@, a@, b@, bt@, true, n as int);
    }
    Ok(res)
}

} // verus!

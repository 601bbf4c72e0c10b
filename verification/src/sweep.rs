//! The accumulation that all kernels share, from one span of a row up to
//! the tile sweep over a block of rows.
use vstd::prelude::*;
use crate::scalar::Scalar;
use crate::model::{
    at_stage, cell, lemma_cell_distinct, lemma_cell_index, operand, partial_dot, same_outside,
};

verus! {

/// Where the tile that starts at `origin` ends: `block` further on, or
/// at the matrix boundary `n` if that comes first.
pub open spec fn tile_end_spec(origin: int, block: int, n: int) -> int {
    if origin + block < n {
        origin + block
    } else {
        n
    }
}

/// The end of the tile that starts at `origin`, clipped to `n`.
pub fn tile_end(origin: usize, block: usize, n: usize) -> (end: usize)
    requires
        origin <= n,
    ensures
        end == tile_end_spec(origin as int, block as int, n as int),
{
    if block < n - origin {
        origin + block
    } else {
        n
    }
}

/// Adds the terms `k0..k1` to the cells of columns `j0..j1` in row `li`
/// of the block `out`, which is row `row0 + li` of the product. For each
/// inner index the left operand's element is read once, then the span is
/// swept from left to right.
pub fn accumulate_span<T: Scalar>(
    out: &mut [T],
    a: &[T],
    rgt: &[T],
    transposed: bool,
    n: usize,
    rows: usize,
    row0: usize,
    li: usize,
    k0: usize,
    k1: usize,
    j0: usize,
    j1: usize,
)
    requires
        old(out).len() == rows * n,
        a.len() == n * n,
        rgt.len() == n * n,
        li < rows,
        row0 + li < n,
        k0 <= k1 <= n,
        j0 <= j1 <= n,
        at_stage(
            old(out)@,
            a@,
            rgt@,
            transposed,
            n as int,
            row0 as int,
            li as int,
            li + 1,
            j0 as int,
            j1 as int,
            k0 as int,
        ),
    ensures
        at_stage(
            final(out)@,
            a@,
            rgt@,
            transposed,
            n as int,
            row0 as int,
            li as int,
            li + 1,
            j0 as int,
            j1 as int,
            k1 as int,
        ),
        same_outside(
            old(out)@,
            final(out)@,
            n as int,
            rows as int,
            li as int,
            li + 1,
            j0 as int,
            j1 as int,
        ),
{
    if j0 == j1 {
        return ;
    }
    proof {
        lemma_cell_index(n as int, rows as int, li as int, 0);
        lemma_cell_index(n as int, n as int, row0 + li, 0);
    }
    let base = li * n;
    let a_row = (row0 + li) * n;
    let ghost gi = row0 + li;
    assert forall|q: int| base + j0 <= q < base + j1 implies out@[q] == partial_dot(
        a@,
        rgt@,
        transposed,
        n as int,
        gi,
        q - base,
        k0 as int,
    ) by {
        assert(cell(out@, n as int, li as int, q - base) == out@[q]);
    }
    let mut k = k0;
    while k < k1
        invariant
            out.len() == rows * n,
            out.len() == old(out).len(),
            a.len() == n * n,
            rgt.len() == n * n,
            base == li * n,
            a_row == gi * n,
            gi == row0 + li,
            gi < n,
            base + n <= out.len(),
            a_row + n <= a.len(),
            k0 <= k <= k1 <= n,
            j0 < j1 <= n,
            forall|q: int|
                0 <= q < out.len() ==> #[trigger] out@[q] == if base + j0 <= q < base + j1 {
                    partial_dot(a@, rgt@, transposed, n as int, gi, q - base, k as int)
                } else {
                    old(out)@[q]
                },
        decreases k1 - k,
    {
        let a_val = a[a_row + k];
        assert(a_val == cell(a@, n as int, gi, k as int));
        let mut j = j0;
        while j < j1
            invariant
                out.len() == rows * n,
                out.len() == old(out).len(),
                rgt.len() == n * n,
                base == li * n,
                base + n <= out.len(),
                k < k1 <= n,
                j0 <= j <= j1 <= n,
                a_val == cell(a@, n as int, gi, k as int),
                forall|q: int|
                    0 <= q < out.len() ==> #[trigger] out@[q] == if base + j0 <= q < base + j {
                        partial_dot(a@, rgt@, transposed, n as int, gi, q - base, k + 1)
                    } else if base + j <= q < base + j1 {
                        partial_dot(a@, rgt@, transposed, n as int, gi, q - base, k as int)
                    } else {
                        old(out)@[q]
                    },
            decreases j1 - j,
        {
            proof {
                lemma_cell_index(n as int, n as int, j as int, k as int);
                lemma_cell_index(n as int, n as int, k as int, j as int);
            }
            let at = if transposed {
                j * n + k
            } else {
                k * n + j
            };
            assert(rgt@[at as int] == operand(rgt@, transposed, n as int, k as int, j as int));
            let sum = out[base + j].plus(a_val.times(rgt[at]));
            out[base + j] = sum;
            j += 1;
        }
        k += 1;
    }
    assert forall|r: int, c: int| 0 <= r < rows && 0 <= c < n implies cell(
        out@,
        n as int,
        r,
        c,
    ) == if r == li && j0 <= c < j1 {
        partial_dot(a@, rgt@, transposed, n as int, gi, c, k1 as int)
    } else {
        cell(old(out)@, n as int, r, c)
    } by {
        lemma_cell_index(n as int, rows as int, r, c);
        let q = r * n + c;
        if base + j0 <= q < base + j1 {
            lemma_cell_distinct(n as int, r, c, li as int, q - base);
        }
    }
}

/// Adds the terms `k0..k1` to the cells of rows `i0..i1` and columns
/// `j0..j1` of the block `out`, row after row.
pub fn accumulate_tile<T: Scalar>(
    out: &mut [T],
    a: &[T],
    rgt: &[T],
    transposed: bool,
    n: usize,
    rows: usize,
    row0: usize,
    i0: usize,
    i1: usize,
    k0: usize,
    k1: usize,
    j0: usize,
    j1: usize,
)
    requires
        old(out).len() == rows * n,
        a.len() == n * n,
        rgt.len() == n * n,
        i0 <= i1 <= rows,
        row0 + rows <= n,
        k0 <= k1 <= n,
        j0 <= j1 <= n,
        at_stage(
            old(out)@,
            a@,
            rgt@,
            transposed,
            n as int,
            row0 as int,
            i0 as int,
            i1 as int,
            j0 as int,
            j1 as int,
            k0 as int,
        ),
    ensures
        at_stage(
            final(out)@,
            a@,
            rgt@,
            transposed,
            n as int,
            row0 as int,
            i0 as int,
            i1 as int,
            j0 as int,
            j1 as int,
            k1 as int,
        ),
        same_outside(
            old(out)@,
            final(out)@,
            n as int,
            rows as int,
            i0 as int,
            i1 as int,
            j0 as int,
            j1 as int,
        ),
{
    let mut i = i0;
    while i < i1
        invariant
            out.len() == rows * n,
            a.len() == n * n,
            rgt.len() == n * n,
            i0 <= i <= i1 <= rows,
            row0 + rows <= n,
            k0 <= k1 <= n,
            j0 <= j1 <= n,
            at_stage(
                out@,
                a@,
                rgt@,
                transposed,
                n as int,
                row0 as int,
                i0 as int,
                i as int,
                j0 as int,
                j1 as int,
                k1 as int,
            ),
            at_stage(
                out@,
                a@,
                rgt@,
                transposed,
                n as int,
                row0 as int,
                i as int,
                i1 as int,
                j0 as int,
                j1 as int,
                k0 as int,
            ),
            same_outside(
                old(out)@,
                out@,
                n as int,
                rows as int,
                i0 as int,
                i1 as int,
                j0 as int,
                j1 as int,
            ),
        decreases i1 - i,
    {
        accumulate_span(out, a, rgt, transposed, n, rows, row0, i, k0, k1, j0, j1);
        i += 1;
    }
}

/// Takes the cells of rows `i0..i1` and columns `j0..j1` of the block
/// `out` from zero to their complete dot products, one tile of the inner
/// index after another. Each tile spans `block` inner indices; the last
/// is clipped to the matrix.
pub fn sweep_panel<T: Scalar>(
    out: &mut [T],
    a: &[T],
    rgt: &[T],
    transposed: bool,
    n: usize,
    rows: usize,
    row0: usize,
    i0: usize,
    i1: usize,
    j0: usize,
    j1: usize,
    block: usize,
)
    requires
        old(out).len() == rows * n,
        a.len() == n * n,
        rgt.len() == n * n,
        i0 <= i1 <= rows,
        row0 + rows <= n,
        j0 <= j1 <= n,
        block > 0,
        at_stage(
            old(out)@,
            a@,
            rgt@,
            transposed,
            n as int,
            row0 as int,
            i0 as int,
            i1 as int,
            j0 as int,
            j1 as int,
            0,
        ),
    ensures
        at_stage(
            final(out)@,
            a@,
            rgt@,
            transposed,
            n as int,
            row0 as int,
            i0 as int,
            i1 as int,
            j0 as int,
            j1 as int,
            n as int,
        ),
        same_outside(
            old(out)@,
            final(out)@,
            n as int,
            rows as int,
            i0 as int,
            i1 as int,
            j0 as int,
            j1 as int,
        ),
{
    let mut kk: usize = 0;
    while kk < n
        invariant
            out.len() == rows * n,
            a.len() == n * n,
            rgt.len() == n * n,
            i0 <= i1 <= rows,
            row0 + rows <= n,
            j0 <= j1 <= n,
            block > 0,
            kk <= n,
            at_stage(
                out@,
                a@,
                rgt@,
                transposed,
                n as int,
                row0 as int,
                i0 as int,
                i1 as int,
                j0 as int,
                j1 as int,
                kk as int,
            ),
            same_outside(
                old(out)@,
                out@,
                n as int,
                rows as int,
                i0 as int,
                i1 as int,
                j0 as int,
                j1 as int,
            ),
        decreases n - kk,
    {
        let k_end = tile_end(kk, block, n);
        accumulate_tile(out, a, rgt, transposed, n, rows, row0, i0, i1, kk, k_end, j0, j1);
        kk = k_end;
    }
}

/// Takes every cell of rows `i0..i1` of the block `out` from zero to its
/// complete dot product, one panel of `block` columns after another; the
/// last panel is clipped to the matrix.
pub fn sweep_rows<T: Scalar>(
    out: &mut [T],
    a: &[T],
    rgt: &[T],
    transposed: bool,
    n: usize,
    rows: usize,
    row0: usize,
    i0: usize,
    i1: usize,
    block: usize,
)
    requires
        old(out).len() == rows * n,
        a.len() == n * n,
        rgt.len() == n * n,
        i0 <= i1 <= rows,
        row0 + rows <= n,
        block > 0,
        at_stage(
            old(out)@,
            a@,
            rgt@,
            transposed,
            n as int,
            row0 as int,
            i0 as int,
            i1 as int,
            0,
            n as int,
            0,
        ),
    ensures
        at_stage(
            final(out)@,
            a@,
            rgt@,
            transposed,
            n as int,
            row0 as int,
            i0 as int,
            i1 as int,
            0,
            n as int,
            n as int,
        ),
        same_outside(
            old(out)@,
            final(out)@,
            n as int,
            rows as int,
            i0 as int,
            i1 as int,
            0,
            n as int,
        ),
{
    let mut jj: usize = 0;
    while jj < n
        invariant
            out.len() == rows * n,
            a.len() == n * n,
            rgt.len() == n * n,
            i0 <= i1 <= rows,
            row0 + rows <= n,
            block > 0,
            jj <= n,
            at_stage(
                out@,
                a@,
                rgt@,
                transposed,
                n as int,
                row0 as int,
                i0 as int,
                i1 as int,
                0,
                jj as int,
                n as int,
            ),
            at_stage(
                out@,
                a@,
                rgt@,
                transposed,
                n as int,
                row0 as int,
                i0 as int,
                i1 as int,
                jj as int,
                n as int,
                0,
            ),
            same_outside(
                old(out)@,
                out@,
                n as int,
                rows as int,
                i0 as int,
                i1 as int,
                0,
                n as int,
            ),
        decreases n - jj,
    {
        let j_end = tile_end(jj, block, n);
        sweep_panel(out, a, rgt, transposed, n, rows, row0, i0, i1, jj, j_end, block);
        jj = j_end;
    }
}

} // verus!

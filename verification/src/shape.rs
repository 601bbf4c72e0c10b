//! Side lengths, zeroed storage and transposition.
use vstd::prelude::*;
use crate::error::MulError;
use crate::model::{
    all_zero, at_stage, cell, is_square, is_transpose, lemma_cell_index, lemma_side_of, side_of,
};
use crate::scalar::Scalar;

verus! {

/// The side of the square matrix that has `len` elements, if there is
/// one.
pub fn exact_side(len: usize) -> (side: Option<usize>)
    ensures
        side is Some <==> is_square(len as nat),
        side matches Some(n) ==> n * n == len && n == side_of(len as nat),
{
    let mut lo: usize = 0;
    let mut hi: usize = len;
    assert(len < (len + 1) * (len + 1)) by (nonlinear_arith);
    while lo < hi
        invariant
            lo <= hi <= len,
            lo * lo <= len,
            len < (hi + 1) * (hi + 1),
        decreases hi - lo,
    {
        let mid = hi - (hi - lo) / 2;
        let fits = match mid.checked_mul(mid) {
            Some(sq) => sq <= len,
            None => false,
        };
        if fits {
            lo = mid;
        } else {
            hi = mid - 1;
        }
    }
    let ghost root = lo as nat;
    proof {
        if root * root == len {
            lemma_side_of(root);
        } else if is_square(len as nat) {
            let m = side_of(len as nat);
            assert(m * m == len);
            if m < root {
                assert(m * m < root * root) by (nonlinear_arith)
                    requires
                        0 <= m < root,
                ;
            } else if m > root {
                assert((root + 1) * (root + 1) <= m * m) by (nonlinear_arith)
                    requires
                        0 <= root < m,
                ;
            }
        }
    }
    match lo.checked_mul(lo) {
        Some(sq) => if sq == len {
            Some(lo)
        } else {
            None
        },
        None => None,
    }
}

/// The common side of two flat operands.
pub fn common_side(a_len: usize, b_len: usize) -> (side: Result<usize, MulError>)
    ensures
        side is Ok <==> a_len == b_len && is_square(a_len as nat),
        side matches Ok(n) ==> n * n == a_len && n == side_of(a_len as nat),
        side matches Err(e) ==> e == MulError::DimensionMismatch,
{
    if a_len != b_len {
        return Err(MulError::DimensionMismatch);
    }
    match exact_side(a_len) {
        Some(n) => Ok(n),
        None => Err(MulError::DimensionMismatch),
    }
}

/// `len` zeros.
pub fn zeros<T: Scalar>(len: usize) -> (v: Vec<T>)
    ensures
        v.len() == len,
        all_zero(v@),
{
    let mut v: Vec<T> = Vec::with_capacity(len);
    let mut i: usize = 0;
    while i < len
        invariant
            i <= len,
            v.len() == i,
            all_zero(v@),
        decreases len - i,
    {
        v.push(T::zero());
        i += 1;
    }
    v
}

/// In a zeroed block no term has been added to any cell yet.
pub proof fn lemma_zero_stage<T: Scalar>(
    m: Seq<T>,
    a: Seq<T>,
    rgt: Seq<T>,
    transposed: bool,
    n: int,
    row0: int,
    rows: int,
)
    requires
        all_zero(m),
        m.len() == rows * n,
    ensures
        at_stage(m, a, rgt, transposed, n, row0, 0, rows, 0, n, 0),
{
    assert forall|r: int, c: int| 0 <= r < rows && 0 <= c < n implies #[trigger] cell(m, n, r, c)
        == T::zero_spec() by {
        lemma_cell_index(n, rows, r, c);
    }
}

/// The `n` by `n` matrix `b` with rows and columns exchanged.
pub fn transpose<T: Scalar>(b: &[T], n: usize) -> (bt: Vec<T>)
    requires
        b.len() == n * n,
    ensures
        is_transpose(bt@, b@, n as int),
{
    let mut bt: Vec<T> = Vec::with_capacity(b.len());
    let mut c: usize = 0;
    while c < n
        invariant
            b.len() == n * n,
            c <= n,
            bt.len() == c * n,
            forall|r: int, cc: int|
                0 <= r < n && 0 <= cc < c ==> #[trigger] cell(bt@, n as int, cc, r) == cell(
                    b@,
                    n as int,
                    r,
                    cc,
                ),
        decreases n - c,
    {
        let mut r: usize = 0;
        while r < n
            invariant
                b.len() == n * n,
                c < n,
                r <= n,
                bt.len() == c * n + r,
                forall|rr: int, cc: int|
                    0 <= rr < n && 0 <= cc < c ==> #[trigger] cell(bt@, n as int, cc, rr) == cell(
                        b@,
                        n as int,
                        rr,
                        cc,
                    ),
                forall|rr: int|
                    0 <= rr < r ==> #[trigger] cell(bt@, n as int, c as int, rr) == cell(
                        b@,
                        n as int,
                        rr,
                        c as int,
                    ),
            decreases n - r,
        {
            proof {
                lemma_cell_index(n as int, n as int, r as int, c as int);
            }
            let ghost before = bt@;
            bt.push(b[r * n + c]);
            assert forall|rr: int, cc: int| 0 <= rr < n && 0 <= cc < c implies #[trigger] cell(
                bt@,
                n as int,
                cc,
                rr,
            ) == cell(b@, n as int, rr, cc) by {
                lemma_cell_index(n as int, c as int, cc, rr);
                assert(cell(before, n as int, cc, rr) == cell(b@, n as int, rr, cc));
            }
            assert forall|rr: int| 0 <= rr < r + 1 implies #[trigger] cell(
                bt@,
                n as int,
                c as int,
                rr,
            ) == cell(b@, n as int, rr, c as int) by {
                if rr < r {
                    assert(cell(before, n as int, c as int, rr) == cell(b@, n as int, rr, c as int));
                }
            }
            r += 1;
        }
        assert((c + 1) * n == c * n + n) by (nonlinear_arith);
        c += 1;
    }
    bt
}

} // verus!

//! Choosing a kernel by name.
use vstd::prelude::*;
use crate::error::MulError;
use crate::matrix::Matrix;
use crate::model::product;
use crate::scalar::Scalar;

verus! {

/// The kernels that can be chosen by name.
#[derive(Clone, Copy, Debug, PartialEq, Eq, Structural)]
pub enum Mode {
    /// The naive kernel.
    Normal,
    /// The row-by-row kernel.
    Line,
    /// The blocked kernel, with its block size.
    Block(usize),
}

/// The lower-case form of a string, as the standard library computes it
/// from the Unicode character tables.
pub uninterp spec fn lowercase_of(s: Seq<char>) -> Seq<char>;

/// The lower-case form of `s`.
///
/// Calls `str::to_lowercase`. The contract gives the result a name and
/// claims nothing else of it.
#[verifier::external_body]
fn to_lowercase(s: &str) -> (lower: String)
    ensures
        lower@ == lowercase_of(s@),
{
    s.to_lowercase()
}

impl Mode {
    /// The mode that a selector in lower case names: `n` the naive
    /// kernel, `l` the row-by-row kernel, `b` the blocked kernel, which
    /// needs a block size. Anything else names no mode.
    pub open spec fn select(lower: Seq<char>, maybe_block_size: Option<usize>) -> Result<
        Mode,
        MulError,
    > {
        if lower.len() == 1 && lower[0] == 'n' {
            Ok(Mode::Normal)
        } else if lower.len() == 1 && lower[0] == 'l' {
            Ok(Mode::Line)
        } else if lower.len() == 1 && lower[0] == 'b' {
            match maybe_block_size {
                Some(block_size) => Ok(Mode::Block(block_size)),
                None => Err(MulError::InvalidArgument),
            }
        } else {
            Err(MulError::InvalidArgument)
        }
    }

    /// The mode that a selector already in lower case names.
    pub fn from_lowercase(lower: &str, maybe_block_size: Option<usize>) -> (r: Result<
        Mode,
        MulError,
    >)
        ensures
            r == Self::select(lower@, maybe_block_size),
    {
        if lower.unicode_len() != 1 {
            return Err(MulError::InvalidArgument);
        }
        let c = lower.get_char(0);
        if c == 'n' {
            Ok(Mode::Normal)
        } else if c == 'l' {
            Ok(Mode::Line)
        } else if c == 'b' {
            match maybe_block_size {
                Some(block_size) => Ok(Mode::Block(block_size)),
                None => Err(MulError::InvalidArgument),
            }
        } else {
            Err(MulError::InvalidArgument)
        }
    }

    /// The mode that a selector names, whatever its case.
    pub fn from_args(mode_str: &str, maybe_block_size: Option<usize>) -> (r: Result<
        Mode,
        MulError,
    >)
        ensures
            r == Self::select(lowercase_of(mode_str@), maybe_block_size),
    {
        let lower = to_lowercase(mode_str);
        Self::from_lowercase(lower.as_str(), maybe_block_size)
    }

    /// Multiplies `a` by `b` with the kernel that this mode names.
    pub fn multiply<T: Scalar>(&self, a: &Matrix<T>, b: &Matrix<T>) -> (r: Result<
        Matrix<T>,
        MulError,
    >)
        ensures
            r is Ok <==> a.side_spec() == b.side_spec() && *self != Mode::Block(0),
            r matches Ok(m) ==> m.side_spec() == a.side_spec() && m.elements() == product(
                a.elements(),
                b.elements(),
                a.side_spec() as int,
            ),
            r matches Err(e) ==> e == if a.side_spec() != b.side_spec() {
                MulError::DimensionMismatch
            } else {
                MulError::InvalidBlockSize
            },
    {
        match self {
            Mode::Normal => a.multiply_basic(b),
            Mode::Line => a.multiply_line(b),
            Mode::Block(block_size) => a.multiply_block(b, *block_size),
        }
    }
}

} // verus!

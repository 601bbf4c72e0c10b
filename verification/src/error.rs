//! Why a request was turned down.
use vstd::prelude::*;

verus! {

/// The reasons for which this crate refuses to compute. Each is found
/// before any element is read, so no partial result is ever returned.
#[derive(Clone, Copy, Debug, PartialEq, Eq, Structural)]
pub enum MulError {
    /// The operands differ in side, or a flat operand's length is not a
    /// square number.
    DimensionMismatch,
    /// The block edge length is zero.
    InvalidBlockSize,
    /// A mode selector that names no kernel, or names the blocked kernel
    /// without a block size.
    InvalidArgument,
}

} // verus!

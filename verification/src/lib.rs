//! Dense square matrix multiplication over row-major flat storage.
//!
//! Every kernel in this crate (naive, transposed, blocked and their
//! data-parallel counterparts) is proved to return exactly
//! [`model::product`], the product in which each cell accumulates its
//! terms in ascending order of the inner index. The kernels are generic
//! in the element type, a [`scalar::Scalar`], and since they fix the
//! order of every sum they agree to the last bit even where addition is
//! not associative.
//!
//! - [`scalar`]: the element type, and its instances for `i64` and `u64`.
//! - [`model`]: what a product is; the predicates that describe a result
//!   while it is being accumulated.
//! - [`shape`]: side lengths, zeroed storage, transposition.
//! - [`sweep`]: the accumulation loops that all kernels share.
//! - [`naive_approach`], [`optimized`], [`parallel`]: the kernels.
//! - [`matrix`], [`mode`]: an owning matrix type and kernel selection.
//! - [`bench`]: operands and schedules for timing runs.
//! - [`laws`]: what holds of the product whatever the operands.
pub mod scalar;
pub mod model;
pub mod error;
pub mod shape;
pub mod sweep;
pub mod naive_approach;
pub mod optimized;
pub mod parallel;
pub mod matrix;
pub mod mode;
pub mod bench;
pub mod laws;

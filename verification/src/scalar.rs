//! The element type of a matrix.
use vstd::prelude::*;

verus! {

/// A number that matrices can hold: it has a zero, a sum and a product.
///
/// The kernels use nothing else of their elements, and their contracts
/// are stated over the three specification functions alone, so they hold
/// of any implementation, whatever algebraic laws its operations obey.
pub trait Scalar: Copy + Sized {
    /// The value every accumulation starts from.
    spec fn zero_spec() -> Self;

    /// The sum of two elements.
    spec fn plus_spec(self, rhs: Self) -> Self;

    /// The product of two elements.
    spec fn times_spec(self, rhs: Self) -> Self;

    /// The element that stands for the decimal digit `d`.
    spec fn digit_spec(d: u8) -> Self;

    /// Zero.
    fn zero() -> (r: Self)
        ensures
            r == Self::zero_spec(),
    ;

    /// The sum of `self` and `rhs`.
    fn plus(self, rhs: Self) -> (r: Self)
        ensures
            r == self.plus_spec(rhs),
    ;

    /// The product of `self` and `rhs`.
    fn times(self, rhs: Self) -> (r: Self)
        ensures
            r == self.times_spec(rhs),
    ;

    /// The element that stands for the decimal digit `d`.
    fn digit(d: u8) -> (r: Self)
        requires
            d < 10,
        ensures
            r == Self::digit_spec(d),
    ;
}

/// A [`Scalar`] with a one, whose zero and one behave as they do in a
/// ring. The laws of the product that speak of an identity matrix hold
/// of such elements.
pub trait Ring: Scalar {
    /// The multiplicative identity.
    spec fn one_spec() -> Self;

    /// Adding zero changes nothing.
    proof fn lemma_plus_zero(x: Self)
        ensures
            x.plus_spec(Self::zero_spec()) == x,
            Self::zero_spec().plus_spec(x) == x,
    ;

    /// A product with zero is zero.
    proof fn lemma_times_zero(x: Self)
        ensures
            x.times_spec(Self::zero_spec()) == Self::zero_spec(),
            Self::zero_spec().times_spec(x) == Self::zero_spec(),
    ;

    /// Multiplying by one changes nothing.
    proof fn lemma_times_one(x: Self)
        ensures
            x.times_spec(Self::one_spec()) == x,
            Self::one_spec().times_spec(x) == x,
    ;
}

/// The signed integers modulo 2^64: sums and products wrap around.
impl Scalar for i64 {
    open spec fn zero_spec() -> i64 {
        0i64
    }

    open spec fn plus_spec(self, rhs: i64) -> i64 {
        self.wrapping_add(rhs)
    }

    open spec fn times_spec(self, rhs: i64) -> i64 {
        self.wrapping_mul(rhs)
    }

    open spec fn digit_spec(d: u8) -> i64 {
        d as i64
    }

    fn zero() -> (r: i64) {
        0i64
    }

    fn plus(self, rhs: i64) -> (r: i64) {
        self.wrapping_add(rhs)
    }

    fn times(self, rhs: i64) -> (r: i64) {
        self.wrapping_mul(rhs)
    }

    fn digit(d: u8) -> (r: i64) {
        d as i64
    }
}

impl Ring for i64 {
    open spec fn one_spec() -> i64 {
        1i64
    }

    proof fn lemma_plus_zero(x: i64) {
    }

    proof fn lemma_times_zero(x: i64) {
        assert(x * 0 == 0 && 0 * x == 0) by (nonlinear_arith);
    }

    proof fn lemma_times_one(x: i64) {
        assert(x * 1 == x && 1 * x == x) by (nonlinear_arith);
    }
}

/// The integers modulo 2^64: sums and products wrap around.
impl Scalar for u64 {
    open spec fn zero_spec() -> u64 {
        0u64
    }

    open spec fn plus_spec(self, rhs: u64) -> u64 {
        self.wrapping_add(rhs)
    }

    open spec fn times_spec(self, rhs: u64) -> u64 {
        self.wrapping_mul(rhs)
    }

    open spec fn digit_spec(d: u8) -> u64 {
        d as u64
    }

    fn zero() -> (r: u64) {
        0u64
    }

    fn plus(self, rhs: u64) -> (r: u64) {
        self.wrapping_add(rhs)
    }

    fn times(self, rhs: u64) -> (r: u64) {
        self.wrapping_mul(rhs)
    }

    fn digit(d: u8) -> (r: u64) {
        d as u64
    }
}

impl Ring for u64 {
    open spec fn one_spec() -> u64 {
        1u64
    }

    proof fn lemma_plus_zero(x: u64) {
    }

    proof fn lemma_times_zero(x: u64) {
        assert(x * 0 == 0 && 0 * x == 0) by (nonlinear_arith);
    }

    proof fn lemma_times_one(x: u64) {
        assert(x * 1 == x && 1 * x == x) by (nonlinear_arith);
    }
}

} // verus!

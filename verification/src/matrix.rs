//! A square matrix that owns its elements.
use vstd::prelude::*;
use crate::bench::{cyclic_digits, generate_matrix};
use crate::error::MulError;
use crate::model::product;
use crate::naive_approach::naive_product;
use crate::optimized::blocked_product;
use crate::scalar::Scalar;

verus! {

/// A square matrix of `side` rows and `side` columns, stored row by row.
///
/// The number of elements is always the square of the side.
#[derive(Debug)]
pub struct Matrix<T> {
    side: usize,
    data: Vec<T>,
}

impl<T> Matrix<T> {
    #[verifier::type_invariant]
    spec fn well_formed(self) -> bool {
        self.data.len() == self.side * self.side
    }

    /// The number of rows, and of columns.
    pub closed spec fn side_spec(self) -> nat {
        self.side as nat
    }

    /// The elements, row by row.
    pub closed spec fn elements(self) -> Seq<T> {
        self.data@
    }

    /// The number of rows, and of columns.
    pub fn side(&self) -> (n: usize)
        ensures
            n == self.side_spec(),
    {
        self.side
    }

    /// The elements, row by row.
    pub fn data(&self) -> (d: &Vec<T>)
        ensures
            d@ == self.elements(),
            d.len() == self.side_spec() * self.side_spec(),
    {
        proof {
            use_type_invariant(self);
        }
        &self.data
    }

    /// Makes a matrix of the given side from its elements, if there are
    /// exactly `side * side` of them.
    pub fn from_vec(side: usize, data: Vec<T>) -> (m: Option<Self>)
        ensures
            m is Some <==> data.len() == side * side,
            m matches Some(mat) ==> mat.side_spec() == side && mat.elements() == data@,
    {
        match side.checked_mul(side) {
            Some(len) => if data.len() != len {
                None
            } else {
                Some(Matrix { side, data })
            },
            None => None,
        }
    }
}

impl<T: Scalar> Matrix<T> {
    /// A matrix of the given side filled with the digits 0 to 9 in turn.
    pub fn new(side: usize) -> (m: Self)
        requires
            side * side <= usize::MAX,
        ensures
            m.side_spec() == side,
            m.elements() == cyclic_digits::<T>((side * side) as nat),
    {
        let data = generate_matrix(side);
        Matrix { side, data }
    }

    /// The product of `self` and `other` by the naive kernel.
    pub fn multiply_basic(&self, other: &Matrix<T>) -> (r: Result<Matrix<T>, MulError>)
        ensures
            r is Ok <==> self.side_spec() == other.side_spec(),
            r matches Ok(m) ==> m.side_spec() == self.side_spec() && m.elements() == product(
                self.elements(),
                other.elements(),
                self.side_spec() as int,
            ),
            r matches Err(e) ==> e == MulError::DimensionMismatch,
    {
        proof {
            use_type_invariant(self);
            use_type_invariant(other);
        }
        if self.side != other.side {
            return Err(MulError::DimensionMismatch);
        }
        let data = naive_product(self.data.as_slice(), other.data.as_slice(), self.side);
        Ok(Matrix { side: self.side, data })
    }

    /// The product of `self` and `other`, row by row as in
    /// [`Matrix::multiply_basic`].
    pub fn multiply_line(&self, other: &Matrix<T>) -> (r: Result<Matrix<T>, MulError>)
        ensures
            r is Ok <==> self.side_spec() == other.side_spec(),
            r matches Ok(m) ==> m.side_spec() == self.side_spec() && m.elements() == product(
                self.elements(),
                other.elements(),
                self.side_spec() as int,
            ),
            r matches Err(e) ==> e == MulError::DimensionMismatch,
    {
        proof {
            use_type_invariant(self);
            use_type_invariant(other);
        }
        if self.side != other.side {
            return Err(MulError::DimensionMismatch);
        }
        let data = naive_product(self.data.as_slice(), other.data.as_slice(), self.side);
        Ok(Matrix { side: self.side, data })
    }

    /// The product of `self` and `other` by the blocked kernel with
    /// tiles of edge `block_size`. The sides are compared first, then
    /// the block size, which must not be zero.
    pub fn multiply_block(&self, other: &Matrix<T>, block_size: usize) -> (r: Result<
        Matrix<T>,
        MulError,
    >)
        ensures
            r is Ok <==> self.side_spec() == other.side_spec() && block_size > 0,
            r matches Ok(m) ==> m.side_spec() == self.side_spec() && m.elements() == product(
                self.elements(),
                other.elements(),
                self.side_spec() as int,
            ),
            r matches Err(e) ==> e == if self.side_spec() != other.side_spec() {
                MulError::DimensionMismatch
            } else {
                MulError::InvalidBlockSize
            },
    {
        proof {
            use_type_invariant(self);
            use_type_invariant(other);
        }
        if self.side != other.side {
            return Err(MulError::DimensionMismatch);
        }
        if block_size == 0 {
            return Err(MulError::InvalidBlockSize);
        }
        let data = blocked_product(
            self.data.as_slice(),
            other.data.as_slice(),
            self.side,
            block_size,
            false,
        );
        Ok(Matrix { side: self.side, data })
    }
}

impl<T: Scalar> Clone for Matrix<T> {
    /// A matrix of the same side with the same elements.
    fn clone(&self) -> (m: Self)
        ensures
            m.side_spec() == self.side_spec(),
            m.elements() == self.elements(),
    {
        let mut data: Vec<T> = Vec::with_capacity(self.data.len());
        let mut i: usize = 0;
        while i < self.data.len()
            invariant
                i <= self.data.len(),
                data.len() == i,
                forall|p: int| 0 <= p < i ==> #[trigger] data@[p] == self.data@[p],
            decreases self.data.len() - i,
        {
            data.push(self.data[i]);
            i += 1;
        }
        proof {
            use_type_invariant(self);
            assert(data@ =~= self.data@);
        }
        Matrix { side: self.side, data }
    }
}

} // verus!

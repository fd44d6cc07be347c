//! SIMD-lane-aligned storage for numeric vectors and matrices.
//!
//! Data is kept in whole, properly aligned SIMD vectors, while a zero-copy
//! "flat" view lets callers read and write the same memory as ordinary
//! scalar slices. [`PackedMxN`] is the packed row buffer at the core;
//! [`VecD`] specializes it to one row, and [`MatSimd`] adds a row- or
//! column-optimized layout strategy on top of it.

pub mod arch;
pub mod traits;

mod conversion;
mod mat;
mod matrix;
mod packed;
mod rows;
mod vec;
mod vector;

pub use crate::conversion::{packed_as_flat, packed_as_flat_mut};
pub use crate::mat::{
    lemma_dimension_round_trip, lemma_flat_index_strategy_invariant, AccessStrategy, Columns, MatFlat, MatSimd, Matrix2DIter,
    Rows,
};
pub use crate::matrix::{
    ColumnOptimized, OptimizationStrategy, RowOptimized, SimdMatrix, SimdMatrixFlat,
    SimdMatrixIter,
};
pub use crate::packed::{
    lemma_row_ranges_cover, lemma_row_ranges_partition, lemma_scalar_write_round_trip,
    lemma_vectors_per_row_is_ceiling, lemma_with_deterministic, spec_vectors_per_row,
    vectors_per_row, PackedMxN,
};
pub use crate::rows::{Flat, SimdRows};
pub use crate::vec::VecD;
pub use crate::vector::{VectorD, VectorDIter};

use vstd::prelude::*;

verus! {

/// Horizontal operations on SIMD vectors.
pub trait SimdExt {
    /// Scalar result type of the horizontal operations.
    type T;

    /// The horizontal lane sum, as a mathematical value.
    spec fn sum_spec(&self) -> Self::T;

    /// Sums the lanes of the vector, wrapping around on overflow.
    fn sum(&self) -> (r: Self::T)
        ensures
            r == self.sum_spec(),
    ;
}

} // verus!

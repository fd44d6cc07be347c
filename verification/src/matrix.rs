//! A matrix with one axis aligned for SIMD access, over the row buffer
//! [`SimdRows`].
use vstd::prelude::*;

use core::marker::PhantomData;

use vstd::arithmetic::mul::lemma_mul_inequality;

use crate::packed::{
    lemma_lane_position_at, lemma_lane_positions, spec_vectors_per_row, PackedMxN,
};
use crate::rows::SimdRows;
use crate::traits::Simd;

verus! {

/// Picks which caller-facing axis maps onto the contiguous packed rows of
/// the backing buffer: a pure, involutive coordinate translation.
pub trait OptimizationStrategy {
    /// The coordinate translation, as a mathematical function.
    spec fn spec_translate_indices(x: int, y: int) -> (int, int);

    /// Swapping the pair twice gives the pair back: the translation is its
    /// own inverse.
    proof fn translate_involutive(x: int, y: int)
        ensures
            Self::spec_translate_indices(
                Self::spec_translate_indices(x, y).0,
                Self::spec_translate_indices(x, y).1,
            ) == (x, y),
    ;

    /// Translates caller-facing coordinates into (packed row, offset within
    /// the row).
    fn translate_indices_to_simdrows(x: usize, y: usize) -> (r: (usize, usize))
        ensures
            (r.0 as int, r.1 as int) == Self::spec_translate_indices(x as int, y as int),
    ;
}

/// Layout strategy keeping caller rows contiguous in packed storage.
#[derive(Clone, Debug)]
pub struct RowOptimized;

/// Layout strategy keeping caller columns contiguous in packed storage.
#[derive(Clone, Debug)]
pub struct ColumnOptimized;

impl OptimizationStrategy for RowOptimized {
    open spec fn spec_translate_indices(x: int, y: int) -> (int, int) {
        (x, y)
    }

    proof fn translate_involutive(x: int, y: int) {
    }

    fn translate_indices_to_simdrows(x: usize, y: usize) -> (r: (usize, usize)) {
        (x, y)
    }
}

impl OptimizationStrategy for ColumnOptimized {
    open spec fn spec_translate_indices(x: int, y: int) -> (int, int) {
        (y, x)
    }

    proof fn translate_involutive(x: int, y: int) {
    }

    fn translate_indices_to_simdrows(x: usize, y: usize) -> (r: (usize, usize)) {
        (y, x)
    }
}

/// A dynamic (heap allocated) matrix with one axis aligned for fast and safe
/// SIMD access that also provides a flat view on its data.
///
/// The strategy `A` fixes at the type level which caller-facing axis is
/// backed by contiguous packed rows; the whole-vector accessors exist only
/// for the matching axis, so access along the wrong axis does not compile.
#[derive(Debug)]
pub struct SimdMatrix<T: Simd, A: OptimizationStrategy> {
    pub simd_rows: SimdRows<T>,
    pub phantom: PhantomData<A>,
}

impl<T: Simd, A: OptimizationStrategy> SimdMatrix<T, A> {
    /// Validity: the backing packed buffer is well formed.
    pub open spec fn wf(&self) -> bool {
        self.simd_rows.wf()
    }

    /// Whether the caller-facing coordinates land inside the buffer.
    pub open spec fn in_bounds(&self, x: int, y: int) -> bool {
        &&& 0 <= A::spec_translate_indices(x, y).0 < self.simd_rows.rows
        &&& 0 <= A::spec_translate_indices(x, y).1 < self.simd_rows.row_length
    }

    /// The scalar element that the caller-facing coordinates address.
    pub open spec fn flat_at(&self, x: int, y: int) -> T::Element {
        self.simd_rows.scalar_at(
            A::spec_translate_indices(x, y).0,
            A::spec_translate_indices(x, y).1,
        )
    }

    /// Creates a new [`SimdMatrix`] with the given caller-facing dimension,
    /// every scalar set to the default element.
    pub fn with_dimension(width: usize, height: usize) -> (r: Self)
        requires
            A::spec_translate_indices(width as int, height as int).0 * spec_vectors_per_row(
                A::spec_translate_indices(width as int, height as int).1,
                T::lanes_spec(),
            ) <= usize::MAX,
        ensures
            r.wf(),
            r.simd_rows.rows == A::spec_translate_indices(width as int, height as int).0,
            r.simd_rows.row_length == A::spec_translate_indices(width as int, height as int).1,
            r.simd_rows.vectors_per_row == spec_vectors_per_row(
                A::spec_translate_indices(width as int, height as int).1,
                T::lanes_spec(),
            ),
            forall|rr: int, k: int|
                0 <= rr < r.simd_rows.rows && 0 <= k < r.simd_rows.vectors_per_row
                    * T::lanes_spec() ==> r.simd_rows.scalar_at(rr, k) == T::default_element(),
    {
        let d = A::translate_indices_to_simdrows(width, height);
        let buf = PackedMxN::with(T::default_vector(), d.0, d.1);
        let PackedMxN { rows: b_rows, row_length: b_len, vectors_per_row: b_vpr, data: b_data } =
            buf;
        let sr = SimdRows { rows: b_rows, row_length: b_len, vectors_per_row: b_vpr, data: b_data };
        let r = Self { simd_rows: sr, phantom: PhantomData };
        proof {
            T::lanes_pos();
            assert forall|rr: int, k: int|
                0 <= rr < r.simd_rows.rows && 0 <= k < r.simd_rows.vectors_per_row
                    * T::lanes_spec() implies r.simd_rows.scalar_at(rr, k)
                == T::default_element() by {
                lemma_lane_position_at(k, T::lanes_spec(), r.simd_rows.vectors_per_row as int);
                lemma_mul_inequality(
                    rr + 1,
                    r.simd_rows.rows as int,
                    r.simd_rows.vectors_per_row as int,
                );
                assert((rr + 1) * r.simd_rows.vectors_per_row == rr * r.simd_rows.vectors_per_row
                    + r.simd_rows.vectors_per_row) by (nonlinear_arith);
            }
        }
        r
    }

    /// Returns the caller-facing dimension, reconstructed from the packed
    /// layout through the inverse translation.
    pub fn dimension(&self) -> (r: (usize, usize))
        ensures
            (r.0 as int, r.1 as int) == A::spec_translate_indices(
                self.simd_rows.rows as int,
                self.simd_rows.row_length as int,
            ),
    {
        A::translate_indices_to_simdrows(self.simd_rows.rows, self.simd_rows.row_length)
    }

    /// Provides a flat, immutable 2-D view of the contained data.
    pub fn flat(&self) -> (r: SimdMatrixFlat<'_, T, A>)
        ensures
            r.matrix == self,
    {
        SimdMatrixFlat { matrix: self }
    }

    /// Writes one scalar through the flat 2-D view: the mutable counterpart
    /// of [`SimdMatrix::flat`]. Every other scalar keeps its value.
    pub fn flat_mut(&mut self, x: usize, y: usize, value: T::Element)
        requires
            old(self).wf(),
            old(self).in_bounds(x as int, y as int),
        ensures
            final(self).wf(),
            final(self).simd_rows.rows == old(self).simd_rows.rows,
            final(self).simd_rows.row_length == old(self).simd_rows.row_length,
            final(self).simd_rows.vectors_per_row == old(self).simd_rows.vectors_per_row,
            final(self).flat_at(x as int, y as int) == value,
            forall|x2: int, y2: int|
                old(self).in_bounds(x2, y2) && A::spec_translate_indices(x2, y2)
                    != A::spec_translate_indices(x as int, y as int) ==> final(self).flat_at(x2, y2)
                    == old(self).flat_at(x2, y2),
    {
        let ghost prev = *self;
        let d = A::translate_indices_to_simdrows(x, y);
        let f = self.simd_rows.row_as_flat_mut(d.0);
        let ghost f0 = f@;
        f[d.1] = value;
        proof {
            let lanes = T::lanes_spec();
            let vpr = prev.simd_rows.vectors_per_row as int;
            let rr = A::spec_translate_indices(x as int, y as int).0;
            let cc = A::spec_translate_indices(x as int, y as int).1;
            T::lanes_pos();
            lemma_lane_positions(lanes, vpr);
            assert(self.flat_at(x as int, y as int) == value);
            assert forall|x2: int, y2: int|
                prev.in_bounds(x2, y2) && A::spec_translate_indices(x2, y2)
                    != A::spec_translate_indices(x as int, y as int) implies self.flat_at(x2, y2)
                == prev.flat_at(x2, y2) by {
                let r2 = A::spec_translate_indices(x2, y2).0;
                let c2 = A::spec_translate_indices(x2, y2).1;
                lemma_lane_position_at(c2, lanes, vpr);
                if r2 != rr {
                    assert(r2 * vpr + c2 / lanes < rr * vpr || r2 * vpr + c2 / lanes >= (rr + 1)
                        * vpr) by (nonlinear_arith)
                        requires
                            r2 != rr,
                            0 <= r2,
                            0 <= rr,
                            0 <= c2 / lanes < vpr,
                    ;
                    assert(self.simd_rows.data@[r2 * vpr + c2 / lanes] == prev.simd_rows.data@[r2
                        * vpr + c2 / lanes]) by {
                        lemma_mul_inequality(
                            r2 + 1,
                            prev.simd_rows.rows as int,
                            vpr,
                        );
                        assert((r2 + 1) * vpr == r2 * vpr + vpr) by (nonlinear_arith);
                    }
                } else {
                    assert(c2 != cc);
                }
            }
        }
    }
}

impl<T: Simd> SimdMatrix<T, RowOptimized> {
    /// The packed vectors of caller row `i`.
    pub fn row(&self, i: usize) -> (r: &[T])
        requires
            self.wf(),
            i < self.simd_rows.rows,
        ensures
            r@ == self.simd_rows.data@.subrange(
                i * self.simd_rows.vectors_per_row,
                i * self.simd_rows.vectors_per_row + self.simd_rows.vectors_per_row,
            ),
            r@.len() == self.simd_rows.vectors_per_row,
    {
        self.simd_rows.row_vectors(i)
    }

    /// An iterator over the packed rows, restartable by recreation.
    pub fn row_iter(&self) -> (r: SimdMatrixIter<'_, T, RowOptimized>)
        ensures
            r.matrix == self,
            r.index == 0,
    {
        SimdMatrixIter { matrix: self, index: 0 }
    }

    /// The packed vectors of caller row `i`, mutable.
    pub fn row_mut(&mut self, i: usize) -> (r: &mut [T])
        requires
            old(self).wf(),
            i < old(self).simd_rows.rows,
        ensures
            r@ == old(self).simd_rows.data@.subrange(
                i * old(self).simd_rows.vectors_per_row,
                i * old(self).simd_rows.vectors_per_row + old(self).simd_rows.vectors_per_row,
            ),
            r@.len() == old(self).simd_rows.vectors_per_row,
            final(self).simd_rows.rows == old(self).simd_rows.rows,
            final(self).simd_rows.row_length == old(self).simd_rows.row_length,
            final(self).simd_rows.vectors_per_row == old(self).simd_rows.vectors_per_row,
            final(self).simd_rows.data@ == old(self).simd_rows.data@.subrange(
                0,
                i * old(self).simd_rows.vectors_per_row,
            ) + final(r)@ + old(self).simd_rows.data@.subrange(
                (i + 1) * old(self).simd_rows.vectors_per_row,
                old(self).simd_rows.data@.len() as int,
            ),
    {
        self.simd_rows.row_vectors_mut(i)
    }

    /// The scalar elements of caller row `i`, as a flat view of the same
    /// memory.
    pub fn row_as_flat(&self, i: usize) -> (r: &[T::Element])
        requires
            self.wf(),
            i < self.simd_rows.rows,
        ensures
            r@.len() == self.simd_rows.row_length,
            r@ == self.simd_rows.flat_row(i as int),
    {
        self.simd_rows.row_as_flat(i)
    }

    /// The scalar elements of caller row `i`, as a mutable flat view of the
    /// same memory; writes land in the packed vectors.
    pub fn row_as_flat_mut(&mut self, i: usize) -> (r: &mut [T::Element])
        requires
            old(self).wf(),
            i < old(self).simd_rows.rows,
        ensures
            r@.len() == old(self).simd_rows.row_length,
            r@ == old(self).simd_rows.flat_row(i as int),
            final(r)@.len() == old(self).simd_rows.row_length,
            final(self).wf(),
            final(self).simd_rows.rows == old(self).simd_rows.rows,
            final(self).simd_rows.row_length == old(self).simd_rows.row_length,
            final(self).simd_rows.vectors_per_row == old(self).simd_rows.vectors_per_row,
            forall|j: int|
                0 <= j < old(self).simd_rows.data@.len() && !(i
                    * old(self).simd_rows.vectors_per_row <= j < (i + 1)
                    * old(self).simd_rows.vectors_per_row) ==> final(self).simd_rows.data@[j]
                    == old(self).simd_rows.data@[j],
            forall|k: int|
                0 <= k < old(self).simd_rows.row_length ==> final(self).simd_rows.scalar_at(
                    i as int,
                    k,
                ) == final(r)@[k],
            forall|k: int|
                old(self).simd_rows.row_length <= k < old(self).simd_rows.vectors_per_row
                    * T::lanes_spec() ==> final(self).simd_rows.scalar_at(i as int, k)
                    == old(self).simd_rows.scalar_at(i as int, k),
    {
        self.simd_rows.row_as_flat_mut(i)
    }
}

impl<T: Simd> SimdMatrix<T, ColumnOptimized> {
    /// The packed vectors of caller column `i`.
    pub fn column(&self, i: usize) -> (r: &[T])
        requires
            self.wf(),
            i < self.simd_rows.rows,
        ensures
            r@ == self.simd_rows.data@.subrange(
                i * self.simd_rows.vectors_per_row,
                i * self.simd_rows.vectors_per_row + self.simd_rows.vectors_per_row,
            ),
            r@.len() == self.simd_rows.vectors_per_row,
    {
        self.simd_rows.row_vectors(i)
    }

    /// An iterator over the packed columns, restartable by recreation.
    pub fn column_iter(&self) -> (r: SimdMatrixIter<'_, T, ColumnOptimized>)
        ensures
            r.matrix == self,
            r.index == 0,
    {
        SimdMatrixIter { matrix: self, index: 0 }
    }

    /// The packed vectors of caller column `i`, mutable.
    pub fn column_mut(&mut self, i: usize) -> (r: &mut [T])
        requires
            old(self).wf(),
            i < old(self).simd_rows.rows,
        ensures
            r@ == old(self).simd_rows.data@.subrange(
                i * old(self).simd_rows.vectors_per_row,
                i * old(self).simd_rows.vectors_per_row + old(self).simd_rows.vectors_per_row,
            ),
            r@.len() == old(self).simd_rows.vectors_per_row,
            final(self).simd_rows.rows == old(self).simd_rows.rows,
            final(self).simd_rows.row_length == old(self).simd_rows.row_length,
            final(self).simd_rows.vectors_per_row == old(self).simd_rows.vectors_per_row,
            final(self).simd_rows.data@ == old(self).simd_rows.data@.subrange(
                0,
                i * old(self).simd_rows.vectors_per_row,
            ) + final(r)@ + old(self).simd_rows.data@.subrange(
                (i + 1) * old(self).simd_rows.vectors_per_row,
                old(self).simd_rows.data@.len() as int,
            ),
    {
        self.simd_rows.row_vectors_mut(i)
    }

    /// The scalar elements of caller column `i`, as a flat view of the same
    /// memory.
    pub fn column_as_flat(&self, i: usize) -> (r: &[T::Element])
        requires
            self.wf(),
            i < self.simd_rows.rows,
        ensures
            r@.len() == self.simd_rows.row_length,
            r@ == self.simd_rows.flat_row(i as int),
    {
        self.simd_rows.row_as_flat(i)
    }

    /// The scalar elements of caller column `i`, as a mutable flat view of
    /// the same memory; writes land in the packed vectors.
    pub fn column_as_flat_mut(&mut self, i: usize) -> (r: &mut [T::Element])
        requires
            old(self).wf(),
            i < old(self).simd_rows.rows,
        ensures
            r@.len() == old(self).simd_rows.row_length,
            r@ == old(self).simd_rows.flat_row(i as int),
            final(r)@.len() == old(self).simd_rows.row_length,
            final(self).wf(),
            final(self).simd_rows.rows == old(self).simd_rows.rows,
            final(self).simd_rows.row_length == old(self).simd_rows.row_length,
            final(self).simd_rows.vectors_per_row == old(self).simd_rows.vectors_per_row,
            forall|j: int|
                0 <= j < old(self).simd_rows.data@.len() && !(i
                    * old(self).simd_rows.vectors_per_row <= j < (i + 1)
                    * old(self).simd_rows.vectors_per_row) ==> final(self).simd_rows.data@[j]
                    == old(self).simd_rows.data@[j],
            forall|k: int|
                0 <= k < old(self).simd_rows.row_length ==> final(self).simd_rows.scalar_at(
                    i as int,
                    k,
                ) == final(r)@[k],
            forall|k: int|
                old(self).simd_rows.row_length <= k < old(self).simd_rows.vectors_per_row
                    * T::lanes_spec() ==> final(self).simd_rows.scalar_at(i as int, k)
                    == old(self).simd_rows.scalar_at(i as int, k),
    {
        self.simd_rows.row_as_flat_mut(i)
    }
}

/// Produced by [`SimdMatrix::flat`]: flat, 2-D-indexed read access.
pub struct SimdMatrixFlat<'a, T: Simd, A: OptimizationStrategy> {
    /// The matrix being viewed.
    pub matrix: &'a SimdMatrix<T, A>,
}

impl<'a, T: Simd, A: OptimizationStrategy> SimdMatrixFlat<'a, T, A> {
    /// The scalar element at caller-facing coordinates `(x, y)`.
    pub fn get(&self, x: usize, y: usize) -> (e: T::Element)
        requires
            self.matrix.wf(),
            self.matrix.in_bounds(x as int, y as int),
        ensures
            e == self.matrix.flat_at(x as int, y as int),
    {
        let d = A::translate_indices_to_simdrows(x, y);
        let f = self.matrix.simd_rows.row_as_flat(d.0);
        f[d.1]
    }
}

/// Walks the packed rows (or columns) of a [`SimdMatrix`] in storage order.
#[derive(Debug)]
pub struct SimdMatrixIter<'a, T: Simd, O: OptimizationStrategy> {
    /// The matrix being walked.
    pub matrix: &'a SimdMatrix<T, O>,
    /// Index of the next packed row to hand out.
    pub index: usize,
}

impl<'a, T: Simd, O: OptimizationStrategy> SimdMatrixIter<'a, T, O> {
    /// The next packed row, or nothing once all rows have been handed out.
    pub fn next(&mut self) -> (r: Option<&'a [T]>)
        requires
            old(self).matrix.wf(),
        ensures
            final(self).matrix == old(self).matrix,
            old(self).index < old(self).matrix.simd_rows.rows ==> r is Some && r->0@ == old(
                self,
            ).matrix.simd_rows.data@.subrange(
                old(self).index * old(self).matrix.simd_rows.vectors_per_row,
                old(self).index * old(self).matrix.simd_rows.vectors_per_row + old(
                    self,
                ).matrix.simd_rows.vectors_per_row,
            ) && final(self).index == old(self).index + 1,
            old(self).index >= old(self).matrix.simd_rows.rows ==> r is None
                && final(self).index == old(self).index,
    {
        if self.index < self.matrix.simd_rows.rows {
            let s = self.matrix.simd_rows.row_vectors(self.index);
            self.index = self.index + 1;
            Some(s)
        } else {
            None
        }
    }
}

} // verus!

//! A matrix with one axis aligned for SIMD access, over the packed buffer.
use vstd::prelude::*;

use core::marker::PhantomData;

use vstd::arithmetic::mul::lemma_mul_inequality;

use crate::packed::{
    lemma_lane_position_at, lemma_lane_positions, spec_vectors_per_row, PackedMxN,
};
use crate::traits::Simd;

verus! {

/// Picks which caller-facing axis maps onto the contiguous packed rows of
/// the backing buffer: a pure, involutive coordinate translation.
pub trait AccessStrategy {
    /// The coordinate translation, as a mathematical function.
    spec fn spec_flat_to_packed(x: int, y: int) -> (int, int);

    /// Swapping the pair twice gives the pair back: the translation is its
    /// own inverse.
    proof fn translate_involutive(x: int, y: int)
        ensures
            Self::spec_flat_to_packed(
                Self::spec_flat_to_packed(x, y).0,
                Self::spec_flat_to_packed(x, y).1,
            ) == (x, y),
    ;

    /// Translates caller-facing coordinates into (packed row, offset within
    /// the row).
    fn flat_to_packed(x: usize, y: usize) -> (r: (usize, usize))
        ensures
            (r.0 as int, r.1 as int) == Self::spec_flat_to_packed(x as int, y as int),
    ;
}

/// Layout strategy keeping caller rows contiguous in packed storage.
#[derive(Clone, Debug)]
pub struct Rows;

/// Layout strategy keeping caller columns contiguous in packed storage.
#[derive(Clone, Debug)]
pub struct Columns;

impl AccessStrategy for Rows {
    open spec fn spec_flat_to_packed(x: int, y: int) -> (int, int) {
        (x, y)
    }

    proof fn translate_involutive(x: int, y: int) {
    }

    fn flat_to_packed(x: usize, y: usize) -> (r: (usize, usize)) {
        (x, y)
    }
}

impl AccessStrategy for Columns {
    open spec fn spec_flat_to_packed(x: int, y: int) -> (int, int) {
        (y, x)
    }

    proof fn translate_involutive(x: int, y: int) {
    }

    fn flat_to_packed(x: usize, y: usize) -> (r: (usize, usize)) {
        (y, x)
    }
}

/// A dynamic (heap allocated) matrix with one axis aligned for fast and safe
/// SIMD access that also provides a flat view on its data.
///
/// The strategy `A` fixes at the type level which caller-facing axis is
/// backed by contiguous packed rows; the whole-vector accessors exist only
/// for the matching axis, so access along the wrong axis does not compile.
#[derive(Debug)]
pub struct MatSimd<T: Simd, A: AccessStrategy> {
    pub simd_rows: PackedMxN<T>,
    pub phantom: PhantomData<A>,
}

impl<T: Simd, A: AccessStrategy> MatSimd<T, A> {
    /// Validity: the backing packed buffer is well formed.
    pub open spec fn wf(&self) -> bool {
        self.simd_rows.wf()
    }

    /// Whether the caller-facing coordinates land inside the buffer.
    pub open spec fn in_bounds(&self, x: int, y: int) -> bool {
        &&& 0 <= A::spec_flat_to_packed(x, y).0 < self.simd_rows.rows
        &&& 0 <= A::spec_flat_to_packed(x, y).1 < self.simd_rows.row_length
    }

    /// The scalar element that the caller-facing coordinates address.
    pub open spec fn flat_at(&self, x: int, y: int) -> T::Element {
        self.simd_rows.scalar_at(
            A::spec_flat_to_packed(x, y).0,
            A::spec_flat_to_packed(x, y).1,
        )
    }

    /// Creates a new [`MatSimd`] with the given caller-facing dimension,
    /// every scalar set to the default element.
    pub fn with_dimension(width: usize, height: usize) -> (r: Self)
        requires
            A::spec_flat_to_packed(width as int, height as int).0 * spec_vectors_per_row(
                A::spec_flat_to_packed(width as int, height as int).1,
                T::lanes_spec(),
            ) <= usize::MAX,
        ensures
            r.wf(),
            r.simd_rows.rows == A::spec_flat_to_packed(width as int, height as int).0,
            r.simd_rows.row_length == A::spec_flat_to_packed(width as int, height as int).1,
            r.simd_rows.vectors_per_row == spec_vectors_per_row(
                A::spec_flat_to_packed(width as int, height as int).1,
                T::lanes_spec(),
            ),
            forall|rr: int, k: int|
                0 <= rr < r.simd_rows.rows && 0 <= k < r.simd_rows.vectors_per_row
                    * T::lanes_spec() ==> r.simd_rows.scalar_at(rr, k) == T::default_element(),
    {
        let d = A::flat_to_packed(width, height);
        let buf = PackedMxN::with(T::default_vector(), d.0, d.1);
        let r = Self { simd_rows: buf, phantom: PhantomData };
        proof {
            T::lanes_pos();
            assert forall|rr: int, k: int|
                0 <= rr < r.simd_rows.rows && 0 <= k < r.simd_rows.vectors_per_row
                    * T::lanes_spec() implies r.simd_rows.scalar_at(rr, k)
                == T::default_element() by {
                lemma_lane_position_at(k, T::lanes_spec(), r.simd_rows.vectors_per_row as int);
                lemma_mul_inequality(
                    rr + 1,
                    r.simd_rows.rows as int,
                    r.simd_rows.vectors_per_row as int,
                );
                assert((rr + 1) * r.simd_rows.vectors_per_row == rr * r.simd_rows.vectors_per_row
                    + r.simd_rows.vectors_per_row) by (nonlinear_arith);
            }
        }
        r
    }

    /// Returns the caller-facing dimension, reconstructed from the packed
    /// layout through the inverse translation.
    pub fn dimension(&self) -> (r: (usize, usize))
        ensures
            (r.0 as int, r.1 as int) == A::spec_flat_to_packed(
                self.simd_rows.rows as int,
                self.simd_rows.row_length as int,
            ),
    {
        A::flat_to_packed(self.simd_rows.rows, self.simd_rows.row_length)
    }

    /// Provides a flat, immutable 2-D view of the contained data.
    pub fn flat(&self) -> (r: MatFlat<'_, T, A>)
        ensures
            r.matrix == self,
    {
        MatFlat { matrix: self }
    }

    /// Writes one scalar through the flat 2-D view: the mutable counterpart
    /// of [`MatSimd::flat`]. Every other scalar keeps its value.
    pub fn flat_mut(&mut self, x: usize, y: usize, value: T::Element)
        requires
            old(self).wf(),
            old(self).in_bounds(x as int, y as int),
        ensures
            final(self).wf(),
            final(self).simd_rows.rows == old(self).simd_rows.rows,
            final(self).simd_rows.row_length == old(self).simd_rows.row_length,
            final(self).simd_rows.vectors_per_row == old(self).simd_rows.vectors_per_row,
            final(self).flat_at(x as int, y as int) == value,
            forall|x2: int, y2: int|
                old(self).in_bounds(x2, y2) && A::spec_flat_to_packed(x2, y2)
                    != A::spec_flat_to_packed(x as int, y as int) ==> final(self).flat_at(x2, y2)
                    == old(self).flat_at(x2, y2),
    {
        let ghost prev = *self;
        let d = A::flat_to_packed(x, y);
        let f = self.simd_rows.row_as_flat_mut(d.0);
        let ghost f0 = f@;
        f[d.1] = value;
        proof {
            let lanes = T::lanes_spec();
            let vpr = prev.simd_rows.vectors_per_row as int;
            let rr = A::spec_flat_to_packed(x as int, y as int).0;
            let cc = A::spec_flat_to_packed(x as int, y as int).1;
            T::lanes_pos();
            lemma_lane_positions(lanes, vpr);
            assert(self.flat_at(x as int, y as int) == value);
            assert forall|x2: int, y2: int|
                prev.in_bounds(x2, y2) && A::spec_flat_to_packed(x2, y2)
                    != A::spec_flat_to_packed(x as int, y as int) implies self.flat_at(x2, y2)
                == prev.flat_at(x2, y2) by {
                let r2 = A::spec_flat_to_packed(x2, y2).0;
                let c2 = A::spec_flat_to_packed(x2, y2).1;
                lemma_lane_position_at(c2, lanes, vpr);
                if r2 != rr {
                    assert(r2 * vpr + c2 / lanes < rr * vpr || r2 * vpr + c2 / lanes >= (rr + 1)
                        * vpr) by (nonlinear_arith)
                        requires
                            r2 != rr,
                            0 <= r2,
                            0 <= rr,
                            0 <= c2 / lanes < vpr,
                    ;
                    assert(self.simd_rows.data@[r2 * vpr + c2 / lanes] == prev.simd_rows.data@[r2
                        * vpr + c2 / lanes]) by {
                        lemma_mul_inequality(
                            r2 + 1,
                            prev.simd_rows.rows as int,
                            vpr,
                        );
                        assert((r2 + 1) * vpr == r2 * vpr + vpr) by (nonlinear_arith);
                    }
                } else {
                    assert(c2 != cc);
                }
            }
        }
    }
}

impl<T: Simd> MatSimd<T, Rows> {
    /// The packed vectors of caller row `i`.
    pub fn row(&self, i: usize) -> (r: &[T])
        requires
            self.wf(),
            i < self.simd_rows.rows,
        ensures
            r@ == self.simd_rows.data@.subrange(
                i * self.simd_rows.vectors_per_row,
                i * self.simd_rows.vectors_per_row + self.simd_rows.vectors_per_row,
            ),
            r@.len() == self.simd_rows.vectors_per_row,
    {
        self.simd_rows.row_vectors(i)
    }

    /// An iterator over the packed rows, restartable by recreation.
    pub fn row_iter(&self) -> (r: Matrix2DIter<'_, T, Rows>)
        ensures
            r.matrix == self,
            r.index == 0,
    {
        Matrix2DIter { matrix: self, index: 0 }
    }

    /// The packed vectors of caller row `i`, mutable.
    pub fn row_mut(&mut self, i: usize) -> (r: &mut [T])
        requires
            old(self).wf(),
            i < old(self).simd_rows.rows,
        ensures
            r@ == old(self).simd_rows.data@.subrange(
                i * old(self).simd_rows.vectors_per_row,
                i * old(self).simd_rows.vectors_per_row + old(self).simd_rows.vectors_per_row,
            ),
            r@.len() == old(self).simd_rows.vectors_per_row,
            final(self).simd_rows.rows == old(self).simd_rows.rows,
            final(self).simd_rows.row_length == old(self).simd_rows.row_length,
            final(self).simd_rows.vectors_per_row == old(self).simd_rows.vectors_per_row,
            final(self).simd_rows.data@ == old(self).simd_rows.data@.subrange(
                0,
                i * old(self).simd_rows.vectors_per_row,
            ) + final(r)@ + old(self).simd_rows.data@.subrange(
                (i + 1) * old(self).simd_rows.vectors_per_row,
                old(self).simd_rows.data@.len() as int,
            ),
    {
        self.simd_rows.row_vectors_mut(i)
    }

    /// The scalar elements of caller row `i`, as a flat view of the same
    /// memory.
    pub fn row_as_flat(&self, i: usize) -> (r: &[T::Element])
        requires
            self.wf(),
            i < self.simd_rows.rows,
        ensures
            r@.len() == self.simd_rows.row_length,
            r@ == self.simd_rows.flat_row(i as int),
    {
        self.simd_rows.row_as_flat(i)
    }

    /// The scalar elements of caller row `i`, as a mutable flat view of the
    /// same memory; writes land in the packed vectors.
    pub fn row_as_flat_mut(&mut self, i: usize) -> (r: &mut [T::Element])
        requires
            old(self).wf(),
            i < old(self).simd_rows.rows,
        ensures
            r@.len() == old(self).simd_rows.row_length,
            r@ == old(self).simd_rows.flat_row(i as int),
            final(r)@.len() == old(self).simd_rows.row_length,
            final(self).wf(),
            final(self).simd_rows.rows == old(self).simd_rows.rows,
            final(self).simd_rows.row_length == old(self).simd_rows.row_length,
            final(self).simd_rows.vectors_per_row == old(self).simd_rows.vectors_per_row,
            forall|j: int|
                0 <= j < old(self).simd_rows.data@.len() && !(i
                    * old(self).simd_rows.vectors_per_row <= j < (i + 1)
                    * old(self).simd_rows.vectors_per_row) ==> final(self).simd_rows.data@[j]
                    == old(self).simd_rows.data@[j],
            forall|k: int|
                0 <= k < old(self).simd_rows.row_length ==> final(self).simd_rows.scalar_at(
                    i as int,
                    k,
                ) == final(r)@[k],
            forall|k: int|
                old(self).simd_rows.row_length <= k < old(self).simd_rows.vectors_per_row
                    * T::lanes_spec() ==> final(self).simd_rows.scalar_at(i as int, k)
                    == old(self).simd_rows.scalar_at(i as int, k),
    {
        self.simd_rows.row_as_flat_mut(i)
    }
}

impl<T: Simd> MatSimd<T, Columns> {
    /// The packed vectors of caller column `i`.
    pub fn column(&self, i: usize) -> (r: &[T])
        requires
            self.wf(),
            i < self.simd_rows.rows,
        ensures
            r@ == self.simd_rows.data@.subrange(
                i * self.simd_rows.vectors_per_row,
                i * self.simd_rows.vectors_per_row + self.simd_rows.vectors_per_row,
            ),
            r@.len() == self.simd_rows.vectors_per_row,
    {
        self.simd_rows.row_vectors(i)
    }

    /// An iterator over the packed columns, restartable by recreation.
    pub fn column_iter(&self) -> (r: Matrix2DIter<'_, T, Columns>)
        ensures
            r.matrix == self,
            r.index == 0,
    {
        Matrix2DIter { matrix: self, index: 0 }
    }

    /// The packed vectors of caller column `i`, mutable.
    pub fn column_mut(&mut self, i: usize) -> (r: &mut [T])
        requires
            old(self).wf(),
            i < old(self).simd_rows.rows,
        ensures
            r@ == old(self).simd_rows.data@.subrange(
                i * old(self).simd_rows.vectors_per_row,
                i * old(self).simd_rows.vectors_per_row + old(self).simd_rows.vectors_per_row,
            ),
            r@.len() == old(self).simd_rows.vectors_per_row,
            final(self).simd_rows.rows == old(self).simd_rows.rows,
            final(self).simd_rows.row_length == old(self).simd_rows.row_length,
            final(self).simd_rows.vectors_per_row == old(self).simd_rows.vectors_per_row,
            final(self).simd_rows.data@ == old(self).simd_rows.data@.subrange(
                0,
                i * old(self).simd_rows.vectors_per_row,
            ) + final(r)@ + old(self).simd_rows.data@.subrange(
                (i + 1) * old(self).simd_rows.vectors_per_row,
                old(self).simd_rows.data@.len() as int,
            ),
    {
        self.simd_rows.row_vectors_mut(i)
    }

    /// The scalar elements of caller column `i`, as a flat view of the same
    /// memory.
    pub fn column_as_flat(&self, i: usize) -> (r: &[T::Element])
        requires
            self.wf(),
            i < self.simd_rows.rows,
        ensures
            r@.len() == self.simd_rows.row_length,
            r@ == self.simd_rows.flat_row(i as int),
    {
        self.simd_rows.row_as_flat(i)
    }

    /// The scalar elements of caller column `i`, as a mutable flat view of
    /// the same memory; writes land in the packed vectors.
    pub fn column_as_flat_mut(&mut self, i: usize) -> (r: &mut [T::Element])
        requires
            old(self).wf(),
            i < old(self).simd_rows.rows,
        ensures
            r@.len() == old(self).simd_rows.row_length,
            r@ == old(self).simd_rows.flat_row(i as int),
            final(r)@.len() == old(self).simd_rows.row_length,
            final(self).wf(),
            final(self).simd_rows.rows == old(self).simd_rows.rows,
            final(self).simd_rows.row_length == old(self).simd_rows.row_length,
            final(self).simd_rows.vectors_per_row == old(self).simd_rows.vectors_per_row,
            forall|j: int|
                0 <= j < old(self).simd_rows.data@.len() && !(i
                    * old(self).simd_rows.vectors_per_row <= j < (i + 1)
                    * old(self).simd_rows.vectors_per_row) ==> final(self).simd_rows.data@[j]
                    == old(self).simd_rows.data@[j],
            forall|k: int|
                0 <= k < old(self).simd_rows.row_length ==> final(self).simd_rows.scalar_at(
                    i as int,
                    k,
                ) == final(r)@[k],
            forall|k: int|
                old(self).simd_rows.row_length <= k < old(self).simd_rows.vectors_per_row
                    * T::lanes_spec() ==> final(self).simd_rows.scalar_at(i as int, k)
                    == old(self).simd_rows.scalar_at(i as int, k),
    {
        self.simd_rows.row_as_flat_mut(i)
    }
}

/// Produced by [`MatSimd::flat`]: flat, 2-D-indexed read access.
pub struct MatFlat<'a, T: Simd, A: AccessStrategy> {
    /// The matrix being viewed.
    pub matrix: &'a MatSimd<T, A>,
}

impl<'a, T: Simd, A: AccessStrategy> MatFlat<'a, T, A> {
    /// The scalar element at caller-facing coordinates `(x, y)`.
    pub fn get(&self, x: usize, y: usize) -> (e: T::Element)
        requires
            self.matrix.wf(),
            self.matrix.in_bounds(x as int, y as int),
        ensures
            e == self.matrix.flat_at(x as int, y as int),
    {
        let d = A::flat_to_packed(x, y);
        let f = self.matrix.simd_rows.row_as_flat(d.0);
        f[d.1]
    }
}

/// Walks the packed rows (or columns) of a [`MatSimd`] in storage order.
#[derive(Debug)]
pub struct Matrix2DIter<'a, T: Simd, O: AccessStrategy> {
    /// The matrix being walked.
    pub matrix: &'a MatSimd<T, O>,
    /// Index of the next packed row to hand out.
    pub index: usize,
}

impl<'a, T: Simd, O: AccessStrategy> Matrix2DIter<'a, T, O> {
    /// The next packed row, or nothing once all rows have been handed out.
    pub fn next(&mut self) -> (r: Option<&'a [T]>)
        requires
            old(self).matrix.wf(),
        ensures
            final(self).matrix == old(self).matrix,
            old(self).index < old(self).matrix.simd_rows.rows ==> r is Some && r->0@ == old(
                self,
            ).matrix.simd_rows.data@.subrange(
                old(self).index * old(self).matrix.simd_rows.vectors_per_row,
                old(self).index * old(self).matrix.simd_rows.vectors_per_row + old(
                    self,
                ).matrix.simd_rows.vectors_per_row,
            ) && final(self).index == old(self).index + 1,
            old(self).index >= old(self).matrix.simd_rows.rows ==> r is None
                && final(self).index == old(self).index,
    {
        if self.index < self.matrix.simd_rows.rows {
            let s = self.matrix.simd_rows.row_vectors(self.index);
            self.index = self.index + 1;
            Some(s)
        } else {
            None
        }
    }
}

/// A matrix built for a caller-facing dimension reports that same dimension:
/// the strategy translation is applied once at construction and once by
/// [`MatSimd::dimension`], and it is its own inverse.
pub proof fn lemma_dimension_round_trip<T: Simd, A: AccessStrategy>(
    m: MatSimd<T, A>,
    width: int,
    height: int,
)
    requires
        m.simd_rows.rows == A::spec_flat_to_packed(width, height).0,
        m.simd_rows.row_length == A::spec_flat_to_packed(width, height).1,
    ensures
        A::spec_flat_to_packed(m.simd_rows.rows as int, m.simd_rows.row_length as int) == (
            width,
            height,
        ),
{
    A::translate_involutive(width, height);
}

/// Flat 2-D addressing is strategy-invariant: over the same packed storage,
/// coordinates `(x, y)` on a row-optimized matrix and `(y, x)` on a
/// column-optimized one resolve to the same scalar location, and the two
/// matrices report swapped dimensions.
pub proof fn lemma_flat_index_strategy_invariant<T: Simd>(
    a: MatSimd<T, Rows>,
    b: MatSimd<T, Columns>,
    x: int,
    y: int,
)
    requires
        a.simd_rows == b.simd_rows,
    ensures
        a.flat_at(x, y) == b.flat_at(y, x),
        a.in_bounds(x, y) == b.in_bounds(y, x),
        Rows::spec_flat_to_packed(x, y) == Columns::spec_flat_to_packed(y, x),
{
}

} // verus!

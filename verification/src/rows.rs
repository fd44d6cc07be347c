//! An earlier shape of the packed row buffer, kept alongside
//! [`PackedMxN`](crate::PackedMxN): the same row layout, with the flat row
//! length passed as a dedicated [`Flat`] wrapper and the fill value given as
//! a scalar element.
use vstd::prelude::*;

use vstd::arithmetic::mul::lemma_mul_inequality;
use vstd::slice::slice_subrange;

use crate::packed::{
    lemma_lane_position_at, lemma_lane_positions, lemma_vectors_per_row_is_ceiling,
    spec_vectors_per_row, PackedMxN,
};
use crate::traits::Simd;

verus! {

/// A flat scalar length, as distinguished from a count of whole vectors.
pub struct Flat(pub usize);

/// A buffer of `rows * vectors_per_row` SIMD vectors, arranged as `rows`
/// logical rows of `row_length` scalar elements each, every row padded up to
/// a whole number of vectors.
#[derive(Clone, Debug)]
pub struct SimdRows<T: Simd> {
    pub rows: usize,
    pub row_length: usize,
    pub vectors_per_row: usize,
    pub data: Vec<T>,
}

impl<T: Simd> SimdRows<T> {
    /// Layout invariant: the vector count per row is the ceiling of
    /// `row_length / lanes`, and the storage holds exactly one such block of
    /// vectors for every row.
    pub open spec fn wf(&self) -> bool {
        &&& self.vectors_per_row == spec_vectors_per_row(
            self.row_length as int,
            T::lanes_spec(),
        )
        &&& self.data@.len() == self.rows * self.vectors_per_row
        &&& self.row_length <= self.vectors_per_row * T::lanes_spec()
    }

    /// The scalar element at flat offset `k` of row `row`: lane `k % lanes`
    /// of vector `k / lanes` within the row's block.
    pub open spec fn scalar_at(&self, row: int, k: int) -> T::Element {
        self.data@[row * self.vectors_per_row + k / T::lanes_spec()].lanes_seq()[k
            % T::lanes_spec()]
    }

    /// The `row_length` scalar elements of row `row`, excluding the padding.
    pub open spec fn flat_row(&self, row: int) -> Seq<T::Element> {
        Seq::new(self.row_length as nat, |k: int| self.scalar_at(row, k))
    }

    /// Allocates a buffer of `rows` rows covering `row_length` scalar
    /// elements each, every lane of every vector set to `default`.
    pub fn with(default: T::Element, rows: usize, row_length: Flat) -> (r: Self)
        requires
            rows * spec_vectors_per_row(row_length.0 as int, T::lanes_spec()) <= usize::MAX,
        ensures
            r.wf(),
            r.rows == rows,
            r.row_length == row_length.0,
            r.vectors_per_row == spec_vectors_per_row(row_length.0 as int, T::lanes_spec()),
            forall|rr: int, k: int|
                0 <= rr < rows && 0 <= k < r.vectors_per_row * T::lanes_spec()
                    ==> r.scalar_at(rr, k) == default,
    {
        proof {
            T::lanes_pos();
            lemma_lane_positions(
                T::lanes_spec(),
                spec_vectors_per_row(row_length.0 as int, T::lanes_spec()),
            );
            lemma_vectors_per_row_is_ceiling(row_length.0 as int, T::lanes_spec());
        }
        let b = PackedMxN::with(T::splat(default), rows, row_length.0);
        let PackedMxN { rows: b_rows, row_length: b_len, vectors_per_row: b_vpr, data: b_data } =
            b;
        let r = Self { rows: b_rows, row_length: b_len, vectors_per_row: b_vpr, data: b_data };
        proof {
            assert forall|rr: int, k: int|
                0 <= rr < rows && 0 <= k < r.vectors_per_row * T::lanes_spec() implies r.scalar_at(
                rr,
                k,
            ) == default by {
                lemma_lane_position_at(k, T::lanes_spec(), r.vectors_per_row as int);
                lemma_mul_inequality(rr + 1, rows as int, r.vectors_per_row as int);
                assert((rr + 1) * r.vectors_per_row == rr * r.vectors_per_row
                    + r.vectors_per_row) by (nonlinear_arith);
            }
        }
        r
    }

    /// The storage offset, in whole vectors, where row `row` starts.
    pub fn row_start_offset(&self, row: usize) -> (r: usize)
        requires
            self.wf(),
            row < self.rows,
        ensures
            r == row * self.vectors_per_row,
    {
        let n = self.data.len();
        proof {
            lemma_mul_inequality(row as int + 1, self.rows as int, self.vectors_per_row as int);
            assert((row + 1) * self.vectors_per_row == row * self.vectors_per_row
                + self.vectors_per_row) by (nonlinear_arith);
            assert(row * self.vectors_per_row <= n);
        }
        row * self.vectors_per_row
    }

    /// The range of storage indices, in whole vectors, that row `row`
    /// occupies.
    pub fn range_for_row(&self, row: usize) -> (r: core::ops::Range<usize>)
        requires
            self.wf(),
            row < self.rows,
        ensures
            r.start == row * self.vectors_per_row,
            r.end == row * self.vectors_per_row + self.vectors_per_row,
            r.end <= self.data@.len(),
    {
        let start = self.row_start_offset(row);
        let n = self.data.len();
        proof {
            lemma_mul_inequality(row as int + 1, self.rows as int, self.vectors_per_row as int);
            assert((row + 1) * self.vectors_per_row == row * self.vectors_per_row
                + self.vectors_per_row) by (nonlinear_arith);
            assert(start + self.vectors_per_row <= n);
        }
        let end = start + self.vectors_per_row;
        start..end
    }

    /// The packed vectors of row `row`, as a borrowed slice.
    pub fn row_vectors(&self, row: usize) -> (r: &[T])
        requires
            self.wf(),
            row < self.rows,
        ensures
            r@ == self.data@.subrange(
                row * self.vectors_per_row,
                row * self.vectors_per_row + self.vectors_per_row,
            ),
            r@.len() == self.vectors_per_row,
    {
        let range = self.range_for_row(row);
        slice_subrange(self.data.as_slice(), range.start, range.end)
    }

    /// The packed vectors of row `row`, as a mutable borrowed slice; the rest
    /// of the storage is untouched.
    pub fn row_vectors_mut(&mut self, row: usize) -> (r: &mut [T])
        requires
            old(self).wf(),
            row < old(self).rows,
        ensures
            r@ == old(self).data@.subrange(
                row * old(self).vectors_per_row,
                row * old(self).vectors_per_row + old(self).vectors_per_row,
            ),
            r@.len() == old(self).vectors_per_row,
            final(self).rows == old(self).rows,
            final(self).row_length == old(self).row_length,
            final(self).vectors_per_row == old(self).vectors_per_row,
            final(self).data@ == old(self).data@.subrange(
                0,
                row * old(self).vectors_per_row,
            ) + final(r)@ + old(self).data@.subrange(
                (row + 1) * old(self).vectors_per_row,
                old(self).data@.len() as int,
            ),
    {
        let range = self.range_for_row(row);
        let vpr = self.vectors_per_row;
        let ghost old_data = self.data@;
        let s = self.data.as_mut_slice();
        let (left, rest) = s.split_at_mut(range.start);
        let (mid, _right) = rest.split_at_mut(vpr);
        proof {
            assert((row + 1) * vpr == row * vpr + vpr) by (nonlinear_arith);
            assert(mid@ =~= old_data.subrange(row * vpr as int, row * vpr + vpr));
        }
        mid
    }

    /// The `row_length` scalar elements of row `row`, as a borrowed flat
    /// view of the same memory: no copy is made.
    pub fn row_as_flat(&self, row: usize) -> (r: &[T::Element])
        requires
            self.wf(),
            row < self.rows,
        ensures
            r@.len() == self.row_length,
            r@ == self.flat_row(row as int),
    {
        proof {
            T::lanes_pos();
            lemma_lane_positions(T::lanes_spec(), self.vectors_per_row as int);
        }
        let len = self.row_length;
        let packed = self.row_vectors(row);
        let r = T::cast_flat(packed, len);
        proof {
            T::lanes_pos();
            lemma_mul_inequality(row as int + 1, self.rows as int, self.vectors_per_row as int);
            assert((row + 1) * self.vectors_per_row == row * self.vectors_per_row
                + self.vectors_per_row) by (nonlinear_arith);
            assert forall|k: int| 0 <= k < len implies r@[k] == self.scalar_at(row as int, k) by {
                lemma_lane_position_at(k, T::lanes_spec(), self.vectors_per_row as int);
                assert(packed@[k / T::lanes_spec()] == self.data@[row * self.vectors_per_row + k
                    / T::lanes_spec()]);
            }
            assert(r@ =~= self.flat_row(row as int));
        }
        r
    }

    /// The `row_length` scalar elements of row `row`, as a mutable flat view
    /// of the same memory: writes through it land in the packed vectors, and
    /// the padding lanes and all other rows keep their values.
    pub fn row_as_flat_mut(&mut self, row: usize) -> (r: &mut [T::Element])
        requires
            old(self).wf(),
            row < old(self).rows,
        ensures
            r@.len() == old(self).row_length,
            r@ == old(self).flat_row(row as int),
            final(r)@.len() == old(self).row_length,
            final(self).rows == old(self).rows,
            final(self).row_length == old(self).row_length,
            final(self).vectors_per_row == old(self).vectors_per_row,
            final(self).wf(),
            final(self).data@.len() == old(self).data@.len(),
            forall|j: int|
                0 <= j < old(self).data@.len() && !(row * old(self).vectors_per_row <= j < (row
                    + 1) * old(self).vectors_per_row) ==> final(self).data@[j] == old(
                    self,
                ).data@[j],
            forall|k: int|
                0 <= k < old(self).row_length ==> final(self).scalar_at(row as int, k)
                    == final(r)@[k],
            forall|k: int|
                old(self).row_length <= k < old(self).vectors_per_row * T::lanes_spec()
                    ==> final(self).scalar_at(row as int, k) == old(self).scalar_at(row as int, k),
    {
        proof {
            T::lanes_pos();
            lemma_lane_positions(T::lanes_spec(), self.vectors_per_row as int);
        }
        let len = self.row_length;
        let ghost prev = *self;
        let mid = self.row_vectors_mut(row);
        let ghost mid0 = mid@;
        let r = T::cast_flat_mut(mid, len);
        proof {
            T::lanes_pos();
            lemma_mul_inequality(row as int + 1, prev.rows as int, prev.vectors_per_row as int);
            assert((row + 1) * prev.vectors_per_row == row * prev.vectors_per_row
                + prev.vectors_per_row) by (nonlinear_arith);
            assert(mid0 == prev.data@.subrange(
                row * prev.vectors_per_row as int,
                row * prev.vectors_per_row + prev.vectors_per_row,
            ));
            assert forall|k: int| 0 <= k < len implies r@[k] == prev.scalar_at(row as int, k) by {
                lemma_lane_position_at(k, T::lanes_spec(), prev.vectors_per_row as int);
                assert(mid0[k / T::lanes_spec()] == prev.data@[row * prev.vectors_per_row + k
                    / T::lanes_spec()]);
            }
            assert(r@ =~= prev.flat_row(row as int));
        }
        r
    }

}

} // verus!

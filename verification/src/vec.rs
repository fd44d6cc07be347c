//! A heap-allocated vector aligned for SIMD access with a flat scalar view.
use vstd::prelude::*;

use crate::packed::{lemma_lane_position_at, lemma_vectors_per_row_is_ceiling, PackedMxN};
use crate::traits::Simd;

verus! {

/// A dynamic (heap allocated) vector aligned for fast and safe SIMD access
/// that also provides a flat view on its data.
///
/// The backing store is a one-row [`PackedMxN`]; [`VecD::flat`] and
/// [`VecD::flat_mut`] expose the same memory as a scalar slice of the
/// requested size, hiding the padding lanes of the last vector.
#[derive(Clone, Debug)]
pub struct VecD<T: Simd> {
    pub simd_rows: PackedMxN<T>,
}

impl<T: Simd> VecD<T> {
    /// Validity: a well-formed packed buffer of exactly one row.
    pub open spec fn wf(&self) -> bool {
        &&& self.simd_rows.wf()
        &&& self.simd_rows.rows == 1
    }

    /// The scalar elements of the vector, excluding the padding.
    pub open spec fn flat_seq(&self) -> Seq<T::Element> {
        self.simd_rows.flat_row(0)
    }

    /// Number of scalar elements the vector was created for.
    pub open spec fn spec_len(&self) -> int {
        self.simd_rows.row_length as int
    }

    /// Produce a [`VecD`] with the given element `t` as fill value and a flat
    /// size of `size`.
    pub fn with(t: T::Element, size: usize) -> (r: Self)
        ensures
            r.wf(),
            r.spec_len() == size,
            r.flat_seq() == Seq::new(size as nat, |k: int| t),
    {
        proof {
            T::lanes_pos();
            lemma_vectors_per_row_is_ceiling(size as int, T::lanes_spec());
        }
        let buf = PackedMxN::with(T::splat(t), 1, size);
        let r = Self { simd_rows: buf };
        proof {
            assert forall|k: int| 0 <= k < size implies r.simd_rows.scalar_at(0, k) == t by {
                lemma_lane_position_at(k, T::lanes_spec(), r.simd_rows.vectors_per_row as int);
            }
            assert(r.flat_seq() =~= Seq::new(size as nat, |k: int| t));
        }
        r
    }

    /// Get a flat view of this [`VecD`]: the same memory as a scalar slice.
    pub fn flat(&self) -> (r: &[T::Element])
        requires
            self.wf(),
        ensures
            r@.len() == self.spec_len(),
            r@ == self.flat_seq(),
    {
        self.simd_rows.row_as_flat(0)
    }

    /// Get a flat, mutable view of this [`VecD`]; writes through it land in
    /// the packed vectors.
    pub fn flat_mut(&mut self) -> (r: &mut [T::Element])
        requires
            old(self).wf(),
        ensures
            r@.len() == old(self).spec_len(),
            r@ == old(self).flat_seq(),
            final(r)@.len() == old(self).spec_len(),
            final(self).wf(),
            final(self).spec_len() == old(self).spec_len(),
            final(self).simd_rows.vectors_per_row == old(self).simd_rows.vectors_per_row,
            forall|k: int| 0 <= k < old(self).spec_len() ==> final(self).flat_seq()[k]
                == final(r)@[k],
    {
        self.simd_rows.row_as_flat_mut(0)
    }

    /// The packed vector at index `i` (a whole SIMD vector, not a scalar).
    pub fn vector(&self, i: usize) -> (r: T)
        requires
            self.wf(),
            i < self.simd_rows.data@.len(),
        ensures
            r == self.simd_rows.data@[i as int],
    {
        self.simd_rows.data[i]
    }

    /// Replaces the packed vector at index `i`.
    pub fn set_vector(&mut self, i: usize, v: T)
        requires
            old(self).wf(),
            i < old(self).simd_rows.data@.len(),
        ensures
            final(self).wf(),
            final(self).spec_len() == old(self).spec_len(),
            final(self).simd_rows.data@ == old(self).simd_rows.data@.update(i as int, v),
    {
        self.simd_rows.data[i] = v;
    }
}

} // verus!

//! Flat reinterpretation of whole packed slices.
use vstd::prelude::*;

use crate::traits::Simd;

verus! {

/// Converts a slice of SIMD vectors into a flat slice of its scalar
/// elements, without copying: flat offset `k` is lane `k % lanes` of vector
/// `k / lanes`.
pub fn packed_as_flat<T: Simd>(data: &[T]) -> (r: &[T::Element])
    requires
        data@.len() * T::lanes_spec() <= usize::MAX,
    ensures
        r@.len() == data@.len() * T::lanes_spec(),
        forall|k: int|
            0 <= k < r@.len() ==> r@[k] == data@[k / T::lanes_spec()].lanes_seq()[k
                % T::lanes_spec()],
{
    let lanes = T::lanes();
    let n = data.len() * lanes;
    T::cast_flat(data, n)
}

/// Converts a mutable slice of SIMD vectors into a mutable flat slice of its
/// scalar elements, without copying; writes through the flat slice land in
/// the corresponding lanes.
pub fn packed_as_flat_mut<T: Simd>(data: &mut [T]) -> (r: &mut [T::Element])
    requires
        old(data)@.len() * T::lanes_spec() <= usize::MAX,
    ensures
        r@.len() == old(data)@.len() * T::lanes_spec(),
        forall|k: int|
            0 <= k < r@.len() ==> r@[k] == old(data)@[k / T::lanes_spec()].lanes_seq()[k
                % T::lanes_spec()],
        final(data)@.len() == old(data)@.len(),
        final(r)@.len() == old(data)@.len() * T::lanes_spec(),
        forall|j: int, m: int|
            0 <= j < old(data)@.len() && 0 <= m < T::lanes_spec()
                ==> final(data)@[j].lanes_seq()[m] == final(r)@[j * T::lanes_spec() + m],
{
    let lanes = T::lanes();
    proof {
        T::lanes_pos();
        let ghost n0 = old(data)@.len() as int;
        assert forall|j: int, m: int|
            0 <= j < n0 && 0 <= m < T::lanes_spec() implies #[trigger] (j * T::lanes_spec() + m)
            < n0 * T::lanes_spec() by {
            assert((j + 1) * T::lanes_spec() <= n0 * T::lanes_spec() && j * T::lanes_spec()
                + T::lanes_spec() == (j + 1) * T::lanes_spec()) by (nonlinear_arith)
                requires
                    0 <= j < n0,
                    T::lanes_spec() >= 1,
            ;
        }
    }
    let n = data.len() * lanes;
    T::cast_flat_mut(data, n)
}

} // verus!

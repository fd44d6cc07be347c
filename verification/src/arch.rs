//! Vector definitions with a fixed bit width, backed by [wide](https://crates.io/crates/wide).
//!
//! The lanes of a `wide` vector are its scalar elements in memory order, the
//! order `wide`'s `to_array` documents; `u32x4_lanes` and its siblings name
//! that sequence for the contracts of this crate.
use vstd::prelude::*;

use crate::traits::Simd;

pub use wide::{i32x4, u32x4, u64x2};

verus! {

#[verifier::external_type_specification]
#[verifier::external_body]
pub struct ExU32x4(wide::u32x4);

#[verifier::external_type_specification]
#[verifier::external_body]
pub struct ExI32x4(wide::i32x4);

#[verifier::external_type_specification]
#[verifier::external_body]
pub struct ExU64x2(wide::u64x2);

/// The four `u32` lanes of a `wide::u32x4`, in memory order.
pub uninterp spec fn u32x4_lanes(v: wide::u32x4) -> Seq<u32>;

/// The four `i32` lanes of a `wide::i32x4`, in memory order.
pub uninterp spec fn i32x4_lanes(v: wide::i32x4) -> Seq<i32>;

/// The two `u64` lanes of a `wide::u64x2`, in memory order.
pub uninterp spec fn u64x2_lanes(v: wide::u64x2) -> Seq<u64>;

/// Relies on wide::u32x4::splat: every lane is set to the given value.
#[verifier::external_body]
fn u32x4_splat(e: u32) -> (r: wide::u32x4)
    ensures
        forall|i: int| 0 <= i < 4 ==> u32x4_lanes(r)[i] == e,
{
    wide::u32x4::splat(e)
}

/// Relies on bytemuck::cast_slice for wide::u32x4, a Pod vector of four u32
/// lanes: the same memory viewed as a slice of scalar elements, cut to the
/// requested scalar length.
#[verifier::external_body]
fn u32x4_cast_flat<'a>(data: &'a [wide::u32x4], scalar_len: usize) -> (r: &'a [u32])
    requires
        scalar_len <= data@.len() * 4,
    ensures
        r@.len() == scalar_len,
        forall|k: int| 0 <= k < scalar_len ==> r@[k] == u32x4_lanes(data@[k / 4])[k % 4],
{
    &wide::bytemuck::cast_slice(data)[..scalar_len]
}

/// Relies on bytemuck::cast_slice_mut for wide::u32x4: the same memory viewed
/// as a mutable slice of scalar elements, cut to the requested scalar
/// length; writes land in the lanes, and lanes past the cut keep their
/// values.
#[verifier::external_body]
fn u32x4_cast_flat_mut<'a>(data: &'a mut [wide::u32x4], scalar_len: usize) -> (r: &'a mut [u32])
    requires
        scalar_len <= old(data)@.len() * 4,
    ensures
        r@.len() == scalar_len,
        forall|k: int| 0 <= k < scalar_len ==> r@[k] == u32x4_lanes(old(data)@[k / 4])[k % 4],
        final(data)@.len() == old(data)@.len(),
        final(r)@.len() == scalar_len,
        forall|j: int, m: int|
            0 <= j < old(data)@.len() && 0 <= m < 4 ==> u32x4_lanes(final(data)@[j])[m] == (if 4 * j + m < scalar_len {
                final(r)@[4 * j + m]
            } else {
                u32x4_lanes(old(data)@[j])[m]
            }),
{
    &mut wide::bytemuck::cast_slice_mut(data)[..scalar_len]
}

impl Simd for wide::u32x4 {
    type Element = u32;

    open spec fn lanes_seq(&self) -> Seq<u32> {
        Seq::new(4, |i: int| u32x4_lanes(*self)[i])
    }

    open spec fn lanes_spec() -> int {
        4
    }

    open spec fn default_element() -> u32 {
        0
    }

    proof fn lanes_pos() {
    }

    proof fn lanes_len(&self) {
    }

    fn lanes() -> usize {
        4
    }

    fn splat(e: u32) -> (r: Self) {
        let r = u32x4_splat(e);
        proof {
            assert(r.lanes_seq() =~= Seq::new(4, |i: int| e));
        }
        r
    }

    fn default_vector() -> (r: Self) {
        let r = u32x4_splat(0);
        proof {
            assert(r.lanes_seq() =~= Seq::new(4, |i: int| <Self as Simd>::default_element()));
        }
        r
    }

    fn cast_flat<'a>(data: &'a [Self], scalar_len: usize) -> (r: &'a [u32]) {
        u32x4_cast_flat(data, scalar_len)
    }

    fn cast_flat_mut<'a>(data: &'a mut [Self], scalar_len: usize) -> (r: &'a mut [u32]) {
        u32x4_cast_flat_mut(data, scalar_len)
    }
}

/// Relies on wide::i32x4::splat: every lane is set to the given value.
#[verifier::external_body]
fn i32x4_splat(e: i32) -> (r: wide::i32x4)
    ensures
        forall|i: int| 0 <= i < 4 ==> i32x4_lanes(r)[i] == e,
{
    wide::i32x4::splat(e)
}

/// Relies on bytemuck::cast_slice for wide::i32x4, a Pod vector of four i32
/// lanes: the same memory viewed as a slice of scalar elements, cut to the
/// requested scalar length.
#[verifier::external_body]
fn i32x4_cast_flat<'a>(data: &'a [wide::i32x4], scalar_len: usize) -> (r: &'a [i32])
    requires
        scalar_len <= data@.len() * 4,
    ensures
        r@.len() == scalar_len,
        forall|k: int| 0 <= k < scalar_len ==> r@[k] == i32x4_lanes(data@[k / 4])[k % 4],
{
    &wide::bytemuck::cast_slice(data)[..scalar_len]
}

/// Relies on bytemuck::cast_slice_mut for wide::i32x4: the same memory viewed
/// as a mutable slice of scalar elements, cut to the requested scalar
/// length; writes land in the lanes, and lanes past the cut keep their
/// values.
#[verifier::external_body]
fn i32x4_cast_flat_mut<'a>(data: &'a mut [wide::i32x4], scalar_len: usize) -> (r: &'a mut [i32])
    requires
        scalar_len <= old(data)@.len() * 4,
    ensures
        r@.len() == scalar_len,
        forall|k: int| 0 <= k < scalar_len ==> r@[k] == i32x4_lanes(old(data)@[k / 4])[k % 4],
        final(data)@.len() == old(data)@.len(),
        final(r)@.len() == scalar_len,
        forall|j: int, m: int|
            0 <= j < old(data)@.len() && 0 <= m < 4 ==> i32x4_lanes(final(data)@[j])[m] == (if 4 * j + m < scalar_len {
                final(r)@[4 * j + m]
            } else {
                i32x4_lanes(old(data)@[j])[m]
            }),
{
    &mut wide::bytemuck::cast_slice_mut(data)[..scalar_len]
}

impl Simd for wide::i32x4 {
    type Element = i32;

    open spec fn lanes_seq(&self) -> Seq<i32> {
        Seq::new(4, |i: int| i32x4_lanes(*self)[i])
    }

    open spec fn lanes_spec() -> int {
        4
    }

    open spec fn default_element() -> i32 {
        0
    }

    proof fn lanes_pos() {
    }

    proof fn lanes_len(&self) {
    }

    fn lanes() -> usize {
        4
    }

    fn splat(e: i32) -> (r: Self) {
        let r = i32x4_splat(e);
        proof {
            assert(r.lanes_seq() =~= Seq::new(4, |i: int| e));
        }
        r
    }

    fn default_vector() -> (r: Self) {
        let r = i32x4_splat(0);
        proof {
            assert(r.lanes_seq() =~= Seq::new(4, |i: int| <Self as Simd>::default_element()));
        }
        r
    }

    fn cast_flat<'a>(data: &'a [Self], scalar_len: usize) -> (r: &'a [i32]) {
        i32x4_cast_flat(data, scalar_len)
    }

    fn cast_flat_mut<'a>(data: &'a mut [Self], scalar_len: usize) -> (r: &'a mut [i32]) {
        i32x4_cast_flat_mut(data, scalar_len)
    }
}

/// Relies on wide::u64x2::splat: every lane is set to the given value.
#[verifier::external_body]
fn u64x2_splat(e: u64) -> (r: wide::u64x2)
    ensures
        forall|i: int| 0 <= i < 2 ==> u64x2_lanes(r)[i] == e,
{
    wide::u64x2::splat(e)
}

/// Relies on bytemuck::cast_slice for wide::u64x2, a Pod vector of two u64
/// lanes: the same memory viewed as a slice of scalar elements, cut to the
/// requested scalar length.
#[verifier::external_body]
fn u64x2_cast_flat<'a>(data: &'a [wide::u64x2], scalar_len: usize) -> (r: &'a [u64])
    requires
        scalar_len <= data@.len() * 2,
    ensures
        r@.len() == scalar_len,
        forall|k: int| 0 <= k < scalar_len ==> r@[k] == u64x2_lanes(data@[k / 2])[k % 2],
{
    &wide::bytemuck::cast_slice(data)[..scalar_len]
}

/// Relies on bytemuck::cast_slice_mut for wide::u64x2: the same memory viewed
/// as a mutable slice of scalar elements, cut to the requested scalar
/// length; writes land in the lanes, and lanes past the cut keep their
/// values.
#[verifier::external_body]
fn u64x2_cast_flat_mut<'a>(data: &'a mut [wide::u64x2], scalar_len: usize) -> (r: &'a mut [u64])
    requires
        scalar_len <= old(data)@.len() * 2,
    ensures
        r@.len() == scalar_len,
        forall|k: int| 0 <= k < scalar_len ==> r@[k] == u64x2_lanes(old(data)@[k / 2])[k % 2],
        final(data)@.len() == old(data)@.len(),
        final(r)@.len() == scalar_len,
        forall|j: int, m: int|
            0 <= j < old(data)@.len() && 0 <= m < 2 ==> u64x2_lanes(final(data)@[j])[m] == (if 2 * j + m < scalar_len {
                final(r)@[2 * j + m]
            } else {
                u64x2_lanes(old(data)@[j])[m]
            }),
{
    &mut wide::bytemuck::cast_slice_mut(data)[..scalar_len]
}

impl Simd for wide::u64x2 {
    type Element = u64;

    open spec fn lanes_seq(&self) -> Seq<u64> {
        Seq::new(2, |i: int| u64x2_lanes(*self)[i])
    }

    open spec fn lanes_spec() -> int {
        2
    }

    open spec fn default_element() -> u64 {
        0
    }

    proof fn lanes_pos() {
    }

    proof fn lanes_len(&self) {
    }

    fn lanes() -> usize {
        2
    }

    fn splat(e: u64) -> (r: Self) {
        let r = u64x2_splat(e);
        proof {
            assert(r.lanes_seq() =~= Seq::new(2, |i: int| e));
        }
        r
    }

    fn default_vector() -> (r: Self) {
        let r = u64x2_splat(0);
        proof {
            assert(r.lanes_seq() =~= Seq::new(2, |i: int| <Self as Simd>::default_element()));
        }
        r
    }

    fn cast_flat<'a>(data: &'a [Self], scalar_len: usize) -> (r: &'a [u64]) {
        u64x2_cast_flat(data, scalar_len)
    }

    fn cast_flat_mut<'a>(data: &'a mut [Self], scalar_len: usize) -> (r: &'a mut [u64]) {
        u64x2_cast_flat_mut(data, scalar_len)
    }
}


/// Relies on wide::u32x4::to_array: the lanes as an array, in memory order.
#[verifier::external_body]
fn u32x4_to_array(v: &wide::u32x4) -> (r: [u32; 4])
    ensures
        forall|m: int| 0 <= m < 4 ==> r@[m] == u32x4_lanes(*v)[m],
{
    v.to_array()
}

impl crate::SimdExt for wide::u32x4 {
    type T = u32;

    open spec fn sum_spec(&self) -> u32 {
        ((self.lanes_seq()[0] + self.lanes_seq()[1] + self.lanes_seq()[2] + self.lanes_seq()[3])
            % 0x1_0000_0000) as u32
    }

    fn sum(&self) -> (r: u32) {
        let a = u32x4_to_array(self);
        let s = a[0].wrapping_add(a[1]).wrapping_add(a[2]).wrapping_add(a[3]);
        proof {
            vstd::arithmetic::div_mod::lemma_small_mod(
                (a@[0] + a@[1] + a@[2] + a@[3]) as nat % 0x1_0000_0000,
                0x1_0000_0000,
            );
        }
        s
    }
}

/// Relies on wide::u64x2::to_array: the lanes as an array, in memory order.
#[verifier::external_body]
fn u64x2_to_array(v: &wide::u64x2) -> (r: [u64; 2])
    ensures
        forall|m: int| 0 <= m < 2 ==> r@[m] == u64x2_lanes(*v)[m],
{
    v.to_array()
}

impl crate::SimdExt for wide::u64x2 {
    type T = u64;

    open spec fn sum_spec(&self) -> u64 {
        ((self.lanes_seq()[0] + self.lanes_seq()[1]) % 0x1_0000_0000_0000_0000) as u64
    }

    fn sum(&self) -> (r: u64) {
        let a = u64x2_to_array(self);
        a[0].wrapping_add(a[1])
    }
}


/// Relies on wide::i32x4::to_array: the lanes as an array, in memory order.
#[verifier::external_body]
fn i32x4_to_array(v: &wide::i32x4) -> (r: [i32; 4])
    ensures
        forall|m: int| 0 <= m < 4 ==> r@[m] == i32x4_lanes(*v)[m],
{
    v.to_array()
}

impl crate::SimdExt for wide::i32x4 {
    type T = i32;

    open spec fn sum_spec(&self) -> i32 {
        vstd::wrapping::i32_specs::wrapping_add(
            vstd::wrapping::i32_specs::wrapping_add(
                vstd::wrapping::i32_specs::wrapping_add(
                    self.lanes_seq()[0],
                    self.lanes_seq()[1],
                ),
                self.lanes_seq()[2],
            ),
            self.lanes_seq()[3],
        )
    }

    fn sum(&self) -> (r: i32) {
        let a = i32x4_to_array(self);
        a[0].wrapping_add(a[1]).wrapping_add(a[2]).wrapping_add(a[3])
    }
}

} // verus!

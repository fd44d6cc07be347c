//! Unified view on fixed-width SIMD vector types.
use vstd::prelude::*;

verus! {

/// A fixed-width SIMD vector type: a value holding a constant number of
/// scalar lanes, together with a zero-copy reinterpretation of a packed
/// slice of such vectors as a flat slice of scalar elements.
///
/// The mathematical model of a vector value is `lanes_seq`, the sequence of
/// its scalar lanes in memory order. Every implementation keeps
/// `lanes_seq(v).len() == lanes_spec()` for every value `v` (`lanes_len`),
/// with `lanes_spec() >= 1` (`lanes_pos`).
pub trait Simd: Sized + Copy {
    /// Scalar element type of one lane.
    type Element: Copy;

    /// The lanes of this vector value, in memory order.
    spec fn lanes_seq(&self) -> Seq<Self::Element>;

    /// Number of lanes, as a mathematical constant.
    spec fn lanes_spec() -> int;

    /// The element value that a default-constructed vector holds in every lane.
    spec fn default_element() -> Self::Element;

    /// Every vector type has at least one lane.
    proof fn lanes_pos()
        ensures
            Self::lanes_spec() >= 1,
    ;

    /// Every value of the type has exactly `lanes_spec()` lanes.
    proof fn lanes_len(&self)
        ensures
            self.lanes_seq().len() == Self::lanes_spec(),
    ;

    /// Number of lanes.
    fn lanes() -> (n: usize)
        ensures
            n as int == Self::lanes_spec(),
            1 <= n,
    ;

    /// A vector with every lane set to `e`.
    fn splat(e: Self::Element) -> (r: Self)
        ensures
            r.lanes_seq() == Seq::new(Self::lanes_spec() as nat, |i: int| e),
    ;

    /// A vector with every lane set to the default element.
    fn default_vector() -> (r: Self)
        ensures
            r.lanes_seq() == Seq::new(Self::lanes_spec() as nat, |i: int| Self::default_element()),
    ;

    /// The first `scalar_len` scalar elements of the memory of `data`, viewed
    /// without copying as a flat slice: lane `k % lanes` of vector
    /// `k / lanes` sits at flat offset `k`.
    fn cast_flat<'a>(data: &'a [Self], scalar_len: usize) -> (r: &'a [Self::Element])
        requires
            scalar_len <= data@.len() * Self::lanes_spec(),
        ensures
            r@.len() == scalar_len,
            forall|k: int|
                0 <= k < scalar_len ==> r@[k] == data@[k / Self::lanes_spec()].lanes_seq()[k
                    % Self::lanes_spec()],
    ;

    /// The first `scalar_len` scalar elements of the memory of `data`, viewed
    /// without copying as a mutable flat slice; writes through the flat slice
    /// land in the corresponding lanes, and lanes past `scalar_len` keep
    /// their values.
    fn cast_flat_mut<'a>(data: &'a mut [Self], scalar_len: usize) -> (r: &'a mut [Self::Element])
        requires
            scalar_len <= old(data)@.len() * Self::lanes_spec(),
        ensures
            r@.len() == scalar_len,
            forall|k: int|
                0 <= k < scalar_len ==> r@[k] == old(data)@[k / Self::lanes_spec()].lanes_seq()[
                    k % Self::lanes_spec()],
            final(data)@.len() == old(data)@.len(),
            final(r)@.len() == scalar_len,
            forall|j: int, m: int|
                0 <= j < old(data)@.len() && 0 <= m < Self::lanes_spec()
                    ==> final(data)@[j].lanes_seq()[m] == (if j * Self::lanes_spec() + m
                    < scalar_len {
                    final(r)@[j * Self::lanes_spec() + m]
                } else {
                    old(data)@[j].lanes_seq()[m]
                }),
    ;
}

} // verus!

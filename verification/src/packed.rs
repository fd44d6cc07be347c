//! The packed row buffer: contiguous SIMD vectors covering logical rows.
use vstd::prelude::*;

use vstd::arithmetic::div_mod::{
    lemma_fundamental_div_mod, lemma_fundamental_div_mod_converse_div,
};
use vstd::arithmetic::mul::lemma_mul_inequality;
use vstd::slice::slice_subrange;

use crate::traits::Simd;

verus! {

/// Number of whole `lanes`-wide vectors needed to cover `row_length` scalar
/// elements: the ceiling of `row_length / lanes`.
pub open spec fn spec_vectors_per_row(row_length: int, lanes: int) -> int {
    if row_length % lanes == 0 {
        row_length / lanes
    } else {
        row_length / lanes + 1
    }
}

/// Computes how many whole SIMD vectors of `lanes` lanes each are needed to
/// hold `row_length` scalar elements.
pub fn vectors_per_row(row_length: usize, lanes: usize) -> (r: usize)
    requires
        lanes >= 1,
    ensures
        r == spec_vectors_per_row(row_length as int, lanes as int),
{
    let quotient: usize = row_length / lanes;
    if row_length % lanes == 0 {
        quotient
    } else {
        proof {
            lemma_fundamental_div_mod(row_length as int, lanes as int);
            assert(lanes >= 2);
            lemma_mul_inequality(2, lanes as int, quotient as int);
            assert(quotient < usize::MAX);
        }
        quotient + 1
    }
}

/// The vector count per row is exactly the ceiling of `row_length / lanes`:
/// the covered capacity reaches `row_length`, one vector fewer would fall
/// short, and it agrees with the usual closed form. A zero-length row needs
/// no vectors at all, and a row never needs more vectors than elements.
pub proof fn lemma_vectors_per_row_is_ceiling(row_length: int, lanes: int)
    requires
        lanes >= 1,
        row_length >= 0,
    ensures
        spec_vectors_per_row(row_length, lanes) * lanes >= row_length,
        row_length > 0 ==> (spec_vectors_per_row(row_length, lanes) - 1) * lanes < row_length,
        spec_vectors_per_row(row_length, lanes) == (row_length + lanes - 1) / lanes,
        spec_vectors_per_row(row_length, lanes) == 0 <==> row_length == 0,
        0 <= spec_vectors_per_row(row_length, lanes) <= row_length,
{
    let q = row_length / lanes;
    let r = row_length % lanes;
    lemma_fundamental_div_mod(row_length, lanes);
    assert(row_length == q * lanes + r) by (nonlinear_arith)
        requires
            row_length == lanes * q + r,
    ;
    if r == 0 {
        assert(row_length + lanes - 1 == q * lanes + (lanes - 1));
        lemma_fundamental_div_mod_converse_div(row_length + lanes - 1, lanes, q, lanes - 1);
        assert(q * lanes >= row_length);
        if row_length > 0 {
            assert((q - 1) * lanes < row_length) by (nonlinear_arith)
                requires
                    row_length == q * lanes,
                    lanes >= 1,
            ;
            assert(q >= 1) by (nonlinear_arith)
                requires
                    row_length == q * lanes,
                    lanes >= 1,
                    row_length > 0,
            ;
            assert(q <= row_length) by (nonlinear_arith)
                requires
                    row_length == q * lanes,
                    lanes >= 1,
                    q >= 1,
            ;
        }
    } else {
        assert(row_length + lanes - 1 == (q + 1) * lanes + (r - 1)) by (nonlinear_arith)
            requires
                row_length == q * lanes + r,
        ;
        lemma_fundamental_div_mod_converse_div(row_length + lanes - 1, lanes, q + 1, r - 1);
        assert((q + 1) * lanes >= row_length) by (nonlinear_arith)
            requires
                row_length == q * lanes + r,
                0 < r < lanes,
        ;
        assert(q * lanes < row_length) by (nonlinear_arith)
            requires
                row_length == q * lanes + r,
                0 < r,
        ;
        assert(q + 1 <= row_length) by (nonlinear_arith)
            requires
                row_length == q * lanes + r,
                0 < r < lanes,
                lanes >= 1,
                q >= 0,
        ;
    }
}

/// A buffer of `rows * vectors_per_row` SIMD vectors, arranged as `rows`
/// logical rows of `row_length` scalar elements each, every row padded up to
/// a whole number of vectors.
///
/// The fields are public so that the layout can be inspected; the methods
/// require the layout invariant [`PackedMxN::wf`], which every constructor
/// establishes.
#[derive(Clone, Debug)]
pub struct PackedMxN<T: Simd> {
    pub rows: usize,
    pub row_length: usize,
    pub vectors_per_row: usize,
    pub data: Vec<T>,
}

impl<T: Simd> PackedMxN<T> {
    /// Layout invariant: the vector count per row is the ceiling of
    /// `row_length / lanes`, and the storage holds exactly one such block of
    /// vectors for every row.
    pub open spec fn wf(&self) -> bool {
        &&& self.vectors_per_row == spec_vectors_per_row(
            self.row_length as int,
            T::lanes_spec(),
        )
        &&& self.data@.len() == self.rows * self.vectors_per_row
        &&& self.row_length <= self.vectors_per_row * T::lanes_spec()
    }

    /// The scalar element at flat offset `k` of row `row`: lane `k % lanes`
    /// of vector `k / lanes` within the row's block.
    pub open spec fn scalar_at(&self, row: int, k: int) -> T::Element {
        self.data@[row * self.vectors_per_row + k / T::lanes_spec()].lanes_seq()[k
            % T::lanes_spec()]
    }

    /// The `row_length` scalar elements of row `row`, excluding the padding.
    pub open spec fn flat_row(&self, row: int) -> Seq<T::Element> {
        Seq::new(self.row_length as nat, |k: int| self.scalar_at(row, k))
    }

    /// Exactly the state that `with(default, rows, row_length)` produces.
    pub open spec fn constructed_with(&self, default: T, rows: usize, row_length: usize) -> bool {
        &&& self.wf()
        &&& self.rows == rows
        &&& self.row_length == row_length
        &&& self.data@ == Seq::new((rows * self.vectors_per_row) as nat, |i: int| default)
    }

    /// Allocates a buffer of `rows` rows covering `row_length` scalar
    /// elements each, every vector set to `default`.
    pub fn with(default: T, rows: usize, row_length: usize) -> (r: Self)
        requires
            rows * spec_vectors_per_row(row_length as int, T::lanes_spec()) <= usize::MAX,
        ensures
            r.constructed_with(default, rows, row_length),
            r.vectors_per_row == spec_vectors_per_row(row_length as int, T::lanes_spec()),
    {
        let lanes = T::lanes();
        let vpr = vectors_per_row(row_length, lanes);
        let total = rows * vpr;
        let mut data: Vec<T> = Vec::new();
        while data.len() < total
            invariant
                data@.len() <= total,
                forall|i: int| 0 <= i < data@.len() ==> data@[i] == default,
            decreases total - data@.len(),
        {
            data.push(default);
        }
        proof {
            lemma_vectors_per_row_is_ceiling(row_length as int, T::lanes_spec());
            assert(data@ =~= Seq::new((rows * vpr) as nat, |i: int| default));
        }
        Self { rows, row_length, vectors_per_row: vpr, data }
    }

    /// The storage offset, in whole vectors, where row `row` starts.
    pub fn row_start_offset(&self, row: usize) -> (r: usize)
        requires
            self.wf(),
            row < self.rows,
        ensures
            r == row * self.vectors_per_row,
    {
        let n = self.data.len();
        proof {
            lemma_mul_inequality(row as int + 1, self.rows as int, self.vectors_per_row as int);
            assert((row + 1) * self.vectors_per_row == row * self.vectors_per_row
                + self.vectors_per_row) by (nonlinear_arith);
            assert(row * self.vectors_per_row <= n);
        }
        row * self.vectors_per_row
    }

    /// The range of storage indices, in whole vectors, that row `row`
    /// occupies.
    pub fn range_for_row(&self, row: usize) -> (r: core::ops::Range<usize>)
        requires
            self.wf(),
            row < self.rows,
        ensures
            r.start == row * self.vectors_per_row,
            r.end == row * self.vectors_per_row + self.vectors_per_row,
            r.end <= self.data@.len(),
    {
        let start = self.row_start_offset(row);
        let n = self.data.len();
        proof {
            lemma_mul_inequality(row as int + 1, self.rows as int, self.vectors_per_row as int);
            assert((row + 1) * self.vectors_per_row == row * self.vectors_per_row
                + self.vectors_per_row) by (nonlinear_arith);
            assert(start + self.vectors_per_row <= n);
        }
        let end = start + self.vectors_per_row;
        start..end
    }

    /// The packed vectors of row `row`, as a borrowed slice.
    pub fn row_vectors(&self, row: usize) -> (r: &[T])
        requires
            self.wf(),
            row < self.rows,
        ensures
            r@ == self.data@.subrange(
                row * self.vectors_per_row,
                row * self.vectors_per_row + self.vectors_per_row,
            ),
            r@.len() == self.vectors_per_row,
    {
        let range = self.range_for_row(row);
        slice_subrange(self.data.as_slice(), range.start, range.end)
    }

    /// The packed vectors of row `row`, as a mutable borrowed slice; the rest
    /// of the storage is untouched.
    pub fn row_vectors_mut(&mut self, row: usize) -> (r: &mut [T])
        requires
            old(self).wf(),
            row < old(self).rows,
        ensures
            r@ == old(self).data@.subrange(
                row * old(self).vectors_per_row,
                row * old(self).vectors_per_row + old(self).vectors_per_row,
            ),
            r@.len() == old(self).vectors_per_row,
            final(self).rows == old(self).rows,
            final(self).row_length == old(self).row_length,
            final(self).vectors_per_row == old(self).vectors_per_row,
            final(self).data@ == old(self).data@.subrange(
                0,
                row * old(self).vectors_per_row,
            ) + final(r)@ + old(self).data@.subrange(
                (row + 1) * old(self).vectors_per_row,
                old(self).data@.len() as int,
            ),
    {
        let range = self.range_for_row(row);
        let vpr = self.vectors_per_row;
        let ghost old_data = self.data@;
        let s = self.data.as_mut_slice();
        let (left, rest) = s.split_at_mut(range.start);
        let (mid, _right) = rest.split_at_mut(vpr);
        proof {
            assert((row + 1) * vpr == row * vpr + vpr) by (nonlinear_arith);
            assert(mid@ =~= old_data.subrange(row * vpr as int, row * vpr + vpr));
        }
        mid
    }

    /// The `row_length` scalar elements of row `row`, as a borrowed flat
    /// view of the same memory: no copy is made.
    pub fn row_as_flat(&self, row: usize) -> (r: &[T::Element])
        requires
            self.wf(),
            row < self.rows,
        ensures
            r@.len() == self.row_length,
            r@ == self.flat_row(row as int),
    {
        proof {
            T::lanes_pos();
            lemma_lane_positions(T::lanes_spec(), self.vectors_per_row as int);
        }
        let len = self.row_length;
        let packed = self.row_vectors(row);
        let r = T::cast_flat(packed, len);
        proof {
            T::lanes_pos();
            lemma_mul_inequality(row as int + 1, self.rows as int, self.vectors_per_row as int);
            assert((row + 1) * self.vectors_per_row == row * self.vectors_per_row
                + self.vectors_per_row) by (nonlinear_arith);
            assert forall|k: int| 0 <= k < len implies r@[k] == self.scalar_at(row as int, k) by {
                lemma_lane_position_at(k, T::lanes_spec(), self.vectors_per_row as int);
                assert(packed@[k / T::lanes_spec()] == self.data@[row * self.vectors_per_row + k
                    / T::lanes_spec()]);
            }
            assert(r@ =~= self.flat_row(row as int));
        }
        r
    }

    /// The `row_length` scalar elements of row `row`, as a mutable flat view
    /// of the same memory: writes through it land in the packed vectors, and
    /// the padding lanes and all other rows keep their values.
    pub fn row_as_flat_mut(&mut self, row: usize) -> (r: &mut [T::Element])
        requires
            old(self).wf(),
            row < old(self).rows,
        ensures
            r@.len() == old(self).row_length,
            r@ == old(self).flat_row(row as int),
            final(r)@.len() == old(self).row_length,
            final(self).rows == old(self).rows,
            final(self).row_length == old(self).row_length,
            final(self).vectors_per_row == old(self).vectors_per_row,
            final(self).wf(),
            final(self).data@.len() == old(self).data@.len(),
            forall|j: int|
                0 <= j < old(self).data@.len() && !(row * old(self).vectors_per_row <= j < (row
                    + 1) * old(self).vectors_per_row) ==> final(self).data@[j] == old(
                    self,
                ).data@[j],
            forall|k: int|
                0 <= k < old(self).row_length ==> final(self).scalar_at(row as int, k)
                    == final(r)@[k],
            forall|k: int|
                old(self).row_length <= k < old(self).vectors_per_row * T::lanes_spec()
                    ==> final(self).scalar_at(row as int, k) == old(self).scalar_at(row as int, k),
    {
        proof {
            T::lanes_pos();
            lemma_lane_positions(T::lanes_spec(), self.vectors_per_row as int);
        }
        let len = self.row_length;
        let ghost prev = *self;
        let mid = self.row_vectors_mut(row);
        let ghost mid0 = mid@;
        let r = T::cast_flat_mut(mid, len);
        proof {
            T::lanes_pos();
            lemma_mul_inequality(row as int + 1, prev.rows as int, prev.vectors_per_row as int);
            assert((row + 1) * prev.vectors_per_row == row * prev.vectors_per_row
                + prev.vectors_per_row) by (nonlinear_arith);
            assert(mid0 == prev.data@.subrange(
                row * prev.vectors_per_row as int,
                row * prev.vectors_per_row + prev.vectors_per_row,
            ));
            assert forall|k: int| 0 <= k < len implies r@[k] == prev.scalar_at(row as int, k) by {
                lemma_lane_position_at(k, T::lanes_spec(), prev.vectors_per_row as int);
                assert(mid0[k / T::lanes_spec()] == prev.data@[row * prev.vectors_per_row + k
                    / T::lanes_spec()]);
            }
            assert(r@ =~= prev.flat_row(row as int));
        }
        r
    }

}

/// One flat offset `k` of a row decomposes into the vector `k / lanes`
/// and the lane `k % lanes` within it.
pub proof fn lemma_lane_position_at(k: int, lanes: int, vpr: int)
    requires
        lanes >= 1,
        vpr >= 0,
        0 <= k < vpr * lanes,
    ensures
        (k / lanes) * lanes + (k % lanes) == k,
        0 <= k / lanes < vpr,
        0 <= k % lanes < lanes,
{
    lemma_fundamental_div_mod(k, lanes);
    assert((k / lanes) * lanes + (k % lanes) == k) by (nonlinear_arith)
        requires
            k == lanes * (k / lanes) + (k % lanes),
    ;
    assert(0 <= k / lanes < vpr) by (nonlinear_arith)
        requires
            0 <= k < vpr * lanes,
            lanes >= 1,
            (k / lanes) * lanes + (k % lanes) == k,
            0 <= k % lanes < lanes,
    ;
}

/// Every flat offset `k` of a row of `vpr` whole vectors decomposes into the
/// vector `k / lanes` and the lane `k % lanes` within it.
pub proof fn lemma_lane_positions(lanes: int, vpr: int)
    requires
        lanes >= 1,
        vpr >= 0,
    ensures
        forall|k: int|
            #![trigger k / lanes]
            #![trigger k % lanes]
            0 <= k < vpr * lanes ==> (k / lanes) * lanes + (k % lanes) == k && 0 <= k / lanes
                < vpr && 0 <= k % lanes < lanes,
{
    assert forall|k: int|
        #![trigger k / lanes]
        #![trigger k % lanes]
        0 <= k < vpr * lanes implies (k / lanes) * lanes + (k % lanes) == k && 0 <= k / lanes
        < vpr && 0 <= k % lanes < lanes by {
        lemma_lane_position_at(k, lanes, vpr);
    }
}

/// The blocks of distinct rows never overlap, each lies inside the storage,
/// and together the row blocks cover the whole storage exactly.
pub proof fn lemma_row_ranges_partition<T: Simd>(b: PackedMxN<T>, r1: int, r2: int)
    requires
        b.wf(),
        0 <= r1 < b.rows,
        0 <= r2 < b.rows,
    ensures
        0 <= r1 * b.vectors_per_row,
        (r1 + 1) * b.vectors_per_row <= b.data@.len(),
        r1 < r2 ==> (r1 + 1) * b.vectors_per_row <= r2 * b.vectors_per_row,
{
    let vpr = b.vectors_per_row as int;
    assert(0 <= r1 * vpr) by (nonlinear_arith)
        requires
            r1 >= 0,
            vpr >= 0,
    ;
    lemma_mul_inequality(r1 + 1, b.rows as int, vpr);
    if r1 < r2 {
        lemma_mul_inequality(r1 + 1, r2, vpr);
    }
}

/// Every storage index falls inside the block of exactly one row: the row
/// `idx / vectors_per_row`.
pub proof fn lemma_row_ranges_cover<T: Simd>(b: PackedMxN<T>, idx: int)
    requires
        b.wf(),
        0 <= idx < b.data@.len(),
    ensures
        b.vectors_per_row >= 1,
        0 <= idx / (b.vectors_per_row as int) < b.rows,
        (idx / (b.vectors_per_row as int)) * b.vectors_per_row <= idx < (idx / (
        b.vectors_per_row as int) + 1) * b.vectors_per_row,
{
    let vpr = b.vectors_per_row as int;
    assert(vpr >= 1) by (nonlinear_arith)
        requires
            b.data@.len() == b.rows * vpr,
            b.data@.len() > 0,
            vpr >= 0,
    ;
    let q = idx / vpr;
    let r = idx % vpr;
    lemma_fundamental_div_mod(idx, vpr);
    assert(q * vpr <= idx < (q + 1) * vpr) by (nonlinear_arith)
        requires
            idx == q * vpr + r,
            0 <= r < vpr,
    ;
    assert(0 <= q < b.rows) by (nonlinear_arith)
        requires
            idx == q * vpr + r,
            0 <= r < vpr,
            0 <= idx,
            idx < b.rows * vpr,
    ;
}

/// Writing one scalar leaves every other scalar of the buffer unchanged:
/// a buffer `after` that differs from `before` only in lane `k % lanes` of
/// the packed vector holding flat offset `k` of row `row` reads back exactly
/// the written value there, and the old value everywhere else.
pub proof fn lemma_scalar_write_round_trip<T: Simd>(
    before: PackedMxN<T>,
    after: PackedMxN<T>,
    row: int,
    k: int,
    v: T::Element,
)
    requires
        before.wf(),
        after.wf(),
        after.rows == before.rows,
        after.row_length == before.row_length,
        after.vectors_per_row == before.vectors_per_row,
        0 <= row < before.rows,
        0 <= k < before.vectors_per_row * T::lanes_spec(),
        after.data@.len() == before.data@.len(),
        forall|j: int|
            0 <= j < before.data@.len() && j != row * before.vectors_per_row + k
                / T::lanes_spec() ==> after.data@[j] == before.data@[j],
        after.data@[row * before.vectors_per_row + k / T::lanes_spec()].lanes_seq()
            == before.data@[row * before.vectors_per_row + k / T::lanes_spec()].lanes_seq().update(
            k % T::lanes_spec(),
            v,
        ),
    ensures
        after.scalar_at(row, k) == v,
        forall|r2: int, k2: int|
            0 <= r2 < before.rows && 0 <= k2 < before.vectors_per_row * T::lanes_spec() && !(r2
                == row && k2 == k) ==> after.scalar_at(r2, k2) == before.scalar_at(r2, k2),
{
    let lanes = T::lanes_spec();
    let vpr = before.vectors_per_row as int;
    T::lanes_pos();
    let vi = row * vpr + k / lanes;
    lemma_lane_position_at(k, lanes, vpr);
    let w = before.data@[vi].lanes_seq();
    before.data@[vi].lanes_len();
    assert(after.scalar_at(row, k) == w.update(k % lanes, v)[k % lanes]);
    assert(after.scalar_at(row, k) == v);
    assert forall|r2: int, k2: int|
        0 <= r2 < before.rows && 0 <= k2 < vpr * lanes && !(r2 == row && k2
            == k) implies after.scalar_at(r2, k2) == before.scalar_at(r2, k2) by {
        lemma_fundamental_div_mod(k2, lanes);
        assert(0 <= k2 / lanes < vpr) by (nonlinear_arith)
            requires
                0 <= k2 < vpr * lanes,
                lanes >= 1,
                k2 / lanes * lanes + k2 % lanes == k2,
                0 <= k2 % lanes < lanes,
        ;
        let vi2 = r2 * vpr + k2 / lanes;
        if vi2 != vi {
            assert(after.data@[vi2] == before.data@[vi2]) by {
                assert(0 <= vi2 < before.data@.len()) by (nonlinear_arith)
                    requires
                        0 <= r2 < before.rows,
                        0 <= k2 / lanes < vpr,
                        vi2 == r2 * vpr + k2 / lanes,
                        before.data@.len() == before.rows * vpr,
                ;
            }
        } else {
            assert(r2 == row && k2 / lanes == k / lanes) by (nonlinear_arith)
                requires
                    vi2 == vi,
                    vi == row * vpr + k / lanes,
                    vi2 == r2 * vpr + k2 / lanes,
                    0 <= k / lanes < vpr,
                    0 <= k2 / lanes < vpr,
                    0 <= row,
                    0 <= r2,
            ;
            assert(k2 % lanes != k % lanes);
            assert(after.scalar_at(r2, k2) == w.update(k % lanes, v)[k2 % lanes]);
        }
    }
}

/// Construction is deterministic: two buffers built from the same default
/// vector, row count and row length hold identical storage, and so identical
/// flat contents.
pub proof fn lemma_with_deterministic<T: Simd>(
    a: PackedMxN<T>,
    b: PackedMxN<T>,
    default: T,
    rows: usize,
    row_length: usize,
)
    requires
        a.constructed_with(default, rows, row_length),
        b.constructed_with(default, rows, row_length),
    ensures
        a.rows == b.rows,
        a.row_length == b.row_length,
        a.vectors_per_row == b.vectors_per_row,
        a.data@ == b.data@,
        forall|r: int| 0 <= r < rows ==> a.flat_row(r) == b.flat_row(r),
{
    assert(a.data@ =~= b.data@);
    assert forall|r: int| 0 <= r < rows implies a.flat_row(r) == b.flat_row(r) by {
        assert(a.flat_row(r) =~= b.flat_row(r));
    }
}

} // verus!

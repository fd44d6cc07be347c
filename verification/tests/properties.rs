use simd_aligned::arch::{i32x4, u32x4, u64x2};
use simd_aligned::{
    vectors_per_row, ColumnOptimized, Columns, MatSimd, PackedMxN, RowOptimized, Rows, SimdExt,
    SimdMatrix, VecD,
};

#[test]
fn ceiling_examples() {
    assert_eq!(vectors_per_row(4, 4), 1);
    assert_eq!(vectors_per_row(5, 4), 2);
    assert_eq!(vectors_per_row(0, 4), 0);
    assert_eq!(vectors_per_row(1, 4), 1);
    assert_eq!(vectors_per_row(8, 4), 2);
    assert_eq!(vectors_per_row(9, 2), 5);
    assert_eq!(vectors_per_row(7, 1), 7);
}

#[test]
fn row_ranges_partition_storage() {
    let r = PackedMxN::<u32x4>::with(u32x4::splat(0), 4, 6);
    let mut covered: usize = 0;
    for row in 0..4usize {
        let range = r.range_for_row(row);
        assert_eq!(range.start, row * 2);
        assert_eq!(range.end, (row + 1) * 2);
        covered += range.end - range.start;
    }
    assert_eq!(covered, r.data.len());
}

#[test]
fn flat_round_trip_and_packed_consistency() {
    let mut v = VecD::<u32x4>::with(0, 10);
    {
        let f = v.flat_mut();
        f[6] = 99;
        f[0] = 11;
    }
    assert_eq!(v.flat()[6], 99);
    assert_eq!(v.flat()[0], 11);
    // The write at flat offset 6 lands in lane 2 of packed vector 1.
    assert_eq!(v.vector(1).to_array(), [0, 0, 99, 0]);
    assert_eq!(v.vector(0).to_array(), [11, 0, 0, 0]);
    // The packed vector's own lane sum sees the written values.
    assert_eq!(v.vector(1).sum(), 99);
    assert_eq!(v.vector(0).sum(), 11);
}

#[test]
fn construction_is_deterministic() {
    let a = VecD::<u32x4>::with(7, 9);
    let b = VecD::<u32x4>::with(7, 9);
    assert_eq!(a.flat(), b.flat());
    assert_eq!(a.flat(), &[7u32; 9][..]);

    let m1 = MatSimd::<u32x4, Rows>::with_dimension(3, 4);
    let m2 = MatSimd::<u32x4, Rows>::with_dimension(3, 4);
    for i in 0..3usize {
        assert_eq!(m1.row_as_flat(i), m2.row_as_flat(i));
    }
}

#[test]
fn empty_boundaries() {
    let no_rows = PackedMxN::<u32x4>::with(u32x4::splat(0), 0, 7);
    assert_eq!(no_rows.data.len(), 0);

    let no_len = PackedMxN::<u32x4>::with(u32x4::splat(0), 3, 0);
    assert_eq!(no_len.data.len(), 0);
    assert_eq!(no_len.vectors_per_row, 0);

    assert_eq!(vectors_per_row(0, 4), 0);
}

#[test]
fn packed_buffer_sizes() {
    let r_1 = PackedMxN::<u32x4>::with(u32x4::splat(0), 1, 4);
    let r_2 = PackedMxN::<u32x4>::with(u32x4::splat(0), 1, 5);
    assert_eq!(r_1.data.len(), 1);
    assert_eq!(r_2.data.len(), 2);
}

#[test]
fn row_matrix_dimension() {
    let m = SimdMatrix::<u32x4, RowOptimized>::with_dimension(5, 5);
    assert_eq!(m.dimension(), (5, 5));
    assert_eq!(m.simd_rows.data.len(), 10);
}

#[test]
fn column_matrix_layout() {
    let m = SimdMatrix::<u32x4, ColumnOptimized>::with_dimension(5, 5);
    assert_eq!(m.dimension(), (5, 5));
    assert_eq!(m.simd_rows.data.len(), 10);
    assert_eq!(m.column(0).len(), 2);
}

#[test]
fn row_as_flat_length_ignores_padding() {
    let m_a = MatSimd::<u32x4, Rows>::with_dimension(3, 5);
    for i in 0..3usize {
        assert_eq!(m_a.row_as_flat(i).len(), 5);
    }
    let m_b = MatSimd::<u32x4, Rows>::with_dimension(3, 4);
    for i in 0..3usize {
        assert_eq!(m_b.row_as_flat(i).len(), 4);
    }
    let m_c = MatSimd::<u32x4, Rows>::with_dimension(2, 9);
    for i in 0..2usize {
        assert_eq!(m_c.row_as_flat(i).len(), 9);
    }
}

#[test]
fn flat_addressing_is_strategy_invariant() {
    let mut m_r = MatSimd::<u32x4, Rows>::with_dimension(2, 5);
    let mut m_c = MatSimd::<u32x4, Columns>::with_dimension(5, 2);

    m_r.flat_mut(1, 3, 42);
    m_c.flat_mut(3, 1, 42);
    m_r.flat_mut(0, 0, 7);
    m_c.flat_mut(0, 0, 7);

    for x in 0..2usize {
        for y in 0..5usize {
            assert_eq!(m_r.flat().get(x, y), m_c.flat().get(y, x));
        }
    }
    assert_eq!(m_r.flat().get(1, 3), 42);
    assert_eq!(m_c.flat().get(3, 1), 42);
}

#[test]
fn signed_lanes_round_trip() {
    let mut v = VecD::<i32x4>::with(-3, 6);
    assert_eq!(v.flat(), &[-3, -3, -3, -3, -3, -3]);
    {
        let f = v.flat_mut();
        f[5] = -7;
    }
    assert_eq!(v.flat()[5], -7);
    assert_eq!(v.vector(1).to_array(), [-3, -7, -3, -3]);
}

#[test]
fn two_lane_vectors() {
    let mut v = VecD::<u64x2>::with(1, 5);
    assert_eq!(v.simd_rows.data.len(), 3);
    assert_eq!(v.flat(), &[1u64; 5][..]);
    assert_eq!(v.vector(0).sum(), 2);
    {
        let f = v.flat_mut();
        f[4] = 40;
    }
    assert_eq!(v.vector(2).to_array(), [40, 1]);
}

#[test]
fn lane_sum_wraps() {
    let w = u32x4::splat(10);
    assert_eq!(w.sum(), 40);
    let big = u32x4::splat(0x8000_0000);
    assert_eq!(big.sum(), 0);
    let two = u64x2::new([u64::MAX, 1]);
    assert_eq!(two.sum(), 0);
    let signed = i32x4::splat(-1);
    assert_eq!(signed.sum(), -4);
    let signed_wrap = i32x4::new([i32::MAX, 1, 0, 0]);
    assert_eq!(signed_wrap.sum(), i32::MIN);
}

use simd_aligned::arch::u32x4;
use simd_aligned::{ColumnOptimized, Columns, MatSimd, RowOptimized, Rows, SimdMatrix};

#[test]
fn mat_allocation_size() {
    let m_1_1_r = MatSimd::<u32x4, Rows>::with_dimension(1, 1);
    let m_1_1_c = MatSimd::<u32x4, Columns>::with_dimension(1, 1);

    let m_5_5_r = MatSimd::<u32x4, Rows>::with_dimension(5, 5);
    let m_5_5_c = MatSimd::<u32x4, Columns>::with_dimension(5, 5);

    let m_1_4_r = MatSimd::<u32x4, Rows>::with_dimension(1, 4);
    let m_4_1_c = MatSimd::<u32x4, Columns>::with_dimension(4, 1);

    let m_4_1_r = MatSimd::<u32x4, Rows>::with_dimension(4, 1);
    let m_1_4_c = MatSimd::<u32x4, Columns>::with_dimension(1, 4);

    assert_eq!(m_1_1_r.simd_rows.data.len(), 1);
    assert_eq!(m_1_1_c.simd_rows.data.len(), 1);

    assert_eq!(m_5_5_r.simd_rows.data.len(), 10);
    assert_eq!(m_5_5_c.simd_rows.data.len(), 10);

    assert_eq!(m_1_4_r.simd_rows.data.len(), 1);
    assert_eq!(m_4_1_c.simd_rows.data.len(), 1);

    assert_eq!(m_4_1_r.simd_rows.data.len(), 4);
    assert_eq!(m_1_4_c.simd_rows.data.len(), 4);
}

#[test]
fn mat_access() {
    let mut m_5_5_r = MatSimd::<u32x4, Rows>::with_dimension(5, 5);
    let mut m_5_5_c = MatSimd::<u32x4, Columns>::with_dimension(5, 5);

    assert_eq!(m_5_5_c.column(0).len(), 2);
    assert_eq!(m_5_5_c.column_mut(0).len(), 2);
    assert_eq!(m_5_5_c.column_as_flat(0).len(), 5);
    assert_eq!(m_5_5_c.column_as_flat_mut(0).len(), 5);

    assert_eq!(m_5_5_r.row(0).len(), 2);
    assert_eq!(m_5_5_r.row_mut(0).len(), 2);
    assert_eq!(m_5_5_r.row_as_flat(0).len(), 5);
    assert_eq!(m_5_5_r.row_as_flat_mut(0).len(), 5);

    let mut count: usize = 0;

    let mut ci = m_5_5_c.column_iter();
    while let Some(_) = ci.next() {
        count += 1;
    }

    let mut ri = m_5_5_r.row_iter();
    while let Some(_) = ri.next() {
        count += 1;
    }

    let r1 = m_5_5_r.row(3);
    let r2 = m_5_5_r.row(4);

    let mut sum = u32x4::splat(0);

    for (x, y) in r1.iter().zip(r2) {
        sum += *x + *y;
    }

    assert_eq!(count, 10);
}

#[test]
fn mat_flattened() {
    let mut m_1_5_r = MatSimd::<u32x4, Rows>::with_dimension(1, 5);
    let mut m_1_5_c = MatSimd::<u32x4, Columns>::with_dimension(1, 5);
    let mut m_5_1_c = MatSimd::<u32x4, Columns>::with_dimension(5, 1);
    let mut m_5_1_r = MatSimd::<u32x4, Rows>::with_dimension(5, 1);

    m_1_5_r.flat_mut(0, 4, 1);
    m_1_5_c.flat_mut(0, 4, 1);
    m_5_1_r.flat_mut(4, 0, 1);
    m_5_1_c.flat_mut(4, 0, 1);
}

#[test]
fn matrix_allocation_size() {
    let m_1_1_r = SimdMatrix::<u32x4, RowOptimized>::with_dimension(1, 1);
    let m_1_1_c = SimdMatrix::<u32x4, ColumnOptimized>::with_dimension(1, 1);

    let m_5_5_r = SimdMatrix::<u32x4, RowOptimized>::with_dimension(5, 5);
    let m_5_5_c = SimdMatrix::<u32x4, ColumnOptimized>::with_dimension(5, 5);

    let m_1_4_r = SimdMatrix::<u32x4, RowOptimized>::with_dimension(1, 4);
    let m_4_1_c = SimdMatrix::<u32x4, ColumnOptimized>::with_dimension(4, 1);

    let m_4_1_r = SimdMatrix::<u32x4, RowOptimized>::with_dimension(4, 1);
    let m_1_4_c = SimdMatrix::<u32x4, ColumnOptimized>::with_dimension(1, 4);

    assert_eq!(m_1_1_r.simd_rows.data.len(), 1);
    assert_eq!(m_1_1_c.simd_rows.data.len(), 1);

    assert_eq!(m_5_5_r.simd_rows.data.len(), 10);
    assert_eq!(m_5_5_c.simd_rows.data.len(), 10);

    assert_eq!(m_1_4_r.simd_rows.data.len(), 1);
    assert_eq!(m_4_1_c.simd_rows.data.len(), 1);

    assert_eq!(m_4_1_r.simd_rows.data.len(), 4);
    assert_eq!(m_1_4_c.simd_rows.data.len(), 4);
}

#[test]
fn matrix_access() {
    let mut m_5_5_r = SimdMatrix::<u32x4, RowOptimized>::with_dimension(5, 5);
    let mut m_5_5_c = SimdMatrix::<u32x4, ColumnOptimized>::with_dimension(5, 5);

    assert_eq!(m_5_5_c.column(0).len(), 2);
    assert_eq!(m_5_5_c.column_mut(0).len(), 2);
    assert_eq!(m_5_5_c.column_as_flat(0).len(), 5);
    assert_eq!(m_5_5_c.column_as_flat_mut(0).len(), 5);

    assert_eq!(m_5_5_r.row(0).len(), 2);
    assert_eq!(m_5_5_r.row_mut(0).len(), 2);
    assert_eq!(m_5_5_r.row_as_flat(0).len(), 5);
    assert_eq!(m_5_5_r.row_as_flat_mut(0).len(), 5);

    let mut count: usize = 0;

    let mut ci = m_5_5_c.column_iter();
    while let Some(_) = ci.next() {
        count += 1;
    }

    let mut ri = m_5_5_r.row_iter();
    while let Some(_) = ri.next() {
        count += 1;
    }

    let r1 = m_5_5_r.row(3);
    let r2 = m_5_5_r.row(4);

    let mut sum = u32x4::splat(0);

    for (x, y) in r1.iter().zip(r2) {
        sum += *x + *y;
    }

    assert_eq!(count, 10);
}

#[test]
fn matrix_flattened() {
    let mut m_1_5_r = SimdMatrix::<u32x4, RowOptimized>::with_dimension(1, 5);
    let mut m_1_5_c = SimdMatrix::<u32x4, ColumnOptimized>::with_dimension(1, 5);
    let mut m_5_1_c = SimdMatrix::<u32x4, ColumnOptimized>::with_dimension(5, 1);
    let mut m_5_1_r = SimdMatrix::<u32x4, RowOptimized>::with_dimension(5, 1);

    m_1_5_r.flat_mut(0, 4, 1);
    m_1_5_c.flat_mut(0, 4, 1);
    m_5_1_r.flat_mut(4, 0, 1);
    m_5_1_c.flat_mut(4, 0, 1);
}

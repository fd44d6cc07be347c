use simd_aligned::arch::u32x4;
use simd_aligned::{Flat, SimdRows};

#[test]
fn rows_allocation_size() {
    let r_1 = SimdRows::<u32x4>::with(0, 1, Flat(4));
    let r_2 = SimdRows::<u32x4>::with(0, 1, Flat(5));

    assert_eq!(r_1.data.len(), 1);
    assert_eq!(r_2.data.len(), 2);
}

#[test]
fn rows_start_offset() {
    let r = SimdRows::<u32x4>::with(0, 16, Flat(16));

    assert_eq!(r.row_start_offset(0), 0);
    assert_eq!(r.row_start_offset(1), 4);
}

#[test]
fn rows_range() {
    let r = SimdRows::<u32x4>::with(0, 16, Flat(16));

    assert_eq!(r.range_for_row(2), 8..12);
}

#[test]
fn rows_slice() {
    let r = SimdRows::<u32x4>::with(0, 16, Flat(16));

    let s = r.row_as_flat(1);
    assert_eq!(s.len(), 16);
}

#[test]
fn rows_slice_mut() {
    let mut r = SimdRows::<u32x4>::with(0, 16, Flat(16));
    let s = r.row_as_flat_mut(1);

    assert_eq!(s.len(), 16);
}

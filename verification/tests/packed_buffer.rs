use simd_aligned::arch::u32x4;
use simd_aligned::PackedMxN;

#[test]
fn packed_allocation_size() {
    let r_1 = PackedMxN::<u32x4>::with(u32x4::splat(0), 1, 4);
    let r_2 = PackedMxN::<u32x4>::with(u32x4::splat(0), 1, 5);

    assert_eq!(r_1.data.len(), 1);
    assert_eq!(r_2.data.len(), 2);
}

#[test]
fn packed_start_offset() {
    let r = PackedMxN::<u32x4>::with(u32x4::splat(0), 16, 16);

    assert_eq!(r.row_start_offset(0), 0);
    assert_eq!(r.row_start_offset(1), 4);
}

#[test]
fn packed_range() {
    let r = PackedMxN::<u32x4>::with(u32x4::splat(0), 16, 16);

    assert_eq!(r.range_for_row(2), 8..12);
}

#[test]
fn packed_slice() {
    let r = PackedMxN::<u32x4>::with(u32x4::splat(0), 16, 16);

    let s = r.row_as_flat(1);
    assert_eq!(s.len(), 16);
}

#[test]
fn packed_slice_mut() {
    let mut r = PackedMxN::<u32x4>::with(u32x4::splat(0), 16, 16);
    let s = r.row_as_flat_mut(1);

    assert_eq!(s.len(), 16);
}

#[test]
fn packed_row_write_is_isolated() {
    let mut r = PackedMxN::<u32x4>::with(u32x4::splat(9), 3, 5);
    {
        let s = r.row_as_flat_mut(1);
        assert_eq!(s, &[9, 9, 9, 9, 9]);
        s[0] = 100;
        s[4] = 104;
    }
    assert_eq!(r.row_as_flat(0), &[9, 9, 9, 9, 9]);
    assert_eq!(r.row_as_flat(1), &[100, 9, 9, 9, 104]);
    assert_eq!(r.row_as_flat(2), &[9, 9, 9, 9, 9]);
}

use simd_aligned::arch::u32x4;
use simd_aligned::{packed_as_flat, packed_as_flat_mut};

#[test]
fn slice_flattening() {
    let x_0 = [u32x4::splat(0); 0];
    let x_1 = [u32x4::splat(0); 1];

    let mut x_0_m = [u32x4::splat(0); 0];
    let mut x_1_m = [u32x4::splat(0); 1];

    let y_0 = packed_as_flat(&x_0);
    let y_1 = packed_as_flat(&x_1);

    let y_0_m = packed_as_flat_mut(&mut x_0_m);
    let y_1_m = packed_as_flat_mut(&mut x_1_m);

    assert_eq!(y_0.len(), 0);
    assert_eq!(y_1.len(), 4);
    assert_eq!(y_0_m.len(), 0);
    assert_eq!(y_1_m.len(), 4);
}

#[test]
fn flat_view_reads_lanes_in_order() {
    let packed = [u32x4::new([1, 2, 3, 4]), u32x4::new([5, 6, 7, 8])];
    let flat = packed_as_flat(&packed);
    assert_eq!(flat, &[1, 2, 3, 4, 5, 6, 7, 8]);
}

#[test]
fn flat_view_writes_land_in_lanes() {
    let mut packed = [u32x4::splat(0); 2];
    let flat = packed_as_flat_mut(&mut packed);
    flat[0] = 10;
    flat[5] = 60;
    assert_eq!(packed[0].to_array(), [10, 0, 0, 0]);
    assert_eq!(packed[1].to_array(), [0, 60, 0, 0]);
}

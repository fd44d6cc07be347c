use simd_aligned::arch::u32x4;
use simd_aligned::{VecD, VectorD};

#[test]
fn vec_allocation_size() {
    let v_1 = VecD::<u32x4>::with(0, 4);
    let v_2 = VecD::<u32x4>::with(0, 5);

    assert_eq!(v_1.simd_rows.data.len(), 1);
    assert_eq!(v_2.simd_rows.data.len(), 2);
}

#[test]
fn vec_flat() {
    let mut v = VecD::<u32x4>::with(10, 16);
    let r_m = v.flat_mut();

    assert_eq!(r_m.len(), 16);

    for x in r_m {
        *x = 1;
    }

    let mut sum: u32 = 0;
    let r = v.flat();

    assert_eq!(r.len(), 16);

    for x in r {
        sum += x;
    }

    assert_eq!(sum, 16);
}

#[test]
fn vec_deref() {
    let v = VecD::<u32x4>::with(0, 16);
    assert!(v.vector(0) == v.vector(0));
}

#[test]
fn vector_allocation_size() {
    let v_1 = VectorD::<u32x4>::with(0, 4);
    let v_2 = VectorD::<u32x4>::with(0, 5);

    assert_eq!(v_1.simd_rows.data.len(), 1);
    assert_eq!(v_2.simd_rows.data.len(), 2);
}

#[test]
fn vector_flat() {
    let mut v = VectorD::<u32x4>::with(10, 16);
    let r_m = v.flat_mut();

    assert_eq!(r_m.len(), 16);

    for x in r_m {
        *x = 1;
    }

    let mut sum: u32 = 0;
    let r = v.flat();

    assert_eq!(r.len(), 16);

    for x in r {
        sum += x;
    }

    assert_eq!(sum, 16);
}

#[test]
fn vector_deref() {
    let v = VectorD::<u32x4>::with(0, 16);
    assert!(v.vector(0) == v.vector(0));
}

#[test]
fn vector_iter_walks_all_vectors() {
    let v = VectorD::<u32x4>::with(3, 10);
    let mut it = v.vector_iter();
    let mut count: usize = 0;
    while let Some(w) = it.next() {
        assert_eq!(w.to_array(), [3, 3, 3, 3]);
        count += 1;
    }
    assert_eq!(count, 3);
}

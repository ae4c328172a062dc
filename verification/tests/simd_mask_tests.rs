use compute_util::bitmap::Bitmap;
use compute_util::primitive_array::PrimitiveArray;
use compute_util::simd_mask::{is_valid, simd_load_set_invalid};

#[test]
fn test_is_valid() {
    let a = PrimitiveArray::from_options(
        vec![
            Some(15),
            None,
            None,
            Some(1),
            None,
            None,
            Some(5),
            None,
            None,
            Some(4),
        ],
        0i32,
    );
    let simd_lanes = 16;
    let result = is_valid(a.null_bitmap(), 0, simd_lanes, a.len());
    for i in 0..simd_lanes {
        if i % 3 != 0 || i > 9 {
            assert_eq!(false, result[i]);
        } else {
            assert_eq!(true, result[i]);
        }
    }
}

#[test]
fn test_simd_load_set_invalid() {
    let a = PrimitiveArray::from_options(vec![None, Some(15), Some(5), Some(0)], 0i64);
    let new_bitmap = Some(Bitmap::new(vec![0b00001010]));
    let simd_lanes = 8;
    let result = simd_load_set_invalid(&a, &new_bitmap, 0, simd_lanes, 1);
    for i in 0..simd_lanes {
        if i == 1 {
            assert_eq!(15_i64, result[i]);
        } else if i == 3 {
            assert_eq!(0_i64, result[i]);
        } else {
            assert_eq!(1_i64, result[i]);
        }
    }
}

#[test]
fn test_is_valid_no_bitmap() {
    // Without a bitmap only the logical length decides: lanes past it are
    // invalid padding.
    let mask = is_valid(&None, 0, 4, 3);
    assert_eq!(vec![true, true, true, false], mask);
}

#[test]
fn test_is_valid_mid_array_start() {
    let bitmap = Some(Bitmap::new(vec![0b11111111, 0b00000011]));
    let mask = is_valid(&bitmap, 4, 8, 10);
    assert_eq!(
        vec![true, true, true, true, true, true, false, false],
        mask
    );
}

#[test]
fn test_simd_load_no_bitmap() {
    let a = PrimitiveArray::from_options(vec![Some(1), Some(2), Some(3)], 0i64);
    let result = simd_load_set_invalid(&a, &None, 0, 4, 9);
    assert_eq!(vec![1, 2, 3, 9], result);
}

#[test]
fn test_primitive_array_from_options() {
    let a = PrimitiveArray::from_options(vec![Some(1i32), None, Some(3)], 7);
    assert_eq!(3, a.len());
    assert_eq!(1, a.values[0]);
    assert_eq!(7, a.values[1]);
    assert_eq!(3, a.values[2]);
    // Padding slots hold the null value as well.
    assert!(a.values.len() >= a.len() + 64);
    assert_eq!(7, a.values[a.values.len() - 1]);
    let bitmap = a.null_bitmap().as_ref().unwrap();
    assert_eq!(true, bitmap.is_set(0));
    assert_eq!(false, bitmap.is_set(1));
    assert_eq!(true, bitmap.is_set(2));
}

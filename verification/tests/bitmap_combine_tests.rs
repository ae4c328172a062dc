use compute_util::array_data::ArrayData;
use compute_util::bitmap_combine::{combine_option_bitmap, compare_option_bitmap};
use compute_util::error::ArrowError;

fn make_data_with_null_bit_buffer(
    len: usize,
    offset: usize,
    null_bit_buffer: Option<Vec<u8>>,
) -> ArrayData {
    ArrayData::new(len, offset, null_bit_buffer)
}

#[test]
fn test_combine_option_bitmap() {
    let none_bitmap = make_data_with_null_bit_buffer(8, 0, None);
    let some_bitmap = make_data_with_null_bit_buffer(8, 0, Some(vec![0b01001010]));
    let inverse_bitmap = make_data_with_null_bit_buffer(8, 0, Some(vec![0b10110101]));
    assert_eq!(
        None,
        combine_option_bitmap(&none_bitmap, &none_bitmap, 8).unwrap()
    );
    assert_eq!(
        Some(vec![0b01001010]),
        combine_option_bitmap(&some_bitmap, &none_bitmap, 8).unwrap()
    );
    assert_eq!(
        Some(vec![0b01001010]),
        combine_option_bitmap(&none_bitmap, &some_bitmap, 8).unwrap()
    );
    assert_eq!(
        Some(vec![0b01001010]),
        combine_option_bitmap(&some_bitmap, &some_bitmap, 8).unwrap()
    );
    assert_eq!(
        Some(vec![0b0]),
        combine_option_bitmap(&some_bitmap, &inverse_bitmap, 8).unwrap()
    );
}

#[test]
fn test_compare_option_bitmap() {
    let none_bitmap = make_data_with_null_bit_buffer(8, 0, None);
    let some_bitmap = make_data_with_null_bit_buffer(8, 0, Some(vec![0b01001010]));
    let inverse_bitmap = make_data_with_null_bit_buffer(8, 0, Some(vec![0b10110101]));
    assert_eq!(
        None,
        compare_option_bitmap(&none_bitmap, &none_bitmap, 8).unwrap()
    );
    assert_eq!(
        Some(vec![0b01001010]),
        compare_option_bitmap(&some_bitmap, &none_bitmap, 8).unwrap()
    );
    assert_eq!(
        Some(vec![0b01001010]),
        compare_option_bitmap(&none_bitmap, &some_bitmap, 8).unwrap()
    );
    assert_eq!(
        Some(vec![0b01001010]),
        compare_option_bitmap(&some_bitmap, &some_bitmap, 8).unwrap()
    );
    assert_eq!(
        Some(vec![0b11111111]),
        compare_option_bitmap(&some_bitmap, &inverse_bitmap, 8).unwrap()
    );
}

#[test]
fn test_combine_option_bitmap_not_byte_aligned() {
    let misaligned = make_data_with_null_bit_buffer(8, 3, Some(vec![0b01001010]));
    let none_bitmap = make_data_with_null_bit_buffer(8, 0, None);
    assert_eq!(
        Err(ArrowError::ComputeError),
        combine_option_bitmap(&misaligned, &none_bitmap, 8)
    );
    assert_eq!(
        Err(ArrowError::ComputeError),
        combine_option_bitmap(&none_bitmap, &misaligned, 8)
    );
}

#[test]
fn test_compare_option_bitmap_not_byte_aligned() {
    let misaligned = make_data_with_null_bit_buffer(8, 3, Some(vec![0b01001010]));
    let none_bitmap = make_data_with_null_bit_buffer(8, 0, None);
    assert_eq!(
        Err(ArrowError::ComputeError),
        compare_option_bitmap(&misaligned, &none_bitmap, 8)
    );
    assert_eq!(
        Err(ArrowError::ComputeError),
        compare_option_bitmap(&none_bitmap, &misaligned, 8)
    );
}

#[test]
fn test_single_bitmap_sliced_at_byte_offset() {
    // A bit offset of 8 drops the first byte of the bitmap, in both operations.
    let offset_bitmap = make_data_with_null_bit_buffer(8, 8, Some(vec![0xAA, 0b01001010]));
    let none_bitmap = make_data_with_null_bit_buffer(8, 0, None);
    assert_eq!(
        Some(vec![0b01001010]),
        combine_option_bitmap(&offset_bitmap, &none_bitmap, 8).unwrap()
    );
    assert_eq!(
        Some(vec![0b01001010]),
        compare_option_bitmap(&none_bitmap, &offset_bitmap, 8).unwrap()
    );
}

#[test]
fn test_combine_option_bitmap_with_offsets() {
    // Each input is byte-sliced at its own offset before the bytes combine.
    let left = make_data_with_null_bit_buffer(8, 8, Some(vec![0xFF, 0b01001010]));
    let right = make_data_with_null_bit_buffer(8, 0, Some(vec![0b11110000]));
    assert_eq!(
        Some(vec![0b01000000]),
        combine_option_bitmap(&left, &right, 8).unwrap()
    );
    assert_eq!(
        Some(vec![0b11111010]),
        compare_option_bitmap(&left, &right, 8).unwrap()
    );
}

#[test]
fn test_combine_option_bitmap_partial_byte() {
    // 12 bits of logical length combine over ceil(12 / 8) == 2 bytes.
    let left = make_data_with_null_bit_buffer(12, 0, Some(vec![0b01001010, 0b00001111, 0xFF]));
    let right = make_data_with_null_bit_buffer(12, 0, Some(vec![0b11001100, 0b00000101, 0xFF]));
    assert_eq!(
        Some(vec![0b01001000, 0b00000101]),
        combine_option_bitmap(&left, &right, 12).unwrap()
    );
    assert_eq!(
        Some(vec![0b11001110, 0b00001111]),
        compare_option_bitmap(&left, &right, 12).unwrap()
    );
}

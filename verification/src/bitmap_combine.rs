//! Combining the optional validity bitmaps of two arrays.
//!
//! Higher-level binary kernels derive the output array's validity bitmap
//! from the two input arrays': [`combine_option_bitmap`] keeps a slot valid
//! only where both inputs are valid (bitwise AND), while
//! [`compare_option_bitmap`] keeps a slot valid where either input is valid
//! (bitwise OR). Both reject bitmaps whose bit offset is not byte-aligned.

use vstd::prelude::*;

use crate::array_data::ArrayData;
use crate::bit_util::{ceil, ceil_div};
use crate::buffer_ops::{buffer_bin_and, buffer_bin_or, slice_buffer};
use crate::error::ArrowError;

verus! {

/// An input is acceptable when it either has no bitmap, or its bit offset is
/// a whole number of bytes, so the bitmap can be sliced without shifting.
pub open spec fn bitmap_is_aligned(d: ArrayData) -> bool {
    d.null_bit_buffer is Some ==> d.offset as int % 8 == 0
}

/// The bytewise combination of `len` bytes of `left` from `left_offset` with
/// `right` from `right_offset`: AND when `use_and`, OR otherwise.
pub open spec fn combined_bytes(
    left: Seq<u8>,
    left_offset: int,
    right: Seq<u8>,
    right_offset: int,
    len: int,
    use_and: bool,
) -> Seq<u8> {
    Seq::new(
        len as nat,
        |i: int|
            if use_and {
                left[left_offset + i] & right[right_offset + i]
            } else {
                left[left_offset + i] | right[right_offset + i]
            },
    )
}

/// What combining the two inputs' bitmaps over `len_in_bits` logical bits
/// yields: the alignment error if either bitmap sits at a non-byte-aligned
/// offset; no bitmap if neither input has one; the one bitmap, byte-sliced
/// at its offset, if exactly one input has one; and the bytewise AND (or OR)
/// of the two byte-sliced bitmaps over `ceil(len_in_bits / 8)` bytes if both
/// do.
pub open spec fn bin_op_bitmap(
    left_data: ArrayData,
    right_data: ArrayData,
    len_in_bits: int,
    use_and: bool,
) -> Result<Option<Seq<u8>>, ArrowError> {
    if !(bitmap_is_aligned(left_data) && bitmap_is_aligned(right_data)) {
        Err(ArrowError::ComputeError)
    } else {
        match (left_data.null_bit_buffer, right_data.null_bit_buffer) {
            (None, None) => Ok(None),
            (None, Some(rb)) => Ok(Some(rb@.skip(right_data.offset as int / 8))),
            (Some(lb), None) => Ok(Some(lb@.skip(left_data.offset as int / 8))),
            (Some(lb), Some(rb)) => Ok(
                Some(
                    combined_bytes(
                        lb@,
                        left_data.offset as int / 8,
                        rb@,
                        right_data.offset as int / 8,
                        ceil_div(len_in_bits, 8),
                        use_and,
                    ),
                ),
            ),
        }
    }
}

/// The bitmaps are long enough for the bytes the combination reads: the byte
/// offset lies within the one bitmap kept whole, and both byte-sliced
/// bitmaps hold `ceil(len_in_bits / 8)` bytes when the two are combined.
pub open spec fn bin_op_bitmap_pre(
    left_data: ArrayData,
    right_data: ArrayData,
    len_in_bits: int,
) -> bool {
    bitmap_is_aligned(left_data) && bitmap_is_aligned(right_data) ==> match (
    left_data.null_bit_buffer,
    right_data.null_bit_buffer,
    ) {
        (None, None) => true,
        (None, Some(rb)) => right_data.offset as int / 8 <= rb@.len(),
        (Some(lb), None) => left_data.offset as int / 8 <= lb@.len(),
        (Some(lb), Some(rb)) => left_data.offset as int / 8 + ceil_div(len_in_bits, 8) <= lb@.len()
            && right_data.offset as int / 8 + ceil_div(len_in_bits, 8) <= rb@.len(),
    }
}

/// Whether the returned buffer, seen as a byte sequence, is the one the
/// specification names.
pub open spec fn result_matches(
    r: Result<Option<Vec<u8>>, ArrowError>,
    s: Result<Option<Seq<u8>>, ArrowError>,
) -> bool {
    match (r, s) {
        (Ok(None), Ok(None)) => true,
        (Ok(Some(v)), Ok(Some(q))) => v@ == q,
        (Err(e1), Err(e2)) => e1 == e2,
        _ => false,
    }
}

/// Combines the null bitmaps of two arrays with a bitwise AND: a slot of the
/// result is valid only where both inputs are valid.
pub fn combine_option_bitmap(
    left_data: &ArrayData,
    right_data: &ArrayData,
    len_in_bits: usize,
) -> (r: Result<Option<Vec<u8>>, ArrowError>)
    requires
        bin_op_bitmap_pre(*left_data, *right_data, len_in_bits as int),
    ensures
        result_matches(r, bin_op_bitmap(*left_data, *right_data, len_in_bits as int, true)),
        r is Err <==> !(bitmap_is_aligned(*left_data) && bitmap_is_aligned(*right_data)),
{
    bin_op_option_bitmap(left_data, right_data, len_in_bits, true)
}

/// Combines the null bitmaps of two arrays with a bitwise OR: a slot of the
/// result is valid where either input is valid.
pub fn compare_option_bitmap(
    left_data: &ArrayData,
    right_data: &ArrayData,
    len_in_bits: usize,
) -> (r: Result<Option<Vec<u8>>, ArrowError>)
    requires
        bin_op_bitmap_pre(*left_data, *right_data, len_in_bits as int),
    ensures
        result_matches(r, bin_op_bitmap(*left_data, *right_data, len_in_bits as int, false)),
        r is Err <==> !(bitmap_is_aligned(*left_data) && bitmap_is_aligned(*right_data)),
{
    bin_op_option_bitmap(left_data, right_data, len_in_bits, false)
}

/// The shared body of the two operations: identical alignment checking and
/// slicing, differing only in the bitwise operator applied when both bitmaps
/// are present.
fn bin_op_option_bitmap(
    left_data: &ArrayData,
    right_data: &ArrayData,
    len_in_bits: usize,
    use_and: bool,
) -> (r: Result<Option<Vec<u8>>, ArrowError>)
    requires
        bin_op_bitmap_pre(*left_data, *right_data, len_in_bits as int),
    ensures
        result_matches(r, bin_op_bitmap(*left_data, *right_data, len_in_bits as int, use_and)),
        r is Err <==> !(bitmap_is_aligned(*left_data) && bitmap_is_aligned(*right_data)),
{
    let left_offset_in_bits = left_data.offset;
    let right_offset_in_bits = right_data.offset;

    if (left_data.null_bit_buffer.is_some() && left_offset_in_bits % 8 != 0)
        || (right_data.null_bit_buffer.is_some() && right_offset_in_bits % 8 != 0) {
        return Err(ArrowError::ComputeError);
    }
    let left_offset = left_offset_in_bits / 8;
    let right_offset = right_offset_in_bits / 8;

    match (&left_data.null_bit_buffer, &right_data.null_bit_buffer) {
        (None, None) => Ok(None),
        (None, Some(rb)) => Ok(Some(slice_buffer(rb, right_offset))),
        (Some(lb), None) => Ok(Some(slice_buffer(lb, left_offset))),
        (Some(lb), Some(rb)) => {
            let len = ceil(len_in_bits, 8);
            let combined = if use_and {
                buffer_bin_and(lb, left_offset, rb, right_offset, len)
            } else {
                buffer_bin_or(lb, left_offset, rb, right_offset, len)
            };
            proof {
                assert(combined@ =~= combined_bytes(
                    lb@,
                    left_offset as int,
                    rb@,
                    right_offset as int,
                    len as int,
                    use_and,
                ));
            }
            Ok(Some(combined))
        },
    }
}

/// Law: when neither input has a bitmap, combining and comparing both yield
/// no bitmap.
pub proof fn lemma_no_bitmaps_no_result(left_data: ArrayData, right_data: ArrayData, len_in_bits: int)
    requires
        left_data.null_bit_buffer is None,
        right_data.null_bit_buffer is None,
    ensures
        bin_op_bitmap(left_data, right_data, len_in_bits, true) == Ok::<
            Option<Seq<u8>>,
            ArrowError,
        >(None),
        bin_op_bitmap(left_data, right_data, len_in_bits, false) == Ok::<
            Option<Seq<u8>>,
            ArrowError,
        >(None),
{
}

/// Law: when exactly one input has a bitmap, combining and comparing agree,
/// and both yield that bitmap byte-sliced at its byte offset.
pub proof fn lemma_single_bitmap_sliced(left_data: ArrayData, right_data: ArrayData, len_in_bits: int)
    requires
        bitmap_is_aligned(left_data),
        bitmap_is_aligned(right_data),
        (left_data.null_bit_buffer is Some) != (right_data.null_bit_buffer is Some),
    ensures
        bin_op_bitmap(left_data, right_data, len_in_bits, true) == bin_op_bitmap(
            left_data,
            right_data,
            len_in_bits,
            false,
        ),
        left_data.null_bit_buffer matches Some(lb) ==> bin_op_bitmap(
            left_data,
            right_data,
            len_in_bits,
            true,
        ) == Ok::<Option<Seq<u8>>, ArrowError>(Some(lb@.skip(left_data.offset as int / 8))),
        right_data.null_bit_buffer matches Some(rb) ==> bin_op_bitmap(
            left_data,
            right_data,
            len_in_bits,
            true,
        ) == Ok::<Option<Seq<u8>>, ArrowError>(Some(rb@.skip(right_data.offset as int / 8))),
{
}

/// Law: when both inputs have bitmaps, combining yields their bytewise AND
/// and comparing their bytewise OR, over `ceil(len_in_bits / 8)` bytes,
/// after each is byte-sliced at its own offset.
pub proof fn lemma_both_bitmaps_combined(left_data: ArrayData, right_data: ArrayData, len_in_bits: int)
    requires
        bitmap_is_aligned(left_data),
        bitmap_is_aligned(right_data),
        left_data.null_bit_buffer is Some,
        right_data.null_bit_buffer is Some,
    ensures
        bin_op_bitmap(left_data, right_data, len_in_bits, true) == Ok::<
            Option<Seq<u8>>,
            ArrowError,
        >(
            Some(
                combined_bytes(
                    left_data.null_bit_buffer->Some_0@,
                    left_data.offset as int / 8,
                    right_data.null_bit_buffer->Some_0@,
                    right_data.offset as int / 8,
                    ceil_div(len_in_bits, 8),
                    true,
                ),
            ),
        ),
        bin_op_bitmap(left_data, right_data, len_in_bits, false) == Ok::<
            Option<Seq<u8>>,
            ArrowError,
        >(
            Some(
                combined_bytes(
                    left_data.null_bit_buffer->Some_0@,
                    left_data.offset as int / 8,
                    right_data.null_bit_buffer->Some_0@,
                    right_data.offset as int / 8,
                    ceil_div(len_in_bits, 8),
                    false,
                ),
            ),
        ),
{
}

} // verus!

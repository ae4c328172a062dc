//! Per-lane validity masks for fixed-width lane groups, and lane-group
//! loads that substitute a fill value into invalid lanes.

use vstd::prelude::*;

use crate::bit_util::nth_bit;
use crate::bitmap::Bitmap;
use crate::primitive_array::PrimitiveArray;

verus! {

/// Whether the lane at logical position `pos` is valid: it must lie inside
/// the array's logical length, and, when a bitmap is given, its bit must be
/// set. Lanes past the logical length are always invalid — they are padding
/// and their bitmap bits, if any, carry no meaning.
pub open spec fn lane_valid(bitmap: Option<Bitmap>, pos: int, array_len: int) -> bool {
    &&& pos < array_len
    &&& (bitmap matches Some(b) ==> nth_bit(b.bits@, pos))
}

/// The inputs a mask computation needs: the lane group must start inside
/// the array, its end position must be representable, and the bitmap, when
/// present, must have a bit for every position the mask reads (those before
/// both the logical length and the end of the group).
pub open spec fn mask_pre(bitmap: Option<Bitmap>, i: int, simd_width: int, array_len: int) -> bool {
    &&& i + simd_width <= usize::MAX
    &&& i <= array_len
    &&& (bitmap matches Some(b) ==> (if array_len < i + simd_width {
        array_len
    } else {
        i + simd_width
    }) <= 8 * b.bits@.len())
}

/// Law: a lane at or past the array's logical length is invalid, whatever
/// the bitmap holds there.
pub proof fn lemma_lane_past_length_invalid(bitmap: Option<Bitmap>, pos: int, array_len: int)
    requires
        pos >= array_len,
    ensures
        !lane_valid(bitmap, pos, array_len),
{
}

/// Builds the validity mask for the width-`simd_width` lane group starting
/// at logical position `i` of an array of logical length `array_len`: lane
/// `j` is valid iff position `i + j` lies inside the array and, when a
/// bitmap is given, has its bit set.
///
/// All lanes start valid; lanes whose bitmap bit is unset are cleared, up
/// to the logical length; then every lane at or past the logical length is
/// cleared, whatever the bitmap holds there.
pub fn is_valid(bitmap: &Option<Bitmap>, i: usize, simd_width: usize, array_len: usize) -> (mask:
    Vec<bool>)
    requires
        mask_pre(*bitmap, i as int, simd_width as int, array_len as int),
    ensures
        mask@.len() == simd_width,
        forall|j: int|
            0 <= j < simd_width ==> mask@[j] == lane_valid(*bitmap, i + j, array_len as int),
{
    let simd_upper_bound = i + simd_width;
    let mut validity: Vec<bool> = Vec::new();
    while validity.len() < simd_width
        invariant
            validity@.len() <= simd_width,
            forall|j: int| 0 <= j < validity@.len() ==> validity@[j],
        decreases simd_width - validity@.len(),
    {
        validity.push(true);
    }

    // Validity based on the bitmap
    match bitmap {
        Some(b) => {
            let upper = if array_len < simd_upper_bound {
                array_len
            } else {
                simd_upper_bound
            };
            let mut j = i;
            while j < upper
                invariant
                    i <= j <= upper,
                    upper <= simd_upper_bound,
                    simd_upper_bound == i + simd_width,
                    upper == if array_len < simd_upper_bound {
                        array_len
                    } else {
                        simd_upper_bound
                    },
                    upper <= 8 * b.bits@.len(),
                    validity@.len() == simd_width,
                    forall|l: int|
                        0 <= l < j - i ==> validity@[l] == nth_bit(b.bits@, i + l),
                    forall|l: int| j - i <= l < simd_width ==> validity@[l],
                decreases upper - j,
            {
                if !b.is_set(j) {
                    validity.set(j - i, false);
                }
                j = j + 1;
            }
        },
        None => {},
    }

    // Validity based on the length of the array
    let mut j = array_len;
    while j < simd_upper_bound
        invariant
            array_len <= j,
            j <= simd_upper_bound || j == array_len,
            i <= array_len,
            simd_upper_bound == i + simd_width,
            validity@.len() == simd_width,
            mask_pre(*bitmap, i as int, simd_width as int, array_len as int),
            forall|l: int|
                0 <= l < simd_width && i + l < j ==> validity@[l] == lane_valid(
                    *bitmap,
                    i + l,
                    array_len as int,
                ),
            forall|l: int|
                0 <= l < simd_width && i + l >= j && i + l >= array_len ==> validity@[l],
        decreases simd_upper_bound - j,
    {
        validity.set(j - i, false);
        j = j + 1;
    }
    validity
}

/// Loads the width-`simd_width` lane group starting at position `i` from
/// the array's backing buffer, then replaces every lane that is invalid —
/// by the supplied bitmap (typically the output bitmap of a binary
/// operation, not the array's own) or by lying past the array's logical
/// length — with `fill_value`.
///
/// The caller guarantees the group lies within the backing buffer; arrays
/// built by [`PrimitiveArray::from_options`] are padded so that any group
/// starting inside the array qualifies.
pub fn simd_load_set_invalid<T: Copy>(
    array: &PrimitiveArray<T>,
    bitmap: &Option<Bitmap>,
    i: usize,
    simd_width: usize,
    fill_value: T,
) -> (r: Vec<T>)
    requires
        mask_pre(*bitmap, i as int, simd_width as int, array.length as int),
        i + simd_width <= array.values@.len(),
    ensures
        r@.len() == simd_width,
        forall|j: int|
            0 <= j < simd_width ==> r@[j] == (if lane_valid(*bitmap, i + j, array.length as int) {
                array.values@[i + j]
            } else {
                fill_value
            }),
{
    let mask = is_valid(bitmap, i, simd_width, array.len());
    let mut out: Vec<T> = Vec::new();
    let mut j: usize = 0;
    while j < simd_width
        invariant
            j <= simd_width,
            i + simd_width <= array.values@.len(),
            mask@.len() == simd_width,
            forall|l: int|
                0 <= l < simd_width ==> mask@[l] == lane_valid(*bitmap, i + l, array.length as int),
            out@.len() == j,
            forall|l: int|
                0 <= l < j ==> out@[l] == (if lane_valid(*bitmap, i + l, array.length as int) {
                    array.values@[i + l]
                } else {
                    fill_value
                }),
        decreases simd_width - j,
    {
        if mask[j] {
            out.push(array.values[i + j]);
        } else {
            out.push(fill_value);
        }
        j = j + 1;
    }
    out
}

} // verus!

//! A numeric array with a padded backing buffer, so that fixed-width lane
//! groups can always be loaded whole.

use vstd::prelude::*;

use crate::bit_util::nth_bit;
use crate::bitmap::Bitmap;

verus! {

/// The widest lane group a load may ask for. The backing buffer always
/// holds at least this many slots past the logical length, so a lane group
/// starting anywhere inside the array stays within the buffer.
pub const MAX_LANE_COUNT: usize = 64;

/// An array of native numeric values: a backing buffer padded past the
/// logical length, the logical length itself, and the optional validity
/// bitmap.
#[derive(Debug)]
pub struct PrimitiveArray<T> {
    pub values: Vec<T>,
    pub length: usize,
    pub validity: Option<Bitmap>,
}

impl<T: Copy> PrimitiveArray<T> {
    /// The capacity invariant every constructed array satisfies: the buffer
    /// extends at least `MAX_LANE_COUNT` slots past the logical length, and
    /// the bitmap, when present, has a bit for every slot.
    pub open spec fn wf(self) -> bool {
        &&& self.length + MAX_LANE_COUNT <= self.values@.len()
        &&& (self.validity matches Some(b) ==> self.length <= 8 * b.bits@.len())
    }

    /// Builds an array from nullable values: slot `k` holds `options[k]`'s
    /// value, or `null_value` where it is null; the validity bitmap marks
    /// exactly the non-null slots; the padding holds `null_value`.
    pub fn from_options(options: Vec<Option<T>>, null_value: T) -> (a: PrimitiveArray<T>)
        requires
            options@.len() + MAX_LANE_COUNT <= usize::MAX,
        ensures
            a.wf(),
            a.length == options@.len(),
            a.values@.len() == options@.len() + MAX_LANE_COUNT,
            forall|j: int|
                0 <= j < options@.len() ==> a.values@[j] == match options@[j] {
                    Some(v) => v,
                    None => null_value,
                },
            forall|j: int|
                options@.len() <= j < a.values@.len() ==> a.values@[j] == null_value,
            a.validity is Some,
            forall|k: int|
                0 <= k < options@.len() ==> nth_bit(a.validity->Some_0.bits@, k) == (
                options@[k] is Some),
    {
        let length = options.len();
        let mut values: Vec<T> = Vec::new();
        let mut flags: Vec<bool> = Vec::new();
        let mut k: usize = 0;
        while k < length
            invariant
                k <= length,
                length == options@.len(),
                values@.len() == k,
                flags@.len() == k,
                forall|j: int|
                    0 <= j < k ==> values@[j] == match options@[j] {
                        Some(v) => v,
                        None => null_value,
                    },
                forall|j: int| 0 <= j < k ==> flags@[j] == (options@[j] is Some),
            decreases length - k,
        {
            match options[k] {
                Some(v) => {
                    values.push(v);
                    flags.push(true);
                },
                None => {
                    values.push(null_value);
                    flags.push(false);
                },
            }
            k = k + 1;
        }
        let mut pad: usize = 0;
        while pad < MAX_LANE_COUNT
            invariant
                pad <= MAX_LANE_COUNT,
                length + MAX_LANE_COUNT <= usize::MAX,
                values@.len() == length + pad,
                forall|j: int|
                    0 <= j < length ==> values@[j] == match options@[j] {
                        Some(v) => v,
                        None => null_value,
                    },
                forall|j: int| length <= j < values@.len() ==> values@[j] == null_value,
            decreases MAX_LANE_COUNT - pad,
        {
            values.push(null_value);
            pad = pad + 1;
        }
        let validity = Bitmap::from_flags(&flags);
        proof {
            assert(length <= 8 * validity.bits@.len());
            assert forall|k: int| 0 <= k < options@.len() implies nth_bit(validity.bits@, k) == (
            options@[k] is Some) by {
                assert(nth_bit(validity.bits@, k) == flags@[k]);
            }
        }
        PrimitiveArray { values, length, validity: Some(validity) }
    }

    /// The array's logical length in slots.
    pub fn len(&self) -> (r: usize)
        ensures
            r == self.length,
    {
        self.length
    }

    /// The array's own validity bitmap, if it has one.
    pub fn null_bitmap(&self) -> (r: &Option<Bitmap>)
        ensures
            r == &self.validity,
    {
        &self.validity
    }
}

} // verus!

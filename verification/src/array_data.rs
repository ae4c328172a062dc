//! A read-only description of an array: its logical length, the logical
//! offset of its first slot, and its optional validity bitmap buffer.

use vstd::prelude::*;

verus! {

/// What the bitmap kernels read of an array: the length in slots, the offset
/// of slot 0 in bits from the start of the underlying buffers, and the raw
/// bytes of the validity bitmap, if the array has one. An absent bitmap means
/// every slot is valid.
#[derive(Debug)]
pub struct ArrayData {
    pub len: usize,
    pub offset: usize,
    pub null_bit_buffer: Option<Vec<u8>>,
}

impl ArrayData {
    /// Builds the description from its parts.
    pub fn new(len: usize, offset: usize, null_bit_buffer: Option<Vec<u8>>) -> (d: ArrayData)
        ensures
            d.len == len,
            d.offset == offset,
            match (d.null_bit_buffer, null_bit_buffer) {
                (Some(db), Some(b)) => db@ == b@,
                (None, None) => true,
                _ => false,
            },
    {
        ArrayData { len, offset, null_bit_buffer }
    }
}

} // verus!

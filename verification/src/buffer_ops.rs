//! Byte-buffer primitives the bitmap combiner is built on: slicing off a
//! byte prefix, and combining two buffers bytewise with AND or OR.

use vstd::prelude::*;

verus! {

/// Copies `buffer` from byte `offset` on, dropping the leading bytes.
pub fn slice_buffer(buffer: &Vec<u8>, offset: usize) -> (r: Vec<u8>)
    requires
        offset <= buffer@.len(),
    ensures
        r@ == buffer@.skip(offset as int),
{
    let mut out: Vec<u8> = Vec::new();
    let mut i: usize = offset;
    while i < buffer.len()
        invariant
            offset <= i <= buffer@.len(),
            out@.len() == i - offset,
            forall|j: int| 0 <= j < out@.len() ==> out@[j] == buffer@[offset + j],
        decreases buffer@.len() - i,
    {
        out.push(buffer[i]);
        i = i + 1;
    }
    proof {
        assert(out@ =~= buffer@.skip(offset as int));
    }
    out
}

/// The bitwise AND of `len` bytes of `left` from `left_offset` with `len`
/// bytes of `right` from `right_offset`.
pub fn buffer_bin_and(
    left: &Vec<u8>,
    left_offset: usize,
    right: &Vec<u8>,
    right_offset: usize,
    len: usize,
) -> (r: Vec<u8>)
    requires
        left_offset + len <= left@.len(),
        right_offset + len <= right@.len(),
    ensures
        r@.len() == len,
        forall|i: int|
            0 <= i < len ==> r@[i] == (left@[left_offset + i] & right@[right_offset + i]),
{
    let left_len = left.len();
    let right_len = right.len();
    let mut out: Vec<u8> = Vec::new();
    let mut i: usize = 0;
    while i < len
        invariant
            i <= len,
            left_len == left@.len(),
            right_len == right@.len(),
            left_offset + len <= left_len,
            right_offset + len <= right_len,
            out@.len() == i,
            forall|j: int|
                0 <= j < i ==> out@[j] == (left@[left_offset + j] & right@[right_offset + j]),
        decreases len - i,
    {
        out.push(left[left_offset + i] & right[right_offset + i]);
        i = i + 1;
    }
    out
}

/// The bitwise OR of `len` bytes of `left` from `left_offset` with `len`
/// bytes of `right` from `right_offset`.
pub fn buffer_bin_or(
    left: &Vec<u8>,
    left_offset: usize,
    right: &Vec<u8>,
    right_offset: usize,
    len: usize,
) -> (r: Vec<u8>)
    requires
        left_offset + len <= left@.len(),
        right_offset + len <= right@.len(),
    ensures
        r@.len() == len,
        forall|i: int|
            0 <= i < len ==> r@[i] == (left@[left_offset + i] | right@[right_offset + i]),
{
    let left_len = left.len();
    let right_len = right.len();
    let mut out: Vec<u8> = Vec::new();
    let mut i: usize = 0;
    while i < len
        invariant
            i <= len,
            left_len == left@.len(),
            right_len == right@.len(),
            left_offset + len <= left_len,
            right_offset + len <= right_len,
            out@.len() == i,
            forall|j: int|
                0 <= j < i ==> out@[j] == (left@[left_offset + j] | right@[right_offset + j]),
        decreases len - i,
    {
        out.push(left[left_offset + i] | right[right_offset + i]);
        i = i + 1;
    }
    out
}

} // verus!

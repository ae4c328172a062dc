//! Bit-level helpers: ceiling division, reading a bit out of a packed byte
//! sequence, and the facts about single-bit updates that the bitmap builder
//! needs.

use vstd::prelude::*;

verus! {

/// Ceiling division of `value` by `divisor`.
pub open spec fn ceil_div(value: int, divisor: int) -> int
    recommends
        divisor > 0,
{
    value / divisor + if value % divisor == 0 {
        0int
    } else {
        1int
    }
}

/// Bit `i` of the packed byte sequence `bytes`, where bit `i` lives in byte
/// `i / 8` at position `i % 8` (least significant bit first).
pub open spec fn nth_bit(bytes: Seq<u8>, i: int) -> bool
    recommends
        0 <= i < 8 * bytes.len(),
{
    (bytes[i / 8] >> ((i % 8) as u8)) & 1u8 == 1u8
}

/// Returns the number of `divisor`-sized chunks needed to hold `value` items.
pub fn ceil(value: usize, divisor: usize) -> (r: usize)
    requires
        divisor > 0,
    ensures
        r == ceil_div(value as int, divisor as int),
{
    let mut result: usize = value / divisor;
    if value % divisor != 0 {
        proof {
            assert(value / divisor < value) by (nonlinear_arith)
                requires
                    divisor > 0,
                    value % divisor != 0,
            ;
        }
        result = result + 1;
    }
    result
}

/// Setting bit `j` of a byte makes that bit 1 and leaves every other bit as
/// it was.
pub proof fn lemma_set_bit_in_byte(b: u8, j: u8, k: u8)
    by (bit_vector)
    requires
        j < 8,
        k < 8,
    ensures
        ((b | (1u8 << j)) >> j) & 1u8 == 1u8,
        j != k ==> ((b | (1u8 << j)) >> k) & 1u8 == (b >> k) & 1u8,
{
}

/// Every bit of a zero byte is 0.
pub proof fn lemma_zero_byte_bits()
    by (bit_vector)
    ensures
        forall|j: u8| j < 8 ==> #[trigger] ((0u8 >> j) & 1u8) == 0u8,
{
}

} // verus!

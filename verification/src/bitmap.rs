//! A packed validity bitmap: bit `i` (1 = valid, not null) describes logical
//! slot `i` of an array.

use vstd::prelude::*;

use crate::bit_util::{ceil, ceil_div, lemma_set_bit_in_byte, lemma_zero_byte_bits, nth_bit};

verus! {

/// A packed, byte-addressable bit sequence. Bit `i` lives in byte `i / 8` at
/// position `i % 8`, least significant bit first.
#[derive(Debug)]
pub struct Bitmap {
    pub bits: Vec<u8>,
}

impl Bitmap {
    /// Wraps a byte buffer as a bitmap.
    pub fn new(bits: Vec<u8>) -> (bm: Bitmap)
        ensures
            bm.bits@ == bits@,
    {
        Bitmap { bits }
    }

    /// Whether bit `i` is set.
    pub fn is_set(&self, i: usize) -> (r: bool)
        requires
            i / 8 < self.bits@.len(),
        ensures
            r == nth_bit(self.bits@, i as int),
    {
        (self.bits[i / 8] >> ((i % 8) as u8)) & 1u8 == 1u8
    }

    /// Packs a sequence of per-slot validity flags into a bitmap: bit `k` is
    /// set iff `flags[k]` is true, and the padding bits of the last byte stay
    /// unset.
    pub fn from_flags(flags: &Vec<bool>) -> (bm: Bitmap)
        ensures
            bm.bits@.len() == ceil_div(flags@.len() as int, 8),
            forall|k: int| 0 <= k < flags@.len() ==> nth_bit(bm.bits@, k) == flags@[k],
            forall|k: int| flags@.len() <= k < 8 * bm.bits@.len() ==> !nth_bit(bm.bits@, k),
    {
        let num_bytes = ceil(flags.len(), 8);
        let mut bits: Vec<u8> = Vec::new();
        while bits.len() < num_bytes
            invariant
                bits@.len() <= num_bytes,
                forall|b: int| 0 <= b < bits@.len() ==> bits@[b] == 0u8,
            decreases num_bytes - bits@.len(),
        {
            bits.push(0u8);
        }
        proof {
            lemma_zero_byte_bits();
            assert forall|p: int| 0 <= p < 8 * bits@.len() implies !nth_bit(bits@, p) by {
                assert(bits@[p / 8] == 0u8);
                assert(((p % 8) as u8) < 8);
            }
        }
        let mut k: usize = 0;
        while k < flags.len()
            invariant
                k <= flags@.len(),
                bits@.len() == num_bytes,
                num_bytes == ceil_div(flags@.len() as int, 8),
                flags@.len() <= 8 * num_bytes,
                forall|p: int| 0 <= p < k ==> nth_bit(bits@, p) == flags@[p],
                forall|p: int| k <= p < 8 * num_bytes ==> !nth_bit(bits@, p),
            decreases flags@.len() - k,
        {
            if flags[k] {
                let byte_i = k / 8;
                let bit_j = (k % 8) as u8;
                let old_byte = bits[byte_i];
                let ghost prev = bits@;
                bits.set(byte_i, old_byte | (1u8 << bit_j));
                proof {
                    lemma_set_bit_in_byte(old_byte, bit_j, bit_j);
                    assert(nth_bit(bits@, k as int));
                    assert forall|p: int|
                        0 <= p < 8 * num_bytes && p != k implies nth_bit(bits@, p) == nth_bit(
                        prev,
                        p,
                    ) by {
                        if p / 8 == k as int / 8 {
                            assert(p % 8 != k as int % 8);
                            lemma_set_bit_in_byte(old_byte, bit_j, (p % 8) as u8);
                        } else {
                            assert(bits@[p / 8] == prev[p / 8]);
                        }
                    }
                    assert forall|p: int| k + 1 <= p < 8 * num_bytes implies !nth_bit(
                        bits@,
                        p,
                    ) by {
                        assert(nth_bit(bits@, p) == nth_bit(prev, p));
                        assert(!nth_bit(prev, p));
                    }
                }
            }
            k = k + 1;
        }
        Bitmap { bits }
    }
}

} // verus!

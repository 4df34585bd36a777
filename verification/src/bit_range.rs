//! Bit-level extraction from a byte buffer.
//!
//! The SWF format packs integers at arbitrary, non-byte-aligned bit
//! positions. A buffer is viewed as one continuous bit sequence, the most
//! significant bit of each byte coming first; a range of bit indices is
//! decoded as an unsigned integer, the first bit of the range landing in
//! the most significant position of the result.

use vstd::prelude::*;
use vstd::arithmetic::power2::{pow2, lemma2_to64, lemma_pow2_unfold, lemma_pow2_strictly_increases};
use vstd::arithmetic::div_mod::{lemma_div_is_ordered, lemma_div_plus_one};
use std::ops::Range;

verus! {

/// The bit of `byte` at position `k` counted from the most significant
/// bit, as 0 or 1.
pub open spec fn spec_bit_of_byte(byte: u8, k: int) -> u32
    recommends
        0 <= k < 8,
{
    ((byte as u32) >> ((7 - k) as u32)) & 1
}

/// Bit `i` of a byte buffer viewed as one continuous bit sequence: bit
/// `i` lives in byte `i / 8`, `i % 8` positions below that byte's most
/// significant bit.
pub open spec fn spec_bit(bytes: Seq<u8>, i: int) -> u32
    recommends
        0 <= i,
        i / 8 < bytes.len(),
{
    spec_bit_of_byte(bytes[i / 8], i % 8)
}

/// The unsigned value of bits `start .. end` of the buffer, the bit at
/// `start` being the most significant of the result.
pub open spec fn bits_val(bytes: Seq<u8>, start: int, end: int) -> nat
    decreases end - start,
{
    if end <= start {
        0
    } else {
        bits_val(bytes, start, end - 1) * 2 + spec_bit(bytes, end - 1) as nat
    }
}

proof fn lemma_shift_and_one_le_one(b: u32, k: u32)
    by (bit_vector)
    ensures
        (b >> k) & 1 <= 1,
{
}

/// A single bit of the buffer is 0 or 1.
proof fn lemma_spec_bit_le_one(bytes: Seq<u8>, i: int)
    ensures
        spec_bit(bytes, i) <= 1,
{
    lemma_shift_and_one_le_one(bytes[i / 8] as u32, (7 - i % 8) as u32);
}

/// The value of a bit range is below two to the width of the range.
pub proof fn lemma_bits_val_bound(bytes: Seq<u8>, start: int, end: int)
    requires
        start <= end,
    ensures
        bits_val(bytes, start, end) < pow2((end - start) as nat),
    decreases end - start,
{
    if end <= start {
        assert(pow2(0) == 1) by {
            lemma2_to64();
        }
    } else {
        lemma_bits_val_bound(bytes, start, end - 1);
        lemma_spec_bit_le_one(bytes, end - 1);
        lemma_pow2_unfold((end - start) as nat);
    }
}

/// A bit range only looks at the bytes that hold its bits: truncating
/// the buffer anywhere past the last such byte leaves the value as it is.
pub proof fn lemma_bits_val_take(bytes: Seq<u8>, len: int, start: int, end: int)
    requires
        0 <= start,
        end <= len * 8,
        len <= bytes.len(),
    ensures
        bits_val(bytes.take(len), start, end) == bits_val(bytes, start, end),
    decreases end - start,
{
    if end > start {
        lemma_bits_val_take(bytes, len, start, end - 1);
        assert((end - 1) / 8 < len) by {
            lemma_div_is_ordered(end - 1, len * 8 - 1, 8);
            assert((len * 8 - 1) / 8 == len - 1) by (nonlinear_arith);
        }
        assert(spec_bit(bytes.take(len), end - 1) == spec_bit(bytes, end - 1));
    }
}

/// Reading a range of bits out of a container of bytes as a `u32`.
///
/// The SWF specification employs bit fields a lot: non-byte-aligned
/// numbers packed back to back. This trait is publicly exported so that a
/// caller continuing to parse the file does not have to reimplement the
/// extraction.
pub trait BitRange {
    /// The bytes the container holds, as a sequence.
    spec fn byte_seq(&self) -> Seq<u8>;

    /// Takes a range of bit indices and converts the bits in that range
    /// into a `u32`, the first bit of the range becoming the most
    /// significant bit of the result.
    ///
    /// The range must be under 32 bits wide and must lie entirely within
    /// the buffer.
    fn get_bit_range(&self, range: Range<u32>) -> (r: u32)
        requires
            range.start <= range.end,
            range.end - range.start < 32,
            (range.end + 7) / 8 <= self.byte_seq().len(),
        ensures
            r as nat == bits_val(self.byte_seq(), range.start as int, range.end as int),
            (r as nat) < pow2((range.end - range.start) as nat),
        ;
}

impl BitRange for Vec<u8> {
    open spec fn byte_seq(&self) -> Seq<u8> {
        self@
    }

    fn get_bit_range(&self, range: Range<u32>) -> (r: u32) {
        let start_bit = range.start;
        let end_bit = range.end;

        let mut result: u32 = 0;
        let mut i = start_bit;
        proof {
            lemma2_to64();
        }
        while i < end_bit
            invariant
                start_bit <= i <= end_bit,
                end_bit - start_bit < 32,
                (end_bit + 7) / 8 <= self@.len(),
                result as nat == bits_val(self@, start_bit as int, i as int),
                (result as nat) < pow2((i - start_bit) as nat),
                pow2(30) == 0x4000_0000,
            decreases end_bit - i,
        {
            proof {
                assert((i as int) / 8 < self@.len()) by {
                    lemma_div_is_ordered(i as int, end_bit - 1, 8);
                    lemma_div_plus_one(end_bit - 1, 8);
                }
                if ((i - start_bit) as nat) < 30 {
                    lemma_pow2_strictly_increases((i - start_bit) as nat, 30);
                }
            }
            let b = get_x_bit(self, i);
            proof {
                lemma_pow2_unfold((i + 1 - start_bit) as nat);
            }
            result = result * 2 + b;
            i += 1;
        }
        result
    }
}

/// The single bit at index `bit` of the buffer, as 0 or 1.
pub fn get_x_bit(bytes: &Vec<u8>, bit: u32) -> (r: u32)
    requires
        (bit as int) / 8 < bytes@.len(),
    ensures
        r == spec_bit(bytes@, bit as int),
        r <= 1,
{
    proof {
        lemma_spec_bit_le_one(bytes@, bit as int);
    }
    let byte = bytes[(bit / 8) as usize] as u32;
    (byte >> (7 - bit % 8)) & 1
}

} // verus!

//! Mathematical model of the Fletcher-64 checksum.
//!
//! The executable routines in [`crate::engine`] are specified against the
//! functions defined here, which describe the checksum directly over
//! mathematical sequences and unbounded integers.

use vstd::prelude::*;
use vstd::utf8::encode_utf8;

verus! {

/// Number of elements accumulated between two modular reductions.
///
/// This is the largest block length for which the two 64-bit accumulators
/// cannot overflow while a block of 32-bit elements is folded in without
/// intermediate reductions.
pub const BLOCK_LEN: usize = 360;

/// The modulus applied to both accumulators at the end of every block.
pub const MODULUS: u64 = 0xffff_ffff;

/// Raw accumulation of the elements of `s`, starting from the pair
/// `(c0, c1)`: each element is added to the first sum, and the updated
/// first sum is added to the second. No reduction takes place.
pub open spec fn accumulate(c0: int, c1: int, s: Seq<u32>) -> (int, int)
    decreases s.len(),
{
    if s.len() == 0 {
        (c0, c1)
    } else {
        accumulate(c0 + s[0], c1 + c0 + s[0], s.drop_first())
    }
}

/// The accumulator pair after folding all of `s` into `(c0, c1)` block by
/// block: each block of up to [`BLOCK_LEN`] elements is accumulated raw,
/// then both sums are reduced modulo [`MODULUS`] before the next block
/// begins. The final (possibly partial) block is reduced as well; an empty
/// sequence forms no block and triggers no reduction.
pub open spec fn block_sums(c0: int, c1: int, s: Seq<u32>) -> (int, int)
    decreases s.len(),
{
    if s.len() == 0 {
        (c0, c1)
    } else {
        let k: int = if s.len() <= BLOCK_LEN { s.len() as int } else { BLOCK_LEN as int };
        let a = accumulate(c0, c1, s.take(k));
        block_sums(a.0 % (MODULUS as int), a.1 % (MODULUS as int), s.skip(k))
    }
}

/// The final accumulator pair of the checksum of `s`, starting from zero.
pub open spec fn checksum_sums(s: Seq<u32>) -> (int, int) {
    block_sums(0, 0, s)
}

/// The Fletcher-64 checksum of a sequence of 32-bit elements: the final
/// second-order sum in the high 32 bits, the final first-order sum in the
/// low 32 bits.
pub open spec fn checksum_value(s: Seq<u32>) -> int {
    checksum_sums(s).1 * 0x1_0000_0000 + checksum_sums(s).0
}

/// Each byte zero-extended to a 32-bit element, order preserved.
pub open spec fn widen(bytes: Seq<u8>) -> Seq<u32> {
    Seq::new(bytes.len(), |i: int| bytes[i] as u32)
}

/// The checksum of a byte sequence: each byte becomes one 32-bit element.
pub open spec fn bytes_checksum(bytes: Seq<u8>) -> int {
    checksum_value(widen(bytes))
}

/// The checksum of a text value: the text is taken as its UTF-8 code
/// units, each code unit becoming one 32-bit element. No character
/// decoding or normalization is involved beyond the fixed UTF-8 encoding.
pub open spec fn text_checksum(text: Seq<char>) -> int {
    bytes_checksum(encode_utf8(text))
}

} // verus!

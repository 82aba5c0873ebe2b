//! Proved laws of the checksum model.
//!
//! Each public lemma states one guarantee of the library over the
//! specification functions of [`crate::model`] that the contracts of
//! [`crate::engine`] are written in.

use vstd::prelude::*;
use vstd::utf8::encode_utf8;

use crate::model::accumulate;
use crate::model::block_sums;
use crate::model::bytes_checksum;
use crate::model::checksum_sums;
use crate::model::checksum_value;
use crate::model::text_checksum;
use crate::model::BLOCK_LEN;
use crate::model::MODULUS;

verus! {

/// The checksum is a function of the element sequence alone: any two
/// results computed for the same sequence are equal.
pub proof fn lemma_checksum_deterministic(elements: Seq<u32>, r1: u64, r2: u64)
    requires
        r1 as int == checksum_value(elements),
        r2 as int == checksum_value(elements),
    ensures
        r1 == r2,
{
}

/// The checksum of the empty element sequence is zero.
pub proof fn lemma_checksum_empty()
    ensures
        checksum_value(Seq::<u32>::empty()) == 0,
{
}

/// A text value and its UTF-8 bytes carry the same checksum: whenever the
/// byte input equals the text's UTF-8 encoding, results meeting the
/// contracts of the text and byte entry points agree.
pub proof fn lemma_text_matches_bytes(text: Seq<char>, bytes: Seq<u8>, r_text: u64, r_bytes: u64)
    requires
        bytes == encode_utf8(text),
        r_text as int == text_checksum(text),
        r_bytes as int == bytes_checksum(bytes),
    ensures
        r_text == r_bytes,
{
}

/// Both final sums are fully reduced: after the last block's reduction
/// each lies in the range `[0, MODULUS)`.
pub proof fn lemma_sums_reduced(elements: Seq<u32>)
    ensures
        0 <= checksum_sums(elements).0 < MODULUS,
        0 <= checksum_sums(elements).1 < MODULUS,
{
    lemma_block_sums_reduced(0, 0, elements);
}

proof fn lemma_block_sums_reduced(c0: int, c1: int, s: Seq<u32>)
    requires
        0 <= c0 < MODULUS,
        0 <= c1 < MODULUS,
    ensures
        0 <= block_sums(c0, c1, s).0 < MODULUS,
        0 <= block_sums(c0, c1, s).1 < MODULUS,
    decreases s.len(),
{
    if s.len() > 0 {
        let k: int = if s.len() <= BLOCK_LEN {
            s.len() as int
        } else {
            BLOCK_LEN as int
        };
        let a = accumulate(c0, c1, s.take(k));
        lemma_block_sums_reduced(a.0 % (MODULUS as int), a.1 % (MODULUS as int), s.skip(k));
    }
}

/// Folding a sequence of at most one block's length into `(c0, c1)`
/// performs exactly one reduction: one raw accumulation of the whole
/// input, then a single modular reduction of each sum.
proof fn lemma_one_block_from(c0: int, c1: int, s: Seq<u32>)
    requires
        1 <= s.len() <= BLOCK_LEN,
    ensures
        block_sums(c0, c1, s).0 == accumulate(c0, c1, s).0 % (MODULUS as int),
        block_sums(c0, c1, s).1 == accumulate(c0, c1, s).1 % (MODULUS as int),
{
    let m = MODULUS as int;
    let a = accumulate(c0, c1, s);
    assert(s.take(s.len() as int) =~= s);
    assert(s.skip(s.len() as int) =~= Seq::<u32>::empty());
    assert(block_sums(a.0 % m, a.1 % m, Seq::<u32>::empty()) == (a.0 % m, a.1 % m));
}

/// For input of at most one block (length 1 to BLOCK_LEN, the boundary
/// length included), the reduction step runs exactly once, after the last
/// element: the final sums are one raw accumulation of the whole input
/// followed by a single reduction.
pub proof fn lemma_single_block(elements: Seq<u32>)
    requires
        1 <= elements.len() <= BLOCK_LEN,
    ensures
        checksum_sums(elements).0 == accumulate(0, 0, elements).0 % (MODULUS as int),
        checksum_sums(elements).1 == accumulate(0, 0, elements).1 % (MODULUS as int),
{
    lemma_one_block_from(0, 0, elements);
}

/// For input longer than one block but at most two (length BLOCK_LEN + 1
/// to 2 * BLOCK_LEN), the reduction step runs exactly twice: once after
/// element BLOCK_LEN and once after the last element.
pub proof fn lemma_two_blocks(elements: Seq<u32>)
    requires
        BLOCK_LEN < elements.len() <= 2 * BLOCK_LEN,
    ensures
        ({
            let m = MODULUS as int;
            let first = accumulate(0, 0, elements.take(BLOCK_LEN as int));
            let second = accumulate(
                first.0 % m,
                first.1 % m,
                elements.skip(BLOCK_LEN as int),
            );
            checksum_sums(elements) == (second.0 % m, second.1 % m)
        }),
{
    let m = MODULUS as int;
    let first = accumulate(0, 0, elements.take(BLOCK_LEN as int));
    let rest = elements.skip(BLOCK_LEN as int);
    assert(checksum_sums(elements) == block_sums(first.0 % m, first.1 % m, rest));
    lemma_one_block_from(first.0 % m, first.1 % m, rest);
}

} // verus!

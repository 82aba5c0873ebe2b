//! Executable Fletcher-64 engine.
//!
//! The core routine [`fletcher_checksum`] processes a sequence of 32-bit
//! elements block by block; the two adapters feed it text and raw bytes.

use vstd::prelude::*;

use crate::model::accumulate;
use crate::model::block_sums;
use crate::model::bytes_checksum;
use crate::model::checksum_sums;
use crate::model::checksum_value;
use crate::model::text_checksum;
use crate::model::widen;
use crate::model::BLOCK_LEN;
use crate::model::MODULUS;

verus! {

/// Computes the Fletcher-64 checksum of the given 32-bit elements.
///
/// The result packs the final reduced second-order sum into its high
/// 32 bits and the final reduced first-order sum into its low 32 bits.
pub fn fletcher_checksum(data: &Vec<u32>) -> (r: u64)
    ensures
        r as int == checksum_value(data@),
        (r & 0xffff_ffff) as int == checksum_sums(data@).0,
        (r >> 32) as int == checksum_sums(data@).1,
{
    let mut c0: u64 = 0;
    let mut c1: u64 = 0;
    let mut start: usize = 0;

    proof {
        assert(data@.skip(0) =~= data@);
    }
    while start < data.len()
        invariant
            start <= data.len(),
            c0 < MODULUS,
            c1 < MODULUS,
            block_sums(c0 as int, c1 as int, data@.skip(start as int)) == checksum_sums(data@),
        decreases data.len() - start,
    {
        // The current block: BLOCK_LEN elements, or whatever remains.
        let block_len: usize = if data.len() - start >= BLOCK_LEN {
            BLOCK_LEN
        } else {
            data.len() - start
        };
        let end = start + block_len;
        let ghost entry0: int = c0 as int;
        let ghost entry1: int = c1 as int;

        let mut i = start;
        while i < end
            invariant
                start <= i <= end <= data@.len(),
                end - start <= BLOCK_LEN,
                0 <= entry0 < MODULUS,
                0 <= entry1 < MODULUS,
                c0 as int == accumulate(entry0, entry1, data@.subrange(start as int, i as int)).0,
                c1 as int == accumulate(entry0, entry1, data@.subrange(start as int, i as int)).1,
                // Growth caps: each element adds at most 0xffff_ffff to c0,
                // and at most the largest possible c0 to c1, so neither sum
                // can overflow 64 bits within a 360-element block.
                c0 as int <= entry0 + (i - start) * 0xffff_ffff,
                c1 as int <= entry1 + (i - start) * (0xffff_fffe + 360 * 0xffff_ffff),
            decreases end - i,
        {
            proof {
                let k: int = i - start;
                lemma_accumulate_push(
                    entry0,
                    entry1,
                    data@.subrange(start as int, i as int),
                    data@[i as int],
                );
                assert(data@.subrange(start as int, i + 1) =~= data@
                    .subrange(start as int, i as int)
                    .push(data@[i as int]));
                assert(k + 1 <= BLOCK_LEN);
                assert(c0 + data@[i as int] <= entry0 + (k + 1) * 0xffff_ffff);
                assert((k + 1) * 0xffff_ffff <= 360 * 0xffff_ffff) by (nonlinear_arith)
                    requires
                        k + 1 <= 360,
                ;
                assert(c1 + (c0 + data@[i as int]) <= entry1 + (k + 1) * (0xffff_fffe + 360
                    * 0xffff_ffff)) by (nonlinear_arith)
                    requires
                        c1 <= entry1 + k * (0xffff_fffe + 360 * 0xffff_ffff),
                        c0 + data@[i as int] <= 0xffff_fffe + 360 * 0xffff_ffff,
                        0 <= k,
                ;
                assert(entry1 + (k + 1) * (0xffff_fffe + 360 * 0xffff_ffff) <= 0xffff_fffe + 360 * (
                0xffff_fffe + 360 * 0xffff_ffff)) by (nonlinear_arith)
                    requires
                        entry1 <= 0xffff_fffe,
                        k + 1 <= 360,
                        0 <= k,
                ;
            }
            c0 = c0 + data[i] as u64;
            c1 = c1 + c0;
            i = i + 1;
        }

        c0 = c0 % MODULUS;
        c1 = c1 % MODULUS;

        proof {
            let rest = data@.skip(start as int);
            assert(rest.take(block_len as int) =~= data@.subrange(start as int, end as int));
            assert(rest.skip(block_len as int) =~= data@.skip(end as int));
        }
        start = end;
    }

    proof {
        assert(data@.skip(start as int) =~= Seq::<u32>::empty());
    }
    let ghost lo = c0;
    let ghost hi = c1;
    let r = (c1 << 32u64) | c0;
    proof {
        assert((hi << 32u64) | lo == hi * 0x1_0000_0000 + lo) by (bit_vector)
            requires
                lo < 0x1_0000_0000u64,
                hi < 0x1_0000_0000u64,
        ;
        assert(((hi << 32u64) | lo) & 0xffff_ffff == lo) by (bit_vector)
            requires
                lo < 0x1_0000_0000u64,
        ;
        assert(((hi << 32u64) | lo) >> 32 == hi) by (bit_vector)
            requires
                lo < 0x1_0000_0000u64,
                hi < 0x1_0000_0000u64,
        ;
    }
    r
}

/// Appending one element to the accumulated sequence adds it to the first
/// sum and adds the updated first sum to the second.
proof fn lemma_accumulate_push(c0: int, c1: int, s: Seq<u32>, x: u32)
    ensures
        accumulate(c0, c1, s.push(x)).0 == accumulate(c0, c1, s).0 + x,
        accumulate(c0, c1, s.push(x)).1 == accumulate(c0, c1, s).1 + accumulate(c0, c1, s).0 + x,
    decreases s.len(),
{
    if s.len() == 0 {
        assert(s.push(x)[0] == x);
        assert(s.push(x).drop_first() =~= Seq::<u32>::empty());
        assert(accumulate(c0, c1, s.push(x)) == accumulate(
            c0 + x,
            c1 + c0 + x,
            s.push(x).drop_first(),
        ));
        assert(accumulate(c0 + x, c1 + c0 + x, Seq::<u32>::empty()) == (c0 + x, c1 + c0 + x));
    } else {
        assert(s.push(x)[0] == s[0]);
        assert(s.push(x).drop_first() =~= s.drop_first().push(x));
        assert(accumulate(c0, c1, s.push(x)) == accumulate(
            c0 + s[0],
            c1 + c0 + s[0],
            s.drop_first().push(x),
        ));
        lemma_accumulate_push(c0 + s[0], c1 + c0 + s[0], s.drop_first(), x);
    }
}

/// Computes the Fletcher-64 checksum of a byte slice: each byte is
/// zero-extended to a 32-bit element, order preserved.
pub fn fletcher_checksum_bytes(data: &[u8]) -> (r: u64)
    ensures
        r as int == bytes_checksum(data@),
{
    let mut elements: Vec<u32> = Vec::new();
    let mut i: usize = 0;
    while i < data.len()
        invariant
            i <= data@.len(),
            elements@.len() == i,
            forall|j: int| 0 <= j < i ==> elements@[j] == data@[j] as u32,
        decreases data@.len() - i,
    {
        elements.push(data[i] as u32);
        i = i + 1;
    }
    assert(elements@ =~= widen(data@));
    fletcher_checksum(&elements)
}

/// Computes the Fletcher-64 checksum of a text value: the text's UTF-8
/// code units are taken as raw bytes, each zero-extended to a 32-bit
/// element.
pub fn fletcher_checksum_str(data: &str) -> (r: u64)
    ensures
        r as int == text_checksum(data@),
{
    fletcher_checksum_bytes(data.as_bytes())
}

} // verus!

//! The bit-scan kernel: lowest clear bit of a word, restricted to its low
//! `bits` positions, found by a tiered short-circuit search (low bits tend to
//! saturate first in a long-running pool).

use crate::bits::{all_set_below, bit_at, lemma_bit_mask_test, lemma_chunk_masks};
use crate::MemoryMapError;
use vstd::prelude::*;

verus! {

/// Scan the bits of `pattern` in positions `start..end` (low to high) and
/// return the first clear one.
fn scan_range(pattern: u64, start: usize, end: usize) -> (r: Option<usize>)
    requires
        end <= 64,
    ensures
        match r {
            Some(j) => start <= j < end && !bit_at(pattern, j as u64) && (forall|k: u64|
                start <= k < j ==> bit_at(pattern, k)),
            None => forall|k: u64| start <= k < end ==> bit_at(pattern, k),
        },
{
    let mut j = start;
    while j < end
        invariant
            start <= j,
            end <= 64,
            forall|k: u64| start <= k < j ==> bit_at(pattern, k),
        decreases end - j,
    {
        proof {
            lemma_bit_mask_test(pattern, j as u64);
        }
        if pattern & (1u64 << j) == 0 {
            return Some(j);
        }
        j = j + 1;
    }
    None
}

/// Position of the lowest clear bit among the low `bits` positions of
/// `pattern`, or `NoAvailableSlots` when they are all set.
pub fn get_first_zero_bit(pattern: u64, bits: usize) -> (r: Result<usize, MemoryMapError>)
    requires
        bits <= 64,
    ensures
        match r {
            Ok(j) => j < bits && !bit_at(pattern, j as u64) && all_set_below(pattern, j as u64),
            Err(e) => e == MemoryMapError::NoAvailableSlots && all_set_below(
                pattern,
                bits as u64,
            ),
        },
{
    proof {
        lemma_chunk_masks(pattern);
    }
    if bits < 33 {
        match scan_range(pattern, 0, bits) {
            Some(j) => {
                return Ok(j);
            },
            None => {},
        }
    } else if pattern & 0xffff_ffff == 0xffff_ffff {
        if pattern & 0xffff_0000_0000 == 0xffff_0000_0000 {
            match scan_range(pattern, 48, bits) {
                Some(j) => {
                    return Ok(j);
                },
                None => {},
            }
        } else {
            match scan_range(pattern, 32, if bits < 48 { bits } else { 48 }) {
                Some(j) => {
                    return Ok(j);
                },
                None => {
                    // The chunk of bits 32..48 is not saturated, so when the
                    // significant range covers it whole, the scan cannot miss.
                    assert(bits < 48);
                },
            }
        }
    } else if pattern & 0xffff == 0xffff {
        match scan_range(pattern, 16, 32) {
            Some(j) => {
                return Ok(j);
            },
            None => {
                assert(false);
            },
        }
    } else {
        match scan_range(pattern, 0, 16) {
            Some(j) => {
                return Ok(j);
            },
            None => {
                assert(false);
            },
        }
    }
    Err(MemoryMapError::NoAvailableSlots)
}

} // verus!

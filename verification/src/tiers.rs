//! The tiered bitmap itself: how a sequence of 64-bit words is read as a
//! two- or three-level bitmap, the parent/child consistency invariant, and
//! the allocation and deallocation walks over it.
//!
//! A map with top-tier width `tw` lays its words out as
//! `[top, mid_0 .. mid_{tw-1}, leaf_0 .. leaf_{tw*64-1}]` (three tiers) or
//! `[top, mid_0 .. mid_63]` (two tiers). A parent bit is set exactly when
//! the child word below it is entirely saturated.

use crate::bits::{
    all_set_below, bit_at, lemma_clear_bit, lemma_clear_bit_keeps_high, lemma_clear_clear_bit,
    lemma_set_bit, lemma_set_bit_keeps_high, lemma_word_full,
};
use crate::get_first_zero_bit::get_first_zero_bit;
use crate::MemoryMapError;
use vstd::arithmetic::div_mod::lemma_div_denominator;
use vstd::prelude::*;

verus! {

/// Bit `k` of the bit array formed by the words of `s` from `base` up,
/// 64 bits per word, low to high.
pub open spec fn flat_bit(s: Seq<u64>, base: int, k: int) -> bool {
    bit_at(s[base + k / 64], (k % 64) as u64)
}

/// The mid-tier word for top bit `i` is saturated.
pub open spec fn child_full(s: Seq<u64>, i: int) -> bool {
    s[1 + i] == u64::MAX
}

/// The leaf word of leaf group `g` (three tiers, top width `tw`) is saturated.
pub open spec fn leaf_full(s: Seq<u64>, tw: int, g: int) -> bool {
    s[1 + tw + g] == u64::MAX
}

/// Slot `idx` of a three-tier map with top width `tw` is allocated.
pub open spec fn slot_set3(s: Seq<u64>, tw: int, idx: int) -> bool {
    flat_bit(s, 1 + tw, idx)
}

/// Slot `idx` of a two-tier map is allocated.
pub open spec fn slot_set2(s: Seq<u64>, idx: int) -> bool {
    flat_bit(s, 1, idx)
}

/// Parent/child consistency of a two-tier map: bit `i` of the top word is
/// set exactly when mid word `i` is saturated.
pub open spec fn consistent2(s: Seq<u64>) -> bool {
    forall|i: int| 0 <= i < 64 ==> (#[trigger] flat_bit(s, 0, i) <==> child_full(s, i))
}

/// Parent/child consistency of a three-tier map with top width `tw`: a top
/// bit is set exactly when its mid word is saturated, and a mid bit is set
/// exactly when its leaf word is saturated.
pub open spec fn consistent3(s: Seq<u64>, tw: int) -> bool {
    &&& (forall|i: int| 0 <= i < tw ==> (#[trigger] flat_bit(s, 0, i) <==> child_full(s, i)))
    &&& (forall|g: int|
        0 <= g < tw * 64 ==> (#[trigger] flat_bit(s, 1, g) <==> leaf_full(s, tw, g)))
}

/// Or-ing a single-bit mask into one word of `s` sets exactly one bit of the
/// flat bit array based at `base`.
proof fn lemma_flat_set(s: Seq<u64>, base: int, q: int, b: u64)
    requires
        0 <= base,
        0 <= q,
        b < 64,
        base + q < s.len(),
    ensures
        forall|k: int|
            0 <= k && base + k / 64 < s.len() ==> #[trigger] flat_bit(
                s.update(base + q, (s[base + q] | (1u64 << b))),
                base,
                k,
            ) == (flat_bit(s, base, k) || k == q * 64 + b),
{
    let t = s.update(base + q, (s[base + q] | (1u64 << b)));
    lemma_set_bit(s[base + q], b);
    assert forall|k: int| 0 <= k && base + k / 64 < s.len() implies #[trigger] flat_bit(
        t,
        base,
        k,
    ) == (flat_bit(s, base, k) || k == q * 64 + b) by {
        let kw = k / 64;
        let kb = k % 64;
        if kw == q {
            assert(t[base + kw] == s[base + q] | (1u64 << b));
            assert(bit_at(t[base + kw], kb as u64) == (bit_at(s[base + kw], kb as u64) || kb
                as u64 == b));
        } else {
            assert(t[base + kw] == s[base + kw]);
        }
    }
}

/// And-ing a complemented single-bit mask into one word of `s` clears exactly
/// one bit of the flat bit array based at `base`.
proof fn lemma_flat_clear(s: Seq<u64>, base: int, q: int, b: u64)
    requires
        0 <= base,
        0 <= q,
        b < 64,
        base + q < s.len(),
    ensures
        forall|k: int|
            0 <= k && base + k / 64 < s.len() ==> #[trigger] flat_bit(
                s.update(base + q, (s[base + q] & !(1u64 << b))),
                base,
                k,
            ) == (flat_bit(s, base, k) && k != q * 64 + b),
{
    let t = s.update(base + q, (s[base + q] & !(1u64 << b)));
    lemma_clear_bit(s[base + q], b);
    assert forall|k: int| 0 <= k && base + k / 64 < s.len() implies #[trigger] flat_bit(
        t,
        base,
        k,
    ) == (flat_bit(s, base, k) && k != q * 64 + b) by {
        let kw = k / 64;
        let kb = k % 64;
        if kw == q {
            assert(t[base + kw] == s[base + q] & !(1u64 << b));
            assert(bit_at(t[base + kw], kb as u64) == (bit_at(s[base + kw], kb as u64) && kb
                as u64 != b));
        } else {
            assert(t[base + kw] == s[base + kw]);
        }
    }
}

/// What a successful three-tier allocation does: `idx` was the lowest free
/// slot, it is now allocated, and nothing else changed.
pub open spec fn alloc3_ok(pre: Seq<u64>, post: Seq<u64>, tw: int, idx: int) -> bool {
    &&& 0 <= idx < tw * 4096
    &&& !slot_set3(pre, tw, idx)
    &&& (forall|k: int| 0 <= k < idx ==> slot_set3(pre, tw, k))
    &&& (forall|k: int|
        0 <= k < tw * 4096 ==> slot_set3(post, tw, k) == (slot_set3(pre, tw, k) || k == idx))
    &&& (tw < 64 ==> post[0] >> (tw as u64) == pre[0] >> (tw as u64))
    &&& (forall|w: int| 1 + tw + tw * 64 <= w < pre.len() ==> post[w] == pre[w])
}

/// Allocate the lowest free slot of a three-tier map with top width `tw`.
pub(crate) fn alloc3(words: &mut Vec<u64>, tw: usize) -> (r: Result<usize, MemoryMapError>)
    requires
        tw == 4 || tw == 64,
        old(words).len() >= 1 + tw + tw * 64,
        consistent3(old(words)@, tw as int),
    ensures
        final(words).len() == old(words).len(),
        consistent3(final(words)@, tw as int),
        match r {
            Ok(idx) => alloc3_ok(old(words)@, final(words)@, tw as int, idx as int),
            Err(e) => {
                &&& e == MemoryMapError::NoAvailableSlots
                &&& final(words)@ == old(words)@
                &&& (forall|k: int| 0 <= k < tw * 4096 ==> slot_set3(old(words)@, tw as int, k))
            },
        },
{
    let ghost s0 = words@;
    let ghost itw = tw as int;
    let first_word: u64 = words[0];
    let first = match get_first_zero_bit(first_word, tw) {
        Ok(f) => f,
        Err(e) => {
            proof {
                assert forall|k: int| 0 <= k < itw * 4096 implies slot_set3(s0, itw, k) by {
                    let g = k / 64;
                    let i = g / 64;
                    lemma_div_denominator(k, 64, 64);
                    assert(i == k / 4096);
                    assert(0 <= i < itw);
                    assert(bit_at(s0[0], i as u64));
                    assert(flat_bit(s0, 0, i));
                    assert(child_full(s0, i));
                    lemma_word_full(s0[1 + i]);
                    assert(0 <= g < itw * 64);
                    assert(bit_at(s0[1 + g / 64], (g % 64) as u64));
                    assert(flat_bit(s0, 1, g));
                    assert(leaf_full(s0, itw, g));
                    lemma_word_full(s0[1 + itw + g]);
                    assert(bit_at(s0[1 + itw + k / 64], (k % 64) as u64));
                }
            }
            return Err(e);
        },
    };
    let second_idx = 1 + first;
    let second_word: u64 = words[second_idx];
    let second = match get_first_zero_bit(second_word, 64) {
        Ok(x) => x,
        Err(e) => {
            proof {
                lemma_word_full(second_word);
                assert(child_full(s0, first as int));
                assert(flat_bit(s0, 0, first as int));
                assert(false);
            }
            return Err(e);
        },
    };
    let ghost g = first as int * 64 + second as int;
    let third_idx = 1 + tw + first * 64 + second;
    let third_word: u64 = words[third_idx];
    let third = match get_first_zero_bit(third_word, 64) {
        Ok(x) => x,
        Err(e) => {
            proof {
                lemma_word_full(third_word);
                assert(leaf_full(s0, itw, g));
                assert(g / 64 == first as int && g % 64 == second as int);
                assert(flat_bit(s0, 1, g));
                assert(bit_at(s0[1 + first as int], second as u64));
                assert(false);
            }
            return Err(e);
        },
    };
    let ghost idx = g * 64 + third as int;

    // Mark the slot in its leaf word.
    let new_third = third_word | (1u64 << third);
    words[third_idx] = new_third;
    let ghost s1 = words@;
    proof {
        lemma_flat_set(s0, 1 + itw, g, third as u64);
        assert(idx / 64 == g && idx % 64 == third as int);
        lemma_word_full(third_word);
    }

    if new_third == u64::MAX {
        // The leaf word saturated: mark its group in the mid tier.
        let new_second = words[second_idx] | (1u64 << second);
        words[second_idx] = new_second;
        let ghost s2 = words@;
        proof {
            lemma_flat_set(s1, 1, g, second as u64);
            lemma_word_full(second_word);
        }
        if new_second == u64::MAX {
            // The mid word saturated too: mark it in the top word.
            let new_first = words[0] | (1u64 << first);
            words[0] = new_first;
            proof {
                lemma_flat_set(s2, 0, 0, first as u64);
                lemma_set_bit(s2[0], first as u64);
            }
        }
    }

    proof {
        let sf = words@;
        lemma_alloc3_post(s0, s1, sf, itw, first as int, second as int, third as int);
        assert(all_set_below(first_word, first as u64));
        assert(all_set_below(second_word, second as u64));
        assert(all_set_below(third_word, third as u64));
        lemma_alloc3_min(s0, itw, first as int, second as int, third as int);
    }
    Ok(first * 4096 + second * 64 + third)
}

/// Everything below the chosen slot was already allocated: the three scans
/// each returned the first clear bit of their word.
proof fn lemma_alloc3_min(s0: Seq<u64>, tw: int, first: int, second: int, third: int)
    requires
        tw == 4 || tw == 64,
        s0.len() >= 1 + tw + tw * 64,
        consistent3(s0, tw),
        0 <= first < tw,
        0 <= second < 64,
        0 <= third < 64,
        all_set_below(s0[0], first as u64),
        all_set_below(s0[1 + first], second as u64),
        all_set_below(s0[1 + tw + first * 64 + second], third as u64),
    ensures
        forall|k: int|
            0 <= k < (first * 64 + second) * 64 + third ==> #[trigger] slot_set3(s0, tw, k),
{
    let g = first * 64 + second;
    let idx = g * 64 + third;
    assert forall|k: int| 0 <= k < idx implies #[trigger] slot_set3(s0, tw, k) by {
        let kg = k / 64;
        let kb = k % 64;
        assert(k == 64 * kg + kb);
        if kg == g {
            assert(kb < third);
            assert(bit_at(s0[1 + tw + first * 64 + second], kb as u64));
        } else {
            assert(0 <= kg < g);
            // The whole leaf group `kg` is saturated.
            let ki = kg / 64;
            let kj = kg % 64;
            assert(kg == 64 * ki + kj);
            if ki == first {
                assert(kj < second);
                assert(bit_at(s0[1 + first], kj as u64));
                assert(flat_bit(s0, 1, kg));
            } else {
                assert(0 <= ki < first);
                assert(bit_at(s0[0], ki as u64));
                assert(flat_bit(s0, 0, ki));
                assert(child_full(s0, ki));
                lemma_word_full(s0[1 + ki]);
                assert(bit_at(s0[1 + ki], kj as u64));
                assert(flat_bit(s0, 1, kg));
            }
            assert(0 <= kg < tw * 64);
            assert(leaf_full(s0, tw, kg));
            lemma_word_full(s0[1 + tw + kg]);
            assert(bit_at(s0[1 + tw + kg], kb as u64));
        }
    }
}

/// After the leaf update and the conditional parent updates, the map is
/// consistent again, the slot array changed in exactly one position, and
/// the words the map does not own are untouched.
proof fn lemma_alloc3_post(
    s0: Seq<u64>,
    s1: Seq<u64>,
    sf: Seq<u64>,
    tw: int,
    first: int,
    second: int,
    third: int,
)
    requires
        tw == 4 || tw == 64,
        s0.len() >= 1 + tw + tw * 64,
        consistent3(s0, tw),
        0 <= first < tw,
        0 <= second < 64,
        0 <= third < 64,
        !bit_at(s0[0], first as u64),
        !bit_at(s0[1 + first], second as u64),
        !bit_at(s0[1 + tw + first * 64 + second], third as u64),
        s1 == s0.update(
            1 + tw + first * 64 + second,
            (s0[1 + tw + first * 64 + second] | (1u64 << third as u64)),
        ),
        sf == if s1[1 + tw + first * 64 + second] == u64::MAX {
            {
                let s2 = s1.update(1 + first, (s1[1 + first] | (1u64 << second as u64)));
                if s2[1 + first] == u64::MAX {
                    s2.update(0, (s2[0] | (1u64 << first as u64)))
                } else {
                    s2
                }
            }
        } else {
            s1
        },
    ensures
        sf.len() == s0.len(),
        consistent3(sf, tw),
        !slot_set3(s0, tw, (first * 64 + second) * 64 + third),
        forall|k: int|
            0 <= k < tw * 4096 ==> #[trigger] slot_set3(sf, tw, k) == (slot_set3(s0, tw, k) || k
                == (first * 64 + second) * 64 + third),
        tw < 64 ==> sf[0] >> (tw as u64) == s0[0] >> (tw as u64),
        forall|w: int| 1 + tw + tw * 64 <= w < s0.len() ==> sf[w] == s0[w],
{
    let g = first * 64 + second;
    let idx = g * 64 + third;
    let leaf_w = 1 + tw + g;
    let mid_w = 1 + first;
    let old_leaf = s0[leaf_w];
    let new_leaf = (old_leaf | (1u64 << third as u64));
    let old_mid = s0[mid_w];
    let new_mid = (old_mid | (1u64 << second as u64));
    let old_top = s0[0];
    let new_top = (old_top | (1u64 << first as u64));

    lemma_set_bit(old_leaf, third as u64);
    lemma_set_bit(old_mid, second as u64);
    lemma_set_bit(old_top, first as u64);
    lemma_word_full(old_leaf);
    lemma_word_full(new_leaf);
    lemma_word_full(old_mid);
    lemma_word_full(new_mid);

    assert(idx / 64 == g && idx % 64 == third);
    assert(g / 64 == first && g % 64 == second);
    assert(!slot_set3(s0, tw, idx));

    // Slot-level change: only the leaf update touches leaf words.
    lemma_flat_set(s0, 1 + tw, g, third as u64);
    assert forall|k: int| 0 <= k < tw * 4096 implies #[trigger] slot_set3(sf, tw, k) == (slot_set3(
        s0,
        tw,
        k,
    ) || k == idx) by {
        assert(0 <= k / 64 < tw * 64);
        assert(1 + tw + k / 64 < s0.len());
        assert(sf[1 + tw + k / 64] == s1[1 + tw + k / 64]);
        assert(flat_bit(s1, 1 + tw, k) == (flat_bit(s0, 1 + tw, k) || k == idx));
        assert(flat_bit(sf, 1 + tw, k) == flat_bit(s1, 1 + tw, k));
    }

    // Consistency of the mid tier against the leaf tier.
    assert forall|g2: int| 0 <= g2 < tw * 64 implies (#[trigger] flat_bit(sf, 1, g2) <==> leaf_full(
        sf,
        tw,
        g2,
    )) by {
        assert(0 <= g2 / 64 < tw);
        if g2 == g {
            if new_leaf == u64::MAX {
                assert(sf[mid_w] == new_mid || sf[mid_w] == new_mid);
                assert(bit_at(sf[mid_w], second as u64));
                assert(flat_bit(sf, 1, g2));
                assert(sf[leaf_w] == new_leaf);
            } else {
                assert(sf == s1);
                assert(sf[mid_w] == old_mid);
                assert(!bit_at(old_mid, second as u64));
                assert(!flat_bit(sf, 1, g2));
                assert(sf[leaf_w] == new_leaf);
                assert(!leaf_full(sf, tw, g2));
            }
        } else {
            // Another group: its mid bit and its leaf word are untouched.
            assert(sf[1 + tw + g2] == s0[1 + tw + g2]);
            let q = g2 / 64;
            let b = g2 % 64;
            if q == first {
                assert(b != second);
                assert(sf[1 + q] == old_mid || sf[1 + q] == new_mid);
                assert(bit_at(sf[1 + q], b as u64) == bit_at(old_mid, b as u64));
                assert(flat_bit(sf, 1, g2) == flat_bit(s0, 1, g2));
            } else {
                assert(sf[1 + q] == s0[1 + q]);
                assert(flat_bit(sf, 1, g2) == flat_bit(s0, 1, g2));
            }
            assert(flat_bit(s0, 1, g2) <==> leaf_full(s0, tw, g2));
        }
    }

    // Consistency of the top word against the mid tier.
    assert forall|i: int| 0 <= i < tw implies (#[trigger] flat_bit(sf, 0, i) <==> child_full(
        sf,
        i,
    )) by {
        assert(i / 64 == 0 && i % 64 == i);
        if i == first {
            if new_leaf == u64::MAX && new_mid == u64::MAX {
                assert(sf[0] == new_top);
                assert(bit_at(sf[0], first as u64));
                assert(sf[mid_w] == new_mid);
            } else if new_leaf == u64::MAX {
                assert(sf[0] == old_top);
                assert(!bit_at(sf[0], first as u64));
                assert(sf[mid_w] == new_mid);
                assert(!child_full(sf, i));
            } else {
                assert(sf == s1);
                assert(sf[0] == old_top);
                assert(!bit_at(sf[0], first as u64));
                assert(sf[mid_w] == old_mid);
                assert(!bit_at(old_mid, second as u64));
                assert(!child_full(sf, i));
            }
        } else {
            assert(sf[1 + i] == s0[1 + i]);
            assert(bit_at(sf[0], i as u64) == bit_at(old_top, i as u64));
            assert(flat_bit(sf, 0, i) == flat_bit(s0, 0, i));
            assert(flat_bit(s0, 0, i) <==> child_full(s0, i));
        }
    }

    // Bits of the top word at and above `tw` are untouched.
    if tw < 64 {
        lemma_set_bit_keeps_high(old_top, first as u64, tw as u64);
        assert(sf[0] == old_top || sf[0] == new_top);
    }
}

/// What a successful three-tier deallocation does: slot `idx` is free, every
/// other slot is as it was, and the words the map does not own are untouched.
pub open spec fn dealloc3_ok(pre: Seq<u64>, post: Seq<u64>, tw: int, idx: int) -> bool {
    &&& (forall|k: int|
        0 <= k < tw * 4096 ==> #[trigger] slot_set3(post, tw, k) == (slot_set3(pre, tw, k) && k
            != idx))
    &&& (tw < 64 ==> post[0] >> (tw as u64) == pre[0] >> (tw as u64))
    &&& (forall|w: int| 1 + tw + tw * 64 <= w < pre.len() ==> post[w] == pre[w])
    &&& (consistent3(pre, tw) ==> consistent3(post, tw))
    &&& ((consistent3(pre, tw) && !slot_set3(pre, tw, idx)) ==> post == pre)
}

/// Free slot `index` of a three-tier map with top width `tw`, clearing its
/// leaf bit and, unconditionally, the parent bits above it.
pub(crate) fn dealloc3(words: &mut Vec<u64>, tw: usize, index: usize) -> (r: Result<
    (),
    MemoryMapError,
>)
    requires
        tw == 4 || tw == 64,
        old(words).len() >= 1 + tw + tw * 64,
    ensures
        final(words).len() == old(words).len(),
        match r {
            Ok(()) => index < tw * 4096 && dealloc3_ok(
                old(words)@,
                final(words)@,
                tw as int,
                index as int,
            ),
            Err(e) => {
                &&& e == MemoryMapError::InvalidIndex
                &&& index >= tw * 4096
                &&& final(words)@ == old(words)@
            },
        },
{
    let max_index = tw * 4096 - 1;
    if index > max_index {
        return Err(MemoryMapError::InvalidIndex);
    }
    let ghost s0 = words@;
    let ghost itw = tw as int;

    let first = index / 4096;
    let second = (index / 64) % 64;
    let second_idx = 1 + first;
    let third_idx = 1 + tw + index / 64;
    proof {
        lemma_div_denominator(index as int, 64, 64);
        assert(index as int / 64 / 64 == first as int);
        assert(0 <= index as int / 64 < itw * 64);
        assert(first < tw);
    }
    let ghost g = index as int / 64;

    // Clear the slot's bit in its leaf word.
    let new_third = words[third_idx] & !(1u64 << (index % 64));
    words[third_idx] = new_third;
    let ghost s1 = words@;

    // A freed slot makes its group non-saturated: clear the mid bit.
    let new_second = words[second_idx] & !(1u64 << second);
    words[second_idx] = new_second;
    let ghost s2 = words@;

    // And the group's tier is no longer saturated either: clear the top bit.
    let new_first = words[0] & !(1u64 << first);
    words[0] = new_first;

    proof {
        lemma_dealloc3_post(s0, itw, first as int, second as int, index as int);
    }
    Ok(())
}

/// Clearing the leaf bit of `index` and both parent bits above it yields
/// exactly the deallocated state, keeps consistency, and does nothing at all
/// when the slot was already free in a consistent map.
proof fn lemma_dealloc3_post(s0: Seq<u64>, tw: int, first: int, second: int, index: int)
    requires
        tw == 4 || tw == 64,
        s0.len() >= 1 + tw + tw * 64,
        0 <= index < tw * 4096,
        first == index / 4096,
        second == (index / 64) % 64,
    ensures
        ({
            let g = index / 64;
            let s1 = s0.update(1 + tw + g, (s0[1 + tw + g] & !(1u64 << (index % 64) as u64)));
            let s2 = s1.update(1 + first, (s1[1 + first] & !(1u64 << second as u64)));
            let sf = s2.update(0, (s2[0] & !(1u64 << first as u64)));
            dealloc3_ok(s0, sf, tw, index)
        }),
{
    let g = index / 64;
    let b = index % 64;
    let s1 = s0.update(1 + tw + g, (s0[1 + tw + g] & !(1u64 << b as u64)));
    let s2 = s1.update(1 + first, (s1[1 + first] & !(1u64 << second as u64)));
    let sf = s2.update(0, (s2[0] & !(1u64 << first as u64)));
    let mid_w = 1 + first;
    let leaf_w = 1 + tw + g;

    lemma_div_denominator(index, 64, 64);
    assert(g / 64 == first && g % 64 == second);
    assert(0 <= g < tw * 64);
    assert(0 <= first < tw);

    let old_leaf = s0[leaf_w];
    let new_leaf = (old_leaf & !(1u64 << b as u64));
    let old_mid = s0[mid_w];
    let new_mid = (old_mid & !(1u64 << second as u64));
    let old_top = s0[0];
    let new_top = (old_top & !(1u64 << first as u64));

    lemma_clear_bit(old_leaf, b as u64);
    lemma_clear_bit(old_mid, second as u64);
    lemma_clear_bit(old_top, first as u64);
    lemma_word_full(old_leaf);
    lemma_word_full(new_leaf);
    lemma_word_full(old_mid);
    lemma_word_full(new_mid);

    // Slot-level change: only the leaf update touches leaf words.
    lemma_flat_clear(s0, 1 + tw, g, b as u64);
    assert forall|k: int| 0 <= k < tw * 4096 implies #[trigger] slot_set3(sf, tw, k) == (slot_set3(
        s0,
        tw,
        k,
    ) && k != index) by {
        assert(0 <= k / 64 < tw * 64);
        assert(sf[1 + tw + k / 64] == s1[1 + tw + k / 64]);
        assert(flat_bit(s1, 1 + tw, k) == (flat_bit(s0, 1 + tw, k) && k != g * 64 + b));
        assert(flat_bit(sf, 1 + tw, k) == flat_bit(s1, 1 + tw, k));
        assert(index == g * 64 + b);
    }

    // Bits of the top word at and above `tw` are untouched.
    if tw < 64 {
        lemma_clear_bit_keeps_high(old_top, first as u64, tw as u64);
        assert(sf[0] == new_top);
    }

    if consistent3(s0, tw) {
        // Mid tier against leaf tier.
        assert forall|g2: int| 0 <= g2 < tw * 64 implies (#[trigger] flat_bit(sf, 1, g2)
            <==> leaf_full(sf, tw, g2)) by {
            assert(0 <= g2 / 64 < tw);
            if g2 == g {
                assert(sf[mid_w] == new_mid);
                assert(!bit_at(new_mid, second as u64));
                assert(!flat_bit(sf, 1, g2));
                assert(sf[leaf_w] == new_leaf);
                assert(!bit_at(new_leaf, b as u64));
                assert(!leaf_full(sf, tw, g2));
            } else {
                assert(sf[1 + tw + g2] == s0[1 + tw + g2]);
                let q = g2 / 64;
                let bb = g2 % 64;
                if q == first {
                    assert(bb != second);
                    assert(sf[1 + q] == new_mid);
                    assert(bit_at(sf[1 + q], bb as u64) == bit_at(old_mid, bb as u64));
                } else {
                    assert(sf[1 + q] == s0[1 + q]);
                }
                assert(flat_bit(sf, 1, g2) == flat_bit(s0, 1, g2));
                assert(flat_bit(s0, 1, g2) <==> leaf_full(s0, tw, g2));
            }
        }
        // Top word against mid tier.
        assert forall|i: int| 0 <= i < tw implies (#[trigger] flat_bit(sf, 0, i) <==> child_full(
            sf,
            i,
        )) by {
            assert(i / 64 == 0 && i % 64 == i);
            if i == first {
                assert(sf[0] == new_top);
                assert(!bit_at(new_top, first as u64));
                assert(sf[mid_w] == new_mid);
                assert(!bit_at(new_mid, second as u64));
                assert(!child_full(sf, i));
            } else {
                assert(sf[1 + i] == s0[1 + i]);
                assert(bit_at(sf[0], i as u64) == bit_at(old_top, i as u64));
                assert(flat_bit(sf, 0, i) == flat_bit(s0, 0, i));
                assert(flat_bit(s0, 0, i) <==> child_full(s0, i));
            }
        }

        if !slot_set3(s0, tw, index) {
            // Freeing a free slot clears only bits that are already clear.
            assert(!bit_at(old_leaf, b as u64));
            lemma_clear_clear_bit(old_leaf, b as u64);
            assert(old_leaf != u64::MAX);
            assert(!leaf_full(s0, tw, g));
            assert(flat_bit(s0, 1, g) <==> leaf_full(s0, tw, g));
            assert(!bit_at(old_mid, second as u64));
            lemma_clear_clear_bit(old_mid, second as u64);
            assert(old_mid != u64::MAX);
            assert(!child_full(s0, first));
            assert(flat_bit(s0, 0, first) <==> child_full(s0, first));
            assert(!bit_at(old_top, first as u64));
            lemma_clear_clear_bit(old_top, first as u64);
            assert(sf =~= s0);
        }
    }
}

/// What a successful two-tier allocation does: `idx` was the lowest free
/// slot, it is now allocated, and nothing else changed.
pub open spec fn alloc2_ok(pre: Seq<u64>, post: Seq<u64>, idx: int) -> bool {
    &&& 0 <= idx < 4096
    &&& !slot_set2(pre, idx)
    &&& (forall|k: int| 0 <= k < idx ==> slot_set2(pre, k))
    &&& (forall|k: int| 0 <= k < 4096 ==> slot_set2(post, k) == (slot_set2(pre, k) || k == idx))
    &&& (forall|w: int| 65 <= w < pre.len() ==> post[w] == pre[w])
}

/// Allocate the lowest free slot of a two-tier map.
pub(crate) fn alloc2(words: &mut Vec<u64>) -> (r: Result<usize, MemoryMapError>)
    requires
        old(words).len() >= 65,
        consistent2(old(words)@),
    ensures
        final(words).len() == old(words).len(),
        consistent2(final(words)@),
        match r {
            Ok(idx) => alloc2_ok(old(words)@, final(words)@, idx as int),
            Err(e) => {
                &&& e == MemoryMapError::NoAvailableSlots
                &&& final(words)@ == old(words)@
                &&& (forall|k: int| 0 <= k < 4096 ==> slot_set2(old(words)@, k))
            },
        },
{
    let ghost s0 = words@;
    let first_word: u64 = words[0];
    let first = match get_first_zero_bit(first_word, 64) {
        Ok(f) => f,
        Err(e) => {
            proof {
                assert forall|k: int| 0 <= k < 4096 implies slot_set2(s0, k) by {
                    let i = k / 64;
                    assert(0 <= i < 64);
                    assert(bit_at(s0[0], i as u64));
                    assert(i % 64 == i);
                    assert(flat_bit(s0, 0, i));
                    assert(child_full(s0, i));
                    lemma_word_full(s0[1 + i]);
                    assert(bit_at(s0[1 + k / 64], (k % 64) as u64));
                }
            }
            return Err(e);
        },
    };
    let second_idx = 1 + first;
    let second_word: u64 = words[second_idx];
    let second = match get_first_zero_bit(second_word, 64) {
        Ok(x) => x,
        Err(e) => {
            proof {
                lemma_word_full(second_word);
                assert(child_full(s0, first as int));
                assert(first as int % 64 == first as int);
                assert(flat_bit(s0, 0, first as int));
                assert(false);
            }
            return Err(e);
        },
    };
    let ghost idx = first as int * 64 + second as int;

    // Mark the slot in its mid word.
    let new_second = second_word | (1u64 << second);
    words[second_idx] = new_second;
    let ghost s1 = words@;

    if new_second == u64::MAX {
        // The mid word saturated: mark it in the top word.
        let new_first = words[0] | (1u64 << first);
        words[0] = new_first;
    }

    proof {
        let sf = words@;
        lemma_alloc2_post(s0, s1, sf, first as int, second as int);
        lemma_alloc2_min(s0, first as int, second as int);
    }
    Ok(first * 64 + second)
}

/// Everything below the chosen slot was already allocated: the two scans
/// each returned the first clear bit of their word.
proof fn lemma_alloc2_min(s0: Seq<u64>, first: int, second: int)
    requires
        s0.len() >= 65,
        consistent2(s0),
        0 <= first < 64,
        0 <= second < 64,
        all_set_below(s0[0], first as u64),
        all_set_below(s0[1 + first], second as u64),
    ensures
        forall|k: int| 0 <= k < first * 64 + second ==> #[trigger] slot_set2(s0, k),
{
    let idx = first * 64 + second;
    assert forall|k: int| 0 <= k < idx implies #[trigger] slot_set2(s0, k) by {
        let ki = k / 64;
        let kb = k % 64;
        assert(k == 64 * ki + kb);
        if ki == first {
            assert(kb < second);
            assert(bit_at(s0[1 + first], kb as u64));
        } else {
            assert(0 <= ki < first);
            assert(bit_at(s0[0], ki as u64));
            assert(ki % 64 == ki);
            assert(flat_bit(s0, 0, ki));
            assert(child_full(s0, ki));
            lemma_word_full(s0[1 + ki]);
            assert(bit_at(s0[1 + ki], kb as u64));
        }
    }
}

/// After the mid update and the conditional top update, the map is
/// consistent again, the slot array changed in exactly one position, and
/// the words the map does not own are untouched.
proof fn lemma_alloc2_post(s0: Seq<u64>, s1: Seq<u64>, sf: Seq<u64>, first: int, second: int)
    requires
        s0.len() >= 65,
        consistent2(s0),
        0 <= first < 64,
        0 <= second < 64,
        !bit_at(s0[0], first as u64),
        !bit_at(s0[1 + first], second as u64),
        s1 == s0.update(1 + first, (s0[1 + first] | (1u64 << second as u64))),
        sf == if s1[1 + first] == u64::MAX {
            s1.update(0, (s1[0] | (1u64 << first as u64)))
        } else {
            s1
        },
    ensures
        sf.len() == s0.len(),
        consistent2(sf),
        !slot_set2(s0, first * 64 + second),
        forall|k: int|
            0 <= k < 4096 ==> #[trigger] slot_set2(sf, k) == (slot_set2(s0, k) || k == first * 64
                + second),
        forall|w: int| 65 <= w < s0.len() ==> sf[w] == s0[w],
{
    let idx = first * 64 + second;
    let mid_w = 1 + first;
    let old_mid = s0[mid_w];
    let new_mid = (old_mid | (1u64 << second as u64));
    let old_top = s0[0];
    let new_top = (old_top | (1u64 << first as u64));

    lemma_set_bit(old_mid, second as u64);
    lemma_set_bit(old_top, first as u64);
    lemma_word_full(old_mid);
    lemma_word_full(new_mid);

    assert(idx / 64 == first && idx % 64 == second);
    assert(!slot_set2(s0, idx));

    // Slot-level change: only the mid update touches mid words.
    lemma_flat_set(s0, 1, idx / 64, second as u64);
    assert forall|k: int| 0 <= k < 4096 implies #[trigger] slot_set2(sf, k) == (slot_set2(s0, k)
        || k == idx) by {
        assert(0 <= k / 64 < 64);
        assert(1 + k / 64 < s0.len());
        assert(sf[1 + k / 64] == s1[1 + k / 64]);
        assert(flat_bit(s1, 1, k) == (flat_bit(s0, 1, k) || k == idx));
        assert(flat_bit(sf, 1, k) == flat_bit(s1, 1, k));
    }

    // Consistency of the top word against the mid tier.
    assert forall|i: int| 0 <= i < 64 implies (#[trigger] flat_bit(sf, 0, i) <==> child_full(
        sf,
        i,
    )) by {
        assert(i / 64 == 0 && i % 64 == i);
        if i == first {
            if new_mid == u64::MAX {
                assert(sf[0] == new_top);
                assert(bit_at(sf[0], first as u64));
                assert(sf[mid_w] == new_mid);
            } else {
                assert(sf == s1);
                assert(sf[0] == old_top);
                assert(!bit_at(sf[0], first as u64));
                assert(sf[mid_w] == new_mid);
                assert(!child_full(sf, i));
            }
        } else {
            assert(sf[1 + i] == s0[1 + i]);
            assert(bit_at(sf[0], i as u64) == bit_at(old_top, i as u64));
            assert(flat_bit(sf, 0, i) == flat_bit(s0, 0, i));
            assert(flat_bit(s0, 0, i) <==> child_full(s0, i));
        }
    }
}

/// What a successful two-tier deallocation does: slot `idx` is free, every
/// other slot is as it was, and the words the map does not own are untouched.
pub open spec fn dealloc2_ok(pre: Seq<u64>, post: Seq<u64>, idx: int) -> bool {
    &&& (forall|k: int|
        0 <= k < 4096 ==> #[trigger] slot_set2(post, k) == (slot_set2(pre, k) && k != idx))
    &&& (forall|w: int| 65 <= w < pre.len() ==> post[w] == pre[w])
    &&& (consistent2(pre) ==> consistent2(post))
    &&& ((consistent2(pre) && !slot_set2(pre, idx)) ==> post == pre)
}

/// Free slot `index` of a two-tier map, clearing its mid bit and,
/// unconditionally, the top bit above it.
pub(crate) fn dealloc2(words: &mut Vec<u64>, index: usize) -> (r: Result<(), MemoryMapError>)
    requires
        old(words).len() >= 65,
    ensures
        final(words).len() == old(words).len(),
        match r {
            Ok(()) => index < 4096 && dealloc2_ok(old(words)@, final(words)@, index as int),
            Err(e) => {
                &&& e == MemoryMapError::InvalidIndex
                &&& index >= 4096
                &&& final(words)@ == old(words)@
            },
        },
{
    let max_index = 4096 - 1;
    if index > max_index {
        return Err(MemoryMapError::InvalidIndex);
    }
    let ghost s0 = words@;

    let first = index / 64;
    let second_idx = 1 + first;

    // Clear the slot's bit in its mid word.
    let new_second = words[second_idx] & !(1u64 << (index % 64));
    words[second_idx] = new_second;

    // A freed slot makes its word non-saturated: clear the top bit.
    let new_first = words[0] & !(1u64 << first);
    words[0] = new_first;

    proof {
        lemma_dealloc2_post(s0, first as int, index as int);
    }
    Ok(())
}

/// Clearing the mid bit of `index` and the top bit above it yields exactly
/// the deallocated state, keeps consistency, and does nothing at all when
/// the slot was already free in a consistent map.
proof fn lemma_dealloc2_post(s0: Seq<u64>, first: int, index: int)
    requires
        s0.len() >= 65,
        0 <= index < 4096,
        first == index / 64,
    ensures
        ({
            let s1 = s0.update(1 + first, (s0[1 + first] & !(1u64 << (index % 64) as u64)));
            let sf = s1.update(0, (s1[0] & !(1u64 << first as u64)));
            dealloc2_ok(s0, sf, index)
        }),
{
    let b = index % 64;
    let s1 = s0.update(1 + first, (s0[1 + first] & !(1u64 << b as u64)));
    let sf = s1.update(0, (s1[0] & !(1u64 << first as u64)));
    let mid_w = 1 + first;

    assert(0 <= first < 64);

    let old_mid = s0[mid_w];
    let new_mid = (old_mid & !(1u64 << b as u64));
    let old_top = s0[0];
    let new_top = (old_top & !(1u64 << first as u64));

    lemma_clear_bit(old_mid, b as u64);
    lemma_clear_bit(old_top, first as u64);
    lemma_word_full(old_mid);
    lemma_word_full(new_mid);

    // Slot-level change: only the mid update touches mid words.
    lemma_flat_clear(s0, 1, first, b as u64);
    assert forall|k: int| 0 <= k < 4096 implies #[trigger] slot_set2(sf, k) == (slot_set2(s0, k)
        && k != index) by {
        assert(0 <= k / 64 < 64);
        assert(sf[1 + k / 64] == s1[1 + k / 64]);
        assert(flat_bit(s1, 1, k) == (flat_bit(s0, 1, k) && k != first * 64 + b));
        assert(flat_bit(sf, 1, k) == flat_bit(s1, 1, k));
        assert(index == first * 64 + b);
    }

    if consistent2(s0) {
        // Top word against mid tier.
        assert forall|i: int| 0 <= i < 64 implies (#[trigger] flat_bit(sf, 0, i) <==> child_full(
            sf,
            i,
        )) by {
            assert(i / 64 == 0 && i % 64 == i);
            if i == first {
                assert(sf[0] == new_top);
                assert(!bit_at(new_top, first as u64));
                assert(sf[mid_w] == new_mid);
                assert(!bit_at(new_mid, b as u64));
                assert(!child_full(sf, i));
            } else {
                assert(sf[1 + i] == s0[1 + i]);
                assert(bit_at(sf[0], i as u64) == bit_at(old_top, i as u64));
                assert(flat_bit(sf, 0, i) == flat_bit(s0, 0, i));
                assert(flat_bit(s0, 0, i) <==> child_full(s0, i));
            }
        }

        if !slot_set2(s0, index) {
            // Freeing a free slot clears only bits that are already clear.
            assert(first % 64 == first);
            assert(!bit_at(old_mid, b as u64));
            lemma_clear_clear_bit(old_mid, b as u64);
            assert(old_mid != u64::MAX);
            assert(!child_full(s0, first));
            assert(flat_bit(s0, 0, first) <==> child_full(s0, first));
            assert(!bit_at(old_top, first as u64));
            lemma_clear_clear_bit(old_top, first as u64);
            assert(sf =~= s0);
        }
    }
}

} // verus!

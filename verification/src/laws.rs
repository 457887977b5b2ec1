//! Library-wide laws: public proof functions that state how the allocator
//! behaves across calls, over the same spec functions its contracts use.

use crate::bits::{bit_at, lemma_high_bits_clear, lemma_word_zero, lemma_zero_shift};
use crate::max_memory_map::{MAX_MAP_CAPACITY, MAX_MAP_TOP_WIDTH, MAX_MAP_WORDS};
use crate::small_memory_map::SMALL_MAP_WORDS;
use crate::tiers::{child_full, consistent2, consistent3, flat_bit, leaf_full, slot_set2,
    slot_set3};
use crate::trade_memory_map::{STANDARD_MAP_CAPACITY, STANDARD_MAP_TOP_WIDTH, STANDARD_MAP_WORDS};
use crate::MemoryMap;
use vstd::bytes::{
    lemma_auto_spec_u64_to_from_le_bytes, spec_u64_from_le_bytes, spec_u64_to_le_bytes,
    spec_u64_to_le_bytes_to_open,
};
use vstd::prelude::*;

verus! {

/// Two slots that are both "the lowest free slot" of the same map are the
/// same slot.
pub proof fn lemma_first_free_unique(m: &MemoryMap, i: int, j: int)
    requires
        0 <= i < m.capacity_spec(),
        !m.slot_allocated(i),
        forall|k: int| 0 <= k < i ==> m.slot_allocated(k),
        0 <= j < m.capacity_spec(),
        !m.slot_allocated(j),
        forall|k: int| 0 <= k < j ==> m.slot_allocated(k),
    ensures
        i == j,
{
    if i < j {
        assert(m.slot_allocated(i));
    }
    if j < i {
        assert(m.slot_allocated(j));
    }
}

/// From a state in which exactly the slots below `n` are allocated — as
/// after `n` allocations from a zeroed region — the lowest free slot is `n`:
/// repeated allocation hands out 0, 1, 2, … with no gaps or repeats.
pub proof fn lemma_allocation_is_sequential(m: &MemoryMap, n: int, i: int)
    requires
        0 <= n < m.capacity_spec(),
        forall|k: int| 0 <= k < m.capacity_spec() ==> (#[trigger] m.slot_allocated(k) <==> k < n),
        0 <= i < m.capacity_spec(),
        !m.slot_allocated(i),
        forall|k: int| 0 <= k < i ==> m.slot_allocated(k),
    ensures
        i == n,
{
    assert(!m.slot_allocated(n));
    lemma_first_free_unique(m, i, n);
}

/// After freeing slot `i` in a map in which nothing below `i` was free, the
/// next allocation returns `i` again.
pub proof fn lemma_dealloc_then_alloc_reuses(pre: &MemoryMap, post: &MemoryMap, i: int, j: int)
    requires
        pre.capacity_spec() == post.capacity_spec(),
        0 <= i < pre.capacity_spec(),
        forall|k: int|
            0 <= k < pre.capacity_spec() ==> #[trigger] post.slot_allocated(k) == (
            pre.slot_allocated(k) && k != i),
        forall|k: int| 0 <= k < i ==> pre.slot_allocated(k),
        0 <= j < post.capacity_spec(),
        !post.slot_allocated(j),
        forall|k: int| 0 <= k < j ==> post.slot_allocated(k),
    ensures
        j == i,
{
    assert(!post.slot_allocated(i));
    assert forall|k: int| 0 <= k < i implies post.slot_allocated(k) by {
        assert(pre.slot_allocated(k));
    }
    lemma_first_free_unique(post, i, j);
}

/// An all-zero three-tier region is consistent and has every slot free.
proof fn lemma_zero3(s: Seq<u64>, tw: int)
    requires
        tw == 4 || tw == 64,
        s.len() >= 1 + tw + tw * 64,
        forall|w: int| 0 <= w < 1 + tw + tw * 64 ==> s[w] == 0,
    ensures
        consistent3(s, tw),
        forall|k: int| 0 <= k < tw * 4096 ==> !(#[trigger] slot_set3(s, tw, k)),
{
    lemma_word_zero(s[0]);
    assert forall|i: int| 0 <= i < tw implies (#[trigger] flat_bit(s, 0, i) <==> child_full(
        s,
        i,
    )) by {
        assert(i / 64 == 0 && i % 64 == i);
        assert(!bit_at(s[0], i as u64));
        assert(s[1 + i] == 0);
    }
    assert forall|g: int| 0 <= g < tw * 64 implies (#[trigger] flat_bit(s, 1, g) <==> leaf_full(
        s,
        tw,
        g,
    )) by {
        assert(0 <= g / 64 < tw);
        assert(s[1 + g / 64] == 0);
        lemma_word_zero(s[1 + g / 64]);
        assert(!bit_at(s[1 + g / 64], (g % 64) as u64));
        assert(s[1 + tw + g] == 0);
    }
    assert forall|k: int| 0 <= k < tw * 4096 implies !(#[trigger] slot_set3(s, tw, k)) by {
        assert(0 <= k / 64 < tw * 64);
        assert(s[1 + tw + k / 64] == 0);
        lemma_word_zero(s[1 + tw + k / 64]);
    }
}

/// An all-zero two-tier region is consistent and has every slot free.
proof fn lemma_zero2(s: Seq<u64>)
    requires
        s.len() >= SMALL_MAP_WORDS,
        forall|w: int| 0 <= w < SMALL_MAP_WORDS ==> s[w] == 0,
    ensures
        consistent2(s),
        forall|k: int| 0 <= k < 4096 ==> !(#[trigger] slot_set2(s, k)),
{
    lemma_word_zero(s[0]);
    assert forall|i: int| 0 <= i < 64 implies (#[trigger] flat_bit(s, 0, i) <==> child_full(
        s,
        i,
    )) by {
        assert(i / 64 == 0 && i % 64 == i);
        assert(!bit_at(s[0], i as u64));
        assert(s[1 + i] == 0);
    }
    assert forall|k: int| 0 <= k < 4096 implies !(#[trigger] slot_set2(s, k)) by {
        assert(0 <= k / 64 < 64);
        assert(s[1 + k / 64] == 0);
        lemma_word_zero(s[1 + k / 64]);
    }
}

/// A consistent three-tier region with every slot free, and with the top
/// word's spare bits clear, is all-zero.
proof fn lemma_empty3_zero(s: Seq<u64>, tw: int)
    requires
        tw == 4 || tw == 64,
        s.len() >= 1 + tw + tw * 64,
        consistent3(s, tw),
        forall|k: int| 0 <= k < tw * 4096 ==> !(#[trigger] slot_set3(s, tw, k)),
        tw < 64 ==> s[0] >> (tw as u64) == 0,
    ensures
        forall|w: int| 0 <= w < 1 + tw + tw * 64 ==> s[w] == 0,
{
    assert forall|v: int| 1 + tw <= v < 1 + tw + tw * 64 implies #[trigger] s[v] == 0 by {
        let g = v - 1 - tw;
        let w = s[v];
        assert forall|b: u64| b < 64 implies !(#[trigger] bit_at(w, b)) by {
            let k = g * 64 + b;
            assert(k / 64 == g && k % 64 == b as int);
            assert(0 <= k < tw * 4096);
            assert(!slot_set3(s, tw, k));
        }
        lemma_word_zero(w);
    }
    assert forall|v: int| 1 <= v < 1 + tw implies #[trigger] s[v] == 0 by {
        let i = v - 1;
        let w = s[v];
        assert forall|j: u64| j < 64 implies !(#[trigger] bit_at(w, j)) by {
            let g = i * 64 + j;
            assert(g / 64 == i && g % 64 == j as int);
            assert(0 <= g < tw * 64);
            assert(s[1 + tw + g] == 0);
            assert(!leaf_full(s, tw, g));
            assert(!flat_bit(s, 1, g));
        }
        lemma_word_zero(w);
    }
    let w0 = s[0];
    assert forall|j: u64| j < 64 implies !(#[trigger] bit_at(w0, j)) by {
        if (j as int) < tw {
            assert(s[1 + j as int] == 0);
            assert(!child_full(s, j as int));
            assert(j as int / 64 == 0 && j as int % 64 == j as int);
            assert(!flat_bit(s, 0, j as int));
        } else {
            lemma_high_bits_clear(s[0], tw as u64, j);
        }
    }
    lemma_word_zero(w0);
}

/// A consistent two-tier region with every slot free is all-zero.
proof fn lemma_empty2_zero(s: Seq<u64>)
    requires
        s.len() >= SMALL_MAP_WORDS,
        consistent2(s),
        forall|k: int| 0 <= k < 4096 ==> !(#[trigger] slot_set2(s, k)),
    ensures
        forall|w: int| 0 <= w < SMALL_MAP_WORDS ==> s[w] == 0,
{
    assert forall|v: int| 1 <= v < 65 implies #[trigger] s[v] == 0 by {
        let i = v - 1;
        let w = s[v];
        assert forall|b: u64| b < 64 implies !(#[trigger] bit_at(w, b)) by {
            let k = i * 64 + b;
            assert(k / 64 == i && k % 64 == b as int);
            assert(0 <= k < 4096);
            assert(!slot_set2(s, k));
        }
        lemma_word_zero(w);
    }
    let w0 = s[0];
    assert forall|j: u64| j < 64 implies !(#[trigger] bit_at(w0, j)) by {
        assert(s[1 + j as int] == 0);
        assert(!child_full(s, j as int));
        assert(j as int / 64 == 0 && j as int % 64 == j as int);
        assert(!flat_bit(s, 0, j as int));
    }
    lemma_word_zero(w0);
}

/// A map whose region words are all zero — as the host's zero-initialization
/// leaves them — is consistent, entirely free, and has clear spare top bits.
pub proof fn lemma_zeroed_map_is_empty(m: &MemoryMap)
    requires
        m.wf(),
        forall|w: int| 0 <= w < m.required_words() ==> m.words()[w] == 0,
    ensures
        m.consistent(),
        m.spare_top_clear(),
        forall|k: int| 0 <= k < m.capacity_spec() ==> !(#[trigger] m.slot_allocated(k)),
{
    match m {
        MemoryMap::Max(mm) => {
            assert forall|w: int| 0 <= w < MAX_MAP_WORDS implies mm@[w] == 0 by {
                assert(m.words()[w] == 0);
            }
            lemma_zero3(mm@, MAX_MAP_TOP_WIDTH as int);
            assert forall|k: int| 0 <= k < m.capacity_spec() implies !(#[trigger] m.slot_allocated(
                k,
            )) by {
                assert(!slot_set3(mm@, MAX_MAP_TOP_WIDTH as int, k));
            }
        },
        MemoryMap::Standard(mm) => {
            assert forall|w: int| 0 <= w < STANDARD_MAP_WORDS implies mm@[w] == 0 by {
                assert(m.words()[w] == 0);
            }
            lemma_zero3(mm@, STANDARD_MAP_TOP_WIDTH as int);
            lemma_zero_shift(STANDARD_MAP_TOP_WIDTH as u64);
            assert forall|k: int| 0 <= k < m.capacity_spec() implies !(#[trigger] m.slot_allocated(
                k,
            )) by {
                assert(!slot_set3(mm@, STANDARD_MAP_TOP_WIDTH as int, k));
            }
        },
        MemoryMap::Small(mm) => {
            assert forall|w: int| 0 <= w < SMALL_MAP_WORDS implies mm@[w] == 0 by {
                assert(m.words()[w] == 0);
            }
            lemma_zero2(mm@);
            assert forall|k: int| 0 <= k < m.capacity_spec() implies !(#[trigger] m.slot_allocated(
                k,
            )) by {
                assert(!slot_set2(mm@, k));
            }
        },
    }
}

/// Allocating some slots and then deallocating them all — in any order —
/// returns the bitmap to all-zero: a consistent map with no allocated slot
/// and clear spare top bits is word-for-word zero.
pub proof fn lemma_empty_map_is_zero(m: &MemoryMap)
    requires
        m.wf(),
        m.consistent(),
        m.spare_top_clear(),
        forall|k: int| 0 <= k < m.capacity_spec() ==> !(#[trigger] m.slot_allocated(k)),
    ensures
        forall|w: int| 0 <= w < m.required_words() ==> m.words()[w] == 0,
{
    match m {
        MemoryMap::Max(mm) => {
            assert forall|k: int| 0 <= k < MAX_MAP_CAPACITY implies !(#[trigger] slot_set3(
                mm@,
                MAX_MAP_TOP_WIDTH as int,
                k,
            )) by {
                assert(!m.slot_allocated(k));
            }
            lemma_empty3_zero(mm@, MAX_MAP_TOP_WIDTH as int);
            assert forall|w: int| 0 <= w < m.required_words() implies #[trigger] m.words()[w]
                == 0 by {
                assert(mm@[w] == 0);
            }
        },
        MemoryMap::Standard(mm) => {
            assert forall|k: int| 0 <= k < STANDARD_MAP_CAPACITY implies !(#[trigger] slot_set3(
                mm@,
                STANDARD_MAP_TOP_WIDTH as int,
                k,
            )) by {
                assert(!m.slot_allocated(k));
            }
            lemma_empty3_zero(mm@, STANDARD_MAP_TOP_WIDTH as int);
            assert forall|w: int| 0 <= w < m.required_words() implies #[trigger] m.words()[w]
                == 0 by {
                assert(mm@[w] == 0);
            }
        },
        MemoryMap::Small(mm) => {
            assert forall|k: int| 0 <= k < 4096 implies !(#[trigger] slot_set2(mm@, k)) by {
                assert(!m.slot_allocated(k));
            }
            lemma_empty2_zero(mm@);
            assert forall|w: int| 0 <= w < m.required_words() implies #[trigger] m.words()[w]
                == 0 by {
                assert(mm@[w] == 0);
            }
        },
    }
}

/// A word read from eight zero bytes is zero.
pub proof fn lemma_zero_bytes_zero_word(b: Seq<u8>)
    requires
        b.len() == 8,
        forall|i: int| 0 <= i < 8 ==> b[i] == 0,
    ensures
        spec_u64_from_le_bytes(b) == 0,
{
    lemma_auto_spec_u64_to_from_le_bytes();
    spec_u64_to_le_bytes_to_open(0);
    assert((0u64 & 0xff) == 0 && ((0u64 >> 8) & 0xff) == 0 && ((0u64 >> 16) & 0xff) == 0 && ((0u64
        >> 24) & 0xff) == 0 && ((0u64 >> 32) & 0xff) == 0 && ((0u64 >> 40) & 0xff) == 0 && ((0u64
        >> 48) & 0xff) == 0 && ((0u64 >> 56) & 0xff) == 0) by (bit_vector);
    assert(spec_u64_to_le_bytes(0) =~= b);
    assert(spec_u64_from_le_bytes(spec_u64_to_le_bytes(0)) == 0);
}

/// A map built over an all-zero byte region starts consistent and entirely
/// free, with clear spare top bits.
pub proof fn lemma_map_over_zero_bytes_is_empty(data: Seq<u8>, offset: int, m: &MemoryMap)
    requires
        m.wf(),
        0 <= offset <= data.len(),
        m.words().len() == (data.len() - offset) / 8,
        forall|i: int|
            0 <= i < m.words().len() ==> m.words()[i] == spec_u64_from_le_bytes(
                #[trigger] data.subrange(offset + 8 * i, offset + 8 * i + 8),
            ),
        forall|i: int| 0 <= i < data.len() ==> data[i] == 0,
    ensures
        m.consistent(),
        m.spare_top_clear(),
        forall|k: int| 0 <= k < m.capacity_spec() ==> !(#[trigger] m.slot_allocated(k)),
{
    let n = m.words().len() as int;
    assert forall|w: int| 0 <= w < m.required_words() implies m.words()[w] == 0 by {
        assert(8 * n <= data.len() - offset);
        assert(m.wf());
        assert(w < n);
        let sub = data.subrange(offset + 8 * w, offset + 8 * w + 8);
        assert(forall|i: int| 0 <= i < 8 ==> sub[i] == data[offset + 8 * w + i]);
        lemma_zero_bytes_zero_word(sub);
    }
    lemma_zeroed_map_is_empty(m);
}

} // verus!

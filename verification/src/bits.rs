//! Single-word bit reasoning: the spec-level meaning of a bit in a 64-bit
//! word, and the bit-vector facts the allocator proofs rest on.
//!
//! Quantified statements ("all bits below `n` are set") are bridged to
//! quantifier-free mask equations, which is what the bit-vector solver
//! works with.

use vstd::prelude::*;

verus! {

/// True iff bit `i` of `w` is set. Meaningful for `i < 64`.
pub open spec fn bit_at(w: u64, i: u64) -> bool {
    (w >> i) & 1u64 == 1u64
}

/// All bits of `w` strictly below `n` are set.
pub open spec fn all_set_below(w: u64, n: u64) -> bool {
    forall|k: u64| k < n ==> bit_at(w, k)
}

/// The mask selecting the bits strictly below `n`.
pub open spec fn low_mask(n: u64) -> u64 {
    if n >= 64 {
        0xffff_ffff_ffff_ffffu64
    } else {
        (((1u64 << n) - 1) as u64)
    }
}

/// Quantifier-free form of `all_set_below`.
pub open spec fn mask_set_below(w: u64, n: u64) -> bool {
    w & low_mask(n) == low_mask(n)
}

/// Testing a bit with a single-bit mask agrees with `bit_at`.
pub proof fn lemma_bit_mask_test(w: u64, j: u64)
    by (bit_vector)
    requires
        j < 64,
    ensures
        (w & (1u64 << j) == 0) <==> !bit_at(w, j),
{
}

/// Or-ing in a single-bit mask sets exactly that bit.
pub proof fn lemma_set_bit(w: u64, j: u64)
    by (bit_vector)
    requires
        j < 64,
    ensures
        forall|k: u64| k < 64 ==> #[trigger] bit_at(w | (1u64 << j), k) == (bit_at(w, k) || k == j),
{
}

/// And-ing with the complement of a single-bit mask clears exactly that bit.
pub proof fn lemma_clear_bit(w: u64, j: u64)
    by (bit_vector)
    requires
        j < 64,
    ensures
        forall|k: u64| k < 64 ==> #[trigger] bit_at(w & !(1u64 << j), k) == (bit_at(w, k) && k != j),
{
}

/// Clearing a bit that is already clear leaves the word unchanged.
pub proof fn lemma_clear_clear_bit(w: u64, j: u64)
    by (bit_vector)
    requires
        j < 64,
        !bit_at(w, j),
    ensures
        w & !(1u64 << j) == w,
{
}

proof fn lemma_mask_implies_bit(w: u64, n: u64, k: u64)
    by (bit_vector)
    requires
        k < n,
        n <= 64,
        mask_set_below(w, n),
    ensures
        bit_at(w, k),
{
}

proof fn lemma_mask_step(w: u64, j: u64)
    by (bit_vector)
    requires
        j < 64,
        mask_set_below(w, j),
        bit_at(w, j),
    ensures
        mask_set_below(w, (j + 1) as u64),
{
}

proof fn lemma_mask_base(w: u64)
    by (bit_vector)
    ensures
        mask_set_below(w, 0),
{
}

/// The mask equation gives the quantified statement.
pub proof fn lemma_all_set_from_mask(w: u64, n: u64)
    requires
        n <= 64,
        mask_set_below(w, n),
    ensures
        all_set_below(w, n),
{
    assert forall|k: u64| k < n implies bit_at(w, k) by {
        lemma_mask_implies_bit(w, n, k);
    }
}

/// The quantified statement gives the mask equation.
pub proof fn lemma_mask_from_all_set(w: u64, n: u64)
    requires
        n <= 64,
        all_set_below(w, n),
    ensures
        mask_set_below(w, n),
    decreases n,
{
    if n == 0 {
        lemma_mask_base(w);
    } else {
        let m = (n - 1) as u64;
        assert(all_set_below(w, m));
        lemma_mask_from_all_set(w, m);
        assert(bit_at(w, m));
        lemma_mask_step(w, m);
    }
}

proof fn lemma_max_mask(w: u64)
    by (bit_vector)
    ensures
        (w == 0xffff_ffff_ffff_ffffu64) <==> mask_set_below(w, 64),
{
}

/// A word equals `u64::MAX` exactly when all 64 of its bits are set.
pub proof fn lemma_word_full(w: u64)
    ensures
        (w == u64::MAX) <==> all_set_below(w, 64),
{
    lemma_max_mask(w);
    if w == u64::MAX {
        lemma_all_set_from_mask(w, 64);
    }
    if all_set_below(w, 64) {
        lemma_mask_from_all_set(w, 64);
    }
}

proof fn lemma_complement_bit(w: u64, k: u64)
    by (bit_vector)
    requires
        k < 64,
    ensures
        bit_at(!w, k) == !bit_at(w, k),
{
}

proof fn lemma_complement_max(w: u64)
    by (bit_vector)
    ensures
        (!w == 0xffff_ffff_ffff_ffffu64) <==> (w == 0u64),
{
}

/// A word equals zero exactly when none of its bits is set.
pub proof fn lemma_word_zero(w: u64)
    ensures
        (w == 0u64) <==> (forall|k: u64| k < 64 ==> !bit_at(w, k)),
{
    lemma_complement_max(w);
    lemma_word_full(!w);
    assert forall|k: u64| k < 64 implies #[trigger] bit_at(!w, k) == !bit_at(w, k) by {
        lemma_complement_bit(w, k);
    }
    if w == 0u64 {
        assert forall|k: u64| k < 64 implies !bit_at(w, k) by {
            assert(bit_at(!w, k));
        }
    }
    if forall|k: u64| k < 64 ==> !bit_at(w, k) {
        assert(all_set_below(!w, 64));
    }
}

/// Bits of `w >> 32` are the bits of `w` from position 32 up.
proof fn lemma_shift32_bit(w: u64, k: u64)
    by (bit_vector)
    requires
        k < 32,
    ensures
        bit_at(w >> 32u64, k) == bit_at(w, (k + 32) as u64),
{
}

proof fn lemma_chunk_mask_equations(w: u64)
    by (bit_vector)
    ensures
        (w & 0xffff_ffff == 0xffff_ffff) <==> mask_set_below(w, 32),
        (w & 0xffff == 0xffff) <==> mask_set_below(w, 16),
        (w & 0xffff_0000_0000 == 0xffff_0000_0000) <==> mask_set_below(w >> 32u64, 16),
{
}

/// Setting a bit below position `n` leaves the word's bits from `n` up alone.
pub proof fn lemma_set_bit_keeps_high(w: u64, j: u64, n: u64)
    by (bit_vector)
    requires
        j < n,
        n < 64,
    ensures
        (w | (1u64 << j)) >> n == w >> n,
{
}

/// Clearing a bit below position `n` leaves the word's bits from `n` up alone.
pub proof fn lemma_clear_bit_keeps_high(w: u64, j: u64, n: u64)
    by (bit_vector)
    requires
        j < n,
        n < 64,
    ensures
        (w & !(1u64 << j)) >> n == w >> n,
{
}

/// A word whose bits from `n` up vanish under a right shift has them clear.
pub proof fn lemma_high_bits_clear(w: u64, n: u64, k: u64)
    by (bit_vector)
    requires
        n <= k < 64,
        w >> n == 0,
    ensures
        !bit_at(w, k),
{
}

/// The zero word stays zero under a right shift.
pub proof fn lemma_zero_shift(n: u64)
    by (bit_vector)
    requires
        n < 64,
    ensures
        0u64 >> n == 0u64,
{
}

/// The chunk masks used by the scan kernel, read as ranges of set bits.
pub proof fn lemma_chunk_masks(w: u64)
    ensures
        (w & 0xffff_ffff == 0xffff_ffff) <==> all_set_below(w, 32),
        (w & 0xffff == 0xffff) <==> all_set_below(w, 16),
        (w & 0xffff_0000_0000 == 0xffff_0000_0000) <==> (forall|k: u64|
            32 <= k < 48 ==> #[trigger] bit_at(w, k)),
{
    lemma_chunk_mask_equations(w);
    if w & 0xffff_ffff == 0xffff_ffff {
        lemma_all_set_from_mask(w, 32);
    }
    if all_set_below(w, 32) {
        lemma_mask_from_all_set(w, 32);
    }
    if w & 0xffff == 0xffff {
        lemma_all_set_from_mask(w, 16);
    }
    if all_set_below(w, 16) {
        lemma_mask_from_all_set(w, 16);
    }
    if w & 0xffff_0000_0000 == 0xffff_0000_0000 {
        lemma_all_set_from_mask(w >> 32u64, 16);
        assert forall|k: u64| 32 <= k < 48 implies #[trigger] bit_at(w, k) by {
            lemma_shift32_bit(w, (k - 32) as u64);
            assert(bit_at(w >> 32u64, (k - 32) as u64));
        }
    }
    if forall|k: u64| 32 <= k < 48 ==> #[trigger] bit_at(w, k) {
        assert forall|k: u64| k < 16 implies bit_at(w >> 32u64, k) by {
            lemma_shift32_bit(w, k);
            assert(bit_at(w, (k + 32) as u64));
        }
        lemma_mask_from_all_set(w >> 32u64, 16);
    }
}

} // verus!
